//! Policy: the decisions the host makes before anything reaches the guest.
//!
//! * **No root exposure.** Transfers are confined to declared roots, with `..` resolved before the
//!   comparison.
//! * **No unvetted execution.** A request that asks for the allowlist is dispatched only if the
//!   program is on it.
//!
//! Every refusal is a [`Denial`], which the caller journals.
use crate::guest::paths;
use crate::ipc::{DenialReason, Denied, Grant, TransferDirection, Verb};
use crate::segments;
use crate::text;
use vstd::prelude::*;
use vstd::string::*;

verus! {

// ---------------------------------------------------------------------------
// Programs
// ---------------------------------------------------------------------------

/// The host's execution allowlist.
#[derive(Debug)]
pub struct Allowlist {
    entries: Vec<String>,
}

impl Allowlist {
    /// The programs permitted to run, in lower case, because Windows paths are case-insensitive.
    pub closed spec fn view(&self) -> Seq<Seq<char>> {
        text::views(self.entries@)
    }

    /// An allowlist of exact program paths, compared without regard to case.
    pub fn new(entries: &[&str]) -> (r: Allowlist)
        ensures
            r@.len() == entries@.len(),
            forall|i: int|
                0 <= i < entries@.len() ==> #[trigger] r@[i] == text::folded(entries@[i]@),
    {
        let mut out: Vec<String> = Vec::new();
        let mut i: usize = 0;
        while i < entries.len()
            invariant
                i <= entries.len(),
                out@.len() == i,
                forall|k: int| 0 <= k < i ==> #[trigger] out@[k]@ == text::folded(entries@[k]@),
            decreases entries.len() - i,
        {
            out.push(text::to_lowercase(entries[i]));
            i += 1;
        }
        Allowlist { entries: out }
    }

    /// The allowlist that every install starts with.
    pub fn default_for_windows() -> (r: Allowlist)
        ensures
            r@ == seq![
                text::folded("c:\\windows\\system32\\cmd.exe"@),
                text::folded("c:\\windows\\system32\\windowspowershell\\v1.0\\powershell.exe"@),
                text::folded("c:\\windows\\system32\\notepad.exe"@),
            ],
    {
        let mut entries: Vec<&str> = Vec::new();
        entries.push("c:\\windows\\system32\\cmd.exe");
        entries.push("c:\\windows\\system32\\windowspowershell\\v1.0\\powershell.exe");
        entries.push("c:\\windows\\system32\\notepad.exe");
        let r = Allowlist::new(entries.as_slice());
        proof {
            assert(r@[0] == text::folded("c:\\windows\\system32\\cmd.exe"@));
            assert(r@[1] == text::folded(
                "c:\\windows\\system32\\windowspowershell\\v1.0\\powershell.exe"@,
            ));
            assert(r@[2] == text::folded("c:\\windows\\system32\\notepad.exe"@));
            assert(r@ =~= seq![
                text::folded("c:\\windows\\system32\\cmd.exe"@),
                text::folded("c:\\windows\\system32\\windowspowershell\\v1.0\\powershell.exe"@),
                text::folded("c:\\windows\\system32\\notepad.exe"@),
            ]);
        }
        r
    }

    /// Whether a program path that is in lower case already is on the list.
    pub fn lists(&self, lower: &str) -> (r: bool)
        ensures
            r == self@.contains(lower@),
    {
        let mut i: usize = 0;
        while i < self.entries.len()
            invariant
                i <= self.entries.len(),
                forall|k: int| 0 <= k < i ==> self@[k] != lower@,
            decreases self.entries.len() - i,
        {
            if text::same(self.entries[i].as_str(), lower) {
                assert(self@[i as int] == lower@);
                return true;
            }
            i += 1;
        }
        false
    }

    /// Whether a program may run, whatever its case.
    pub fn permits(&self, program: &str) -> (r: bool)
        ensures
            r == self@.contains(text::folded(program@)),
    {
        self.lists(text::to_lowercase(program).as_str())
    }

    /// Whether nothing may run.
    pub fn is_empty(&self) -> (r: bool)
        ensures
            r == (self@.len() == 0),
    {
        self.entries.len() == 0
    }
}

// ---------------------------------------------------------------------------
// Denials
// ---------------------------------------------------------------------------

/// A refusal produced by policy, with enough context to journal it.
#[derive(Debug, PartialEq, Eq)]
pub struct Denial {
    pub subject: String,
    pub verb: Verb,
    pub reason: DenialReason,
    /// Path or program that triggered it, for the audit trail.
    pub subject_detail: Option<String>,
}

impl Denial {
    /// The denial names this subject, verb, reason and detail.
    pub open spec fn is(
        self,
        subject: Seq<char>,
        verb: Verb,
        reason: DenialReason,
        detail: Seq<char>,
    ) -> bool {
        &&& self.subject@ == subject
        &&& self.verb == verb
        &&& self.reason == reason
        &&& text::opt_view(self.subject_detail) == Some(detail)
    }

    /// The refusal as it goes over the wire, without the detail.
    pub fn to_ipc(&self) -> (r: Denied)
        ensures
            r == (Denied { subject: self.subject, verb: self.verb, reason: self.reason }),
    {
        Denied { subject: self.subject.clone(), verb: self.verb, reason: self.reason }
    }
}

/// A denial for a subject.
pub fn denial(subject: &str, verb: Verb, reason: DenialReason, detail: &str) -> (r: Denial)
    ensures
        r.is(subject@, verb, reason, detail@),
{
    Denial {
        subject: text::own(subject),
        verb,
        reason,
        subject_detail: Some(text::own(detail)),
    }
}

// ---------------------------------------------------------------------------
// Host paths
// ---------------------------------------------------------------------------

/// Whether a host path starts at the root.
pub open spec fn is_absolute(path: Seq<char>) -> bool {
    path.len() > 0 && path[0] == '/'
}

/// The names that a host path comes down to once `.` and `..` are resolved.
pub open spec fn names(path: Seq<char>) -> Seq<Seq<char>> {
    segments::resolved(text::split(path, '/'))
}

/// A host path lies inside a root: it begins with the same names, from the same start.
pub open spec fn inside(path: Seq<char>, root: Seq<char>) -> bool {
    is_absolute(path) == is_absolute(root) && names(root).len() <= names(path).len() && names(
        path,
    ).take(names(root).len() as int) == names(root)
}

/// A host path lies inside one of some roots.
pub open spec fn inside_any(path: Seq<char>, roots: Seq<Seq<char>>) -> bool {
    exists|i: int| 0 <= i < roots.len() && inside(path, #[trigger] roots[i])
}

fn resolve(path: &str) -> (r: (bool, Vec<Vec<char>>))
    ensures
        r.0 == is_absolute(path@),
        text::char_views(r.1@) == names(path@),
{
    let chars = text::to_chars(path);
    let absolute: bool = chars.len() > 0 && chars[0] == '/';
    (absolute, segments::resolve_segments(&text::split_chars(&chars, '/')))
}

fn begins_with(path: &Vec<Vec<char>>, root: &Vec<Vec<char>>) -> (r: bool)
    ensures
        r == (root@.len() <= path@.len() && text::char_views(path@).take(root@.len() as int)
            == text::char_views(root@)),
{
    if root.len() > path.len() {
        return false;
    }
    let ghost p = text::char_views(path@);
    let ghost q = text::char_views(root@);
    let mut i: usize = 0;
    while i < root.len()
        invariant
            i <= root.len() <= path.len(),
            p == text::char_views(path@),
            q == text::char_views(root@),
            forall|k: int| 0 <= k < i ==> p[k] == q[k],
        decreases root.len() - i,
    {
        if !text::same_chars(&path[i], &root[i]) {
            assert(p[i as int] != q[i as int]);
            assert(p.take(root@.len() as int)[i as int] == p[i as int]);
            return false;
        }
        assert(p[i as int] == q[i as int]);
        i += 1;
    }
    assert(p.take(root@.len() as int) =~= q);
    true
}

/// Resolve a path lexically and confirm that it sits inside one of `roots`. No roots permit
/// nothing.
pub fn path_within_roots(path: &str, roots: &[String]) -> (r: bool)
    ensures
        r == inside_any(path@, text::views(roots@)),
{
    let (absolute, resolved) = resolve(path);
    let ghost all = text::views(roots@);
    let mut i: usize = 0;
    while i < roots.len()
        invariant
            i <= roots.len(),
            all == text::views(roots@),
            absolute == is_absolute(path@),
            text::char_views(resolved@) == names(path@),
            forall|k: int| 0 <= k < i ==> !inside(path@, #[trigger] all[k]),
        decreases roots.len() - i,
    {
        let (root_absolute, root) = resolve(roots[i].as_str());
        assert(all[i as int] == roots@[i as int]@);
        if absolute == root_absolute && begins_with(&resolved, &root) {
            assert(inside(path@, all[i as int]));
            return true;
        }
        assert(!inside(path@, all[i as int]));
        i += 1;
    }
    false
}

/// The roots that a grant gives for a direction: bytes into the guest use the write roots, bytes out
/// of it the read roots.
pub open spec fn roots_for(grant: Grant, direction: TransferDirection) -> Seq<Seq<char>> {
    match direction {
        TransferDirection::HostToGuest => text::views(grant.write_roots@),
        TransferDirection::GuestToHost => text::views(grant.read_roots@),
    }
}

/// Why a host path is refused, if it is.
pub open spec fn host_refusal(
    grant: Grant,
    direction: TransferDirection,
    path: Seq<char>,
) -> Option<DenialReason> {
    if roots_for(grant, direction).len() == 0 {
        Some(DenialReason::NoTransferRoot)
    } else if !inside_any(path, roots_for(grant, direction)) {
        Some(DenialReason::PathOutsideRoots)
    } else {
        None
    }
}

/// Check a host-side transfer against the grant.
pub fn check_host_transfer(grant: &Grant, direction: TransferDirection, host_path: &str) -> (r:
    Result<(), Denial>)
    ensures
        match (r, host_refusal(*grant, direction, host_path@)) {
            (Ok(()), None) => true,
            (Err(d), Some(reason)) => d.is(grant.subject@, Verb::Transfer, reason, host_path@),
            _ => false,
        },
{
    let roots: &Vec<String> = match direction {
        TransferDirection::HostToGuest => &grant.write_roots,
        TransferDirection::GuestToHost => &grant.read_roots,
    };
    if roots.len() == 0 {
        return Err(
            denial(
                grant.subject.as_str(),
                Verb::Transfer,
                DenialReason::NoTransferRoot,
                host_path,
            ),
        );
    }
    if !path_within_roots(host_path, roots.as_slice()) {
        return Err(
            denial(
                grant.subject.as_str(),
                Verb::Transfer,
                DenialReason::PathOutsideRoots,
                host_path,
            ),
        );
    }
    Ok(())
}

// ---------------------------------------------------------------------------
// Guest paths
// ---------------------------------------------------------------------------

/// Why a guest path is refused, if it is: the grant names no guest root, or the path is not inside
/// it by the rules that the guest itself goes by.
pub open spec fn guest_refusal(root: Seq<char>, path: Seq<char>) -> Option<DenialReason> {
    if paths::names_nothing(root) {
        Some(DenialReason::NoTransferRoot)
    } else if !paths::within(root, path) {
        Some(DenialReason::PathOutsideRoots)
    } else {
        None
    }
}

/// Check a guest-side path against the grant's guest root. Both `\` and `/` are separators, as they
/// are to Windows.
pub fn check_guest_path(grant: &Grant, guest_path: &str) -> (r: Result<(), Denial>)
    ensures
        match (r, guest_refusal(grant.guest_root@, guest_path@)) {
            (Ok(()), None) => true,
            (Err(d), Some(reason)) => d.is(grant.subject@, Verb::Transfer, reason, guest_path@),
            _ => false,
        },
{
    let inside: bool = paths::is_within_root(grant.guest_root.as_str(), guest_path);
    if paths::is_nowhere(grant.guest_root.as_str()) {
        return Err(
            denial(
                grant.subject.as_str(),
                Verb::Transfer,
                DenialReason::NoTransferRoot,
                guest_path,
            ),
        );
    }
    if inside {
        Ok(())
    } else {
        Err(
            denial(
                grant.subject.as_str(),
                Verb::Transfer,
                DenialReason::PathOutsideRoots,
                guest_path,
            ),
        )
    }
}

/// Whether a program is among those listed.
pub open spec fn is_allowlisted(allowlist: Seq<Seq<char>>, program: Seq<char>) -> bool {
    allowlist.contains(text::folded(program))
}

/// Check an execution request against the allowlist.
pub fn check_exec(grant: &Grant, program: &str, allowlist: &Allowlist) -> (r: Result<(), Denial>)
    ensures
        r is Ok <==> allowlist@.contains(text::folded(program@)),
        r is Ok <==> is_allowlisted(allowlist@, program@),
        r matches Err(d) ==> d.is(
            grant.subject@,
            Verb::Exec,
            DenialReason::ProgramNotAllowlisted,
            program@,
        ),
{
    if !allowlist.permits(program) {
        return Err(
            denial(
                grant.subject.as_str(),
                Verb::Exec,
                DenialReason::ProgramNotAllowlisted,
                program,
            ),
        );
    }
    Ok(())
}

// ---------------------------------------------------------------------------
// Laws
// ---------------------------------------------------------------------------

/// No roots permit nothing.
pub proof fn no_roots_permit_nothing(path: Seq<char>)
    ensures
        !inside_any(path, Seq::empty()),
{
}

/// Containment carries over: what is inside a directory inside a root is inside the root.
pub proof fn containment_is_transitive(root: Seq<char>, directory: Seq<char>, path: Seq<char>)
    requires
        inside(directory, root),
        inside(path, directory),
    ensures
        inside(path, root),
{
    let r = names(root).len() as int;
    let d = names(directory).len() as int;
    assert(names(path).take(d).take(r) == names(path).take(r));
}

/// A directory whose name merely begins like the root's last name is outside it: containment
/// compares whole names.
pub proof fn containment_compares_whole_names(
    path: Seq<char>,
    root: Seq<char>,
    i: int,
)
    requires
        0 <= i < names(root).len(),
        i < names(path).len(),
        names(path)[i] != names(root)[i],
    ensures
        !inside(path, root),
{
    if names(root).len() <= names(path).len() {
        assert(names(path).take(names(root).len() as int)[i] == names(path)[i]);
    }
}

/// The host and the guest decide alike, for every root and every path: the host lets through what
/// the guest's containment check holds to be inside, and the guest then resolves it, unless it is
/// blank.
pub proof fn host_and_guest_decide_alike(root: Seq<char>, path: Seq<char>)
    ensures
        guest_refusal(root, path) is None <==> paths::within(root, path),
        paths::refusal(root, path) is None <==> guest_refusal(root, path) is None
            && !text::is_blank(path),
{
}

/// A guest path is decided alike in either separator and in either case of its ASCII letters,
/// whatever other characters it holds.
pub proof fn guest_paths_are_decided_by_meaning(
    root: Seq<char>,
    path: Seq<char>,
    spelling: Seq<char>,
)
    requires
        text::ascii_lowered(paths::slashed(spelling)) == text::ascii_lowered(paths::slashed(path)),
    ensures
        guest_refusal(root, spelling) == guest_refusal(root, path),
{
    paths::case_and_style_are_ignored(root, path, spelling);
}

/// A program is on an allowlist or not whatever the case of its ASCII letters.
pub proof fn programs_are_listed_in_either_case(
    allowlist: Allowlist,
    program: Seq<char>,
    spelling: Seq<char>,
)
    requires
        text::ascii_lowered(spelling) == text::ascii_lowered(program),
    ensures
        allowlist@.contains(text::folded(spelling)) == allowlist@.contains(text::folded(program)),
{
}

/// The path of plain names from the top of the host's file system.
pub open spec fn path_of(parts: Seq<Seq<char>>) -> Seq<char> {
    seq!['/'] + text::joined(parts, seq!['/'])
}

/// Names of files and directories: not empty, not a dot or two, and without a separator.
pub open spec fn are_plain(parts: Seq<Seq<char>>) -> bool {
    forall|i: int|
        0 <= i < parts.len() ==> (#[trigger] parts[i]).len() > 0 && parts[i] != seq!['.']
            && parts[i] != seq!['.', '.'] && !parts[i].contains('/')
}

proof fn plain_paths_are_their_names(parts: Seq<Seq<char>>)
    requires
        parts.len() > 0,
        are_plain(parts),
    ensures
        names(path_of(parts)) == parts,
        is_absolute(path_of(parts)),
{
    let empty = Seq::<char>::empty();
    let tail = text::joined(parts, seq!['/']);
    text::splits_at_the_first_separator(empty, '/', tail);
    assert(empty + seq!['/'] + tail =~= path_of(parts));
    text::splitting_undoes_joining(parts, '/');
    segments::plain_names_resolve_to_themselves(parts);
}

/// A root lets through itself and everything below it, at any depth, and nothing else: of two paths
/// of plain names, one is inside the other exactly where its names begin with all of the other's.
pub proof fn roots_let_through_what_is_below(path: Seq<Seq<char>>, root: Seq<Seq<char>>)
    requires
        path.len() > 0,
        root.len() > 0,
        are_plain(path),
        are_plain(root),
    ensures
        inside(path_of(path), path_of(root)) <==> root.len() <= path.len() && forall|i: int|
            0 <= i < root.len() ==> #[trigger] path[i] == root[i],
        inside(path_of(root + path), path_of(root)),
        inside(path_of(root), path_of(root)),
{
    plain_paths_are_their_names(path);
    plain_paths_are_their_names(root);
    assert(are_plain(root + path)) by {
        let both = root + path;
        assert forall|i: int| 0 <= i < both.len() implies (#[trigger] both[i]).len() > 0 && both[i]
            != seq!['.'] && both[i] != seq!['.', '.'] && !both[i].contains('/') by {
            if i < root.len() {
                assert(both[i] == root[i]);
            } else {
                assert(both[i] == path[i - root.len()]);
            }
        }
    }
    plain_paths_are_their_names(root + path);
    assert((root + path).take(root.len() as int) =~= root);
    assert(root.take(root.len() as int) =~= root);
    if root.len() <= path.len() {
        if forall|i: int| 0 <= i < root.len() ==> #[trigger] path[i] == root[i] {
            assert(path.take(root.len() as int) =~= root);
        }
        if path.take(root.len() as int) == root {
            assert forall|i: int| 0 <= i < root.len() implies #[trigger] path[i] == root[i] by {
                assert(path.take(root.len() as int)[i] == root[i]);
            }
        }
    }
}

/// Climbing out of a root by `..` leads outside: a path that goes into the root, climbs above it and
/// goes down elsewhere is refused, and one that comes back is let through.
pub proof fn climbing_out_is_noticed(root: Seq<char>, sibling: Seq<char>)
    requires
        are_plain(seq![root]),
        are_plain(seq![sibling]),
        root != sibling,
    ensures
        !inside(path_of(seq![root, seq!['.', '.'], sibling]), path_of(seq![root])),
        inside(path_of(seq![root, seq!['.', '.'], root]), path_of(seq![root])),
        names(path_of(seq![root, seq!['.', '.'], sibling])) == seq![sibling],
{
    let up = seq!['.', '.'];
    assert(seq![root][0] == root && seq![sibling][0] == sibling);
    assert(!up.contains('/')) by {
        assert(up[0] == '.' && up[1] == '.');
    }
    plain_paths_are_their_names(seq![root]);
    climbing_names(root, sibling);
    climbing_names(root, root);
    assert(names(path_of(seq![root, up, sibling])).take(1)[0] == sibling);
    assert(seq![root].take(1) =~= seq![root]);
}

proof fn climbing_names(root: Seq<char>, sibling: Seq<char>)
    requires
        are_plain(seq![root]),
        are_plain(seq![sibling]),
    ensures
        names(path_of(seq![root, seq!['.', '.'], sibling])) == seq![sibling],
        is_absolute(path_of(seq![root, seq!['.', '.'], sibling])),
{
    let up = seq!['.', '.'];
    let empty = Seq::<char>::empty();
    let parts = seq![root, up, sibling];
    let tail = text::joined(parts, seq!['/']);
    assert(seq![root][0] == root && seq![sibling][0] == sibling);
    assert(!up.contains('/')) by {
        assert(up[0] == '.' && up[1] == '.');
    }
    text::splits_at_the_first_separator(empty, '/', tail);
    assert(empty + seq!['/'] + tail =~= path_of(parts));
    assert forall|i: int| 0 <= i < parts.len() implies !(#[trigger] parts[i]).contains('/') by {
        assert(i == 0 || i == 1 || i == 2);
    }
    text::splitting_undoes_joining(parts, '/');
    let before = seq![empty];
    segments::down_and_up_cancels(before, root, seq![sibling]);
    assert(before + seq![root, up] + seq![sibling] =~= seq![empty] + parts);
    segments::plain_names_resolve_to_themselves(seq![sibling]);
}

/// A push is decided by the roots to write and a pull by the roots to read, and by nothing else of the
/// grant: it is let through exactly where its path is inside one of them. Where there is none at all,
/// that is the reason given.
pub proof fn each_direction_has_its_roots(grant: Grant, path: Seq<char>)
    ensures
        host_refusal(grant, TransferDirection::HostToGuest, path) is None <==> exists|i: int|
            0 <= i < grant.write_roots@.len() && inside(path, #[trigger] grant.write_roots@[i]@),
        host_refusal(grant, TransferDirection::GuestToHost, path) is None <==> exists|i: int|
            0 <= i < grant.read_roots@.len() && inside(path, #[trigger] grant.read_roots@[i]@),
        grant.write_roots@.len() == 0 ==> host_refusal(grant, TransferDirection::HostToGuest, path)
            == Some(DenialReason::NoTransferRoot),
        grant.read_roots@.len() == 0 ==> host_refusal(grant, TransferDirection::GuestToHost, path)
            == Some(DenialReason::NoTransferRoot),
        grant.write_roots@.len() > 0 && host_refusal(grant, TransferDirection::HostToGuest, path)
            is Some ==> host_refusal(grant, TransferDirection::HostToGuest, path) == Some(
            DenialReason::PathOutsideRoots,
        ),
        grant.read_roots@.len() > 0 && host_refusal(grant, TransferDirection::GuestToHost, path)
            is Some ==> host_refusal(grant, TransferDirection::GuestToHost, path) == Some(
            DenialReason::PathOutsideRoots,
        ),
{
    some_root_holds(path, grant.write_roots@);
    some_root_holds(path, grant.read_roots@);
}

proof fn some_root_holds(path: Seq<char>, roots: Seq<String>)
    ensures
        inside_any(path, text::views(roots)) <==> exists|i: int|
            0 <= i < roots.len() && inside(path, #[trigger] roots[i]@),
{
    let all = text::views(roots);
    if inside_any(path, all) {
        let i = choose|i: int| 0 <= i < all.len() && inside(path, #[trigger] all[i]);
        assert(all[i] == roots[i]@);
    }
    if exists|i: int| 0 <= i < roots.len() && inside(path, #[trigger] roots[i]@) {
        let i = choose|i: int| 0 <= i < roots.len() && inside(path, #[trigger] roots[i]@);
        assert(all[i] == roots[i]@);
    }
}

/// Of a guest path the reason given is that there is no root where the root is nothing but white space
/// or separators, and otherwise that the path is outside it.
pub proof fn guest_refusals_give_the_reason(root: Seq<char>, path: Seq<char>)
    ensures
        guest_refusal(root, path) == Some(DenialReason::NoTransferRoot) <==> text::is_blank(root)
            || forall|i: int| 0 <= i < root.len() ==> #[trigger] root[i] == '/' || root[i] == '\\',
        guest_refusal(root, path) is Some && guest_refusal(root, path) != Some(
            DenialReason::NoTransferRoot,
        ) ==> guest_refusal(root, path) == Some(DenialReason::PathOutsideRoots),
{
    if paths::names_nothing(root) && !text::is_blank(root) {
        assert forall|i: int| 0 <= i < root.len() implies #[trigger] root[i] == '/' || root[i]
            == '\\' by {
            assert(paths::is_separator(root[i]));
        }
    }
    if forall|i: int| 0 <= i < root.len() ==> #[trigger] root[i] == '/' || root[i] == '\\' {
        assert forall|i: int| 0 <= i < root.len() implies paths::is_separator(#[trigger] root[i]) by {}
    }
}

/// A program may run exactly where its name is on the list in full: an empty list lets nothing run,
/// what is listed may run, and a longer list takes nothing away.
pub proof fn only_listed_programs_run(
    allowlist: Seq<Seq<char>>,
    more: Seq<Seq<char>>,
    program: Seq<char>,
)
    ensures
        !is_allowlisted(Seq::empty(), program),
        is_allowlisted(allowlist.push(text::folded(program)), program),
        is_allowlisted(allowlist, program) ==> is_allowlisted(allowlist + more, program),
        is_allowlisted(allowlist, program) ==> exists|i: int|
            0 <= i < allowlist.len() && #[trigger] allowlist[i] == text::folded(program),
{
    let longer = allowlist.push(text::folded(program));
    assert(longer[allowlist.len() as int] == text::folded(program));
    if is_allowlisted(allowlist, program) {
        let i = choose|i: int| 0 <= i < allowlist.len() && allowlist[i] == text::folded(program);
        assert((allowlist + more)[i] == text::folded(program));
    }
}

/// A path that starts at the top of the file system and one that does not are never inside each other,
/// whatever names they have.
pub proof fn relative_paths_are_outside_absolute_roots(path: Seq<char>, root: Seq<char>)
    requires
        inside(path, root),
    ensures
        path.len() > 0 && path[0] == '/' <==> root.len() > 0 && root[0] == '/',
{
}

/// A denial tells who was refused, the verb, the reason and what it was about, each as it was; so two
/// denials that tell the same are alike in all four.
pub proof fn denials_tell_all_four(
    denial: Denial,
    subject: Seq<char>,
    verb: Verb,
    reason: DenialReason,
    detail: Seq<char>,
)
    requires
        denial.is(subject, verb, reason, detail),
    ensures
        denial.subject@ == subject,
        denial.verb == verb,
        denial.reason == reason,
        denial.subject_detail is Some,
        denial.subject_detail->Some_0@ == detail,
{
}

} // verus!
