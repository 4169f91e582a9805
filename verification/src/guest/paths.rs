//! Path translation and validation for Windows paths.
//!
//! A path is resolved lexically, before it is known whether it exists, and compared on directory
//! boundaries. The guest confines its file operations by these rules, and the host applies the very
//! same ones before a request leaves it.
//!
//! * `\` and `/` are both separators, everywhere.
//! * Comparison is case-insensitive.
//! * `C:\wvm` and `C:\wvmdata` share a prefix but not a directory.
//! * A drive, or a server and its share, is never climbed out of.
use crate::segments;
use crate::text;
use vstd::prelude::*;
use vstd::string::*;
use vstd::utf8::is_ascii_chars;

verus! {

// ---------------------------------------------------------------------------
// The parts of a path
// ---------------------------------------------------------------------------

/// Either of the two separators.
pub open spec fn is_separator(c: char) -> bool {
    c == '\\' || c == '/'
}

/// An ASCII letter.
pub open spec fn is_letter(c: char) -> bool {
    ('a' <= c && c <= 'z') || ('A' <= c && c <= 'Z')
}

/// A path with every separator written as a slash. All that is said of a path below is said of this
/// form of it.
pub open spec fn slashed(path: Seq<char>) -> Seq<char> {
    text::replaced(path, '\\', '/')
}

/// A path that begins with a drive letter and its colon.
pub open spec fn has_drive(p: Seq<char>) -> bool {
    p.len() >= 2 && p[1] == ':' && is_letter(p[0])
}

/// A path that begins with two separators, which is how a server is named.
pub open spec fn has_server(p: Seq<char>) -> bool {
    p.len() >= 2 && p[0] == '/' && p[1] == '/'
}

/// Where the first character at or after `i` that is no slash stands, or the length when there is
/// none.
pub open spec fn next_name(p: Seq<char>, i: int) -> int
    decreases p.len() - i,
{
    if i >= p.len() {
        p.len() as int
    } else if p[i] != '/' {
        i
    } else {
        next_name(p, i + 1)
    }
}

/// Where the name of the server ends.
pub open spec fn server_end(p: Seq<char>) -> int {
    text::next_sep(p, '/', 2)
}

/// Where the first plain name at or after `i` begins, or the length when there is none. `.` and `..`
/// are none: there is nothing above the top.
pub open spec fn next_plain(p: Seq<char>, i: int) -> int
    decreases p.len() - i,
    when 0 <= i <= p.len()
    via next_plain_decreases
{
    let a = next_name(p, i);
    if a >= p.len() {
        p.len() as int
    } else if segments::is_name(p.subrange(a, text::next_sep(p, '/', a))) {
        a
    } else {
        next_plain(p, text::next_sep(p, '/', a))
    }
}

#[via_fn]
proof fn next_plain_decreases(p: Seq<char>, i: int) {
    next_name_bounds(p, i);
    let a = next_name(p, i);
    if a < p.len() {
        text::next_sep_bounds(p, '/', a + 1);
    }
}

/// Where the name of the share begins; the length when no share is named.
pub open spec fn share_start(p: Seq<char>) -> int {
    next_plain(p, server_end(p))
}

/// How many characters belong to a path's prefix: a drive, or a server and its share, or nothing.
pub open spec fn prefix_len(p: Seq<char>) -> int {
    if has_drive(p) {
        2
    } else if has_server(p) {
        text::next_sep(p, '/', share_start(p))
    } else {
        0
    }
}

/// A path's prefix, with one slash between server and share.
pub open spec fn prefix_of(p: Seq<char>) -> Seq<char> {
    if has_drive(p) {
        p.take(2)
    } else if !has_server(p) {
        Seq::empty()
    } else if share_start(p) < p.len() {
        p.take(server_end(p)) + "/"@ + p.subrange(share_start(p), prefix_len(p))
    } else {
        p.take(server_end(p))
    }
}

/// The segments of a path behind its prefix.
pub open spec fn below(p: Seq<char>) -> Seq<Seq<char>> {
    text::split(p.skip(prefix_len(p)), '/')
}

/// A path without its prefix, resolved.
pub open spec fn body(p: Seq<char>) -> Seq<char> {
    text::joined(segments::resolved(below(p)), "/"@)
}

/// A path that names a server and a share of it.
pub open spec fn has_share(p: Seq<char>) -> bool {
    has_server(p) && share_start(p) < p.len()
}

/// The prefix and the body of a path `p` put together. A drive or a server by itself ends in a
/// slash; a share does not.
pub open spec fn assembled(p: Seq<char>, prefix: Seq<char>, body: Seq<char>) -> Seq<char> {
    if prefix_len(p) <= 0 {
        body
    } else if body.len() == 0 && has_share(p) {
        prefix
    } else if body.len() == 0 {
        prefix + "/"@
    } else {
        prefix + "/"@ + body
    }
}

// ---------------------------------------------------------------------------
// The comparable form
// ---------------------------------------------------------------------------

/// The comparable form of a path: forward slashes, no trailing separator, lower case, `.` and `..`
/// resolved.
pub open spec fn canonical(path: Seq<char>) -> Seq<char> {
    let p = slashed(path);
    assembled(p, text::folded(prefix_of(p)), text::folded(body(p)))
}

/// The comparable form of a path in ASCII.
pub open spec fn plain(path: Seq<char>) -> Seq<char> {
    let p = slashed(path);
    assembled(p, text::ascii_lowered(prefix_of(p)), text::ascii_lowered(body(p)))
}

fn letter(c: char) -> (r: bool)
    ensures
        r == is_letter(c),
{
    ('a' <= c && c <= 'z') || ('A' <= c && c <= 'Z')
}

fn find_slash(p: &[char], from: usize) -> (n: usize)
    requires
        from <= p@.len(),
    ensures
        n == text::next_sep(p@, '/', from as int),
        from <= n <= p@.len(),
{
    let mut i: usize = from;
    while i < p.len() && p[i] != '/'
        invariant
            from <= i <= p.len(),
            text::next_sep(p@, '/', from as int) == text::next_sep(p@, '/', i as int),
        decreases p.len() - i,
    {
        i += 1;
    }
    i
}

fn find_name(p: &[char], from: usize) -> (n: usize)
    requires
        from <= p@.len(),
    ensures
        n == next_name(p@, from as int),
        from <= n <= p@.len(),
{
    let mut i: usize = from;
    while i < p.len() && p[i] == '/'
        invariant
            from <= i <= p.len(),
            next_name(p@, from as int) == next_name(p@, i as int),
        decreases p.len() - i,
    {
        i += 1;
    }
    i
}

fn find_plain(p: &[char], from: usize) -> (n: usize)
    requires
        from <= p@.len(),
    ensures
        n == next_plain(p@, from as int),
        from <= n <= p@.len(),
{
    let mut i: usize = from;
    loop
        invariant
            from <= i <= p.len(),
            next_plain(p@, from as int) == next_plain(p@, i as int),
        decreases p.len() - i,
    {
        let a: usize = find_name(p, i);
        if a >= p.len() {
            return a;
        }
        proof {
            next_name_bounds(p@, i as int);
            text::next_sep_bounds(p@, '/', a + 1);
        }
        let b: usize = find_slash(p, a);
        let name = text::part(p, a, b);
        assert(name@ == p@.subrange(a as int, b as int));
        if segments::names(&name) {
            return a;
        }
        i = b;
    }
}

/// A path's prefix, how many characters of the path it takes, and whether it names a share.
fn split_prefix(p: &[char]) -> (r: (Vec<char>, usize, bool))
    ensures
        r.0@ == prefix_of(p@),
        r.1 == prefix_len(p@),
        r.1 <= p@.len(),
        r.2 == has_share(p@),
{
    if p.len() >= 2 && p[1] == ':' && letter(p[0]) {
        let drive = text::part(p, 0, 2);
        assert(drive@ == p@.take(2));
        return (drive, 2, false);
    }
    if p.len() >= 2 && p[0] == '/' && p[1] == '/' {
        let server: usize = find_slash(p, 2);
        let share: usize = find_plain(p, server);
        let end: usize = find_slash(p, share);
        let mut prefix = text::part(p, 0, server);
        assert(prefix@ == p@.take(server as int));
        if share < p.len() {
            let name = text::part(p, share, end);
            prefix.push('/');
            prefix.extend_from_slice(name.as_slice());
            proof {
                reveal_strlit("/");
                assert(prefix@ == p@.take(server as int) + "/"@ + name@);
            }
        }
        return (prefix, end, share < p.len());
    }
    let nothing: Vec<char> = Vec::new();
    assert(nothing@ == Seq::<char>::empty());
    (nothing, 0, false)
}

/// The segments of a path behind its prefix.
fn split_below(p: &[char], cut: usize) -> (r: Vec<Vec<char>>)
    requires
        cut == prefix_len(p@),
        cut <= p@.len(),
    ensures
        text::char_views(r@) == below(p@),
{
    let rest = text::part(p, cut, p.len());
    assert(rest@ == p@.skip(cut as int));
    text::split_chars(&rest, '/')
}

/// Normalise a Windows path to a comparable form: forward slashes, no trailing separator,
/// lower case, `.` and `..` resolved. A drive or a server and its share stand in front, and `..`
/// stops at them.
pub fn canonicalise(path: &str) -> (r: String)
    ensures
        r@ == canonical(path@),
        is_ascii_chars(path@) ==> r@ == plain(path@),
{
    let chars = text::replace_char(&text::to_chars(path), '\\', '/');
    let (prefix, cut, shared) = split_prefix(&chars);
    let parts = segments::resolve_segments(&split_below(&chars, cut));
    let whole = text::join_chars(&parts, "/");
    let joined = text::to_lowercase(whole.as_str());
    proof {
        if is_ascii_chars(path@) {
            parts_are_ascii(chars@);
        }
    }
    if cut == 0 {
        return joined;
    }
    let prefix_norm = text::to_lowercase(text::from_chars(&prefix).as_str());
    proof {
        if is_ascii_chars(path@) {
            assert(joined@.len() == text::ascii_lowered(body(chars@)).len());
        }
    }
    if joined.as_str().is_empty() {
        if shared {
            return prefix_norm;
        }
        text::cat2(prefix_norm.as_str(), "/")
    } else {
        text::cat3(prefix_norm.as_str(), "/", joined.as_str())
    }
}

// ---------------------------------------------------------------------------
// Containment
// ---------------------------------------------------------------------------

/// What every path inside a root in comparable form begins with: the root and one separator.
pub open spec fn marked(root: Seq<char>) -> Seq<char> {
    if root.len() > 0 && root.last() == '/' {
        root
    } else {
        root + "/"@
    }
}

/// A path in comparable form lies inside a root in comparable form: it is the root, or goes on
/// behind a separator. The empty root holds nothing.
pub open spec fn covers(root: Seq<char>, path: Seq<char>) -> bool {
    root.len() > 0 && (path == root || text::starts_with(path, marked(root)))
}

/// Whether a path in comparable form lies inside a root in comparable form.
pub fn root_covers(root: &str, path: &str) -> (r: bool)
    ensures
        r == covers(root@, path@),
{
    let chars = text::to_chars(root);
    if chars.len() == 0 {
        return false;
    }
    if text::same(path, root) {
        return true;
    }
    if chars[chars.len() - 1] == '/' {
        text::begins(path, root)
    } else {
        text::begins(path, text::cat2(root, "/").as_str())
    }
}

/// A root that names no place: nothing but white space, or nothing but separators.
pub open spec fn names_nothing(root: Seq<char>) -> bool {
    text::is_blank(root) || forall|i: int| 0 <= i < root.len() ==> is_separator(#[trigger] root[i])
}

/// A path that begins at a drive's current directory rather than at the drive.
pub open spec fn is_drive_relative(path: Seq<char>) -> bool {
    let p = slashed(path);
    has_drive(p) && p.len() > 2 && p[2] != '/'
}

/// A path on a server whose `..` meet the top of the share.
pub open spec fn climbs_out_of_share(path: Seq<char>) -> bool {
    let p = slashed(path);
    has_server(p) && segments::climbs(below(p))
}

/// A path that names a server and no share of it.
pub open spec fn is_bare_server(path: Seq<char>) -> bool {
    let p = slashed(path);
    has_server(p) && !has_share(p)
}

/// A path lies inside a root. The root names a place, the path's comparable form is covered by the
/// root's, no `..` of it climbs out of a share, a server by itself holds none of its shares, and only
/// a root that begins at a drive's current directory holds a path that does.
pub open spec fn within(root: Seq<char>, path: Seq<char>) -> bool {
    &&& !names_nothing(root)
    &&& covers(canonical(root), canonical(path))
    &&& !climbs_out_of_share(path)
    &&& is_bare_server(root) ==> is_bare_server(path)
    &&& is_drive_relative(path) == is_drive_relative(root)
}

/// Whether a root names no place.
pub fn is_nowhere(root: &str) -> (r: bool)
    ensures
        r == names_nothing(root@),
{
    if text::blank(root) {
        return true;
    }
    let chars = text::to_chars(root);
    let mut i: usize = 0;
    while i < chars.len()
        invariant
            i <= chars.len(),
            chars@ == root@,
            !text::is_blank(root@),
            forall|k: int| 0 <= k < i ==> is_separator(#[trigger] root@[k]),
        decreases chars.len() - i,
    {
        if chars[i] != '\\' && chars[i] != '/' {
            assert(!is_separator(root@[i as int]));
            return false;
        }
        i += 1;
    }
    true
}

fn drive_relative(path: &str) -> (r: bool)
    ensures
        r == is_drive_relative(path@),
{
    let p = text::replace_char(&text::to_chars(path), '\\', '/');
    p.len() > 2 && p[1] == ':' && letter(p[0]) && p[2] != '/'
}

fn leaves_share(path: &str) -> (r: bool)
    ensures
        r == climbs_out_of_share(path@),
{
    let p = text::replace_char(&text::to_chars(path), '\\', '/');
    if p.len() >= 2 && p[0] == '/' && p[1] == '/' {
        let (_, cut, _) = split_prefix(&p);
        segments::climbs_out(&split_below(&p, cut))
    } else {
        false
    }
}

fn bare_server(path: &str) -> (r: bool)
    ensures
        r == is_bare_server(path@),
{
    let p = text::replace_char(&text::to_chars(path), '\\', '/');
    let (_, _, shared) = split_prefix(&p);
    p.len() >= 2 && p[0] == '/' && p[1] == '/' && !shared
}

/// Is `path` inside `root`, on a directory boundary?
pub fn is_within_root(root: &str, path: &str) -> (r: bool)
    ensures
        r == within(root@, path@),
        is_ascii_chars(root@) && is_ascii_chars(path@) ==> r == (!names_nothing(root@) && covers(
            plain(root@),
            plain(path@),
        ) && !climbs_out_of_share(path@) && (is_bare_server(root@) ==> is_bare_server(path@))
            && is_drive_relative(path@) == is_drive_relative(root@)),
{
    if is_nowhere(root) {
        return false;
    }
    root_covers(canonicalise(root).as_str(), canonicalise(path).as_str()) && !leaves_share(path)
        && (!bare_server(root) || bare_server(path)) && drive_relative(path) == drive_relative(root)
}

/// Why a guest path is refused, if it is.
pub open spec fn refusal(root: Seq<char>, path: Seq<char>) -> Option<Seq<char>> {
    if text::is_blank(root) {
        Some("no guest root configured; refusing to resolve any path"@)
    } else if text::is_blank(path) {
        Some("empty path"@)
    } else if !within(root, path) {
        Some(
            "refusing '"@ + canonical(path) + "': outside the permitted root '"@ + canonical(root)
                + "'"@,
        )
    } else {
        None
    }
}

/// Validate a guest path against a root, returning it with native separators, or why it is refused.
/// What is returned lies inside the root itself, and is the same place.
pub fn resolve_within(root: &str, path: &str) -> (r: Result<String, String>)
    ensures
        match (r, refusal(root@, path@)) {
            (Ok(native), None) => {
                &&& native@ == text::replaced(path@, '/', '\\')
                &&& within(root@, native@)
                &&& canonical(native@) == canonical(path@)
                &&& !native@.contains('/')
            },
            (Err(e), Some(why)) => e@ == why,
            _ => false,
        },
{
    if text::blank(root) {
        return Err(text::own("no guest root configured; refusing to resolve any path"));
    }
    if text::blank(path) {
        return Err(text::own("empty path"));
    }
    if !is_within_root(root, path) {
        return Err(
            text::cat5(
                "refusing '",
                canonicalise(path).as_str(),
                "': outside the permitted root '",
                canonicalise(root).as_str(),
                "'",
            ),
        );
    }
    proof {
        separator_style_is_ignored(root@, path@, text::replaced(path@, '/', '\\'));
    }
    Ok(text::from_chars(&text::replace_char(&text::to_chars(path), '/', '\\')))
}

// ---------------------------------------------------------------------------
// Mapping to the host
// ---------------------------------------------------------------------------

/// `s` without the slashes it begins with.
pub open spec fn without_leading_slashes(s: Seq<char>) -> Seq<char>
    decreases s.len(),
{
    if s.len() > 0 && s[0] == '/' {
        without_leading_slashes(s.skip(1))
    } else {
        s
    }
}

/// `s` without the slashes it ends with.
pub open spec fn without_trailing_slashes(s: Seq<char>) -> Seq<char>
    decreases s.len(),
{
    if s.len() > 0 && s.last() == '/' {
        without_trailing_slashes(s.drop_last())
    } else {
        s
    }
}

/// Where a Windows path goes under a directory of the host.
pub open spec fn under_host(host_root: Seq<char>, windows_path: Seq<char>) -> Seq<char> {
    without_trailing_slashes(host_root) + "/"@ + without_leading_slashes(
        text::replaced(windows_path, '\\', '/'),
    )
}

/// A Windows path re-expressed under `host_root`, separators normalised.
pub fn to_host_posix(host_root: &str, windows_path: &str) -> (r: String)
    ensures
        r@ == without_trailing_slashes(host_root@) + "/"@ + without_leading_slashes(
            text::replaced(windows_path@, '\\', '/'),
        ),
        r@ == under_host(host_root@, windows_path@),
{
    let relative = text::replace_char(&text::to_chars(windows_path), '\\', '/');
    let mut from: usize = 0;
    assert(relative@.skip(0) == relative@);
    while from < relative.len() && relative[from] == '/'
        invariant
            from <= relative.len(),
            without_leading_slashes(relative@) == without_leading_slashes(
                relative@.skip(from as int),
            ),
        decreases relative.len() - from,
    {
        assert(relative@.skip(from as int).skip(1) == relative@.skip(from + 1));
        from += 1;
    }
    let root = text::to_chars(host_root);
    let mut to: usize = root.len();
    assert(root@.take(root@.len() as int) == root@);
    while to > 0 && root[to - 1] == '/'
        invariant
            to <= root.len(),
            without_trailing_slashes(root@) == without_trailing_slashes(root@.take(to as int)),
        decreases to,
    {
        assert(root@.take(to as int).drop_last() == root@.take(to - 1));
        to -= 1;
    }
    let head = text::part(&root, 0, to);
    let tail = text::part(&relative, from, relative.len());
    proof {
        assert(head@ == root@.take(to as int));
        assert(tail@ == relative@.skip(from as int));
    }
    text::cat3(text::from_chars(&head).as_str(), "/", text::from_chars(&tail).as_str())
}

// ---------------------------------------------------------------------------
// Laws
// ---------------------------------------------------------------------------

/// A name that merely begins like the root is outside it: what follows the root has to be a
/// separator.
pub proof fn siblings_are_outside(root: Seq<char>, suffix: Seq<char>)
    requires
        root.len() > 0,
        root.last() != '/',
        suffix.len() > 0,
    ensures
        covers(root, root + suffix) <==> suffix[0] == '/',
{
    reveal_strlit("/");
    let path = root + suffix;
    let mark = root + "/"@;
    if suffix[0] == '/' {
        assert(path.take(mark.len() as int) == mark);
    } else {
        assert(path != root);
        if text::starts_with(path, mark) {
            assert(path.take(mark.len() as int)[root.len() as int] == mark[root.len() as int]);
        }
    }
}

/// The root is inside itself, and containment carries over: what is inside a directory inside the
/// root is inside the root.
pub proof fn containment_is_transitive(root: Seq<char>, directory: Seq<char>, path: Seq<char>)
    requires
        covers(root, directory),
        covers(directory, path),
    ensures
        covers(root, root),
        covers(root, path),
{
    reveal_strlit("/");
    if directory != root && path != directory {
        let inner = marked(directory);
        let outer = marked(root);
        assert(path.take(inner.len() as int).take(outer.len() as int) == path.take(
            outer.len() as int,
        ));
        assert(inner.take(outer.len() as int) == directory.take(outer.len() as int));
    }
}

/// It does not matter which separator a path is written with, or whether with both: two spellings
/// that differ in nothing else have the same comparable form and lie inside the same roots.
pub proof fn separator_style_is_ignored(root: Seq<char>, path: Seq<char>, spelling: Seq<char>)
    requires
        slashed(spelling) == slashed(path) || spelling == text::replaced(path, '/', '\\')
            || spelling == text::replaced(path, '\\', '/'),
    ensures
        canonical(spelling) == canonical(path),
        within(root, spelling) == within(root, path),
        within(spelling, root) == within(path, root),
{
    assert(slashed(spelling) == slashed(path));
    let n = path.len();
    assert(spelling.len() == n) by {
        assert(slashed(spelling).len() == slashed(path).len());
    }
    assert forall|i: int| 0 <= i < n implies {
        &&& is_separator(path[i]) == is_separator(spelling[i])
        &&& text::is_space(path[i]) == text::is_space(spelling[i])
    } by {
        assert(slashed(path)[i] == slashed(spelling)[i]);
    }
    assert(text::is_blank(path) == text::is_blank(spelling)) by {
        assert(forall|i: int| 0 <= i < n ==> text::is_space(path[i]) == text::is_space(spelling[i]));
    }
    assert(names_nothing(path) == names_nothing(spelling));
}

/// What is handed on to be opened lies inside the root: the path with native separators is covered
/// by the root, just as the path that was asked for.
pub proof fn what_is_handed_on_is_inside(root: Seq<char>, path: Seq<char>)
    requires
        refusal(root, path) is None,
    ensures
        covers(canonical(root), canonical(text::replaced(path, '/', '\\'))),
        within(root, text::replaced(path, '/', '\\')),
{
    separator_style_is_ignored(root, path, text::replaced(path, '/', '\\'));
}

// ---------------------------------------------------------------------------
// Letter case
// ---------------------------------------------------------------------------

proof fn next_name_bounds(p: Seq<char>, i: int)
    requires
        0 <= i <= p.len(),
    ensures
        i <= next_name(p, i) <= p.len(),
        next_name(p, i) < p.len() ==> p[next_name(p, i)] != '/',
    decreases p.len() - i,
{
    if i < p.len() && p[i] == '/' {
        next_name_bounds(p, i + 1);
    }
}

proof fn next_plain_bounds(p: Seq<char>, i: int)
    requires
        0 <= i <= p.len(),
    ensures
        i <= next_plain(p, i) <= p.len(),
    decreases p.len() - i,
{
    next_name_bounds(p, i);
    let a = next_name(p, i);
    if a < p.len() {
        text::next_sep_bounds(p, '/', a + 1);
        next_plain_bounds(p, text::next_sep(p, '/', a));
    }
}

proof fn prefix_bounds(p: Seq<char>)
    ensures
        0 <= prefix_len(p) <= p.len(),
        has_server(p) ==> 2 <= server_end(p) <= share_start(p) <= prefix_len(p),
{
    if has_server(p) {
        text::next_sep_bounds(p, '/', 2);
        next_plain_bounds(p, server_end(p));
        text::next_sep_bounds(p, '/', share_start(p));
    }
}

proof fn pieces_are_ascii(s: Seq<char>, i: int)
    requires
        0 <= i <= s.len(),
        is_ascii_chars(s),
    ensures
        forall|k: int|
            0 <= k < text::pieces(s, '/', i).len() ==> is_ascii_chars(
                #[trigger] text::pieces(s, '/', i)[k],
            ),
    decreases s.len() - i,
{
    text::next_sep_bounds(s, '/', i);
    let n = text::next_sep(s, '/', i);
    if n < s.len() {
        pieces_are_ascii(s, n + 1);
        let rest = text::pieces(s, '/', n + 1);
        assert forall|k: int| 0 <= k < (seq![s.subrange(i, n)] + rest).len() implies is_ascii_chars(
            #[trigger] (seq![s.subrange(i, n)] + rest)[k],
        ) by {
            if k > 0 {
                assert((seq![s.subrange(i, n)] + rest)[k] == rest[k - 1]);
            }
        }
    }
}

proof fn resolved_is_ascii(parts: Seq<Seq<char>>)
    requires
        forall|k: int| 0 <= k < parts.len() ==> is_ascii_chars(#[trigger] parts[k]),
    ensures
        forall|k: int|
            0 <= k < segments::resolved(parts).len() ==> is_ascii_chars(
                #[trigger] segments::resolved(parts)[k],
            ),
    decreases parts.len(),
{
    if parts.len() > 0 {
        let before = parts.drop_last();
        assert forall|k: int| 0 <= k < before.len() implies is_ascii_chars(#[trigger] before[k]) by {
            assert(before[k] == parts[k]);
        }
        resolved_is_ascii(before);
        let names = segments::resolved(before);
        let after = segments::resolved(parts);
        assert(is_ascii_chars(parts[parts.len() - 1]));
        assert forall|k: int| 0 <= k < after.len() implies is_ascii_chars(#[trigger] after[k]) by {
            if k < names.len() {
                assert(after[k] == names[k]);
            }
        }
    }
}

proof fn joined_is_ascii(parts: Seq<Seq<char>>)
    requires
        forall|k: int| 0 <= k < parts.len() ==> is_ascii_chars(#[trigger] parts[k]),
    ensures
        is_ascii_chars(text::joined(parts, "/"@)),
    decreases parts.len(),
{
    reveal_strlit("/");
    if parts.len() > 1 {
        let before = parts.drop_last();
        assert forall|k: int| 0 <= k < before.len() implies is_ascii_chars(#[trigger] before[k]) by {
            assert(before[k] == parts[k]);
        }
        joined_is_ascii(before);
        assert(is_ascii_chars(parts[parts.len() - 1]));
    } else if parts.len() == 1 {
        assert(is_ascii_chars(parts[0]));
    }
}

/// What a path in ASCII is taken apart into is ASCII.
proof fn parts_are_ascii(p: Seq<char>)
    requires
        is_ascii_chars(p),
    ensures
        is_ascii_chars(prefix_of(p)),
        is_ascii_chars(body(p)),
{
    reveal_strlit("/");
    prefix_bounds(p);
    pieces_are_ascii(p.skip(prefix_len(p)), 0);
    resolved_is_ascii(below(p));
    joined_is_ascii(segments::resolved(below(p)));
}

/// Texts, each with its ASCII letters in lower case.
pub open spec fn lowered(parts: Seq<Seq<char>>) -> Seq<Seq<char>> {
    parts.map_values(|s: Seq<char>| text::ascii_lowered(s))
}

proof fn lower_keeps_ends(p: Seq<char>, i: int)
    requires
        0 <= i <= p.len(),
    ensures
        text::next_sep(text::ascii_lowered(p), '/', i) == text::next_sep(p, '/', i),
        next_name(text::ascii_lowered(p), i) == next_name(p, i),
    decreases p.len() - i,
{
    if i < p.len() {
        assert(text::ascii_lowered(p)[i] == text::ascii_lower(p[i]));
        lower_keeps_ends(p, i + 1);
    }
}

proof fn lower_keeps_pieces(s: Seq<char>, i: int)
    requires
        0 <= i <= s.len(),
    ensures
        text::pieces(text::ascii_lowered(s), '/', i) == lowered(text::pieces(s, '/', i)),
    decreases s.len() - i,
{
    text::next_sep_bounds(s, '/', i);
    lower_keeps_ends(s, i);
    let n = text::next_sep(s, '/', i);
    if n < s.len() {
        lower_keeps_pieces(s, n + 1);
        assert(text::ascii_lowered(s).subrange(i, n) == text::ascii_lowered(s.subrange(i, n)));
        assert(lowered(seq![s.subrange(i, n)] + text::pieces(s, '/', n + 1)) == seq![
            text::ascii_lowered(s.subrange(i, n)),
        ] + lowered(text::pieces(s, '/', n + 1)));
    } else {
        let tail = s.subrange(i, s.len() as int);
        assert(text::ascii_lowered(s).subrange(i, s.len() as int) == text::ascii_lowered(tail));
        assert(lowered(seq![tail]) == seq![text::ascii_lowered(tail)]);
    }
}

proof fn lower_keeps_dots(s: Seq<char>)
    ensures
        (text::ascii_lowered(s) == Seq::<char>::empty()) == (s == Seq::<char>::empty()),
        (text::ascii_lowered(s) == seq!['.']) == (s == seq!['.']),
        (text::ascii_lowered(s) == seq!['.', '.']) == (s == seq!['.', '.']),
{
    let t = text::ascii_lowered(s);
    assert(t.len() == s.len());
    if s.len() == 0 {
        assert(s == Seq::<char>::empty());
        assert(t == Seq::<char>::empty());
    } else if s.len() == 1 {
        assert(t[0] == text::ascii_lower(s[0]));
        assert((t == seq!['.']) == (t[0] == '.')) by {
            if t[0] == '.' {
                assert(t =~= seq!['.']);
            }
        }
        assert((s == seq!['.']) == (s[0] == '.')) by {
            if s[0] == '.' {
                assert(s =~= seq!['.']);
            }
        }
    } else if s.len() == 2 {
        assert(t[0] == text::ascii_lower(s[0]) && t[1] == text::ascii_lower(s[1]));
        assert((t == seq!['.', '.']) == (t[0] == '.' && t[1] == '.')) by {
            if t[0] == '.' && t[1] == '.' {
                assert(t =~= seq!['.', '.']);
            } else {
                assert(seq!['.', '.'][0] == '.' && seq!['.', '.'][1] == '.');
            }
        }
        assert((s == seq!['.', '.']) == (s[0] == '.' && s[1] == '.')) by {
            if s[0] == '.' && s[1] == '.' {
                assert(s =~= seq!['.', '.']);
            } else {
                assert(seq!['.', '.'][0] == '.' && seq!['.', '.'][1] == '.');
            }
        }
    }
    assert(seq!['.'].len() == 1 && seq!['.', '.'].len() == 2);
}

proof fn lower_keeps_resolution(parts: Seq<Seq<char>>)
    ensures
        segments::resolved(lowered(parts)) == lowered(segments::resolved(parts)),
    decreases parts.len(),
{
    let low = lowered(parts);
    if parts.len() > 0 {
        lower_keeps_resolution(parts.drop_last());
        lower_keeps_dots(parts.last());
        assert(low.drop_last() == lowered(parts.drop_last()));
        assert(low.last() == text::ascii_lowered(parts.last()));
        let names = segments::resolved(parts.drop_last());
        assert(lowered(names.push(parts.last())) == lowered(names).push(text::ascii_lowered(parts.last())));
        if names.len() > 0 {
            assert(lowered(names.drop_last()) == lowered(names).drop_last());
        }
    } else {
        assert(lowered(segments::resolved(parts)) == Seq::<Seq<char>>::empty());
    }
}

proof fn lower_keeps_climbing(parts: Seq<Seq<char>>)
    ensures
        segments::climbs(lowered(parts)) == segments::climbs(parts),
{
    let low = lowered(parts);
    assert forall|k: int| 0 <= k < parts.len() implies {
        &&& (#[trigger] low[k] == seq!['.', '.']) == (parts[k] == seq!['.', '.'])
        &&& segments::resolved(low.take(k)).len() == segments::resolved(parts.take(k)).len()
    } by {
        lower_keeps_dots(parts[k]);
        lower_keeps_resolution(parts.take(k));
        assert(low.take(k) == lowered(parts.take(k)));
    }
    if segments::climbs(parts) {
        let k = choose|k: int|
            0 <= k < parts.len() && #[trigger] parts[k] == seq!['.', '.'] && segments::resolved(
                parts.take(k),
            ).len() == 0;
        assert(low[k] == seq!['.', '.']);
    }
    if segments::climbs(low) {
        let k = choose|k: int|
            0 <= k < low.len() && #[trigger] low[k] == seq!['.', '.'] && segments::resolved(
                low.take(k),
            ).len() == 0;
        assert(parts[k] == seq!['.', '.']);
    }
}

proof fn lower_keeps_joining(parts: Seq<Seq<char>>)
    ensures
        text::joined(lowered(parts), "/"@) == text::ascii_lowered(text::joined(parts, "/"@)),
    decreases parts.len(),
{
    reveal_strlit("/");
    if parts.len() > 1 {
        lower_keeps_joining(parts.drop_last());
        assert(lowered(parts).drop_last() == lowered(parts.drop_last()));
        assert(text::ascii_lowered(text::joined(parts.drop_last(), "/"@) + "/"@ + parts.last()) == text::ascii_lowered(
            text::joined(parts.drop_last(), "/"@),
        ) + "/"@ + text::ascii_lowered(parts.last()));
    } else if parts.len() == 1 {
        assert(text::joined(lowered(parts), "/"@) == text::ascii_lowered(parts[0]));
    } else {
        assert(text::joined(lowered(parts), "/"@) == Seq::<char>::empty());
        assert(text::ascii_lowered(text::joined(parts, "/"@)) == Seq::<char>::empty());
    }
}

proof fn lower_keeps_plain(p: Seq<char>, i: int)
    requires
        0 <= i <= p.len(),
    ensures
        next_plain(text::ascii_lowered(p), i) == next_plain(p, i),
    decreases p.len() - i,
{
    let q = text::ascii_lowered(p);
    lower_keeps_ends(p, i);
    next_name_bounds(p, i);
    let a = next_name(p, i);
    if a < p.len() {
        text::next_sep_bounds(p, '/', a + 1);
        lower_keeps_ends(p, a);
        let b = text::next_sep(p, '/', a);
        assert(q.subrange(a, b) == text::ascii_lowered(p.subrange(a, b)));
        lower_keeps_dots(p.subrange(a, b));
        lower_keeps_plain(p, b);
    }
}

/// A path is taken apart in the same way whatever the case of its ASCII letters.
proof fn lower_keeps_parts(p: Seq<char>)
    ensures
        has_drive(text::ascii_lowered(p)) == has_drive(p),
        has_server(text::ascii_lowered(p)) == has_server(p),
        prefix_len(text::ascii_lowered(p)) == prefix_len(p),
        prefix_of(text::ascii_lowered(p)) == text::ascii_lowered(prefix_of(p)),
        body(text::ascii_lowered(p)) == text::ascii_lowered(body(p)),
        segments::climbs(below(text::ascii_lowered(p))) == segments::climbs(below(p)),
        has_share(text::ascii_lowered(p)) == has_share(p),
{
    reveal_strlit("/");
    let q = text::ascii_lowered(p);
    prefix_bounds(p);
    if p.len() >= 2 {
        assert(q[0] == text::ascii_lower(p[0]) && q[1] == text::ascii_lower(p[1]));
        lower_keeps_ends(p, 2);
        if has_server(p) {
            lower_keeps_plain(p, server_end(p));
            lower_keeps_ends(p, share_start(p));
        }
    }
    assert(prefix_of(q) =~= text::ascii_lowered(prefix_of(p)));
    let rest = p.skip(prefix_len(p));
    assert(q.skip(prefix_len(q)) == text::ascii_lowered(rest));
    lower_keeps_pieces(rest, 0);
    lower_keeps_resolution(below(p));
    lower_keeps_climbing(below(p));
    lower_keeps_joining(segments::resolved(below(p)));
}

/// Neither the separators of a path nor the case of its ASCII letters matter: two spellings that
/// differ in nothing else have the same comparable form and lie inside the same roots.
pub proof fn case_and_style_are_ignored(root: Seq<char>, path: Seq<char>, spelling: Seq<char>)
    requires
        text::ascii_lowered(slashed(spelling)) == text::ascii_lowered(slashed(path)),
    ensures
        canonical(spelling) == canonical(path),
        within(root, spelling) == within(root, path),
{
    let p = slashed(path);
    let q = slashed(spelling);
    lower_keeps_parts(p);
    lower_keeps_parts(q);
    assert(p.len() == q.len()) by {
        assert(text::ascii_lowered(p).len() == text::ascii_lowered(q).len());
    }
    if p.len() > 2 {
        assert(text::ascii_lowered(p)[2] == text::ascii_lower(p[2]));
        assert(text::ascii_lowered(q)[2] == text::ascii_lower(q[2]));
    }
}

/// The path of plain names from the top of a drive.
pub open spec fn drive_path(drive: char, names: Seq<Seq<char>>) -> Seq<char> {
    seq![drive, ':', '/'] + text::joined(names, seq!['/'])
}

/// Names of files and directories: not empty, not a dot or two, and without a separator of either
/// style.
pub open spec fn are_plain(names: Seq<Seq<char>>) -> bool {
    forall|i: int|
        0 <= i < names.len() ==> (#[trigger] names[i]).len() > 0 && names[i] != seq!['.'] && names[i]
            != seq!['.', '.'] && !names[i].contains('/') && !names[i].contains('\\')
}

proof fn joined_keeps_out_backslashes(names: Seq<Seq<char>>)
    requires
        are_plain(names),
    ensures
        !text::joined(names, seq!['/']).contains('\\'),
    decreases names.len(),
{
    let whole = text::joined(names, seq!['/']);
    if names.len() == 1 {
        assert(!names[0].contains('\\'));
    } else if names.len() > 1 {
        let before = names.drop_last();
        joined_keeps_out_backslashes(before);
        assert(!names[names.len() - 1].contains('\\'));
        let head = text::joined(before, seq!['/']);
        if whole.contains('\\') {
            let k = choose|k: int| 0 <= k < whole.len() && whole[k] == '\\';
            if k < head.len() {
                assert(head[k] == '\\');
            } else if k > head.len() {
                assert(names.last()[k - head.len() - 1] == '\\');
            }
        }
    }
}

/// The comparable form of a path of plain names on a drive is the path itself, with its ASCII letters
/// in lower case: no name is dropped, joined to another or moved.
pub proof fn drive_paths_keep_their_names(drive: char, names: Seq<Seq<char>>)
    requires
        ('a' <= drive && drive <= 'z') || ('A' <= drive && drive <= 'Z'),
        names.len() > 0,
        are_plain(names),
    ensures
        segments::resolved(below(drive_path(drive, names))) == names,
        plain(drive_path(drive, names)) == text::ascii_lowered(drive_path(drive, names)),
        !is_drive_relative(drive_path(drive, names)),
        !climbs_out_of_share(drive_path(drive, names)),
        !is_bare_server(drive_path(drive, names)),
{
    reveal_strlit("/");
    let path = drive_path(drive, names);
    let tail = text::joined(names, seq!['/']);
    joined_keeps_out_backslashes(names);
    assert(slashed(path) =~= path) by {
        assert forall|i: int| 0 <= i < path.len() implies path[i] != '\\' by {
            if i >= 3 {
                assert(path[i] == tail[i - 3]);
                assert(tail.contains(tail[i - 3]));
            }
        }
    }
    let empty = Seq::<char>::empty();
    assert(path.skip(2) =~= empty + seq!['/'] + tail);
    text::splits_at_the_first_separator(empty, '/', tail);
    assert forall|i: int| 0 <= i < names.len() implies !(#[trigger] names[i]).contains('/') by {}
    text::splitting_undoes_joining(names, '/');
    segments::plain_names_resolve_to_themselves(names);
    assert("/"@ =~= seq!['/']);
    assert(body(path) == tail);
    assert(tail.len() > 0) by {
        joined_is_not_empty(names);
    }
    assert(plain(path) =~= text::ascii_lowered(path));
}

proof fn joined_is_not_empty(names: Seq<Seq<char>>)
    requires
        names.len() > 0,
        are_plain(names),
    ensures
        text::joined(names, seq!['/']).len() > 0,
{
    assert(names[0].len() > 0);
}

/// Everything below a root is inside it, at any depth, and so is the root itself, in either case of
/// the ASCII letters.
pub proof fn what_is_below_a_root_is_covered(
    drive: char,
    root: Seq<Seq<char>>,
    rest: Seq<Seq<char>>,
)
    requires
        ('a' <= drive && drive <= 'z') || ('A' <= drive && drive <= 'Z'),
        root.len() > 0,
        rest.len() > 0,
        are_plain(root),
        are_plain(rest),
    ensures
        covers(plain(drive_path(drive, root)), plain(drive_path(drive, root + rest))),
        covers(plain(drive_path(drive, root)), plain(drive_path(drive, root))),
        !names_nothing(drive_path(drive, root)),
{
    reveal_strlit("/");
    let both = root + rest;
    assert forall|i: int| 0 <= i < both.len() implies (#[trigger] both[i]).len() > 0 && both[i]
        != seq!['.'] && both[i] != seq!['.', '.'] && !both[i].contains('/') && !both[i].contains(
        '\\',
    ) by {
        if i < root.len() {
            assert(both[i] == root[i]);
        } else {
            assert(both[i] == rest[i - root.len()]);
        }
    }
    drive_paths_keep_their_names(drive, root);
    drive_paths_keep_their_names(drive, both);
    joined_goes_on(root, rest);
    let a = drive_path(drive, root);
    let b = drive_path(drive, both);
    let mark = plain(a) + "/"@;
    assert(text::ascii_lower('/') == '/');
    assert(plain(b).take(mark.len() as int) =~= mark);
    joined_is_not_empty(root);
    let end = plain(a).last();
    assert(marked(plain(a)) == mark || end == '/');
    if end == '/' {
        assert(plain(b).take(plain(a).len() as int) =~= plain(a));
    }
    assert(a[1] == ':');
    assert(!is_separator(a[1]));
    assert(!text::is_space(a[1]));
}

proof fn joined_goes_on(root: Seq<Seq<char>>, rest: Seq<Seq<char>>)
    requires
        root.len() > 0,
        rest.len() > 0,
    ensures
        text::joined(root + rest, seq!['/']) == text::joined(root, seq!['/']) + seq!['/']
            + text::joined(rest, seq!['/']),
    decreases rest.len(),
{
    let both = root + rest;
    if rest.len() == 1 {
        assert(both.drop_last() =~= root);
    } else {
        joined_goes_on(root, rest.drop_last());
        assert(both.drop_last() =~= root + rest.drop_last());
        let (a, b) = (text::joined(root, seq!['/']), text::joined(rest.drop_last(), seq!['/']));
        assert((a + seq!['/'] + b) + seq!['/'] + rest.last() =~= a + seq!['/'] + (b + seq!['/']
            + rest.last()));
    }
}

/// A path is refused exactly where there is no root to hold it against, it is blank, or it is outside
/// the root, in that order; and what is refused as outside is shown in its comparable form.
pub proof fn refusals_say_why(root: Seq<char>, path: Seq<char>)
    ensures
        refusal(root, path) is None <==> !text::is_blank(root) && !text::is_blank(path) && within(
            root,
            path,
        ),
        text::is_blank(root) ==> refusal(root, path) == Some(
            "no guest root configured; refusing to resolve any path"@,
        ),
        !text::is_blank(root) && text::is_blank(path) ==> refusal(root, path) == Some(
            "empty path"@,
        ),
{
}

/// A Windows path goes below the directory of the host, with one separator between the two and every
/// backslash turned, whatever separators the directory ends with and the path begins with.
pub proof fn windows_paths_go_below_the_directory(
    root: Seq<char>,
    path: Seq<char>,
    more: Seq<char>,
)
    requires
        root.len() > 0 ==> root.last() != '/',
        path.len() > 0 ==> path[0] != '/' && path[0] != '\\',
        forall|i: int| 0 <= i < more.len() ==> #[trigger] more[i] == '/',
    ensures
        under_host(root, path) == root + seq!['/'] + Seq::new(
            path.len(),
            |i: int|
                if path[i] == '\\' {
                    '/'
                } else {
                    path[i]
                },
        ),
        under_host(root + more, path) == under_host(root, path),
        under_host(root, more + path) == under_host(root, path),
        under_host(root, seq!['\\'] + path) == under_host(root, path),
{
    reveal_strlit("/");
    trailing_slashes_go(root, more);
    trailing_slashes_go(root, Seq::empty());
    let turned = text::replaced(path, '\\', '/');
    leading_slashes_go(more, turned);
    leading_slashes_go(Seq::empty(), turned);
    leading_slashes_go(seq!['/'], turned);
    assert(root + Seq::<char>::empty() =~= root);
    assert(Seq::<char>::empty() + turned =~= turned);
    assert(text::replaced(more + path, '\\', '/') =~= more + turned);
    assert(text::replaced(seq!['\\'] + path, '\\', '/') =~= seq!['/'] + turned);
    assert(turned =~= Seq::new(
        path.len(),
        |i: int|
            if path[i] == '\\' {
                '/'
            } else {
                path[i]
            },
    ));
    assert("/"@ =~= seq!['/']);
}

proof fn trailing_slashes_go(root: Seq<char>, more: Seq<char>)
    requires
        root.len() > 0 ==> root.last() != '/',
        forall|i: int| 0 <= i < more.len() ==> #[trigger] more[i] == '/',
    ensures
        without_trailing_slashes(root + more) == root,
    decreases more.len(),
{
    let all = root + more;
    if more.len() == 0 {
        assert(all =~= root);
    } else {
        assert(all.last() == more[more.len() - 1]);
        assert(all.drop_last() =~= root + more.drop_last());
        trailing_slashes_go(root, more.drop_last());
    }
}

proof fn leading_slashes_go(more: Seq<char>, path: Seq<char>)
    requires
        path.len() > 0 ==> path[0] != '/',
        forall|i: int| 0 <= i < more.len() ==> #[trigger] more[i] == '/',
    ensures
        without_leading_slashes(more + path) == path,
    decreases more.len(),
{
    let all = more + path;
    if more.len() == 0 {
        assert(all =~= path);
    } else {
        assert(all[0] == more[0]);
        assert(all.skip(1) =~= more.skip(1) + path);
        assert forall|i: int| 0 <= i < more.skip(1).len() implies #[trigger] more.skip(1)[i] == '/' by {
            assert(more.skip(1)[i] == more[i + 1]);
        }
        leading_slashes_go(more.skip(1), path);
    }
}

/// What tells a drive, a share and a separator: a letter before a colon, two separators in front, and
/// either of the two slashes.
pub proof fn prefixes_are_told_so(path: Seq<char>, c: char)
    ensures
        has_drive(path) <==> path.len() >= 2 && path[1] == ':' && (('a' <= path[0] && path[0] <= 'z')
            || ('A' <= path[0] && path[0] <= 'Z')),
        has_server(path) <==> path.len() >= 2 && path[0] == '/' && path[1] == '/',
        is_separator(c) <==> c == '/' || c == '\\',
        is_drive_relative(path) <==> has_drive(path) && path.len() > 2 && path[2] != '/' && path[2]
            != '\\',
        slashed(path).len() == path.len(),
        forall|i: int|
            0 <= i < path.len() ==> #[trigger] slashed(path)[i] == (if path[i] == '\\' {
                '/'
            } else {
                path[i]
            }),
{
}

/// The share of a server is its prefix: what follows it is the path below, and `..` does not reach
/// above it. A server without a share covers no share of it.
pub proof fn shares_are_prefixes(server: Seq<char>, share: Seq<char>, names: Seq<Seq<char>>)
    requires
        are_plain(seq![server]),
        are_plain(seq![share]),
        names.len() > 0,
        are_plain(names),
    ensures
        ({
            let bare = seq!['/', '/'] + server;
            let path = bare + seq!['/'] + share + seq!['/'] + text::joined(names, seq!['/']);
            &&& is_bare_server(bare)
            &&& !is_bare_server(path)
            &&& prefix_of(path) == bare + seq!['/'] + share
            &&& segments::resolved(below(path)) == names
            &&& plain(path) == text::ascii_lowered(path)
        }),
{
    reveal_strlit("/");
    let bare = seq!['/', '/'] + server;
    let tail = text::joined(names, seq!['/']);
    let path = bare + seq!['/'] + share + seq!['/'] + tail;
    assert(seq![server][0] == server && seq![share][0] == share);
    assert(server.len() > 0 && share.len() > 0);
    joined_keeps_out_backslashes(names);
    joined_is_not_empty(names);
    let n = bare.len() as int;
    let m = n + 1 + share.len();
    no_backslashes(server);
    no_backslashes(share);
    no_backslashes(tail);
    assert(slashed(path) =~= path) by {
        assert forall|i: int| 0 <= i < path.len() implies path[i] != '\\' by {
            if 2 <= i < n {
                assert(path[i] == server[i - 2]);
            } else if n < i < m {
                assert(path[i] == share[i - n - 1]);
            } else if i > m {
                assert(path[i] == tail[i - m - 1]);
            }
        }
    }
    assert(slashed(bare) =~= bare) by {
        assert forall|i: int| 0 <= i < bare.len() implies bare[i] != '\\' by {
            if i >= 2 {
                assert(bare[i] == server[i - 2]);
            }
        }
    }
    assert(server.contains(server[0]) && share.contains(share[0]));
    assert(bare[0] == '/' && bare[1] == '/' && path[0] == '/' && path[1] == '/');
    assert forall|k: int| 2 <= k < n implies #[trigger] path[k] != '/' && bare[k] != '/' by {
        assert(path[k] == server[k - 2] && bare[k] == server[k - 2]);
        assert(server.contains(server[k - 2]));
    }
    assert forall|k: int| n < k < m implies #[trigger] path[k] != '/' by {
        assert(path[k] == share[k - n - 1]);
        assert(share.contains(share[k - n - 1]));
    }
    assert(path[n] == '/' && path[m] == '/');
    sep_is_first(path, 2, n);
    sep_is_first(bare, 2, n);
    sep_is_first(path, n + 1, m);
    assert(server_end(path) == n && server_end(bare) == n);
    assert(next_name(path, n) == n + 1) by {
        assert(next_name(path, n + 1) == n + 1);
    }
    assert(path.subrange(n + 1, m) =~= share);
    assert(next_plain(path, n) == n + 1);
    assert(next_name(bare, n) == n);
    assert(next_plain(bare, n) == n);
    assert(prefix_len(path) == m);
    assert(path.take(n) =~= bare);
    assert("/"@ =~= seq!['/']);
    assert(prefix_of(path) =~= bare + seq!['/'] + share);
    let empty = Seq::<char>::empty();
    assert(path.skip(m) =~= empty + seq!['/'] + tail);
    text::splits_at_the_first_separator(empty, '/', tail);
    assert forall|i: int| 0 <= i < names.len() implies !(#[trigger] names[i]).contains('/') by {}
    text::splitting_undoes_joining(names, '/');
    segments::plain_names_resolve_to_themselves(names);
    assert(body(path) == tail);
    assert(plain(path) =~= text::ascii_lowered(path));
}

proof fn no_backslashes(s: Seq<char>)
    requires
        !s.contains('\\'),
    ensures
        forall|i: int| 0 <= i < s.len() ==> #[trigger] s[i] != '\\',
{
    assert forall|i: int| 0 <= i < s.len() implies #[trigger] s[i] != '\\' by {
        assert(s.contains(s[i]));
    }
}

proof fn sep_is_first(s: Seq<char>, i: int, n: int)
    requires
        0 <= i <= n <= s.len(),
        n < s.len() ==> s[n] == '/',
        forall|k: int| i <= k < n ==> #[trigger] s[k] != '/',
    ensures
        text::next_sep(s, '/', i) == n,
    decreases n - i,
{
    if i < n {
        sep_is_first(s, i + 1, n);
    }
}

} // verus!
