//! Host environment checks: what was found on a machine, and what a user should do about it.
//!
//! The `kvm` group check exists because it is the most common reason that an install succeeds and a
//! VM never starts: the device belongs to a group, and a user who is not in it gets a permission
//! error that looks like a missing feature.
use crate::text;
use vstd::prelude::*;
use vstd::string::*;

verus! {

// ---------------------------------------------------------------------------
// The report
// ---------------------------------------------------------------------------

/// Outcome of one check.
#[derive(Debug, Clone, Copy, PartialEq, Eq, Structural)]
pub enum Status {
    /// As it should be.
    Pass,
    /// An optional capability is missing.
    Warn,
    /// Something needed is missing.
    Fail,
}

impl Status {
    /// How a status is shown, in four columns.
    pub open spec fn shown(self) -> Seq<char> {
        match self {
            Status::Pass => "ok  "@,
            Status::Warn => "warn"@,
            Status::Fail => "FAIL"@,
        }
    }

    /// How a status is shown, in four columns.
    pub fn label(self) -> (r: &'static str)
        ensures
            r@ == self.shown(),
    {
        match self {
            Status::Pass => "ok  ",
            Status::Warn => "warn",
            Status::Fail => "FAIL",
        }
    }
}

/// One check and its outcome.
#[derive(Debug, Clone, PartialEq, Eq)]
pub struct Check {
    /// What was checked.
    pub name: &'static str,
    /// The outcome.
    pub status: Status,
    /// What was found.
    pub detail: String,
    /// What the user should do about it, when there is something to do.
    pub hint: Option<String>,
}

/// What a check holds.
pub struct CheckView {
    /// What was checked.
    pub name: Seq<char>,
    /// The outcome.
    pub status: Status,
    /// What was found.
    pub detail: Seq<char>,
    /// What the user should do about it.
    pub hint: Option<Seq<char>>,
}

impl Check {
    /// What this check holds.
    pub open spec fn view(&self) -> CheckView {
        CheckView {
            name: self.name@,
            status: self.status,
            detail: self.detail@,
            hint: text::opt_view(self.hint),
        }
    }
}

/// What each check of a list holds.
pub open spec fn check_views(checks: Seq<Check>) -> Seq<CheckView> {
    checks.map_values(|c: Check| c@)
}

/// How many checks of a list have a status.
pub open spec fn count(checks: Seq<CheckView>, status: Status) -> nat
    decreases checks.len(),
{
    if checks.len() == 0 {
        0
    } else {
        count(checks.drop_last(), status) + if checks.last().status == status {
            1nat
        } else {
            0nat
        }
    }
}

/// How a check is shown: one line, and one for the hint where there is one.
pub open spec fn check_shown(c: CheckView) -> Seq<char> {
    let line = "  ["@ + c.status.shown() + "] "@ + text::padded(c.name, 22) + " "@ + c.detail + "\n"@;
    match c.hint {
        Some(hint) => line + ("         -> "@ + hint + "\n"@),
        None => line,
    }
}

/// How checks are shown, one after the other.
pub open spec fn checks_shown(checks: Seq<CheckView>) -> Seq<char>
    decreases checks.len(),
{
    if checks.len() == 0 {
        Seq::empty()
    } else {
        checks_shown(checks.drop_last()) + check_shown(checks.last())
    }
}

/// The last line of a report.
pub open spec fn verdict(checks: Seq<CheckView>) -> Seq<char> {
    let fails = count(checks, Status::Fail);
    let warns = count(checks, Status::Warn);
    if fails == 0 {
        "passed with "@ + text::decimal(warns) + " warning(s)\n"@
    } else {
        text::decimal(fails) + " check(s) failed, "@ + text::decimal(warns) + " warning(s)\n"@
    }
}

/// How a report is shown.
pub open spec fn report_shown(checks: Seq<CheckView>) -> Seq<char> {
    "wvm doctor\n\n"@ + checks_shown(checks) + "\n"@ + verdict(checks)
}

/// How a check is shown.
fn show_check(c: &Check) -> (r: String)
    ensures
        r@ == check_shown(c@),
{
    let name = text::pad(c.name, 22);
    let line = text::cat7(
        "  [",
        c.status.label(),
        "] ",
        name.as_str(),
        " ",
        c.detail.as_str(),
        "\n",
    );
    match &c.hint {
        Some(hint) => {
            let advice = text::cat3("         -> ", hint.as_str(), "\n");
            text::cat2(line.as_str(), advice.as_str())
        },
        None => line,
    }
}

/// The checks made on a host.
#[derive(Debug)]
pub struct Report {
    /// The checks, in the order in which they were made.
    pub checks: Vec<Check>,
}

impl Default for Report {
    fn default() -> (r: Report)
        ensures
            r@ == Seq::<CheckView>::empty(),
    {
        let r = Report { checks: Vec::new() };
        assert(check_views(r.checks@) == Seq::<CheckView>::empty());
        r
    }
}

impl Report {
    /// The checks made.
    pub open spec fn view(&self) -> Seq<CheckView> {
        check_views(self.checks@)
    }

    /// Add a check.
    fn push(&mut self, name: &'static str, status: Status, detail: String, hint: Option<String>)
        ensures
            final(self)@ == old(self)@.push(
                CheckView { name: name@, status, detail: detail@, hint: text::opt_view(hint) },
            ),
    {
        let c = Check { name, status, detail, hint };
        assert(check_views(self.checks@.push(c)) == check_views(self.checks@).push(c@));
        self.checks.push(c);
    }

    /// How many checks have a status.
    fn tally(&self, status: Status) -> (r: usize)
        ensures
            r == count(self@, status),
    {
        let ghost all = self@;
        let mut n: usize = 0;
        let mut i: usize = 0;
        assert(all.take(0) == Seq::<CheckView>::empty());
        while i < self.checks.len()
            invariant
                all == self@,
                i <= self.checks.len(),
                n <= i,
                n == count(all.take(i as int), status),
            decreases self.checks.len() - i,
        {
            proof {
                assert(all.take(i + 1).drop_last() == all.take(i as int));
                assert(all.take(i + 1).last() == self.checks@[i as int]@);
            }
            if self.checks[i].status == status {
                n += 1;
            }
            i += 1;
        }
        assert(all.take(self.checks@.len() as int) == all);
        n
    }

    /// Whether nothing failed. Warnings are permitted: they stand for optional capability.
    pub fn all_passed(&self) -> (r: bool)
        ensures
            r == (forall|i: int|
                0 <= i < self@.len() ==> (#[trigger] self@[i]).status != Status::Fail),
    {
        let fails = self.tally(Status::Fail);
        proof {
            none_counted(self@, Status::Fail);
        }
        fails == 0
    }

    /// The report as text.
    pub fn render(&self) -> (r: String)
        ensures
            r@ == report_shown(self@),
    {
        let ghost all = self@;
        let mut body = String::new();
        let mut i: usize = 0;
        assert(all.take(0) == Seq::<CheckView>::empty());
        assert(body@ == Seq::<char>::empty());
        while i < self.checks.len()
            invariant
                all == self@,
                i <= self.checks.len(),
                body@ == checks_shown(all.take(i as int)),
            decreases self.checks.len() - i,
        {
            proof {
                assert(all.take(i + 1).drop_last() == all.take(i as int));
                assert(all.take(i + 1).last() == self.checks@[i as int]@);
            }
            let line = show_check(&self.checks[i]);
            body = text::cat2(body.as_str(), line.as_str());
            i += 1;
        }
        assert(all.take(self.checks@.len() as int) == all);
        let fails = self.tally(Status::Fail);
        let warns = text::to_decimal(self.tally(Status::Warn) as u64);
        let last = if fails == 0 {
            text::cat3("passed with ", warns.as_str(), " warning(s)\n")
        } else {
            let failed = text::to_decimal(fails as u64);
            text::cat4(failed.as_str(), " check(s) failed, ", warns.as_str(), " warning(s)\n")
        };
        text::cat4("wvm doctor\n\n", body.as_str(), "\n", last.as_str())
    }

    // -----------------------------------------------------------------------
    // The checks
    // -----------------------------------------------------------------------

    /// The virtualisation device: present, and openable by the current user.
    ///
    /// Access can come from group membership or from an access control list. The check reports
    /// which, because the second is invisible to a user who looks at their groups. `group_file` is
    /// the text of the group database, where it could be read, and `primary` the number of the
    /// user's primary group.
    pub fn check_kvm(
        &mut self,
        device: Option<&KvmDevice>,
        group_file: Option<&str>,
        user: &str,
        primary: u32,
    )
        ensures
            final(self)@ == old(self)@.push(
                kvm_check(
                    match device {
                        Some(d) => Some(*d),
                        None => None,
                    },
                    match group_file {
                        Some(g) => Some(g@),
                        None => None,
                    },
                    user@,
                    primary as nat,
                ),
            ),
    {
        match device {
            None => {
                self.push(
                    "kvm device",
                    Status::Fail,
                    text::own("/dev/kvm does not exist"),
                    Some(
                        text::own(
                            "Enable AMD-V/VT-x in firmware, then: sudo modprobe kvm_amd (or kvm_intel)",
                        ),
                    ),
                );
            },
            Some(d) => {
                let group = match group_file {
                    Some(g) => match group_name_for_gid(g, d.gid) {
                        Some(name) => name,
                        None => text::to_decimal(d.gid as u64),
                    },
                    None => text::to_decimal(d.gid as u64),
                };
                match &d.refused {
                    None => {
                        let member = match group_file {
                            Some(g) => user_in_group(g, group.as_str(), user, primary),
                            None => false,
                        };
                        let how = if member {
                            text::cat3("in the '", group.as_str(), "' group")
                        } else {
                            text::cat3("via an ACL (not a member of '", group.as_str(), "')")
                        };
                        let mode = to_octal(d.mode % 512);
                        self.push(
                            "kvm access",
                            Status::Pass,
                            text::cat4("/dev/kvm openable, mode ", mode.as_str(), ", ", how.as_str()),
                            None,
                        );
                    },
                    Some(e) => {
                        let hint = text::cat5(
                            "Add yourself to the '",
                            group.as_str(),
                            "' group: sudo usermod -aG ",
                            group.as_str(),
                            " $USER  (then log out and back in)",
                        );
                        self.push(
                            "kvm access",
                            Status::Fail,
                            text::cat2("/dev/kvm exists but is not openable: ", e.as_str()),
                            Some(hint),
                        );
                    },
                }
            },
        }
    }

    /// QEMU present: the first line of what it says of its version.
    pub fn check_qemu(&mut self, run: &Run)
        ensures
            final(self)@ == old(self)@.push(qemu_check(*run)),
    {
        match run {
            Run::Succeeded(stdout) => {
                let said = text::from_utf8_lossy(stdout);
                let lines = text::split_lines(&text::to_chars(said.as_str()));
                assert(text::char_views(lines@).len() == lines@.len());
                let first = if lines.len() > 0 {
                    assert(text::char_views(lines@)[0] == lines@[0]@);
                    text::from_chars(&lines[0])
                } else {
                    text::own("unknown")
                };
                self.push("qemu", Status::Pass, first, None);
            },
            Run::Failed => {
                self.push(
                    "qemu",
                    Status::Fail,
                    text::own("qemu-system-x86_64 ran but exited non-zero"),
                    Some(text::own("Reinstall QEMU for your distribution")),
                );
            },
            Run::Missing => {
                self.push(
                    "qemu",
                    Status::Fail,
                    text::own("qemu-system-x86_64 not found on PATH"),
                    Some(
                        text::own("Install qemu-system-x86 (Debian/Ubuntu) or qemu-full (Arch)"),
                    ),
                );
            },
        }
    }

    /// The optional socket transport. Its absence is a warning only: TCP is the default.
    pub fn check_vsock(&mut self, present: bool)
        ensures
            final(self)@ == old(self)@.push(vsock_check(present)),
    {
        if present {
            self.push(
                "vhost-vsock",
                Status::Pass,
                text::own("/dev/vhost-vsock present (optional transport available)"),
                None,
            );
        } else {
            self.push(
                "vhost-vsock",
                Status::Warn,
                text::own("not present; the vsock transport will be unavailable"),
                Some(text::own("Optional. The default TCP transport works without it.")),
            );
        }
    }

    /// What it takes to build the guest service here: the target's libraries and its linker.
    pub fn check_rust_targets(&mut self, targets: &Run, linker: bool)
        ensures
            final(self)@ == old(self)@.push(target_check(*targets)).push(linker_check(linker)),
    {
        match targets {
            Run::Succeeded(stdout) => {
                let installed = text::from_utf8_lossy(stdout);
                if text::includes(installed.as_str(), "x86_64-pc-windows-gnu") {
                    self.push(
                        "windows target",
                        Status::Pass,
                        text::own("x86_64-pc-windows-gnu installed"),
                        None,
                    );
                } else {
                    self.push(
                        "windows target",
                        Status::Warn,
                        text::own("x86_64-pc-windows-gnu not installed"),
                        Some(
                            text::own(
                                "Needed to build the guest service: rustup target add x86_64-pc-windows-gnu",
                            ),
                        ),
                    );
                }
            },
            _ => {
                self.push(
                    "windows target",
                    Status::Warn,
                    text::own("rustup not found; cannot verify cross-compilation target"),
                    Some(text::own("Install rustup if you intend to build the guest service")),
                );
            },
        }
        if linker {
            self.push(
                "mingw linker",
                Status::Pass,
                text::own("x86_64-w64-mingw32-gcc available"),
                None,
            );
        } else {
            self.push(
                "mingw linker",
                Status::Warn,
                text::own("x86_64-w64-mingw32-gcc not found"),
                Some(text::own("Install gcc-mingw-w64-x86-64 to link the guest service")),
            );
        }
    }

    /// Memory headroom: `kib` is the machine's memory and `gib` the same in GiB, as it is shown.
    pub fn check_resources(&mut self, kib: u64, gib: &str)
        ensures
            final(self)@ == old(self)@.push(memory_check(kib as nat, gib@)),
    {
        let detail = text::cat2(gib, " GiB total");
        if kib >= 8_388_608 {
            self.push("memory", Status::Pass, detail, None);
        } else {
            self.push(
                "memory",
                Status::Warn,
                detail,
                Some(text::own("8 GiB or more recommended for a Windows 11 guest")),
            );
        }
    }
}

/// No check with a status is counted where there is none.
proof fn none_counted(checks: Seq<CheckView>, status: Status)
    ensures
        (count(checks, status) == 0) == (forall|i: int|
            0 <= i < checks.len() ==> (#[trigger] checks[i]).status != status),
    decreases checks.len(),
{
    if checks.len() > 0 {
        let before = checks.drop_last();
        none_counted(before, status);
        assert(forall|i: int| 0 <= i < before.len() ==> #[trigger] before[i] == checks[i]);
        assert(checks[checks.len() - 1] == checks.last());
        if count(checks, status) == 0 {
            assert forall|i: int| 0 <= i < checks.len() implies (#[trigger] checks[i]).status
                != status by {
                if i < before.len() {
                    assert(before[i] == checks[i]);
                }
            }
        }
        if forall|i: int| 0 <= i < checks.len() ==> (#[trigger] checks[i]).status != status {
            assert forall|i: int| 0 <= i < before.len() implies (#[trigger] before[i]).status
                != status by {
                assert(before[i] == checks[i]);
            }
        }
    }
}

// ---------------------------------------------------------------------------
// What was found
// ---------------------------------------------------------------------------

/// The virtualisation device.
#[derive(Debug)]
pub struct KvmDevice {
    /// Its mode.
    pub mode: u32,
    /// The group it belongs to.
    pub gid: u32,
    /// Why it cannot be opened, where it cannot.
    pub refused: Option<String>,
}

/// A program that was run.
#[derive(Debug)]
pub enum Run {
    /// It succeeded, and printed this.
    Succeeded(Vec<u8>),
    /// It ran and failed.
    Failed,
    /// It could not be run.
    Missing,
}

/// The octal numeral of `n`, without leading zeros.
pub open spec fn octal(n: nat) -> Seq<char>
    decreases n,
{
    if n < 8 {
        seq![text::digit(n)]
    } else {
        octal(n / 8).push(text::digit(n % 8))
    }
}

/// The octal numeral of `n`.
fn to_octal(n: u32) -> (r: String)
    ensures
        r@ == octal(n as nat),
    decreases n,
{
    if n < 8 {
        let mut out = String::new();
        out.push((48u8 + n as u8) as char);
        assert(out@ == octal(n as nat));
        out
    } else {
        let mut out = to_octal(n / 8);
        out.push((48u8 + (n % 8) as u8) as char);
        out
    }
}

/// The name of a group by its number, from the lines of the group database. A line with a single
/// field ends the search.
pub open spec fn group_name(lines: Seq<Seq<char>>, gid: nat) -> Option<Seq<char>>
    decreases lines.len(),
{
    if lines.len() == 0 {
        None
    } else {
        let fields = text::split(lines[0], ':');
        if fields.len() < 2 {
            None
        } else if fields.len() >= 3 && text::numeral_up_to(fields[2], u32::MAX as nat) == Some(
            gid,
        ) {
            Some(fields[0])
        } else {
            group_name(lines.skip(1), gid)
        }
    }
}

/// Resolve a group number to a name, in the text of the group database.
pub fn group_name_for_gid(contents: &str, gid: u32) -> (r: Option<String>)
    ensures
        text::opt_view(r) == group_name(text::lines(contents@), gid as nat),
{
    let chars = text::to_chars(contents);
    let lines = text::split_lines(&chars);
    let ghost all = text::lines(contents@);
    let mut i: usize = 0;
    assert(all.skip(0) == all);
    assert(text::char_views(lines@).len() == lines@.len());
    while i < lines.len()
        invariant
            i <= lines.len(),
            all == text::lines(contents@),
            text::char_views(lines@) == all,
            all.len() == lines@.len(),
            group_name(all, gid as nat) == group_name(all.skip(i as int), gid as nat),
        decreases lines.len() - i,
    {
        proof {
            assert(text::char_views(lines@)[i as int] == lines@[i as int]@);
            assert(all.skip(i as int)[0] == lines@[i as int]@);
            assert(all.skip(i as int).skip(1) == all.skip(i + 1));
        }
        let fields = text::split_chars(&lines[i], ':');
        assert(text::char_views(fields@).len() == fields@.len());
        if fields.len() < 2 {
            return None;
        }
        assert(text::char_views(fields@)[0] == fields@[0]@);
        if fields.len() >= 3 {
            assert(text::char_views(fields@)[2] == fields@[2]@);
            match text::parse_u32(&fields[2]) {
                Some(n) => {
                    if n == gid {
                        return Some(text::from_chars(&fields[0]));
                    }
                },
                None => {},
            }
        }
        i += 1;
    }
    None
}

/// A user among the members of a group, which stand in a list with commas between them.
pub open spec fn is_listed(members: Seq<char>, user: Seq<char>) -> bool {
    exists|i: int|
        0 <= i < text::split(members, ',').len() && text::trimmed(
            #[trigger] text::split(members, ',')[i],
        ) == user
}

/// A user who is listed as a member by the first line of the group database that has a list of
/// members for the group.
pub open spec fn is_member(lines: Seq<Seq<char>>, group: Seq<char>, user: Seq<char>) -> bool
    decreases lines.len(),
{
    if lines.len() == 0 {
        false
    } else {
        let fields = text::split(lines[0], ':');
        if fields[0] == group && fields.len() >= 4 {
            is_listed(fields[3], user)
        } else {
            is_member(lines.skip(1), group, user)
        }
    }
}

/// Whether a user is listed as a member.
fn listed(members: &[char], user: &[char]) -> (r: bool)
    ensures
        r == is_listed(members@, user@),
{
    let names = text::split_chars(members, ',');
    let ghost all = text::split(members@, ',');
    let mut i: usize = 0;
    assert(text::char_views(names@).len() == names@.len());
    while i < names.len()
        invariant
            i <= names.len(),
            all == text::split(members@, ','),
            text::char_views(names@) == all,
            all.len() == names@.len(),
            forall|k: int| 0 <= k < i ==> text::trimmed(#[trigger] all[k]) != user@,
        decreases names.len() - i,
    {
        assert(text::char_views(names@)[i as int] == names@[i as int]@);
        let name = text::trim(&names[i]);
        if text::same_chars(&name, user) {
            return true;
        }
        i += 1;
    }
    false
}

/// A user who belongs to a group: it is their primary group, or they are listed as a member.
pub open spec fn belongs(
    lines: Seq<Seq<char>>,
    group: Seq<char>,
    user: Seq<char>,
    primary: nat,
) -> bool {
    group_name(lines, primary) == Some(group) || (user.len() > 0 && is_member(lines, group, user))
}

/// Whether a user belongs to a group, in the text of the group database: by the number of their
/// primary group or by membership. This only explains how access is obtained; access itself is
/// decided by opening the device.
pub fn user_in_group(contents: &str, group: &str, user: &str, primary: u32) -> (r: bool)
    ensures
        r == belongs(text::lines(contents@), group@, user@, primary as nat),
{
    if let Some(name) = group_name_for_gid(contents, primary) {
        if text::same(name.as_str(), group) {
            return true;
        }
    }
    let username = text::to_chars(user);
    if username.len() == 0 {
        return false;
    }
    let wanted = text::to_chars(group);
    let chars = text::to_chars(contents);
    let lines = text::split_lines(&chars);
    let ghost all = text::lines(contents@);
    let mut i: usize = 0;
    assert(all.skip(0) == all);
    assert(text::char_views(lines@).len() == lines@.len());
    while i < lines.len()
        invariant
            i <= lines.len(),
            username@ == user@,
            wanted@ == group@,
            user@.len() > 0,
            group_name(all, primary as nat) != Some(group@),
            all == text::lines(contents@),
            text::char_views(lines@) == all,
            all.len() == lines@.len(),
            is_member(all, group@, user@) == is_member(all.skip(i as int), group@, user@),
        decreases lines.len() - i,
    {
        proof {
            assert(text::char_views(lines@)[i as int] == lines@[i as int]@);
            assert(all.skip(i as int)[0] == lines@[i as int]@);
            assert(all.skip(i as int).skip(1) == all.skip(i + 1));
            text::pieces_exist(lines@[i as int]@, ':', 0);
        }
        let fields = text::split_chars(&lines[i], ':');
        assert(text::char_views(fields@).len() == fields@.len());
        assert(text::char_views(fields@)[0] == fields@[0]@);
        if fields.len() >= 4 && text::same_chars(&fields[0], &wanted) {
            assert(text::char_views(fields@)[3] == fields@[3]@);
            return listed(&fields[3], &username);
        }
        i += 1;
    }
    false
}

/// The machine's memory in KiB, from the lines of what the kernel reports of it: the second word of
/// the first line that begins with `MemTotal:`.
pub open spec fn memory_in(lines: Seq<Seq<char>>) -> Option<nat>
    decreases lines.len(),
{
    if lines.len() == 0 {
        None
    } else if text::starts_with(lines[0], "MemTotal:"@) {
        let words = text::words(lines[0]);
        if words.len() < 2 {
            None
        } else {
            text::numeral_up_to(words[1], u64::MAX as nat)
        }
    } else {
        memory_in(lines.skip(1))
    }
}

/// The machine's memory in KiB, from what the kernel reports of it.
pub fn total_memory(meminfo: &str) -> (r: Option<u64>)
    ensures
        match (r, memory_in(text::lines(meminfo@))) {
            (Some(kib), Some(expected)) => kib == expected,
            (None, None) => true,
            _ => false,
        },
{
    let chars = text::to_chars(meminfo);
    let lines = text::split_lines(&chars);
    let label = text::to_chars("MemTotal:");
    let ghost all = text::lines(meminfo@);
    let mut i: usize = 0;
    assert(all.skip(0) == all);
    assert(text::char_views(lines@).len() == lines@.len());
    while i < lines.len()
        invariant
            i <= lines.len(),
            label@ == "MemTotal:"@,
            all == text::lines(meminfo@),
            text::char_views(lines@) == all,
            all.len() == lines@.len(),
            memory_in(all) == memory_in(all.skip(i as int)),
        decreases lines.len() - i,
    {
        proof {
            assert(text::char_views(lines@)[i as int] == lines@[i as int]@);
            assert(all.skip(i as int)[0] == lines@[i as int]@);
            assert(all.skip(i as int).skip(1) == all.skip(i + 1));
        }
        if text::chars_start_with(&lines[i], &label) {
            let words = text::split_words(&lines[i]);
            assert(text::char_views(words@).len() == words@.len());
            if words.len() < 2 {
                return None;
            }
            assert(text::char_views(words@)[1] == words@[1]@);
            return text::parse_u64(&words[1]);
        }
        i += 1;
    }
    None
}

// ---------------------------------------------------------------------------
// What each check says
// ---------------------------------------------------------------------------

/// What the check of the virtualisation device says.
pub open spec fn kvm_check(
    device: Option<KvmDevice>,
    group_file: Option<Seq<char>>,
    user: Seq<char>,
    primary: nat,
) -> CheckView {
    match device {
        None => CheckView {
            name: "kvm device"@,
            status: Status::Fail,
            detail: "/dev/kvm does not exist"@,
            hint: Some(
                "Enable AMD-V/VT-x in firmware, then: sudo modprobe kvm_amd (or kvm_intel)"@,
            ),
        },
        Some(d) => {
            let named = match group_file {
                Some(g) => group_name(text::lines(g), d.gid as nat),
                None => None,
            };
            let group = match named {
                Some(name) => name,
                None => text::decimal(d.gid as nat),
            };
            match d.refused {
                None => {
                    let member = group_file is Some && belongs(
                        text::lines(group_file.unwrap()),
                        group,
                        user,
                        primary,
                    );
                    let how = if member {
                        "in the '"@ + group + "' group"@
                    } else {
                        "via an ACL (not a member of '"@ + group + "')"@
                    };
                    CheckView {
                        name: "kvm access"@,
                        status: Status::Pass,
                        detail: "/dev/kvm openable, mode "@ + octal((d.mode % 512) as nat) + ", "@
                            + how,
                        hint: None,
                    }
                },
                Some(e) => CheckView {
                    name: "kvm access"@,
                    status: Status::Fail,
                    detail: "/dev/kvm exists but is not openable: "@ + e@,
                    hint: Some(
                        "Add yourself to the '"@ + group + "' group: sudo usermod -aG "@ + group
                            + " $USER  (then log out and back in)"@,
                    ),
                },
            }
        },
    }
}

/// What the check of QEMU says.
pub open spec fn qemu_check(run: Run) -> CheckView {
    match run {
        Run::Succeeded(stdout) => {
            let lines = text::lines(text::lossy(stdout@));
            CheckView {
                name: "qemu"@,
                status: Status::Pass,
                detail: if lines.len() > 0 {
                    lines[0]
                } else {
                    "unknown"@
                },
                hint: None,
            }
        },
        Run::Failed => CheckView {
            name: "qemu"@,
            status: Status::Fail,
            detail: "qemu-system-x86_64 ran but exited non-zero"@,
            hint: Some("Reinstall QEMU for your distribution"@),
        },
        Run::Missing => CheckView {
            name: "qemu"@,
            status: Status::Fail,
            detail: "qemu-system-x86_64 not found on PATH"@,
            hint: Some("Install qemu-system-x86 (Debian/Ubuntu) or qemu-full (Arch)"@),
        },
    }
}

/// What the check of the optional transport says.
pub open spec fn vsock_check(present: bool) -> CheckView {
    if present {
        CheckView {
            name: "vhost-vsock"@,
            status: Status::Pass,
            detail: "/dev/vhost-vsock present (optional transport available)"@,
            hint: None,
        }
    } else {
        CheckView {
            name: "vhost-vsock"@,
            status: Status::Warn,
            detail: "not present; the vsock transport will be unavailable"@,
            hint: Some("Optional. The default TCP transport works without it."@),
        }
    }
}

/// What the check of the target's libraries says.
pub open spec fn target_check(targets: Run) -> CheckView {
    match targets {
        Run::Succeeded(stdout) => if text::holds(
            text::lossy(stdout@),
            "x86_64-pc-windows-gnu"@,
        ) {
            CheckView {
                name: "windows target"@,
                status: Status::Pass,
                detail: "x86_64-pc-windows-gnu installed"@,
                hint: None,
            }
        } else {
            CheckView {
                name: "windows target"@,
                status: Status::Warn,
                detail: "x86_64-pc-windows-gnu not installed"@,
                hint: Some(
                    "Needed to build the guest service: rustup target add x86_64-pc-windows-gnu"@,
                ),
            }
        },
        _ => CheckView {
            name: "windows target"@,
            status: Status::Warn,
            detail: "rustup not found; cannot verify cross-compilation target"@,
            hint: Some("Install rustup if you intend to build the guest service"@),
        },
    }
}

/// What the check of the linker says.
pub open spec fn linker_check(linker: bool) -> CheckView {
    if linker {
        CheckView {
            name: "mingw linker"@,
            status: Status::Pass,
            detail: "x86_64-w64-mingw32-gcc available"@,
            hint: None,
        }
    } else {
        CheckView {
            name: "mingw linker"@,
            status: Status::Warn,
            detail: "x86_64-w64-mingw32-gcc not found"@,
            hint: Some("Install gcc-mingw-w64-x86-64 to link the guest service"@),
        }
    }
}

/// What the check of the memory says: eight GiB are enough.
pub open spec fn memory_check(kib: nat, gib: Seq<char>) -> CheckView {
    if kib >= 8 * 1024 * 1024 {
        CheckView {
            name: "memory"@,
            status: Status::Pass,
            detail: gib + " GiB total"@,
            hint: None,
        }
    } else {
        CheckView {
            name: "memory"@,
            status: Status::Warn,
            detail: gib + " GiB total"@,
            hint: Some("8 GiB or more recommended for a Windows 11 guest"@),
        }
    }
}

/// A report that passes says so, and one that fails does not: the last line names failures exactly
/// when a check failed.
pub proof fn the_verdict_follows_the_checks(checks: Seq<CheckView>)
    ensures
        (forall|i: int| 0 <= i < checks.len() ==> (#[trigger] checks[i]).status != Status::Fail)
            ==> verdict(checks) == "passed with "@ + text::decimal(count(checks, Status::Warn))
            + " warning(s)\n"@,
        (exists|i: int| 0 <= i < checks.len() && (#[trigger] checks[i]).status == Status::Fail)
            ==> verdict(checks) == text::decimal(count(checks, Status::Fail))
            + " check(s) failed, "@ + text::decimal(count(checks, Status::Warn))
            + " warning(s)\n"@,
{
    none_counted(checks, Status::Fail);
}

/// What each check comes to: without a device to open there is no virtual machine, nor without QEMU,
/// and those are failures; what is optional, or only for building, is no more than a warning; and
/// memory is enough from eight GiB on.
pub proof fn checks_come_to_what_they_see(
    device: Option<KvmDevice>,
    group_file: Option<Seq<char>>,
    user: Seq<char>,
    primary: nat,
    run: Run,
    there: bool,
    kib: nat,
    gib: Seq<char>,
)
    ensures
        kvm_check(device, group_file, user, primary).status == (if device is Some
            && device->Some_0.refused is None {
            Status::Pass
        } else {
            Status::Fail
        }),
        qemu_check(run).status == (if run is Succeeded {
            Status::Pass
        } else {
            Status::Fail
        }),
        vsock_check(there).status == (if there {
            Status::Pass
        } else {
            Status::Warn
        }),
        target_check(run).status == (if run is Succeeded && text::holds(
            text::lossy(run->Succeeded_0@),
            "x86_64-pc-windows-gnu"@,
        ) {
            Status::Pass
        } else {
            Status::Warn
        }),
        linker_check(there).status == (if there {
            Status::Pass
        } else {
            Status::Warn
        }),
        memory_check(kib, gib).status == (if kib >= 8 * 1024 * 1024 {
            Status::Pass
        } else {
            Status::Warn
        }),
        memory_check(kib, gib).detail == gib + " GiB total"@,
{
}

/// A device that is there and cannot be opened is told with the reason, and the advice names the group
/// that owns it, by its name where that is known and by its number otherwise.
pub proof fn refused_devices_are_told_with_their_group(
    device: KvmDevice,
    group_file: Seq<char>,
    user: Seq<char>,
    primary: nat,
)
    requires
        device.refused is Some,
    ensures
        kvm_check(Some(device), Some(group_file), user, primary).detail
            == "/dev/kvm exists but is not openable: "@ + device.refused->Some_0@,
        group_name(text::lines(group_file), device.gid as nat) matches Some(name) ==> kvm_check(
            Some(device),
            Some(group_file),
            user,
            primary,
        ).hint == Some(
            "Add yourself to the '"@ + name + "' group: sudo usermod -aG "@ + name
                + " $USER  (then log out and back in)"@,
        ),
        group_name(text::lines(group_file), device.gid as nat) is None ==> kvm_check(
            Some(device),
            Some(group_file),
            user,
            primary,
        ).hint == Some(
            "Add yourself to the '"@ + text::decimal(device.gid as nat)
                + "' group: sudo usermod -aG "@ + text::decimal(device.gid as nat)
                + " $USER  (then log out and back in)"@,
        ),
{
}

/// Each check is counted once, under its own status, and shown on a line of its own, with its advice
/// below it.
pub proof fn checks_are_counted_and_shown(checks: Seq<CheckView>, c: CheckView, status: Status)
    ensures
        count(checks.push(c), status) == count(checks, status) + (if c.status == status {
            1int
        } else {
            0
        }),
        count(checks, Status::Pass) + count(checks, Status::Warn) + count(checks, Status::Fail)
            == checks.len(),
        checks_shown(checks.push(c)) == checks_shown(checks) + check_shown(c),
        c.hint is None ==> check_shown(c) == "  ["@ + c.status.shown() + "] "@ + text::padded(
            c.name,
            22,
        ) + " "@ + c.detail + "\n"@,
        c.hint matches Some(hint) ==> check_shown(c) == "  ["@ + c.status.shown() + "] "@
            + text::padded(c.name, 22) + " "@ + c.detail + "\n"@ + ("         -> "@ + hint
            + "\n"@),
        Status::Pass.shown() == "ok  "@,
        Status::Warn.shown() == "warn"@,
        Status::Fail.shown() == "FAIL"@,
    decreases checks.len(),
{
    assert(checks.push(c).drop_last() =~= checks);
    if checks.len() > 0 {
        checks_are_counted_and_shown(checks.drop_last(), c, status);
    }
}

/// The name of a group is that of the first line with its number, and its members are those that the
/// first line with its name lists.
pub proof fn groups_are_read_from_their_lines(
    name: Seq<char>,
    password: Seq<char>,
    gid: nat,
    members: Seq<char>,
    other: nat,
    rest: Seq<Seq<char>>,
    user: Seq<char>,
)
    requires
        !name.contains(':'),
        !password.contains(':'),
        !members.contains(':'),
        gid <= u32::MAX,
    ensures
        ({
            let line = text::joined(seq![name, password, text::decimal(gid), members], seq![':']);
            &&& group_name(seq![line] + rest, gid) == Some(name)
            &&& other != gid ==> group_name(seq![line] + rest, other) == group_name(rest, other)
            &&& is_member(seq![line] + rest, name, user) <==> is_listed(members, user)
            &&& forall|group: Seq<char>|
                group != name ==> is_member(seq![line] + rest, group, user) == is_member(
                    rest,
                    group,
                    user,
                )
        }),
        group_name(Seq::empty(), gid) is None,
        !is_member(Seq::empty(), name, user),
{
    let fields = seq![name, password, text::decimal(gid), members];
    let line = text::joined(fields, seq![':']);
    text::numerals_read_back(gid, other);
    assert(!text::decimal(gid).contains(':')) by {
        if text::decimal(gid).contains(':') {
            let k = choose|k: int| 0 <= k < text::decimal(gid).len() && text::decimal(gid)[k] == ':';
            assert('0' <= text::decimal(gid)[k] && text::decimal(gid)[k] <= '9');
        }
    }
    assert forall|i: int| 0 <= i < fields.len() implies !(#[trigger] fields[i]).contains(':') by {
        assert(i == 0 || i == 1 || i == 2 || i == 3);
    }
    text::splitting_undoes_joining(fields, ':');
    let lines = seq![line] + rest;
    assert(lines[0] == line);
    assert(lines.skip(1) =~= rest);
    assert(text::split(lines[0], ':') == fields);
    assert(fields[0] == name && fields[2] == text::decimal(gid) && fields[3] == members);
}

/// The memory of a machine is the number on the first line that begins with `MemTotal:`, whatever
/// lines stand before and after it.
pub proof fn memory_is_read_from_its_line(
    before: Seq<Seq<char>>,
    line: Seq<char>,
    rest: Seq<Seq<char>>,
)
    requires
        forall|i: int|
            0 <= i < before.len() ==> !text::starts_with(#[trigger] before[i], "MemTotal:"@),
        text::starts_with(line, "MemTotal:"@),
        text::words(line).len() >= 2,
    ensures
        memory_in(before + seq![line] + rest) == text::numeral_up_to(
            text::words(line)[1],
            0xffff_ffff_ffff_ffff,
        ),
        memory_in(before) is None,
    decreases before.len(),
{
    let all = before + seq![line] + rest;
    if before.len() > 0 {
        let tail = before.skip(1);
        assert forall|i: int| 0 <= i < tail.len() implies !text::starts_with(
            #[trigger] tail[i],
            "MemTotal:"@,
        ) by {
            assert(tail[i] == before[i + 1]);
        }
        memory_is_read_from_its_line(tail, line, rest);
        assert(all.skip(1) =~= tail + seq![line] + rest);
        assert(!text::starts_with(before[0], "MemTotal:"@));
        assert(all[0] == before[0]);
    } else {
        assert(all[0] == line);
    }
}

/// The digits of a number in base eight stand for that number.
pub proof fn modes_read_back(n: nat, m: nat)
    ensures
        octal(n) == octal(m) ==> n == m,
        octal(n).len() > 0,
        forall|i: int|
            0 <= i < octal(n).len() ==> '0' <= #[trigger] octal(n)[i] && octal(n)[i] <= '7',
        octal(8 * n + 5).last() == '5',
        n > 0 ==> octal(8 * n + 5).drop_last() == octal(n),
    decreases n,
{
    assert((8 * n + 5) % 8 == 5 && (8 * n + 5) / 8 == n);
    assert(octal(n).len() > 0 && octal(m).len() > 0);
    if n >= 8 {
        modes_read_back(n / 8, m / 8);
        assert forall|i: int| 0 <= i < octal(n).len() implies '0' <= #[trigger] octal(n)[i] && octal(
            n,
        )[i] <= '7' by {
            if i < octal(n / 8).len() {
                assert(octal(n)[i] == octal(n / 8)[i]);
            }
        }
        if octal(n) == octal(m) {
            octals_have_digits(n / 8);
            if m >= 8 {
                assert(octal(n).drop_last() =~= octal(n / 8));
                assert(octal(m).drop_last() =~= octal(m / 8));
                assert(octal(n).last() == octal(m).last());
            }
        }
    } else if octal(n) == octal(m) {
        octals_have_digits(m / 8);
        assert(octal(n)[0] == octal(m)[0]);
    }
    if n > 0 {
        assert(octal(8 * n + 5).drop_last() =~= octal(n));
    }
}

proof fn octals_have_digits(n: nat)
    ensures
        octal(n).len() > 0,
{
}

/// A user belongs to a group where it is the user's own, or where its line lists the user by the whole
/// name; nobody is listed under no name.
pub proof fn users_belong_to_their_groups(
    lines: Seq<Seq<char>>,
    group: Seq<char>,
    user: Seq<char>,
    primary: nat,
    before: Seq<char>,
    rest: Seq<char>,
)
    requires
        !before.contains(','),
    ensures
        group_name(lines, primary) == Some(group) ==> belongs(lines, group, user, primary),
        user.len() > 0 && is_member(lines, group, user) ==> belongs(lines, group, user, primary),
        belongs(lines, group, user, primary) ==> group_name(lines, primary) == Some(group) || (
        user.len() > 0 && is_member(lines, group, user)),
        is_listed(before + seq![','] + rest, user) <==> text::trimmed(before) == user || is_listed(
            rest,
            user,
        ),
        is_listed(before, user) <==> text::trimmed(before) == user,
{
    text::splits_at_the_first_separator(before, ',', rest);
    let all = text::split(before + seq![','] + rest, ',');
    let tail = text::split(rest, ',');
    assert(all == seq![before] + tail);
    assert(all[0] == before);
    assert forall|i: int| 0 < i < all.len() implies all[i] == tail[i - 1] by {}
    if is_listed(before + seq![','] + rest, user) {
        let i = choose|i: int| 0 <= i < all.len() && text::trimmed(#[trigger] all[i]) == user;
        if i > 0 {
            assert(text::trimmed(tail[i - 1]) == user);
        }
    }
    if is_listed(rest, user) {
        let i = choose|i: int| 0 <= i < tail.len() && text::trimmed(#[trigger] tail[i]) == user;
        assert(text::trimmed(all[i + 1]) == user);
    }
    assert(text::split(before, ',')[0] == before);
}

/// A report is its title, every check, and the verdict.
pub proof fn reports_end_with_the_verdict(checks: Seq<CheckView>)
    ensures
        report_shown(checks) == "wvm doctor\n\n"@ + checks_shown(checks) + "\n"@ + verdict(checks),
{
}

/// A line with two fields is passed over in the search for a group's number, and one with a single
/// field ends it.
pub proof fn short_lines_name_no_group(
    name: Seq<char>,
    password: Seq<char>,
    rest: Seq<Seq<char>>,
    gid: nat,
)
    requires
        !name.contains(':'),
        !password.contains(':'),
    ensures
        group_name(seq![name + seq![':'] + password] + rest, gid) == group_name(rest, gid),
        group_name(seq![name] + rest, gid) is None,
{
    text::splits_at_the_first_separator(name, ':', password);
    text::splits_at_the_first_separator(password, ':', password);
    let line = name + seq![':'] + password;
    let lines = seq![line] + rest;
    assert(text::split(line, ':') =~= seq![name, password]);
    assert(lines[0] == line && lines.skip(1) =~= rest);
    assert((seq![name] + rest)[0] == name);
}

} // verus!
