//! The list of what this build can do, and the document made from it.
//!
//! A tool for agents needs a contract that an agent can load and act on, and that contract must not
//! be able to lie. So the list is the only source: the document, the machine-readable output and the
//! table all follow from it.
use crate::text;
use vstd::prelude::*;
use vstd::string::*;

verus! {

/// One verb, as an agent needs to know it.
#[derive(Debug, Clone, PartialEq, Eq)]
pub struct Capability {
    /// The protocol operation, as it appears on the wire.
    pub op: &'static str,
    /// The host command, or a dash where there is none.
    pub cli: &'static str,
    /// Where it runs: `host` means that the guest refuses it.
    pub runs_on: &'static str,
    /// What it does, in one line.
    pub summary: &'static str,
    /// The traps. Each one cost a debugging session.
    pub traps: Vec<&'static str>,
}

/// Every verb in the protocol, in the order in which a caller would meet them: its operation,
/// command, home and summary.
pub const CAPABILITIES: [(&'static str, &'static str, &'static str, &'static str); 6] = [
    (
        "hello",
        "—",
        "guest",
        "Handshake. Reports the guest's protocol version and OS.",
    ),
    (
        "exec",
        "wvm vm exec --config <cfg> \"<command>\"",
        "guest",
        "Run a program in the guest and return its stdout, stderr and exit code.",
    ),
    (
        "capture",
        "wvm vm capture --config <cfg> --out shot.png",
        "host",
        "Screenshot the live desktop.",
    ),
    (
        "input",
        "wvm vm input --config <cfg> ...",
        "host",
        "Move the pointer, click, type text and send key chords.",
    ),
    (
        "transfer",
        "wvm vm transfer push|pull --config <cfg> <SOURCE> <GUEST_PATH>",
        "guest",
        "Move a file in either direction, in chunks confined to a guest staging root.",
    ),
    (
        "lifecycle",
        "wvm vm snapshot save|restore|list|delete --config <cfg> <tag>",
        "host",
        "Snapshot the machine, restore it, list snapshots, delete one.",
    ),
];

/// The traps of `hello`.
pub const HELLO_TRAPS: [&'static str; 1] = [
    "Do this first. It is how you find out whether a guest is there at all, rather than inferring it from a connection that succeeds.",
];

/// The traps of `exec`.
pub const EXEC_TRAPS: [&'static str; 6] = [
    "`&&` does not survive this layer. `cd /d X && cmd` exits 1 with EMPTY stdout and no error — the command simply does not run. Run one thing at a time.",
    "`&&` is one of several characters that break quoting. If a command returns nothing where output was expected, suspect the quoting before the program.",
    "The guest runs every command with stdin redirected to null, and `timeout.exe` refuses that — it prints 'Input redirection is not supported' and exits in MILLISECONDS. A test that uses it as a delay will count zero survivors for the absence of anything to count. Use `ping -n <secs> 127.0.0.1`.",
    "The default working directory is C:\\Windows\\System32, so a relative filename lands somewhere you did not intend.",
    "The service runs as `nt authority\\system`, so anything launched is already SYSTEM-level. Elevation is not a problem here, and `setx /M` needs no help.",
    "A timeout kills the whole process TREE, not just the direct child, via a Windows Job Object. A caller can rely on that.",
];

/// The traps of `capture`.
pub const CAPTURE_TRAPS: [&'static str; 2] = [
    "This runs on the HOST over QMP, not in the guest. A Windows service runs in session 0 which has no desktop, so BitBlt from inside can never work — that is architectural, not a gap.",
    "It captures the whole desktop, not one window. There is no per-window targeting.",
];

/// The traps of `input`.
pub const INPUT_TRAPS: [&'static str; 4] = [
    "Also host-side, for the same reason: session-0 isolation blocks the SendInput API but NOT emulated hardware, so the host injects through QMP and the kernel delivers it to the interactive session.",
    "Typing is paced deliberately. Sending keys too fast makes the guest REORDER them, and the symptom is not dropped characters but stray characters prefixed to the line — which looks like a line-length limit and sends you looking in the wrong place.",
    "Control characters and chords need explicit down/up events. A press-and-release pair arrives as the modifier released before the key, so Ctrl+R opens the Start menu instead of Run.",
    "Driving an elevation (UAC) prompt this way is unreliable. If a human is at the screen, ask them — it takes a second and cannot silently half-succeed.",
];

/// The traps of `transfer`.
pub const TRANSFER_TRAPS: [&'static str; 4] = [
    "`pull` INVERTS the positional names. They are written for a push, so for a pull SOURCE is the GUEST file being fetched and GUEST_PATH is the HOST destination. Swap them and the guest refuses a path it cannot see — an error that reads like a boundary problem rather than a swapped argument.",
    "Do NOT quote a path passed to a guest command. The quote characters reach the process as part of the argument, and `certutil -hashfile \"C:\\path\"` fails with FILE_NOT_FOUND — the file is there; the quotes are the problem.",
    "Everything lands under one staging root (C:\\ProgramData\\wvm\\staging by default). Paths outside it are refused, and that refusal is a feature.",
    "Chunks travel in lockstep with an offset checked on every one. Do not try to stream them; a gap or an overlap would otherwise produce a right-length, wrong-content file.",
];

/// The traps of `lifecycle`.
pub const LIFECYCLE_TRAPS: [&'static str; 5] = [
    "A SAVE CAN CRASH THE GUEST on this Windows 11 build — roughly one save in five ends in a 0x50 PAGE_FAULT_IN_NONPAGED_AREA bugcheck. The faulting instruction is in Windows' own kernel, at one fixed code offset across four crashes, and pausing the vCPUs for the same length of time does NOT reproduce it, so the trigger is the device-state write rather than the freeze. Reproduced, localised, NOT fixed. Do not snapshot anything you cannot afford to lose, and do not put a snapshot in the path of an unattended agent run.",
    "The guest REFUSES this verb, permanently. Snapshots are a hypervisor capability and the guest has no view of its own hypervisor. The refusal names the command that works — it is not a stub awaiting an upgrade.",
    "A save FREEZES the guest CPUs while the machine state is written, and NO QMP message arrives for the whole of that write. Measured here at 57 seconds with nine snapshots on the disk, 6.5 seconds when it was fresh — the pause GROWS as snapshots accumulate. A client read timeout shorter than the pause reports failure for work that is still succeeding, and makes a frozen guest look like a dead one.",
    "A snapshot holds the machine's MEMORY as well as its disk, so it is roughly the RAM size rather than a delta. That is what makes a restore a rollback instead of a disk revert — and why snapshots are worth deleting.",
    "Restoring while the guest is running is supported and it survives. It is still a rollback: anything written since the snapshot is gone, including files the agent created.",
];

/// The traps of the verb at a place in the list.
pub open spec fn traps_at(i: int) -> Seq<&'static str> {
    if i == 0 {
        HELLO_TRAPS@
    } else if i == 1 {
        EXEC_TRAPS@
    } else if i == 2 {
        CAPTURE_TRAPS@
    } else if i == 3 {
        INPUT_TRAPS@
    } else if i == 4 {
        TRANSFER_TRAPS@
    } else {
        LIFECYCLE_TRAPS@
    }
}

/// What a verb holds.
pub struct CapabilityView {
    /// The protocol operation.
    pub op: Seq<char>,
    /// The host command, or a dash.
    pub cli: Seq<char>,
    /// Where it runs.
    pub runs_on: Seq<char>,
    /// What it does.
    pub summary: Seq<char>,
    /// The traps.
    pub traps: Seq<&'static str>,
}

impl Capability {
    /// What this verb holds.
    pub open spec fn view(&self) -> CapabilityView {
        CapabilityView {
            op: self.op@,
            cli: self.cli@,
            runs_on: self.runs_on@,
            summary: self.summary@,
            traps: self.traps@,
        }
    }
}

/// What each verb of a list holds.
pub open spec fn capability_views(cs: Seq<Capability>) -> Seq<CapabilityView> {
    cs.map_values(|c: Capability| c@)
}

/// Every verb in the protocol.
pub open spec fn verbs() -> Seq<CapabilityView> {
    Seq::new(
        6,
        |i: int|
            CapabilityView {
                op: CAPABILITIES@[i].0@,
                cli: CAPABILITIES@[i].1@,
                runs_on: CAPABILITIES@[i].2@,
                summary: CAPABILITIES@[i].3@,
                traps: traps_at(i),
            },
    )
}

/// The texts of an array, as a list.
fn to_list(texts: &[&'static str]) -> (r: Vec<&'static str>)
    ensures
        r@ == texts@,
{
    let mut out: Vec<&'static str> = Vec::new();
    let mut i: usize = 0;
    while i < texts.len()
        invariant
            i <= texts.len(),
            out@ == texts@.take(i as int),
        decreases texts.len() - i,
    {
        assert(texts@.take(i + 1) == texts@.take(i as int).push(texts@[i as int]));
        out.push(texts[i]);
        i += 1;
    }
    assert(texts@.take(texts@.len() as int) == texts@);
    out
}

/// Every verb in the protocol, in the order in which a caller would meet them.
pub fn capabilities() -> (r: Vec<Capability>)
    ensures
        capability_views(r@) == verbs(),
{
    let mut out: Vec<Capability> = Vec::new();
    let mut i: usize = 0;
    while i < 6
        invariant
            i <= 6,
            capability_views(out@) == verbs().take(i as int),
        decreases 6 - i,
    {
        let listed = CAPABILITIES[i];
        let traps = if i == 0 {
            to_list(&HELLO_TRAPS)
        } else if i == 1 {
            to_list(&EXEC_TRAPS)
        } else if i == 2 {
            to_list(&CAPTURE_TRAPS)
        } else if i == 3 {
            to_list(&INPUT_TRAPS)
        } else if i == 4 {
            to_list(&TRANSFER_TRAPS)
        } else {
            to_list(&LIFECYCLE_TRAPS)
        };
        let c = Capability {
            op: listed.0,
            cli: listed.1,
            runs_on: listed.2,
            summary: listed.3,
            traps,
        };
        proof {
            assert(c@ == verbs()[i as int]);
            assert(capability_views(out@.push(c)) == capability_views(out@).push(c@));
            assert(verbs().take(i + 1) == verbs().take(i as int).push(verbs()[i as int]));
        }
        out.push(c);
        i += 1;
    }
    assert(verbs().take(6) == verbs());
    out
}

/// The traps of a verb, one item each.
pub open spec fn trap_items(traps: Seq<&'static str>) -> Seq<char>
    decreases traps.len(),
{
    if traps.len() == 0 {
        Seq::empty()
    } else {
        trap_items(traps.drop_last()) + ("- "@ + traps.last()@ + "\n"@)
    }
}

/// The heading of a verb.
pub open spec fn heading(c: CapabilityView) -> Seq<char> {
    "### `"@ + c.op + "`"@
}

/// What the document says of a verb.
pub open spec fn section(c: CapabilityView) -> Seq<char> {
    let about = heading(c) + "\n\n"@ + c.summary + "\n\n"@ + "- **Runs on:** "@ + c.runs_on
        + "\n"@;
    let command = if c.cli == "—"@ {
        Seq::empty()
    } else {
        "- **CLI:** `"@ + c.cli + "`\n"@
    };
    let traps = if c.traps.len() == 0 {
        Seq::empty()
    } else {
        "Traps:\n\n"@ + trap_items(c.traps) + "\n"@
    };
    about + command + "\n"@ + traps
}

/// What the document says of verbs, one after the other.
pub open spec fn sections(cs: Seq<CapabilityView>) -> Seq<char>
    decreases cs.len(),
{
    if cs.len() == 0 {
        Seq::empty()
    } else {
        sections(cs.drop_last()) + section(cs.last())
    }
}

/// What stands before the verbs.
pub open spec fn preface() -> Seq<char> {
    "<!-- GENERATED FILE — do not edit by hand.\n\n   Source:    wvm-host/src/capabilities.rs\n   Regenerate: wvm capabilities --markdown > WVM.md\n   Checked by: scripts/check-docs.sh (a change without a regenerate FAILS the build)\n\n   Editing this file directly will be overwritten. Add or change a verb in the source\n   list instead, and the markdown, the --json output and the check all follow.\n-->\n\n"@
        + "# WVM for agents\n\n"@
        + "You are driving a Windows 11 machine from a Linux terminal. This file is the contract: the\nverbs, the exact responses, and the traps that cost real time to find. It is generated from\nthe code, so it cannot describe a verb that does not exist.\n\n"@
        + "## The one command to run first\n\n"@
        + "Before anything else, find out what the sandbox will and will not do. The refusals are as\nimportant as the capabilities, and they arrive as structured data rather than a timeout:\n\n```sh\npython3 examples/wvm_client.py boundary\n```\n\nA refusal is the boundary working. It names what it refused and why, so you can route\naround it deliberately instead of discovering the limit as a failure halfway through a job.\n\n"@
        + "## Verbs\n\n"@
}

/// What stands after the verbs.
pub open spec fn closing() -> Seq<char> {
    "## What the guest will refuse, and why that is the answer\n\n"@
        + "`lifecycle` is refused from inside the guest, permanently. Snapshots are a hypervisor\ncapability and the guest has no view of its own hypervisor, so this can never work from that\nside.\n\nThe distinction matters to you as a caller: a verb reported as \"not implemented\" would be\nworth retrying after an upgrade, and this one never will be. The refusal names the command\nthat does work.\n\n"@
        + "## Verification\n\n"@
        + "Every claim in this file is backed by a probe that runs against a live guest:\n\n```sh\n./scripts/verify-all.sh\n```\n\nIt reports three states, not two — `passed`, `failed`, and `COULD NOT RUN`. The third\nexists because collapsing it into `passed` is how a machine that was never tested comes to\nlook like one that works.\n\n"@
        + "## Machine-readable\n\n"@
        + "The same list, as JSON, for a caller that would rather not parse markdown:\n\n```sh\nwvm capabilities --json\n```\n\n"@
}

/// The document.
pub open spec fn document() -> Seq<char> {
    preface() + sections(verbs()) + closing()
}

/// The traps of a verb, one item each.
fn write_traps(traps: &[&'static str]) -> (r: String)
    ensures
        r@ == trap_items(traps@),
{
    let mut out = String::new();
    let mut i: usize = 0;
    assert(traps@.take(0) == Seq::<&'static str>::empty());
    assert(out@ == Seq::<char>::empty());
    while i < traps.len()
        invariant
            i <= traps.len(),
            out@ == trap_items(traps@.take(i as int)),
        decreases traps.len() - i,
    {
        proof {
            assert(traps@.take(i + 1).drop_last() == traps@.take(i as int));
            assert(traps@.take(i + 1).last() == traps@[i as int]);
        }
        let item = text::cat3("- ", traps[i], "\n");
        out = text::cat2(out.as_str(), item.as_str());
        i += 1;
    }
    assert(traps@.take(traps@.len() as int) == traps@);
    out
}

/// What the document says of a verb.
fn write_section(c: &Capability) -> (r: String)
    ensures
        r@ == section(c@),
{
    let head = text::cat3("### `", c.op, "`");
    let about = text::cat7(
        head.as_str(),
        "\n\n",
        c.summary,
        "\n\n",
        "- **Runs on:** ",
        c.runs_on,
        "\n",
    );
    let command = if text::same(c.cli, "—") {
        String::new()
    } else {
        text::cat3("- **CLI:** `", c.cli, "`\n")
    };
    let traps = if c.traps.len() == 0 {
        String::new()
    } else {
        let items = write_traps(&c.traps);
        text::cat3("Traps:\n\n", items.as_str(), "\n")
    };
    text::cat4(about.as_str(), command.as_str(), "\n", traps.as_str())
}

/// What stands before the verbs.
fn write_preface() -> (r: String)
    ensures
        r@ == preface(),
{
    text::cat6(
        "<!-- GENERATED FILE — do not edit by hand.\n\n   Source:    wvm-host/src/capabilities.rs\n   Regenerate: wvm capabilities --markdown > WVM.md\n   Checked by: scripts/check-docs.sh (a change without a regenerate FAILS the build)\n\n   Editing this file directly will be overwritten. Add or change a verb in the source\n   list instead, and the markdown, the --json output and the check all follow.\n-->\n\n",
        "# WVM for agents\n\n",
        "You are driving a Windows 11 machine from a Linux terminal. This file is the contract: the\nverbs, the exact responses, and the traps that cost real time to find. It is generated from\nthe code, so it cannot describe a verb that does not exist.\n\n",
        "## The one command to run first\n\n",
        "Before anything else, find out what the sandbox will and will not do. The refusals are as\nimportant as the capabilities, and they arrive as structured data rather than a timeout:\n\n```sh\npython3 examples/wvm_client.py boundary\n```\n\nA refusal is the boundary working. It names what it refused and why, so you can route\naround it deliberately instead of discovering the limit as a failure halfway through a job.\n\n",
        "## Verbs\n\n",
    )
}

/// What stands after the verbs.
fn write_closing() -> (r: String)
    ensures
        r@ == closing(),
{
    text::cat6(
        "## What the guest will refuse, and why that is the answer\n\n",
        "`lifecycle` is refused from inside the guest, permanently. Snapshots are a hypervisor\ncapability and the guest has no view of its own hypervisor, so this can never work from that\nside.\n\nThe distinction matters to you as a caller: a verb reported as \"not implemented\" would be\nworth retrying after an upgrade, and this one never will be. The refusal names the command\nthat does work.\n\n",
        "## Verification\n\n",
        "Every claim in this file is backed by a probe that runs against a live guest:\n\n```sh\n./scripts/verify-all.sh\n```\n\nIt reports three states, not two — `passed`, `failed`, and `COULD NOT RUN`. The third\nexists because collapsing it into `passed` is how a machine that was never tested comes to\nlook like one that works.\n\n",
        "## Machine-readable\n\n",
        "The same list, as JSON, for a caller that would rather not parse markdown:\n\n```sh\nwvm capabilities --json\n```\n\n",
    )
}

/// The document, made from the list.
pub fn render_markdown() -> (r: String)
    ensures
        r@ == document(),
{
    let list = capabilities();
    let ghost all = verbs();
    let mut body = String::new();
    let mut i: usize = 0;
    assert(all.take(0) == Seq::<CapabilityView>::empty());
    assert(capability_views(list@).len() == list@.len());
    assert(body@ == Seq::<char>::empty());
    while i < list.len()
        invariant
            i <= list.len(),
            capability_views(list@) == all,
            all.len() == list@.len(),
            all == verbs(),
            body@ == sections(all.take(i as int)),
        decreases list.len() - i,
    {
        proof {
            assert(all.take(i + 1).drop_last() == all.take(i as int));
            assert(capability_views(list@)[i as int] == list@[i as int]@);
            assert(all.take(i + 1).last() == list@[i as int]@);
        }
        let one = write_section(&list[i]);
        body = text::cat2(body.as_str(), one.as_str());
        i += 1;
    }
    assert(all.take(list@.len() as int) == all);
    let before = write_preface();
    let after = write_closing();
    text::cat3(before.as_str(), body.as_str(), after.as_str())
}

// ---------------------------------------------------------------------------
// The table
// ---------------------------------------------------------------------------

/// The lines of a table of verbs: what each is called, where it runs and what it does.
pub open spec fn table_lines(cs: Seq<CapabilityView>) -> Seq<Seq<char>> {
    cs.map_values(
        |c: CapabilityView| text::padded(c.op, 10) + " "@ + text::padded(c.runs_on, 6) + "  "@
            + c.summary,
    )
}

/// The list as a table.
pub fn render_table() -> (r: String)
    ensures
        r@ == text::joined(table_lines(verbs()), "\n"@),
{
    let list = capabilities();
    let ghost all = verbs();
    let mut lines: Vec<String> = Vec::new();
    let mut i: usize = 0;
    assert(capability_views(list@).len() == list@.len());
    while i < list.len()
        invariant
            i <= list.len(),
            capability_views(list@) == all,
            all.len() == list@.len(),
            text::views(lines@) == table_lines(all.take(i as int)),
        decreases list.len() - i,
    {
        let op = text::pad(list[i].op, 10);
        let side = text::pad(list[i].runs_on, 6);
        let line = text::cat5(op.as_str(), " ", side.as_str(), "  ", list[i].summary);
        proof {
            assert(capability_views(list@)[i as int] == list@[i as int]@);
            assert(all.take(i + 1) == all.take(i as int).push(all[i as int]));
            text::views_push(lines@, line);
            assert(table_lines(all.take(i + 1)) == table_lines(all.take(i as int)).push(line@));
        }
        lines.push(line);
        i += 1;
    }
    assert(all.take(list@.len() as int) == all);
    text::join(&lines, "\n")
}

// ---------------------------------------------------------------------------
// Laws
// ---------------------------------------------------------------------------

/// What the document says of a verb stands in what it says of the verbs.
proof fn sections_hold_each(cs: Seq<CapabilityView>, i: int) -> (k: int)
    requires
        0 <= i < cs.len(),
    ensures
        0 <= k,
        k + heading(cs[i]).len() <= sections(cs).len(),
        sections(cs).subrange(k, k + heading(cs[i]).len()) == heading(cs[i]),
    decreases cs.len(),
{
    let before = sections(cs.drop_last());
    let last = section(cs.last());
    if i == cs.len() - 1 {
        let h = heading(cs[i]);
        assert(last.subrange(0, h.len() as int) == h);
        assert(sections(cs).subrange(before.len() as int, (before.len() + h.len()) as int) == h);
        before.len() as int
    } else {
        let k = sections_hold_each(cs.drop_last(), i);
        let h = heading(cs[i]);
        assert(cs.drop_last()[i] == cs[i]);
        assert(sections(cs).subrange(k, k + h.len()) == before.subrange(k, k + h.len()));
        k
    }
}

/// The document has a heading for every verb of the list: it cannot leave one out.
pub proof fn the_document_covers_every_verb(i: int)
    requires
        0 <= i < verbs().len(),
    ensures
        text::holds(document(), heading(verbs()[i])),
{
    let k = sections_hold_each(verbs(), i);
    let h = heading(verbs()[i]);
    let start = preface().len() + k;
    assert(document().subrange(start, start + h.len()) == sections(verbs()).subrange(
        k,
        k + h.len(),
    ));
}

/// Which verbs there are, and where each runs: what needs the hypervisor runs on the host, and what
/// needs the system inside it runs in the guest.
pub proof fn verbs_run_where_they_can()
    ensures
        verbs().len() == 6,
        verbs()[0].op == "hello"@ && verbs()[0].runs_on == "guest"@,
        verbs()[1].op == "exec"@ && verbs()[1].runs_on == "guest"@,
        verbs()[2].op == "capture"@ && verbs()[2].runs_on == "host"@,
        verbs()[3].op == "input"@ && verbs()[3].runs_on == "host"@,
        verbs()[4].op == "transfer"@ && verbs()[4].runs_on == "guest"@,
        verbs()[5].op == "lifecycle"@ && verbs()[5].runs_on == "host"@,
        verbs()[0].traps == HELLO_TRAPS@,
        verbs()[1].traps == EXEC_TRAPS@,
        verbs()[2].traps == CAPTURE_TRAPS@,
        verbs()[3].traps == INPUT_TRAPS@,
        verbs()[4].traps == TRANSFER_TRAPS@,
        verbs()[5].traps == LIFECYCLE_TRAPS@,
{
}

/// A verb's section tells its name, what it does and where it runs, then how it is called where it
/// can be, and then every one of its traps, in order.
pub proof fn sections_tell_everything(
    c: CapabilityView,
    cs: Seq<CapabilityView>,
    traps: Seq<&'static str>,
    trap: &'static str,
)
    ensures
        section(c) == "### `"@ + c.op + "`"@ + "\n\n"@ + c.summary + "\n\n"@ + "- **Runs on:** "@
            + c.runs_on + "\n"@ + (if c.cli == "—"@ {
            Seq::empty()
        } else {
            "- **CLI:** `"@ + c.cli + "`\n"@
        }) + "\n"@ + (if c.traps.len() == 0 {
            Seq::empty()
        } else {
            "Traps:\n\n"@ + trap_items(c.traps) + "\n"@
        }),
        trap_items(traps.push(trap)) == trap_items(traps) + ("- "@ + trap@ + "\n"@),
        sections(cs.push(c)) == sections(cs) + section(c),
        document() == preface() + sections(verbs()) + closing(),
{
    assert(traps.push(trap).drop_last() =~= traps);
    assert(cs.push(c).drop_last() =~= cs);
}

/// The table has a line for each verb, in order, with its name, where it runs and what it does.
pub proof fn the_table_has_a_line_for_each_verb(cs: Seq<CapabilityView>, i: int)
    requires
        0 <= i < cs.len(),
    ensures
        table_lines(cs).len() == cs.len(),
        table_lines(cs)[i] == text::padded(cs[i].op, 10) + " "@ + text::padded(cs[i].runs_on, 6)
            + "  "@ + cs[i].summary,
{
}

} // verus!
