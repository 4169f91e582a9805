//! What the commands on a VM say: what was found, what was done, and why something was not.
use crate::host::guestclient::{self, Aftermath};
use crate::host::lifecycle::Snapshot;
use crate::host::pull::Pulled;
use crate::host::push::Pushed;
use crate::host::supervisor::VmState;
use crate::host::vm::{Directories, Firmware, VmConfig};
use crate::text;
use vstd::prelude::*;
use vstd::string::*;

verus! {

// ---------------------------------------------------------------------------
// A VM that has to run
// ---------------------------------------------------------------------------

/// What a running VM is needed for.
#[derive(Debug, Clone, Copy, PartialEq, Eq, Structural)]
pub enum Purpose {
    /// Moving a file.
    Transfer,
    /// Working with snapshots.
    Snapshot,
    /// Capturing the screen.
    Capture,
    /// Sending input.
    Input,
}

impl Purpose {
    /// What a stopped VM leaves nothing of.
    pub open spec fn lacking(self) -> Seq<char> {
        match self {
            Purpose::Transfer => "nothing to transfer to"@,
            Purpose::Snapshot => "no machine state to work with. A snapshot captures RAM as well as disk, and RAM only exists while the guest is up"@,
            Purpose::Capture => "nothing to capture"@,
            Purpose::Input => "nothing to send input to"@,
        }
    }

    fn lacks(self) -> (r: &'static str)
        ensures
            r@ == self.lacking(),
    {
        match self {
            Purpose::Transfer => "nothing to transfer to",
            Purpose::Snapshot => "no machine state to work with. A snapshot captures RAM as well as disk, and RAM only exists while the guest is up",
            Purpose::Capture => "nothing to capture",
            Purpose::Input => "nothing to send input to",
        }
    }
}

/// Why a VM in a state cannot be used for a purpose.
pub open spec fn running_refusal(state: VmState, purpose: Purpose) -> Option<Seq<char>> {
    if state is Stopped {
        Some(
            "the VM is not running, so there is "@ + purpose.lacking()
                + ". Start it with `wvm vm start`"@,
        )
    } else {
        None
    }
}

/// Check that a VM is running, as `purpose` needs it to.
pub fn require_running(state: &VmState, purpose: Purpose) -> (r: Result<(), String>)
    ensures
        match r {
            Ok(()) => !(state is Stopped),
            Err(e) => state is Stopped && e@ == "the VM is not running, so there is "@
                + purpose.lacking() + ". Start it with `wvm vm start`"@,
        },
        match (r, running_refusal(*state, purpose)) {
            (Ok(()), None) => true,
            (Err(e), Some(why)) => e@ == why,
            _ => false,
        },
{
    if state.is_running() {
        Ok(())
    } else {
        Err(
            text::cat3(
                "the VM is not running, so there is ",
                purpose.lacks(),
                ". Start it with `wvm vm start`",
            ),
        )
    }
}

// ---------------------------------------------------------------------------
// A definition and its state
// ---------------------------------------------------------------------------

/// What is said of a definition that is valid, line by line.
pub open spec fn validation_lines(
    path: Seq<char>,
    c: VmConfig,
    dirs: Directories,
    disk_exists: bool,
) -> Seq<Seq<char>> {
    seq![
        path + " is valid"@,
        "  name        "@ + c.name@,
        "  disk        "@ + c.disk@ + " ("@ + text::decimal(c.disk_gib as nat) + " GiB)"@,
        "  disk exists "@ + if disk_exists {
            "yes"@
        } else {
            "no — `wvm vm prepare` will create it"@
        },
        "  memory      "@ + text::decimal(c.memory_mib as nat) + " MiB"@,
        "  cpus        "@ + text::decimal(c.cpus as nat),
        "  firmware    "@ + match c.firmware {
            Firmware::Uefi => "Uefi"@,
            Firmware::Bios => "Bios"@,
        },
        "  install iso "@ + match c.install_iso {
            Some(iso) => iso@,
            None => "none"@,
        },
        "  driver iso  "@ + match c.driver_iso {
            Some(iso) => iso@,
            None => "none — Windows will not see a virtio disk without it"@,
        },
        "  state dir   "@ + c.state_path(dirs),
        "  forwards    127.0.0.1:"@ + text::decimal(c.forward_port as nat) + " -> guest:"@
            + text::decimal(c.guest_port as nat),
    ]
}

/// What is said of a definition that is valid. Whether its disk exists has been looked up.
pub fn validation(path: &str, config: &VmConfig, dirs: &Directories, disk_exists: bool) -> (r:
    String)
    ensures
        r@ == text::joined(validation_lines(path@, *config, *dirs, disk_exists), "\n"@),
{
    let disk_gib = text::to_decimal(config.disk_gib);
    let memory = text::to_decimal(config.memory_mib);
    let cpus = text::to_decimal(config.cpus as u64);
    let forward = text::to_decimal(config.forward_port as u64);
    let guest = text::to_decimal(config.guest_port as u64);
    let state = config.state_dir(dirs);
    let mut lines: Vec<String> = Vec::new();
    lines.push(text::cat2(path, " is valid"));
    lines.push(text::cat2("  name        ", config.name.as_str()));
    lines.push(
        text::cat5("  disk        ", config.disk.as_str(), " (", disk_gib.as_str(), " GiB)"),
    );
    lines.push(
        text::cat2(
            "  disk exists ",
            if disk_exists {
                "yes"
            } else {
                "no — `wvm vm prepare` will create it"
            },
        ),
    );
    lines.push(text::cat3("  memory      ", memory.as_str(), " MiB"));
    lines.push(text::cat2("  cpus        ", cpus.as_str()));
    lines.push(
        text::cat2(
            "  firmware    ",
            match config.firmware {
                Firmware::Uefi => "Uefi",
                Firmware::Bios => "Bios",
            },
        ),
    );
    lines.push(
        text::cat2(
            "  install iso ",
            match &config.install_iso {
                Some(iso) => iso.as_str(),
                None => "none",
            },
        ),
    );
    lines.push(
        text::cat2(
            "  driver iso  ",
            match &config.driver_iso {
                Some(iso) => iso.as_str(),
                None => "none — Windows will not see a virtio disk without it",
            },
        ),
    );
    lines.push(text::cat2("  state dir   ", state.as_str()));
    lines.push(
        text::cat4(
            "  forwards    127.0.0.1:",
            forward.as_str(),
            " -> guest:",
            guest.as_str(),
        ),
    );
    assert(text::views(lines@) == validation_lines(path@, *config, *dirs, disk_exists));
    text::join(&lines, "\n")
}

/// Whether a file is there, in a word.
pub open spec fn presence(there: bool) -> Seq<char> {
    if there {
        "present"@
    } else {
        "absent"@
    }
}

fn show_presence(there: bool) -> (r: &'static str)
    ensures
        r@ == presence(there),
{
    if there {
        "present"
    } else {
        "absent"
    }
}

/// What is said of a VM's state: the state, and what it was determined from.
pub fn status(
    state: &VmState,
    config: &VmConfig,
    dirs: &Directories,
    pid_file_exists: bool,
    socket_exists: bool,
) -> (r: String)
    ensures
        r@ == text::joined(
            seq![
                state.shown(),
                "  pid file    "@ + config.state_file(*dirs, "qemu.pid"@) + " ("@ + presence(
                    pid_file_exists,
                ) + ")"@,
                "  qmp socket  "@ + config.state_file(*dirs, "qmp.sock"@) + " ("@ + presence(
                    socket_exists,
                ) + ")"@,
            ],
            "\n"@,
        ),
{
    let pid_file = config.pid_file(dirs);
    let socket = config.qmp_socket(dirs);
    let mut lines: Vec<String> = Vec::new();
    lines.push(state.label());
    lines.push(
        text::cat5(
            "  pid file    ",
            pid_file.as_str(),
            " (",
            show_presence(pid_file_exists),
            ")",
        ),
    );
    lines.push(
        text::cat5("  qmp socket  ", socket.as_str(), " (", show_presence(socket_exists), ")"),
    );
    assert(text::views(lines@) == seq![
        state.shown(),
        "  pid file    "@ + config.state_file(*dirs, "qemu.pid"@) + " ("@ + presence(
            pid_file_exists,
        ) + ")"@,
        "  qmp socket  "@ + config.state_file(*dirs, "qmp.sock"@) + " ("@ + presence(
            socket_exists,
        ) + ")"@,
    ]);
    text::join(&lines, "\n")
}

/// A VM that was started and does not answer.
#[derive(Debug, PartialEq, Eq)]
pub struct Unresponsive {
    /// What to look at.
    pub warning: String,
    /// What went wrong.
    pub failure: String,
}

/// What is said of a VM that was given `timeout` seconds to answer after its start. A process that
/// exists is not yet a VM that runs.
pub fn responsiveness(state: &VmState, timeout: u64, config: &VmConfig, dirs: &Directories) -> (r:
    Result<String, Unresponsive>)
    ensures
        match (r, *state) {
            (Ok(said), VmState::Running { status }) => said@ == "responsive: "@ + status@,
            (Err(e), VmState::Stopped) | (Err(e), VmState::Unresponsive { .. }) => {
                &&& e.warning@ == "warning: QEMU is "@ + state.shown()
                    + ". Check the serial log with `wvm vm log` and "@ + config.state_file(
                    *dirs,
                    "qemu.log"@,
                )
                &&& e.failure@ == "the VM did not become responsive within "@ + text::decimal(
                    timeout as nat,
                ) + "s"@
            },
            _ => false,
        },
{
    match state {
        VmState::Running { status } => Ok(text::cat2("responsive: ", status.as_str())),
        _ => {
            let label = state.label();
            let log = config.monitor_log(dirs);
            let secs = text::to_decimal(timeout);
            Err(
                Unresponsive {
                    warning: text::cat4(
                        "warning: QEMU is ",
                        label.as_str(),
                        ". Check the serial log with `wvm vm log` and ",
                        log.as_str(),
                    ),
                    failure: text::cat3(
                        "the VM did not become responsive within ",
                        secs.as_str(),
                        "s",
                    ),
                },
            )
        },
    }
}

// ---------------------------------------------------------------------------
// Files
// ---------------------------------------------------------------------------

/// What is said of a push that took as long as `timing` says.
pub fn pushed(what: &Pushed, timing: &str, overwrite: bool) -> (r: String)
    ensures
        r@ == "pushed "@ + text::decimal(what.bytes as nat) + " bytes in "@ + text::decimal(
            what.chunks as nat,
        ) + " chunk(s) to "@ + what.guest_path@ + "\n  "@ + timing@ + if overwrite {
            ""@
        } else {
            "\n  (an existing file at the destination would have been refused)"@
        },
{
    let bytes = text::to_decimal(what.bytes);
    let chunks = text::to_decimal(what.chunks);
    let done = text::cat6(
        "pushed ",
        bytes.as_str(),
        " bytes in ",
        chunks.as_str(),
        " chunk(s) to ",
        what.guest_path.as_str(),
    );
    text::cat4(
        done.as_str(),
        "\n  ",
        timing,
        if overwrite {
            ""
        } else {
            "\n  (an existing file at the destination would have been refused)"
        },
    )
}

/// What is said of a pull that took as long as `timing` says.
pub fn pulled(what: &Pulled, guest_path: &str, timing: &str) -> (r: String)
    ensures
        r@ == "pulled "@ + text::decimal(what.bytes as nat) + " bytes in "@ + text::decimal(
            what.chunks as nat,
        ) + " chunk(s) from "@ + guest_path@ + "\n  written to "@ + what.host_path@ + "\n  "@
            + timing@,
{
    let bytes = text::to_decimal(what.bytes);
    let chunks = text::to_decimal(what.chunks);
    let done = text::cat6(
        "pulled ",
        bytes.as_str(),
        " bytes in ",
        chunks.as_str(),
        " chunk(s) from ",
        guest_path,
    );
    text::cat5(done.as_str(), "\n  written to ", what.host_path.as_str(), "\n  ", timing)
}

// ---------------------------------------------------------------------------
// Snapshots
// ---------------------------------------------------------------------------

/// How many snapshots a disk may hold before a save is preceded by a note.
pub const CROWDED: usize = 2;

/// Whether a disk holds so many snapshots that saves get slow.
pub open spec fn is_crowded(count: nat) -> bool {
    count > CROWDED
}

/// What is said, before a save, of a disk that holds many snapshots already.
pub fn crowding(count: usize) -> (r: Option<String>)
    ensures
        match r {
            Some(note) => count > CROWDED && note@ == "  note: this disk already holds "@
                + text::decimal(count as nat)
                + " snapshots. Saves get slower as they accumulate — the guest froze for 57s with nine, against 6.5s on a fresh disk — and that is also the state in which crashes have been observed. `wvm vm snapshot delete <tag>` reclaims one."@,
            None => count <= CROWDED,
        },
        r is Some <==> is_crowded(count as nat),
{
    if count > CROWDED {
        let held = text::to_decimal(count as u64);
        Some(
            text::cat3(
                "  note: this disk already holds ",
                held.as_str(),
                " snapshots. Saves get slower as they accumulate — the guest froze for 57s with nine, against 6.5s on a fresh disk — and that is also the state in which crashes have been observed. `wvm vm snapshot delete <tag>` reclaims one.",
            ),
        )
    } else {
        None
    }
}

/// How one snapshot is listed, with its size as a human would write it.
pub open spec fn snapshot_line(s: Snapshot, size: Seq<char>) -> Seq<char> {
    "\n  "@ + text::padded(s.tag@, 20) + " "@ + text::indented(size, 10) + "   (id "@ + s.id@
        + ")"@
}

/// How snapshots are listed, each with its size.
pub open spec fn snapshot_lines(snapshots: Seq<Snapshot>, sizes: Seq<Seq<char>>) -> Seq<char>
    decreases snapshots.len(),
{
    if snapshots.len() == 0 {
        Seq::empty()
    } else {
        snapshot_lines(snapshots.drop_last(), sizes) + snapshot_line(
            snapshots.last(),
            sizes[snapshots.len() - 1],
        )
    }
}

/// The snapshots on a disk, each with its size as a human would write it.
pub fn snapshot_listing(snapshots: &Vec<Snapshot>, sizes: &Vec<String>) -> (r: String)
    requires
        snapshots@.len() == sizes@.len(),
    ensures
        r@ == if snapshots@.len() == 0 {
            "no snapshots on this disk"@
        } else {
            "snapshots on this disk:"@ + snapshot_lines(snapshots@, text::views(sizes@))
        },
{
    if snapshots.len() == 0 {
        return text::own("no snapshots on this disk");
    }
    let mut out = text::own("snapshots on this disk:");
    let mut i: usize = 0;
    let ghost all = snapshots@;
    let ghost shown = text::views(sizes@);
    while i < snapshots.len()
        invariant
            i <= snapshots.len(),
            all == snapshots@,
            shown == text::views(sizes@),
            all.len() == sizes@.len(),
            out@ == "snapshots on this disk:"@ + snapshot_lines(all.take(i as int), shown),
        decreases snapshots.len() - i,
    {
        let s = &snapshots[i];
        let tag = text::pad(s.tag.as_str(), 20);
        let size = text::indent(sizes[i].as_str(), 10);
        let line = text::cat7("\n  ", tag.as_str(), " ", size.as_str(), "   (id ", s.id.as_str(), ")");
        proof {
            assert(all.take(i + 1).drop_last() == all.take(i as int));
            assert(all.take(i + 1).last() == *s);
            assert(shown[i as int] == sizes@[i as int]@);
        }
        out.append(line.as_str());
        i += 1;
    }
    assert(all.take(all.len() as int) == all);
    out
}

/// What is said of the guest after a save: nothing where there is nothing to say, and a failure
/// where it fell silent. A save that succeeded can leave a crashed guest behind.
pub open spec fn save_words(what: Aftermath, seconds: Seq<char>) -> Result<
    Option<Seq<char>>,
    Seq<char>,
> {
    match what {
        Aftermath::Unclaimed | Aftermath::Answering => Ok(None),
        Aftermath::Thawed => Ok(
            Some(
                "  guest answering again after "@ + seconds + "s — that was the freeze ending"@,
            ),
        ),
        Aftermath::Silent => Err(
            "the snapshot was written, BUT THE GUEST HAS NOT ANSWERED IN 240 SECONDS. It may have bugchecked — this is the failure recorded in D-018, and an ordinary freeze does not look like this. Check C:\\Windows\\Minidump inside the guest before trusting the machine."@,
        ),
    }
}

/// What is said of the guest after a save, which came back after as many seconds.
pub fn after_save(what: Aftermath, seconds: &str) -> (r: Result<Option<String>, String>)
    ensures
        match (r, save_words(what, seconds@)) {
            (Ok(said), Ok(words)) => text::opt_view(said) == words,
            (Err(e), Err(words)) => e@ == words,
            _ => false,
        },
{
    match what {
        Aftermath::Unclaimed | Aftermath::Answering => Ok(None),
        Aftermath::Thawed => Ok(
            Some(
                text::cat3(
                    "  guest answering again after ",
                    seconds,
                    "s — that was the freeze ending",
                ),
            ),
        ),
        Aftermath::Silent => Err(
            text::own(
                "the snapshot was written, BUT THE GUEST HAS NOT ANSWERED IN 240 SECONDS. It may have bugchecked — this is the failure recorded in D-018, and an ordinary freeze does not look like this. Check C:\\Windows\\Minidump inside the guest before trusting the machine.",
            ),
        ),
    }
}

/// What is said of the guest after a restore. It is said to run only where it answered.
pub open spec fn restore_words(what: Aftermath, seconds: Seq<char>) -> Result<
    Seq<char>,
    Seq<char>,
> {
    match what {
        Aftermath::Unclaimed => Ok(
            "  the guest was not answering before the restore, so no claim is made about it now — anything written since the snapshot is still gone"@,
        ),
        Aftermath::Answering | Aftermath::Thawed => Ok(
            "  guest is running again ("@ + seconds
                + "s) and anything written since the snapshot is gone"@,
        ),
        Aftermath::Silent => Err(
            "the snapshot loaded, BUT THE GUEST HAS NOT ANSWERED IN 240 SECONDS. It may have bugchecked — see D-018. Check C:\\Windows\\Minidump inside the guest before trusting the machine."@,
        ),
    }
}

/// What is said of the guest after a restore, which came back after as many seconds.
pub fn after_restore(what: Aftermath, seconds: &str) -> (r: Result<String, String>)
    ensures
        match (r, restore_words(what, seconds@)) {
            (Ok(said), Ok(words)) => said@ == words,
            (Err(e), Err(words)) => e@ == words,
            _ => false,
        },
{
    match what {
        Aftermath::Unclaimed => Ok(
            text::own(
                "  the guest was not answering before the restore, so no claim is made about it now — anything written since the snapshot is still gone",
            ),
        ),
        Aftermath::Answering | Aftermath::Thawed => Ok(
            text::cat3(
                "  guest is running again (",
                seconds,
                "s) and anything written since the snapshot is gone",
            ),
        ),
        Aftermath::Silent => Err(
            text::own(
                "the snapshot loaded, BUT THE GUEST HAS NOT ANSWERED IN 240 SECONDS. It may have bugchecked — see D-018. Check C:\\Windows\\Minidump inside the guest before trusting the machine.",
            ),
        ),
    }
}

/// A guest that answered before and fell silent is a failure of the save or restore, whatever the
/// snapshot itself came to; and of one that did not answer before, nothing is claimed and nothing
/// fails.
pub proof fn silence_is_never_called_success(was_answering: bool, waited: nat, seconds: Seq<char>)
    ensures
        save_words(guestclient::became(was_answering, waited), seconds) is Err <==> (was_answering
            && waited >= guestclient::ANSWER_DEADLINE),
        restore_words(guestclient::became(was_answering, waited), seconds) is Err <==> (
        was_answering && waited >= guestclient::ANSWER_DEADLINE),
        !was_answering ==> save_words(guestclient::became(was_answering, waited), seconds) == Ok::<
            Option<Seq<char>>,
            Seq<char>,
        >(None),
{
}

// ---------------------------------------------------------------------------
// The display
// ---------------------------------------------------------------------------

/// What is said of viewers that were asked to close.
pub fn hidden(count: usize) -> (r: String)
    ensures
        r@ == if count == 0 {
            "  no viewer attached; nothing to close"@
        } else {
            "  closed "@ + text::decimal(count as nat) + " viewer(s). The VM is untouched."@
        },
{
    if count == 0 {
        text::own("  no viewer attached; nothing to close")
    } else {
        let n = text::to_decimal(count as u64);
        text::cat3("  closed ", n.as_str(), " viewer(s). The VM is untouched.")
    }
}

/// What a definition that was checked is shown as: each thing that it says, on a line of its own.
pub proof fn definitions_are_shown_as_they_are(
    path: Seq<char>,
    c: VmConfig,
    dirs: Directories,
    disk_exists: bool,
)
    ensures
        ({
            let lines = validation_lines(path, c, dirs, disk_exists);
            &&& lines.len() == 11
            &&& lines[0] == path + " is valid"@
            &&& lines[1] == "  name        "@ + c.name@
            &&& lines[2] == "  disk        "@ + c.disk@ + " ("@ + text::decimal(c.disk_gib as nat)
                + " GiB)"@
            &&& disk_exists ==> lines[3] == "  disk exists "@ + "yes"@
            &&& !disk_exists ==> lines[3] == "  disk exists "@
                + "no — `wvm vm prepare` will create it"@
            &&& lines[4] == "  memory      "@ + text::decimal(c.memory_mib as nat) + " MiB"@
            &&& lines[5] == "  cpus        "@ + text::decimal(c.cpus as nat)
            &&& c.firmware == Firmware::Uefi ==> lines[6] == "  firmware    "@ + "Uefi"@
            &&& c.firmware == Firmware::Bios ==> lines[6] == "  firmware    "@ + "Bios"@
            &&& c.install_iso matches Some(iso) ==> lines[7] == "  install iso "@ + iso@
            &&& c.install_iso is None ==> lines[7] == "  install iso "@ + "none"@
            &&& c.driver_iso matches Some(iso) ==> lines[8] == "  driver iso  "@ + iso@
            &&& c.driver_iso is None ==> lines[8] == "  driver iso  "@
                + "none — Windows will not see a virtio disk without it"@
            &&& lines[9] == "  state dir   "@ + c.state_path(dirs)
            &&& lines[10] == "  forwards    127.0.0.1:"@ + text::decimal(c.forward_port as nat)
                + " -> guest:"@ + text::decimal(c.guest_port as nat)
        }),
{
}

/// A listing shows every snapshot once, in order, each with its own tag, size and id.
pub proof fn listings_show_every_snapshot(
    snapshots: Seq<Snapshot>,
    sizes: Seq<Seq<char>>,
    s: Snapshot,
    size: Seq<char>,
)
    requires
        snapshots.len() == sizes.len(),
    ensures
        snapshot_lines(snapshots.push(s), sizes.push(size)) == snapshot_lines(snapshots, sizes)
            + "\n  "@ + text::padded(s.tag@, 20) + " "@ + text::indented(size, 10) + "   (id "@
            + s.id@ + ")"@,
        snapshot_lines(Seq::empty(), Seq::empty()).len() == 0,
{
    lines_need_their_own_sizes(snapshots, sizes, sizes.push(size));
    let before = snapshot_lines(snapshots, sizes);
    assert(snapshots.push(s).drop_last() =~= snapshots);
    assert(snapshot_lines(snapshots.push(s), sizes.push(size)) == before + snapshot_line(s, size));
    assert(before + snapshot_line(s, size) =~= before + "\n  "@ + text::padded(s.tag@, 20) + " "@
        + text::indented(size, 10) + "   (id "@ + s.id@ + ")"@);
}

proof fn lines_need_their_own_sizes(
    snapshots: Seq<Snapshot>,
    sizes: Seq<Seq<char>>,
    more: Seq<Seq<char>>,
)
    requires
        snapshots.len() <= sizes.len(),
        snapshots.len() <= more.len(),
        forall|i: int| 0 <= i < snapshots.len() ==> #[trigger] sizes[i] == more[i],
    ensures
        snapshot_lines(snapshots, sizes) == snapshot_lines(snapshots, more),
    decreases snapshots.len(),
{
    if snapshots.len() > 0 {
        lines_need_their_own_sizes(snapshots.drop_last(), sizes, more);
        assert(sizes[snapshots.len() - 1] == more[snapshots.len() - 1]);
    }
}

/// What is said after a save or a restore, by how the guest took it: only silence is a failure, only
/// a freeze worth telling of is told after a save, and a restore always says that what was written
/// since is gone.
pub proof fn aftermaths_are_told_so(seconds: Seq<char>)
    ensures
        save_words(Aftermath::Unclaimed, seconds) == Ok::<Option<Seq<char>>, Seq<char>>(None),
        save_words(Aftermath::Answering, seconds) == Ok::<Option<Seq<char>>, Seq<char>>(None),
        save_words(Aftermath::Thawed, seconds) == Ok::<Option<Seq<char>>, Seq<char>>(
            Some("  guest answering again after "@ + seconds + "s — that was the freeze ending"@),
        ),
        save_words(Aftermath::Silent, seconds) is Err,
        restore_words(Aftermath::Unclaimed, seconds) == Ok::<Seq<char>, Seq<char>>(
            "  the guest was not answering before the restore, so no claim is made about it now — anything written since the snapshot is still gone"@,
        ),
        restore_words(Aftermath::Answering, seconds) == Ok::<Seq<char>, Seq<char>>(
            "  guest is running again ("@ + seconds
                + "s) and anything written since the snapshot is gone"@,
        ),
        restore_words(Aftermath::Thawed, seconds) == restore_words(Aftermath::Answering, seconds),
        restore_words(Aftermath::Silent, seconds) is Err,
{
}

/// What is lacking where a VM does not run, by what it was wanted for; and how a file that is there
/// or not is shown.
pub proof fn what_is_lacking_is_named()
    ensures
        Purpose::Transfer.lacking() == "nothing to transfer to"@,
        Purpose::Snapshot.lacking()
            == "no machine state to work with. A snapshot captures RAM as well as disk, and RAM only exists while the guest is up"@,
        Purpose::Capture.lacking() == "nothing to capture"@,
        Purpose::Input.lacking() == "nothing to send input to"@,
        presence(true) == "present"@,
        presence(false) == "absent"@,
{
}

/// Only a VM that is stopped is refused, for any purpose, and what is said names what is lacking. A
/// disk is crowded from three snapshots on.
pub proof fn only_stopped_vms_are_refused(state: VmState, purpose: Purpose, count: nat)
    ensures
        running_refusal(state, purpose) is Some <==> state is Stopped,
        state is Stopped ==> running_refusal(state, purpose) == Some(
            "the VM is not running, so there is "@ + purpose.lacking()
                + ". Start it with `wvm vm start`"@,
        ),
        is_crowded(count) <==> count >= 3,
{
}

} // verus!
