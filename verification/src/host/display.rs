//! Putting the guest's desktop on screen, on request, and taking it away again.
//!
//! The VM always has a display server, so showing the desktop is attaching a viewer to a socket that
//! is already there. A viewer is a separate process: closing it never takes the VM down. Whether the
//! server is there is told by connecting to the socket, because a crashed QEMU leaves its socket
//! behind.
use crate::host::vm::{Directories, VmConfig};
use crate::text;
use vstd::prelude::*;
use vstd::string::*;

verus! {

/// The viewer's program name, by which a viewer is told from another process that names the socket.
pub const VIEWER_HINT: &'static str = "remote-viewer";

/// Where a viewer of this VM attaches.
pub fn socket_path(config: &VmConfig, dirs: &Directories) -> (r: String)
    ensures
        r@ == config.spice_path(*dirs),
{
    config.spice_socket(dirs)
}

/// An entry of the process table.
#[derive(Debug, PartialEq, Eq)]
pub struct Entry {
    /// The entry's name, which is a number for a process.
    pub name: String,
    /// The process' arguments, with a zero byte after each.
    pub cmdline: Vec<u8>,
}

/// The arguments of a process in one line.
pub open spec fn argument_line(cmdline: Seq<u8>) -> Seq<char> {
    text::replaced(text::lossy(cmdline), '\0', ' ')
}

/// The process of an entry that is a viewer on a socket.
pub open spec fn viewer_in(entry: Entry, socket: Seq<char>) -> Option<nat> {
    let line = argument_line(entry.cmdline@);
    if text::holds(line, socket) && text::holds(line, VIEWER_HINT@) {
        text::numeral_up_to(entry.name@, u32::MAX as nat)
    } else {
        None
    }
}

/// The viewers on a socket, in the order of the process table.
pub open spec fn viewers(entries: Seq<Entry>, socket: Seq<char>) -> Seq<nat>
    decreases entries.len(),
{
    if entries.len() == 0 {
        Seq::empty()
    } else {
        let before = viewers(entries.drop_last(), socket);
        match viewer_in(entries.last(), socket) {
            Some(pid) => before.push(pid),
            None => before,
        }
    }
}

/// Process numbers as numbers.
pub open spec fn numbers(pids: Seq<u32>) -> Seq<nat> {
    pids.map_values(|p: u32| p as nat)
}

/// The viewers on a socket among the processes there are: those whose arguments hold both the
/// socket and the viewer's name.
pub fn readers_of_us(entries: &[Entry], socket: &str) -> (r: Vec<u32>)
    ensures
        numbers(r@) == viewers(entries@, socket@),
{
    let mut found: Vec<u32> = Vec::new();
    let mut i: usize = 0;
    assert(entries@.take(0) == Seq::<Entry>::empty());
    while i < entries.len()
        invariant
            i <= entries.len(),
            numbers(found@) == viewers(entries@.take(i as int), socket@),
        decreases entries.len() - i,
    {
        let entry = &entries[i];
        proof {
            assert(entries@.take(i + 1).drop_last() == entries@.take(i as int));
            assert(entries@.take(i + 1).last() == *entry);
        }
        let name = text::to_chars(entry.name.as_str());
        match text::parse_u32(&name) {
            Some(pid) => {
                let raw = text::from_utf8_lossy(&entry.cmdline);
                let chars = text::to_chars(raw.as_str());
                let spaced = text::replace_char(&chars, '\0', ' ');
                let line = text::from_chars(&spaced);
                if text::includes(line.as_str(), socket) && text::includes(
                    line.as_str(),
                    VIEWER_HINT,
                ) {
                    assert(numbers(found@.push(pid)) == numbers(found@).push(pid as nat));
                    found.push(pid);
                }
            },
            None => {},
        }
        i += 1;
    }
    assert(entries@.take(entries@.len() as int) == entries@);
    found
}

/// How many viewers are attached to the display of a VM.
pub open spec fn attached_to(config: VmConfig, dirs: Directories, entries: Seq<Entry>) -> nat {
    viewers(entries, config.spice_path(dirs)).len()
}

/// How many viewers are attached to this VM's display.
pub fn viewer_count(config: &VmConfig, dirs: &Directories, entries: &[Entry]) -> (r: usize)
    ensures
        r == viewers(entries@, config.spice_path(*dirs)).len(),
        r == attached_to(*config, *dirs, entries@),
{
    let path = socket_path(config, dirs);
    let found = readers_of_us(entries, path.as_str());
    assert(numbers(found@).len() == found@.len());
    found.len()
}

/// Why no viewer is opened on a display: nothing listens, or one is open already.
pub open spec fn show_refusal(path: Seq<char>, listening: bool, attached: nat) -> Option<Seq<char>> {
    if !listening {
        Some(
            "the VM has no display server listening on "@ + path
                + ". Start it with `wvm vm start`; the server is created at launch and cannot be attached to a running VM (D-021)."@,
        )
    } else if attached > 0 {
        Some(
            "a viewer is already attached to this display ("@ + text::decimal(attached)
                + "); nothing to do. Close that window first if you meant to reopen it. A second simultaneous SPICE viewer is the known-unreliable path."@,
        )
    } else {
        None
    }
}

/// The address by which a viewer opens a display.
pub open spec fn address(path: Seq<char>) -> Seq<char> {
    "spice+unix://"@ + path
}

/// What a viewer is started with, or why none is started: there is no server, or a viewer is
/// attached already. A second viewer at the same time is the unreliable case.
pub fn show(path: &str, listening: bool, attached: usize) -> (r: Result<String, String>)
    ensures
        match r {
            Ok(uri) => listening && attached == 0 && uri@ == "spice+unix://"@ + path@,
            Err(e) => if !listening {
                e@ == "the VM has no display server listening on "@ + path@
                    + ". Start it with `wvm vm start`; the server is created at launch and cannot be attached to a running VM (D-021)."@
            } else {
                attached > 0 && e@ == "a viewer is already attached to this display ("@
                    + text::decimal(attached as nat)
                    + "); nothing to do. Close that window first if you meant to reopen it. A second simultaneous SPICE viewer is the known-unreliable path."@
            },
        },
        match (r, show_refusal(path@, listening, attached as nat)) {
            (Ok(uri), None) => uri@ == address(path@),
            (Err(e), Some(why)) => e@ == why,
            _ => false,
        },
{
    if !listening {
        return Err(
            text::cat3(
                "the VM has no display server listening on ",
                path,
                ". Start it with `wvm vm start`; the server is created at launch and cannot be attached to a running VM (D-021).",
            ),
        );
    }
    if attached > 0 {
        let n = text::to_decimal(attached as u64);
        return Err(
            text::cat3(
                "a viewer is already attached to this display (",
                n.as_str(),
                "); nothing to do. Close that window first if you meant to reopen it. A second simultaneous SPICE viewer is the known-unreliable path.",
            ),
        );
    }
    Ok(text::cat2("spice+unix://", path))
}

/// What a caller is told where the viewer cannot be started.
pub fn viewer_missing() -> (r: String)
    ensures
        r@
            == "could not start `remote-viewer`. Install virt-viewer (it provides remote-viewer), which speaks spice+unix:// natively -- vncviewer does not."@,
{
    text::own(
        "could not start `remote-viewer`. Install virt-viewer (it provides remote-viewer), which speaks spice+unix:// natively -- vncviewer does not.",
    )
}

/// How the display is summed up.
pub open spec fn summary(path: Seq<char>, exists: bool, listening: bool, attached: nat) -> Seq<
    char,
> {
    if !exists {
        "no display server: the socket does not exist (is the VM running?)"@
    } else if !listening {
        "socket "@ + path
            + " exists but NOTHING is listening -- this is a stale socket, likely left by a QEMU that crashed rather than exited. It does not mean the display is available."@
    } else if attached == 0 {
        "display available on "@ + path + "; no viewer attached"@
    } else if attached == 1 {
        "display available on "@ + path + "; 1 viewer attached"@
    } else {
        "display available on "@ + path + "; "@ + text::decimal(attached) + " viewers attached"@
    }
}

/// A summary of the display in one line: whether the socket exists, whether anything listens on it,
/// and how many viewers are attached.
pub fn describe(path: &str, exists: bool, listening: bool, attached: usize) -> (r: String)
    ensures
        r@ == summary(path@, exists, listening, attached as nat),
{
    if !exists {
        text::own("no display server: the socket does not exist (is the VM running?)")
    } else if !listening {
        text::cat3(
            "socket ",
            path,
            " exists but NOTHING is listening -- this is a stale socket, likely left by a QEMU that crashed rather than exited. It does not mean the display is available.",
        )
    } else if attached == 0 {
        text::cat3("display available on ", path, "; no viewer attached")
    } else if attached == 1 {
        text::cat3("display available on ", path, "; 1 viewer attached")
    } else {
        let n = text::to_decimal(attached as u64);
        text::cat5("display available on ", path, "; ", n.as_str(), " viewers attached")
    }
}

/// A process is counted as a viewer only if its arguments hold the socket and the viewer's name: the
/// process that asks is none, and neither is the viewer of another VM's socket that does not hold
/// this one.
pub proof fn only_viewers_are_counted(entries: Seq<Entry>, socket: Seq<char>, k: int)
    requires
        0 <= k < viewers(entries, socket).len(),
    ensures
        exists|i: int|
            0 <= i < entries.len() && viewer_in(#[trigger] entries[i], socket) == Some(
                viewers(entries, socket)[k],
            ) && text::holds(argument_line(entries[i].cmdline@), socket) && text::holds(
                argument_line(entries[i].cmdline@),
                VIEWER_HINT@,
            ),
    decreases entries.len(),
{
    let before = viewers(entries.drop_last(), socket);
    if k < before.len() {
        only_viewers_are_counted(entries.drop_last(), socket, k);
        let i = choose|i: int|
            0 <= i < entries.drop_last().len() && viewer_in(
                #[trigger] entries.drop_last()[i],
                socket,
            ) == Some(before[k]) && text::holds(
                argument_line(entries.drop_last()[i].cmdline@),
                socket,
            ) && text::holds(argument_line(entries.drop_last()[i].cmdline@), VIEWER_HINT@);
        assert(entries[i] == entries.drop_last()[i]);
    } else {
        assert(entries[entries.len() - 1] == entries.last());
    }
}

/// Each process is looked at on its own account: the viewers of two runs of processes are those of
/// the first and then those of the second. One process is a viewer exactly where its entry is a
/// number, and its arguments hold both the socket and the name of the viewer.
pub proof fn every_viewer_is_counted(
    first: Seq<Entry>,
    second: Seq<Entry>,
    socket: Seq<char>,
    entry: Entry,
)
    ensures
        viewers(first + second, socket) == viewers(first, socket) + viewers(second, socket),
        viewers(seq![entry], socket).len() == 1 <==> {
            &&& text::numeral(entry.name@) is Some
            &&& text::numeral(entry.name@)->Some_0 <= 0xffff_ffff
            &&& text::holds(argument_line(entry.cmdline@), socket)
            &&& text::holds(argument_line(entry.cmdline@), "remote-viewer"@)
        },
        viewers(seq![entry], socket).len() == 1 ==> Some(viewers(seq![entry], socket)[0])
            == text::numeral(entry.name@),
        viewers(seq![entry], socket).len() <= 1,
    decreases second.len(),
{
    assert(seq![entry].drop_last() =~= Seq::<Entry>::empty());
    assert(viewers(Seq::<Entry>::empty(), socket) =~= Seq::empty());
    assert(seq![entry].last() == entry);
    if second.len() == 0 {
        assert(first + second =~= first);
        assert(viewers(second, socket) =~= Seq::empty());
        assert(viewers(first, socket) + viewers(second, socket) =~= viewers(first, socket));
    } else {
        every_viewer_is_counted(first, second.drop_last(), socket, entry);
        assert((first + second).drop_last() =~= first + second.drop_last());
        assert((first + second).last() == second.last());
        assert(viewers(first + second, socket) =~= viewers(first, socket) + viewers(second, socket));
    }
}

/// A display is said to be available exactly where its socket is there and something listens on it.
/// A socket that nothing listens on is said to be stale, and how many viewers are attached is told.
pub proof fn displays_are_described_as_they_are(
    path: Seq<char>,
    exists: bool,
    listening: bool,
    attached: nat,
)
    ensures
        text::starts_with(summary(path, exists, listening, attached), "display available on "@)
            <==> exists && listening,
        !exists ==> summary(path, exists, listening, attached)
            == "no display server: the socket does not exist (is the VM running?)"@,
        exists && !listening ==> summary(path, exists, listening, attached) == "socket "@ + path
            + " exists but NOTHING is listening -- this is a stale socket, likely left by a QEMU that crashed rather than exited. It does not mean the display is available."@,
        exists && listening ==> summary(path, exists, listening, attached)
            == "display available on "@ + path + "; "@ + (if attached == 0 {
            "no viewer attached"@
        } else if attached == 1 {
            "1 viewer attached"@
        } else {
            text::decimal(attached) + " viewers attached"@
        }),
{
    reveal_strlit("display available on ");
    reveal_strlit("no display server: the socket does not exist (is the VM running?)");
    reveal_strlit("socket ");
    reveal_strlit("; ");
    reveal_strlit("; no viewer attached");
    reveal_strlit("no viewer attached");
    reveal_strlit("; 1 viewer attached");
    reveal_strlit("1 viewer attached");
    reveal_strlit(" viewers attached");
    let said = summary(path, exists, listening, attached);
    let start = "display available on "@;
    assert(start.len() == 21);
    if exists && listening {
        assert(said.take(21) =~= start);
        if attached == 0 {
            assert(said =~= start + path + "; "@ + "no viewer attached"@);
        } else if attached == 1 {
            assert(said =~= start + path + "; "@ + "1 viewer attached"@);
        } else {
            assert(said =~= start + path + "; "@ + (text::decimal(attached)
                + " viewers attached"@));
        }
    } else {
        assert(said[0] != 'd');
        assert(start[0] == 'd');
        if text::starts_with(said, start) {
            assert(said.take(21)[0] == said[0]);
        }
    }
}

/// A viewer is opened exactly where something listens on the display and no viewer is attached, on
/// the display's own socket. A second viewer is never opened.
pub proof fn one_viewer_at_a_time(path: Seq<char>, listening: bool, attached: nat)
    ensures
        show_refusal(path, listening, attached) is None <==> listening && attached == 0,
        !listening ==> show_refusal(path, listening, attached) == Some(
            "the VM has no display server listening on "@ + path
                + ". Start it with `wvm vm start`; the server is created at launch and cannot be attached to a running VM (D-021)."@,
        ),
        listening && attached > 0 ==> show_refusal(path, listening, attached) == Some(
            "a viewer is already attached to this display ("@ + text::decimal(attached)
                + "); nothing to do. Close that window first if you meant to reopen it. A second simultaneous SPICE viewer is the known-unreliable path."@,
        ),
        address(path) == "spice+unix://"@ + path,
{
}

/// The viewers of a VM are those on its own display socket: one that is attached to another VM's is
/// not counted.
pub proof fn viewers_are_counted_on_their_own_socket(
    config: VmConfig,
    dirs: Directories,
    entries: Seq<Entry>,
    entry: Entry,
)
    ensures
        attached_to(config, dirs, entries.push(entry)) == attached_to(config, dirs, entries) + (
        if text::numeral(entry.name@) is Some && text::numeral(entry.name@)->Some_0 <= 0xffff_ffff
            && text::holds(argument_line(entry.cmdline@), config.spice_path(dirs)) && text::holds(
            argument_line(entry.cmdline@),
            "remote-viewer"@,
        ) {
            1int
        } else {
            0
        }),
{
    let socket = config.spice_path(dirs);
    every_viewer_is_counted(entries, seq![entry], socket, entry);
    assert(entries.push(entry) =~= entries + seq![entry]);
}

} // verus!
