//! Supervision of a QEMU process: what state a VM is in, and what each operation on it takes.
//!
//! A PID file outlives the process that wrote it, and process numbers are recycled. So a state is
//! made of what was observed: the number in the file, whether that process is alive, the processes
//! there are, and what QEMU itself answers.
use crate::host::vm::{self, Directories, Firmware, VmConfig};
use crate::json;
use crate::posix;
use crate::text;
use vstd::prelude::*;
use vstd::string::*;

verus! {

// ---------------------------------------------------------------------------
// State
// ---------------------------------------------------------------------------

/// Current state of a VM, as observed rather than assumed.
#[derive(Debug, PartialEq, Eq)]
pub enum VmState {
    /// No process belongs to the VM.
    Stopped,
    /// A process is running and QMP answers; carries QEMU's own status.
    Running {
        /// What QEMU calls its state.
        status: String,
    },
    /// A process is running but QMP does not answer.
    Unresponsive {
        /// The process.
        pid: i32,
    },
}

impl VmState {
    /// Whether there is a process, answering or not.
    pub fn is_running(&self) -> (r: bool)
        ensures
            r == !(self is Stopped),
    {
        match self {
            VmState::Stopped => false,
            _ => true,
        }
    }

    /// How a state is shown.
    pub open spec fn shown(&self) -> Seq<char> {
        match self {
            VmState::Stopped => "stopped"@,
            VmState::Running { status } => "running ("@ + status@ + ")"@,
            VmState::Unresponsive { pid } => "running but unresponsive (pid "@
                + text::signed_decimal(*pid as int) + ")"@,
        }
    }

    /// How this state is shown.
    pub fn label(&self) -> (r: String)
        ensures
            r@ == self.shown(),
    {
        match self {
            VmState::Stopped => text::own("stopped"),
            VmState::Running { status } => text::cat3("running (", status.as_str(), ")"),
            VmState::Unresponsive { pid } => {
                let number = text::to_signed_decimal(*pid);
                text::cat3("running but unresponsive (pid ", number.as_str(), ")")
            },
        }
    }
}

/// A process, as the process table shows it.
#[derive(Debug, PartialEq, Eq)]
pub struct Process {
    /// The name of its entry in the process table.
    pub entry: String,
    /// The name of its program.
    pub comm: String,
    /// Its arguments, with a zero byte after each.
    pub cmdline: Vec<u8>,
}

/// Where the run of bytes other than zero that starts at `i` ends.
pub open spec fn argument_end(bytes: Seq<u8>, i: int) -> int
    decreases bytes.len() - i,
{
    if i >= bytes.len() || bytes[i] == 0 {
        i
    } else {
        argument_end(bytes, i + 1)
    }
}

proof fn argument_end_bounds(bytes: Seq<u8>, i: int)
    requires
        0 <= i <= bytes.len(),
    ensures
        i <= argument_end(bytes, i) <= bytes.len(),
    decreases bytes.len() - i,
{
    if i < bytes.len() && bytes[i] != 0 {
        argument_end_bounds(bytes, i + 1);
    }
}

/// The arguments from `i` on: the runs between zero bytes, each as text.
pub open spec fn arguments_from(bytes: Seq<u8>, i: int) -> Seq<Seq<char>>
    decreases bytes.len() - i,
    when 0 <= i <= bytes.len()
    via arguments_from_decreases
{
    if i >= bytes.len() {
        Seq::empty()
    } else if bytes[i] == 0 {
        arguments_from(bytes, i + 1)
    } else {
        let k = argument_end(bytes, i);
        seq![text::lossy(bytes.subrange(i, k))] + arguments_from(bytes, k)
    }
}

#[via_fn]
proof fn arguments_from_decreases(bytes: Seq<u8>, i: int) {
    if i < bytes.len() && bytes[i] != 0 {
        argument_end_bounds(bytes, i + 1);
    }
}

/// The arguments that a command line holds.
pub open spec fn arguments(cmdline: Seq<u8>) -> Seq<Seq<char>> {
    arguments_from(cmdline, 0)
}

/// Arguments that name a VM: its name stands directly after `-name`.
pub open spec fn names_vm(args: Seq<Seq<char>>, name: Seq<char>) -> bool {
    exists|i: int|
        0 <= i < args.len() - 1 && #[trigger] args[i] == "-name"@ && args[i + 1] == name
}

/// A process that is QEMU, running the VM of the given name.
pub open spec fn runs_vm(p: Process, name: Seq<char>) -> bool {
    &&& text::numeral_i32(p.entry@) is Some
    &&& text::starts_with(text::trimmed(p.comm@), "qemu-system"@)
    &&& names_vm(arguments(p.cmdline@), name)
}

/// The first process that runs the VM of the given name.
pub open spec fn first_running(processes: Seq<Process>, name: Seq<char>) -> Option<i32>
    decreases processes.len(),
{
    if processes.len() == 0 {
        None
    } else if runs_vm(processes[0], name) {
        text::numeral_i32(processes[0].entry@)
    } else {
        first_running(processes.skip(1), name)
    }
}

/// The arguments that a command line holds.
fn split_arguments(cmdline: &[u8]) -> (r: Vec<String>)
    ensures
        text::views(r@) == arguments(cmdline@),
{
    let mut out: Vec<String> = Vec::new();
    let mut i: usize = 0;
    assert(text::views(out@) + arguments_from(cmdline@, 0) == arguments(cmdline@));
    while i < cmdline.len()
        invariant
            i <= cmdline.len(),
            text::views(out@) + arguments_from(cmdline@, i as int) == arguments(cmdline@),
        decreases cmdline.len() - i,
    {
        if cmdline[i] == 0 {
            i += 1;
        } else {
            let start: usize = i;
            while i < cmdline.len() && cmdline[i] != 0
                invariant
                    start <= i <= cmdline.len(),
                    start < cmdline.len(),
                    cmdline@[start as int] != 0,
                    argument_end(cmdline@, start as int) == argument_end(cmdline@, i as int),
                decreases cmdline.len() - i,
            {
                i += 1;
            }
            let argument = text::from_utf8_lossy(
                vstd::slice::slice_subrange(cmdline, start, i),
            );
            proof {
                let tail = arguments_from(cmdline@, i as int);
                assert(argument_end(cmdline@, start as int) == i);
                assert(arguments_from(cmdline@, start as int) == seq![argument@] + tail);
                text::views_push(out@, argument);
                assert(text::views(out@).push(argument@) + tail == text::views(out@) + (
                seq![argument@] + tail));
            }
            out.push(argument);
        }
    }
    assert(arguments_from(cmdline@, cmdline@.len() as int) == Seq::<Seq<char>>::empty());
    out
}

/// Whether arguments name a VM.
pub fn arguments_name(args: &Vec<String>, name: &str) -> (r: bool)
    ensures
        r == names_vm(text::views(args@), name@),
{
    let ghost all = text::views(args@);
    let mut i: usize = 0;
    while i < args.len() && i + 1 < args.len()
        invariant
            i <= args.len(),
            all == text::views(args@),
            forall|k: int|
                0 <= k < i ==> !(#[trigger] all[k] == "-name"@ && all[k + 1] == name@),
        decreases args.len() - i,
    {
        assert(all[i as int] == args@[i as int]@);
        assert(all[i + 1] == args@[i + 1]@);
        if text::same(args[i].as_str(), "-name") && text::same(args[i + 1].as_str(), name) {
            return true;
        }
        i += 1;
    }
    assert(all.len() == args@.len());
    false
}

/// What a status reply says of a running VM, where `status` is the text that it has there.
pub open spec fn status_shown(status: Option<Seq<char>>) -> Seq<char> {
    match status {
        Some(s) => s,
        None => "unknown"@,
    }
}

// ---------------------------------------------------------------------------
// Block devices
// ---------------------------------------------------------------------------

/// A block device, as QEMU reports it.
#[derive(Debug, PartialEq, Eq)]
pub struct Block {
    /// Whether there is a medium in it.
    pub inserted: bool,
    /// Whether the medium cannot be written.
    pub readonly: bool,
    /// The device's name.
    pub device: Option<String>,
    /// The name of the medium's node.
    pub node_name: Option<String>,
}

/// What a block device holds.
pub struct BlockView {
    /// Whether there is a medium in it.
    pub inserted: bool,
    /// Whether the medium cannot be written.
    pub readonly: bool,
    /// The device's name.
    pub device: Option<Seq<char>>,
    /// The name of the medium's node.
    pub node_name: Option<Seq<char>>,
}

impl Block {
    /// What this device holds.
    pub open spec fn view(&self) -> BlockView {
        BlockView {
            inserted: self.inserted,
            readonly: self.readonly,
            device: text::opt_view(self.device),
            node_name: text::opt_view(self.node_name),
        }
    }
}

impl BlockView {
    /// The name by which the device can hold VM state: its node's, or else its own. A device that
    /// is empty, read-only or firmware flash cannot.
    pub open spec fn state_node(self) -> Option<Seq<char>> {
        if !self.inserted || self.readonly || (self.device is Some && text::starts_with(
            self.device.unwrap(),
            "pflash"@,
        )) {
            None
        } else if self.node_name is Some {
            self.node_name
        } else {
            self.device
        }
    }
}

/// What each block device of a list holds.
pub open spec fn block_views(blocks: Seq<Block>) -> Seq<BlockView> {
    blocks.map_values(|b: Block| b@)
}

/// The first name by which a device can hold VM state.
pub open spec fn first_state_node(blocks: Seq<BlockView>) -> Option<Seq<char>>
    decreases blocks.len(),
{
    if blocks.len() == 0 {
        None
    } else if blocks[0].state_node() is Some {
        blocks[0].state_node()
    } else {
        first_state_node(blocks.skip(1))
    }
}

/// Where a reply to `query-block` has its entry `i`.
pub open spec fn entry_pointer(i: int) -> Seq<char> {
    "/return/"@ + text::decimal(i as nat)
}

/// The entry `i` of a reply to `query-block`.
pub open spec fn block_at(reply: Seq<char>, i: int) -> BlockView {
    let inserted = json::value_at(reply, entry_pointer(i) + "/inserted"@);
    BlockView {
        inserted: inserted is Some && inserted.unwrap() != "null"@,
        readonly: json::value_at(reply, entry_pointer(i) + "/inserted/ro"@) == Some("true"@),
        device: json::text_at(reply, entry_pointer(i) + "/device"@),
        node_name: json::text_at(reply, entry_pointer(i) + "/inserted/node-name"@),
    }
}

/// The entries of a reply to `query-block`. A result that is no list has none.
pub open spec fn blocks_in(reply: Seq<char>) -> Seq<BlockView> {
    match json::count_at(reply, "/return"@) {
        Some(n) => Seq::new(n as nat, |i: int| block_at(reply, i)),
        None => Seq::empty(),
    }
}

/// Read the entries of a reply to `query-block`.
pub fn read_blocks(reply: &str) -> (r: Vec<Block>)
    ensures
        block_views(r@) == blocks_in(reply@),
{
    let mut out: Vec<Block> = Vec::new();
    let count = match json::read_count(reply, "/return") {
        Some(n) => n,
        None => {
            assert(block_views(out@) == blocks_in(reply@));
            return out;
        },
    };
    let ghost expected = blocks_in(reply@);
    let mut i: usize = 0;
    while i < count
        invariant
            i <= count,
            expected == blocks_in(reply@),
            json::count_at(reply@, "/return"@) == Some(count),
            block_views(out@) == expected.take(i as int),
        decreases count - i,
    {
        let number = text::to_decimal(i as u64);
        let entry = text::cat2("/return/", number.as_str());
        let medium = json::read_value(reply, text::cat2(entry.as_str(), "/inserted").as_str());
        let flag = json::read_value(reply, text::cat2(entry.as_str(), "/inserted/ro").as_str());
        let device = json::read_text(reply, text::cat2(entry.as_str(), "/device").as_str());
        let node_name = json::read_text(
            reply,
            text::cat2(entry.as_str(), "/inserted/node-name").as_str(),
        );
        let inserted = match &medium {
            Some(m) => !text::same(m.as_str(), "null"),
            None => false,
        };
        let readonly = match &flag {
            Some(f) => text::same(f.as_str(), "true"),
            None => false,
        };
        let block = Block { inserted, readonly, device, node_name };
        proof {
            assert(block@ == block_at(reply@, i as int));
            assert(block_views(out@.push(block)) == block_views(out@).push(block@));
            assert(expected.take(i + 1) == expected.take(i as int).push(expected[i as int]));
        }
        out.push(block);
        i += 1;
    }
    assert(expected.take(count as int) == expected);
    out
}

/// The name by which a device can hold VM state.
pub fn image_node(blocks: &Vec<Block>) -> (r: Option<String>)
    ensures
        text::opt_view(r) == first_state_node(block_views(blocks@)),
{
    let ghost all = block_views(blocks@);
    let mut i: usize = 0;
    assert(all.skip(0) == all);
    while i < blocks.len()
        invariant
            i <= blocks.len(),
            all == block_views(blocks@),
            first_state_node(all) == first_state_node(all.skip(i as int)),
        decreases blocks.len() - i,
    {
        let b = &blocks[i];
        proof {
            assert(all.skip(i as int)[0] == b@);
            assert(all.skip(i as int).skip(1) == all.skip(i + 1));
        }
        let flash = match &b.device {
            Some(d) => text::begins(d.as_str(), "pflash"),
            None => false,
        };
        if b.inserted && !b.readonly && !flash {
            match &b.node_name {
                Some(n) => {
                    return Some(n.clone());
                },
                None => {},
            }
            match &b.device {
                Some(d) => {
                    return Some(d.clone());
                },
                None => {},
            }
        }
        i += 1;
    }
    None
}

// ---------------------------------------------------------------------------
// Preparation
// ---------------------------------------------------------------------------

/// One thing to do before a VM can start.
#[derive(Debug, PartialEq, Eq)]
pub enum Step {
    /// Create a directory and those above it.
    MakeDirectory {
        /// The directory.
        path: String,
    },
    /// Create a directory that only its owner may enter, and those above it.
    MakePrivateDirectory {
        /// The directory.
        path: String,
    },
    /// Create the directory that a disk image stands in and those above it.
    MakeDiskDirectory {
        /// The disk image.
        disk: String,
    },
    /// Create a disk image.
    CreateDisk {
        /// The disk image.
        disk: String,
        /// Its size, as `qemu-img` takes it.
        size: String,
    },
    /// Copy the UEFI variable store.
    CopyVariables {
        /// The store that comes with the firmware.
        from: String,
        /// The instance's own.
        to: String,
    },
}

/// What a step holds.
pub enum StepView {
    /// Create a directory and those above it.
    MakeDirectory {
        /// The directory.
        path: Seq<char>,
    },
    /// Create a directory that only its owner may enter, and those above it.
    MakePrivateDirectory {
        /// The directory.
        path: Seq<char>,
    },
    /// Create the directory that a disk image stands in and those above it.
    MakeDiskDirectory {
        /// The disk image.
        disk: Seq<char>,
    },
    /// Create a disk image.
    CreateDisk {
        /// The disk image.
        disk: Seq<char>,
        /// Its size, as `qemu-img` takes it.
        size: Seq<char>,
    },
    /// Copy the UEFI variable store.
    CopyVariables {
        /// The store that comes with the firmware.
        from: Seq<char>,
        /// The instance's own.
        to: Seq<char>,
    },
}

impl Step {
    /// What this step holds.
    pub open spec fn view(&self) -> StepView {
        match self {
            Step::MakeDirectory { path } => StepView::MakeDirectory { path: path@ },
            Step::MakePrivateDirectory { path } => StepView::MakePrivateDirectory { path: path@ },
            Step::MakeDiskDirectory { disk } => StepView::MakeDiskDirectory { disk: disk@ },
            Step::CreateDisk { disk, size } => StepView::CreateDisk { disk: disk@, size: size@ },
            Step::CopyVariables { from, to } => StepView::CopyVariables { from: from@, to: to@ },
        }
    }
}

/// What each step of a list holds.
pub open spec fn step_views(steps: Seq<Step>) -> Seq<StepView> {
    steps.map_values(|s: Step| s@)
}

/// The UEFI variable store that comes with the firmware.
pub const UEFI_VARIABLES: &'static str = "/usr/share/OVMF/OVMF_VARS_4M.fd";

/// How a firmware is shown.
pub open spec fn firmware_shown(f: Firmware) -> Seq<char> {
    match f {
        Firmware::Uefi => "Uefi"@,
        Firmware::Bios => "Bios"@,
    }
}

/// How a firmware is written in a definition.
pub open spec fn firmware_word(f: Firmware) -> Seq<char> {
    match f {
        Firmware::Uefi => "uefi"@,
        Firmware::Bios => "bios"@,
    }
}

/// How a firmware is shown.
fn show_firmware(f: Firmware) -> (r: &'static str)
    ensures
        r@ == firmware_shown(f),
{
    match f {
        Firmware::Uefi => "Uefi",
        Firmware::Bios => "Bios",
    }
}

/// How a firmware is written in a definition.
fn write_firmware(f: Firmware) -> (r: &'static str)
    ensures
        r@ == firmware_word(f),
{
    match f {
        Firmware::Uefi => "uefi",
        Firmware::Bios => "bios",
    }
}

/// What is observed before a VM is prepared.
#[derive(Debug, Clone, Copy)]
pub struct Surroundings {
    /// Whether the disk image exists.
    pub disk_exists: bool,
    /// The firmware that the system on the disk was installed under, where one can be told.
    pub installed: Option<Firmware>,
    /// Whether the instance has a UEFI variable store.
    pub variables_exist: bool,
}

/// What preparing a VM takes, or how far it goes before it is refused.
#[derive(Debug, PartialEq, Eq)]
pub struct Preparation {
    /// What to do, in order.
    pub steps: Vec<Step>,
    /// Why it ends there, where it is refused.
    pub refused: Option<String>,
}

// ---------------------------------------------------------------------------
// The supervisor
// ---------------------------------------------------------------------------

/// Supervisor for one VM definition.
#[derive(Debug)]
pub struct Supervisor {
    config: VmConfig,
}

impl Supervisor {
    /// The definition supervised.
    pub closed spec fn definition(&self) -> VmConfig {
        self.config
    }

    /// A supervisor of the VM that a definition describes.
    pub fn new(config: VmConfig) -> (r: Supervisor)
        ensures
            r.definition() == config,
    {
        Supervisor { config }
    }

    /// The definition supervised.
    pub fn config(&self) -> (r: &VmConfig)
        ensures
            *r == self.definition(),
    {
        &self.config
    }

    /// The process that the text of a PID file names.
    pub open spec fn recorded_in(file: Option<Seq<char>>) -> Option<i32> {
        match file {
            Some(s) => text::numeral_i32(text::trimmed(s)),
            None => None,
        }
    }

    /// The process that a PID file names, where there is one and it holds a number.
    pub fn read_pid(file: Option<&str>) -> (r: Option<i32>)
        ensures
            r == (match file {
                Some(s) => text::numeral_i32(text::trimmed(s@)),
                None => None,
            }),
            r == Self::recorded_in(
                match file {
                    Some(s) => Some(s@),
                    None => None,
                },
            ),
    {
        match file {
            Some(s) => {
                let chars = text::to_chars(s);
                text::parse_i32(&text::trim(&chars))
            },
            None => None,
        }
    }

    /// Find a QEMU process for this VM among the processes there are.
    ///
    /// A VM that was started by other means is running with no PID file at all. The match is on
    /// QEMU's program name and on the VM's own name among the arguments, so a second VM on the host
    /// is not mistaken for this one.
    pub fn find_running_pid(&self, processes: &[Process]) -> (r: Option<i32>)
        ensures
            r == first_running(processes@, self.definition().name@),
    {
        let mut i: usize = 0;
        assert(processes@.skip(0) == processes@);
        while i < processes.len()
            invariant
                i <= processes.len(),
                first_running(processes@, self.definition().name@) == first_running(
                    processes@.skip(i as int),
                    self.definition().name@,
                ),
            decreases processes.len() - i,
        {
            let p = &processes[i];
            proof {
                assert(processes@.skip(i as int)[0] == *p);
                assert(processes@.skip(i as int).skip(1) == processes@.skip(i + 1));
            }
            let number = text::parse_i32(&text::to_chars(p.entry.as_str()));
            if number.is_some() {
                let comm = text::trim(&text::to_chars(p.comm.as_str()));
                let program = text::to_chars("qemu-system");
                if text::chars_start_with(&comm, &program) {
                    let args = split_arguments(&p.cmdline);
                    if arguments_name(&args, self.config.name.as_str()) {
                        return number;
                    }
                }
            }
            i += 1;
        }
        None
    }

    /// The process of a VM: the one that is recorded, if that is alive, or else the one that was found.
    pub open spec fn process_of(recorded: Option<i32>, alive: bool, found: Option<i32>) -> Option<i32> {
        if recorded is Some && alive {
            recorded
        } else {
            found
        }
    }

    /// The process of this VM: the one that the PID file names, if that is alive, or else one found
    /// among the processes there are.
    pub fn running_pid(&self, recorded: Option<i32>, alive: bool, processes: &[Process]) -> (r:
        Option<i32>)
        ensures
            r == (if recorded is Some && alive {
                recorded
            } else {
                first_running(processes@, self.definition().name@)
            }),
            r == Self::process_of(
                recorded,
                alive,
                first_running(processes@, self.definition().name@),
            ),
    {
        if recorded.is_some() && alive {
            recorded
        } else {
            self.find_running_pid(processes)
        }
    }

    /// The state of a VM, where `status` is what a reply to `query-status` has as its status. There
    /// is no reply where QMP does not answer.
    pub open spec fn is_state(
        state: VmState,
        pid: Option<i32>,
        reply: Option<Option<Seq<char>>>,
    ) -> bool {
        match (pid, reply) {
            (None, _) => state == VmState::Stopped,
            (Some(pid), None) => state == (VmState::Unresponsive { pid }),
            (Some(_), Some(status)) => state matches VmState::Running { status: s } && s@
                == status_shown(status),
        }
    }

    /// The state of a VM, where `status` is what a reply to `query-status` has as its status, for a
    /// VM that answers.
    pub fn observed(pid: Option<i32>, answers: bool, status: Option<String>) -> (r: VmState)
        ensures
            Self::is_state(
                r,
                pid,
                if answers {
                    Some(text::opt_view(status))
                } else {
                    None
                },
            ),
    {
        match pid {
            None => VmState::Stopped,
            Some(pid) => if answers {
                match status {
                    Some(s) => VmState::Running { status: s },
                    None => VmState::Running { status: text::own("unknown") },
                }
            } else {
                VmState::Unresponsive { pid }
            },
        }
    }

    /// The state of a VM from its process and QEMU's reply to `query-status`, where there is one.
    pub fn state(pid: Option<i32>, reply: Option<&str>) -> (r: VmState)
        ensures
            Self::is_state(
                r,
                pid,
                match reply {
                    Some(line) => Some(json::text_at(line@, "/return/status"@)),
                    None => None,
                },
            ),
    {
        match reply {
            Some(line) => Self::observed(pid, true, json::read_text(line, "/return/status")),
            None => Self::observed(pid, false, None),
        }
    }

    /// What preparing this VM takes.
    pub open spec fn preparation(&self, dirs: Directories, seen: Surroundings) -> Seq<StepView> {
        let c = self.definition();
        let state = seq![
            StepView::MakeDirectory { path: c.state_path(dirs) },
            StepView::MakePrivateDirectory { path: vm::sockets_path(dirs) },
        ];
        let disk = if seen.disk_exists {
            Seq::empty()
        } else {
            seq![
                StepView::MakeDiskDirectory { disk: c.disk@ },
                StepView::CreateDisk {
                    disk: c.disk@,
                    size: text::decimal(c.disk_gib as nat) + "G"@,
                },
            ]
        };
        let variables = if c.firmware == Firmware::Uefi && !seen.variables_exist {
            seq![
                StepView::CopyVariables {
                    from: UEFI_VARIABLES@,
                    to: posix::joined(c.state_path(dirs), "OVMF_VARS.fd"@),
                },
            ]
        } else {
            Seq::empty()
        };
        state + disk + variables
    }

    /// A disk that exists and was installed under a firmware other than the configured one. The
    /// guest would not boot from it, and the firmware would not say why.
    pub open spec fn mismatched(&self, seen: Surroundings) -> bool {
        seen.disk_exists && seen.installed is Some && seen.installed
            != Some(self.definition().firmware)
    }

    /// Why a mismatched disk is refused.
    pub open spec fn mismatch(&self, installed: Firmware) -> Seq<char> {
        let c = self.definition();
        "firmware mismatch: "@ + c.disk@ + " was installed under "@ + firmware_shown(installed)
            + " firmware but the config says "@ + firmware_shown(c.firmware)
            + ".\nThe guest will not boot, and the firmware will not report why.\nFix: set `firmware = \""@
            + firmware_word(installed)
            + "\"` in the VM config, or reinstall under the other firmware."@
    }

    /// How far preparing this VM goes, and why it ends there where it is refused.
    pub open spec fn prepared(&self, dirs: Directories, seen: Surroundings) -> (
        Seq<StepView>,
        Option<Seq<char>>,
    ) {
        if self.mismatched(seen) {
            (
                self.preparation(dirs, seen).take(2),
                Some(self.mismatch(seen.installed.unwrap())),
            )
        } else {
            (self.preparation(dirs, seen), None)
        }
    }

    /// What preparing this VM takes: a state directory, a private directory for its display socket,
    /// a disk image where there is none, and a UEFI variable store of its own. A disk that will not
    /// boot under the configured firmware is refused, once the directories have been made.
    pub fn prepare(&self, dirs: &Directories, seen: Surroundings) -> (r: Preparation)
        ensures
            if self.mismatched(seen) {
                &&& step_views(r.steps@) == self.preparation(*dirs, seen).take(2)
                &&& text::opt_view(r.refused) == Some(self.mismatch(seen.installed.unwrap()))
            } else {
                &&& step_views(r.steps@) == self.preparation(*dirs, seen)
                &&& r.refused is None
            },
            (step_views(r.steps@), text::opt_view(r.refused)) == self.prepared(*dirs, seen),
    {
        let mut steps: Vec<Step> = Vec::new();
        steps.push(Step::MakeDirectory { path: self.config.state_dir(dirs) });
        steps.push(Step::MakePrivateDirectory { path: vm::sockets_dir(dirs) });
        let ghost expected = self.preparation(*dirs, seen);
        proof {
            assert(step_views(steps@) == expected.take(2));
        }
        if !seen.disk_exists {
            let gib = text::to_decimal(self.config.disk_gib);
            steps.push(Step::MakeDiskDirectory { disk: self.config.disk.clone() });
            steps.push(
                Step::CreateDisk {
                    disk: self.config.disk.clone(),
                    size: text::cat2(gib.as_str(), "G"),
                },
            );
            assert(step_views(steps@) == expected.take(4));
        } else {
            match seen.installed {
                Some(installed) => {
                    if installed != self.config.firmware {
                        let head = text::cat6(
                            "firmware mismatch: ",
                            self.config.disk.as_str(),
                            " was installed under ",
                            show_firmware(installed),
                            " firmware but the config says ",
                            show_firmware(self.config.firmware),
                        );
                        let why = text::cat4(
                            head.as_str(),
                            ".\nThe guest will not boot, and the firmware will not report why.\nFix: set `firmware = \"",
                            write_firmware(installed),
                            "\"` in the VM config, or reinstall under the other firmware.",
                        );
                        return Preparation { steps, refused: Some(why) };
                    }
                },
                None => {},
            }
        }
        match self.config.firmware {
            Firmware::Uefi => {
                if !seen.variables_exist {
                    let state = self.config.state_dir(dirs);
                    let step = Step::CopyVariables {
                        from: text::own(UEFI_VARIABLES),
                        to: posix::join(state.as_str(), "OVMF_VARS.fd"),
                    };
                    assert(step_views(steps@.push(step)) == step_views(steps@).push(step@));
                    steps.push(step);
                }
            },
            Firmware::Bios => {},
        }
        assert(step_views(steps@) == expected);
        Preparation { steps, refused: None }
    }

    /// Why a VM may not be started from the state that it is in.
    pub open spec fn start_refusal(&self, current: VmState) -> Option<Seq<char>> {
        if current is Stopped {
            None
        } else {
            Some("VM '"@ + self.definition().name@ + "' is already "@ + current.shown())
        }
    }

    /// Check that the VM may be started from the state that it is in.
    pub fn start(&self, current: &VmState) -> (r: Result<(), String>)
        ensures
            match r {
                Ok(()) => current is Stopped,
                Err(e) => !(current is Stopped) && e@ == "VM '"@ + self.definition().name@
                    + "' is already "@ + current.shown(),
            },
            match (r, self.start_refusal(*current)) {
                (Ok(()), None) => true,
                (Err(e), Some(why)) => e@ == why,
                _ => false,
            },
    {
        if current.is_running() {
            let label = current.label();
            Err(
                text::cat4(
                    "VM '",
                    self.config.name.as_str(),
                    "' is already ",
                    label.as_str(),
                ),
            )
        } else {
            Ok(())
        }
    }

    /// Whether waiting for QEMU to answer is over.
    pub open spec fn is_over(state: VmState, time_is_up: bool) -> bool {
        state is Running || time_is_up
    }

    /// Whether waiting for QEMU to answer ends in this state: when it answers, or when time is up.
    pub fn wait_until_responsive(state: &VmState, time_is_up: bool) -> (r: bool)
        ensures
            r == (state is Running || time_is_up),
            r == Self::is_over(*state, time_is_up),
    {
        match state {
            VmState::Running { .. } => true,
            _ => time_is_up,
        }
    }

    /// The arguments of the `snapshot-save` that suspends a VM into a node.
    pub open spec fn suspend_arguments(node: Seq<char>) -> Seq<char> {
        json::object4(
            json::member("devices"@, json::list(seq![json::quoted(node)])),
            json::member("job-id"@, json::quoted("wvm-suspend"@)),
            json::member("tag"@, json::quoted("wvm-suspend"@)),
            json::member("vmstate"@, json::quoted(node)),
        )
    }

    /// The arguments of the `snapshot-save` that suspends a VM, where there is a node to hold its
    /// state.
    pub fn suspend(node: Option<String>) -> (r: Result<String, String>)
        ensures
            match (r, node) {
                (Ok(arguments), Some(n)) => arguments@ == Self::suspend_arguments(n@),
                (Err(e), None) => e@
                    == "cannot suspend: no writable disk device found to hold the VM state (a guest with no disk has nowhere to save to)"@,
                _ => false,
            },
    {
        match node {
            Some(n) => {
                let name = json::quote(n.as_str());
                let job = json::quote("wvm-suspend");
                let mut devices: Vec<String> = Vec::new();
                text::push_text(&mut devices, name.as_str());
                assert(text::views(devices@) == seq![json::quoted(n@)]);
                let list = json::write_list(&devices);
                let a = json::write_member("devices", list.as_str());
                let b = json::write_member("job-id", job.as_str());
                let c = json::write_member("tag", job.as_str());
                let d = json::write_member("vmstate", name.as_str());
                Ok(json::write_object4(a.as_str(), b.as_str(), c.as_str(), d.as_str()))
            },
            None => Err(
                text::own(
                    "cannot suspend: no writable disk device found to hold the VM state (a guest with no disk has nowhere to save to)",
                ),
            ),
        }
    }

    /// The node that can hold VM state, from QEMU's reply to `query-block`. None rather than a
    /// guess where nothing is suitable.
    pub fn image_node_name(reply: &str) -> (r: Option<String>)
        ensures
            text::opt_view(r) == first_state_node(blocks_in(reply@)),
    {
        let blocks = read_blocks(reply);
        image_node(&blocks)
    }

    /// What a shutdown comes to: nothing yet, or that it is done, or why it was given up.
    pub open spec fn shutdown_outcome(
        current: VmState,
        time_is_up: bool,
        timeout_secs: nat,
    ) -> Option<Result<(), Seq<char>>> {
        if time_is_up {
            Some(
                Err(
                    "the guest did not shut down within "@ + text::decimal(timeout_secs)
                        + "s; it may be ignoring ACPI (use `wvm vm kill` to force it)"@,
                ),
            )
        } else if current is Stopped {
            Some(Ok(()))
        } else {
            None
        }
    }

    /// What a shutdown comes to after a look at the VM: done, still waiting, or given up.
    pub fn shutdown(current: &VmState, time_is_up: bool, timeout_secs: u64) -> (r: Option<
        Result<(), String>,
    >)
        ensures
            if time_is_up {
                r matches Some(Err(e)) && e@ == "the guest did not shut down within "@
                    + text::decimal(timeout_secs as nat)
                    + "s; it may be ignoring ACPI (use `wvm vm kill` to force it)"@
            } else if current is Stopped {
                r == Some(Ok::<(), String>(()))
            } else {
                r is None
            },
            match (r, Self::shutdown_outcome(*current, time_is_up, timeout_secs as nat)) {
                (Some(Ok(())), Some(Ok(()))) => true,
                (Some(Err(e)), Some(Err(why))) => e@ == why,
                (None, None) => true,
                _ => false,
            },
    {
        if time_is_up {
            let secs = text::to_decimal(timeout_secs);
            Some(
                Err(
                    text::cat3(
                        "the guest did not shut down within ",
                        secs.as_str(),
                        "s; it may be ignoring ACPI (use `wvm vm kill` to force it)",
                    ),
                ),
            )
        } else if !current.is_running() {
            Some(Ok(()))
        } else {
            None
        }
    }

    /// The last lines of a text.
    pub open spec fn tail(log: Seq<char>, count: nat) -> Seq<char> {
        let lines = text::lines(log);
        let kept = if lines.len() <= count {
            lines
        } else {
            lines.skip(lines.len() - count)
        };
        text::joined(kept, "\n"@)
    }

    /// The tail of the serial log: the first place to look when a VM does not come up.
    pub fn serial_tail(log: &str, count: usize) -> (r: String)
        ensures
            r@ == Self::tail(log@, count as nat),
    {
        let chars = text::to_chars(log);
        let lines = text::split_lines(&chars);
        let from: usize = if lines.len() <= count {
            0
        } else {
            lines.len() - count
        };
        let kept = vstd::slice::slice_subrange(lines.as_slice(), from, lines.len());
        proof {
            let all = text::lines(log@);
            assert(text::char_views(lines@).len() == lines@.len());
            assert(text::char_views(kept@) == all.skip(from as int));
            assert(all.skip(0) == all);
        }
        text::join_chars(kept, "\n")
    }
}

// ---------------------------------------------------------------------------
// Laws
// ---------------------------------------------------------------------------

/// A process found for a VM is QEMU and names that VM directly after `-name`; and where none is
/// found there is no such process. A second VM on the host is never mistaken for this one.
pub proof fn found_processes_run_the_vm(processes: Seq<Process>, name: Seq<char>)
    ensures
        match first_running(processes, name) {
            Some(pid) => exists|i: int|
                0 <= i < processes.len() && runs_vm(#[trigger] processes[i], name)
                    && text::numeral_i32(processes[i].entry@) == Some(pid),
            None => forall|i: int|
                0 <= i < processes.len() ==> !runs_vm(#[trigger] processes[i], name),
        },
    decreases processes.len(),
{
    if processes.len() > 0 && !runs_vm(processes[0], name) {
        let rest = processes.skip(1);
        found_processes_run_the_vm(rest, name);
        assert forall|i: int| 0 < i < processes.len() implies processes[i] == rest[i - 1] by {}
        if first_running(rest, name) is Some {
            let pid = first_running(rest, name).unwrap();
            let i = choose|i: int|
                0 <= i < rest.len() && runs_vm(#[trigger] rest[i], name) && text::numeral_i32(
                    rest[i].entry@,
                ) == Some(pid);
            assert(processes[i + 1] == rest[i]);
        }
    }
}

/// A PID file whose process is gone does not make a VM run: with no process that runs it, the VM is
/// stopped, whatever the file says and whatever answers on its socket.
pub proof fn a_stale_record_means_stopped(
    state: VmState,
    processes: Seq<Process>,
    name: Seq<char>,
    reply: Option<Option<Seq<char>>>,
)
    requires
        forall|i: int| 0 <= i < processes.len() ==> !runs_vm(#[trigger] processes[i], name),
        Supervisor::is_state(state, first_running(processes, name), reply),
    ensures
        state == VmState::Stopped,
{
    found_processes_run_the_vm(processes, name);
}

/// The node chosen for VM state is that of a device with a medium that can be written and that is
/// no firmware flash; and where none is chosen there is no such device with a name.
pub proof fn state_goes_to_a_writable_disk(blocks: Seq<BlockView>)
    ensures
        match first_state_node(blocks) {
            Some(node) => exists|i: int|
                0 <= i < blocks.len() && #[trigger] blocks[i].state_node() == Some(node)
                    && blocks[i].inserted && !blocks[i].readonly,
            None => forall|i: int|
                0 <= i < blocks.len() ==> #[trigger] blocks[i].state_node() is None,
        },
    decreases blocks.len(),
{
    if blocks.len() > 0 {
        if blocks[0].state_node() is None {
            let rest = blocks.skip(1);
            state_goes_to_a_writable_disk(rest);
            assert forall|i: int| 0 < i < blocks.len() implies blocks[i] == rest[i - 1] by {}
            if first_state_node(rest) is Some {
                let node = first_state_node(rest).unwrap();
                let i = choose|i: int|
                    0 <= i < rest.len() && #[trigger] rest[i].state_node() == Some(node)
                        && rest[i].inserted && !rest[i].readonly;
                assert(blocks[i + 1] == rest[i]);
                assert(blocks[i + 1].state_node() == Some(node));
            }
        } else {
            assert(blocks[0].state_node() == first_state_node(blocks));
        }
    }
}

/// A VM's display is private: preparing it makes a directory that only its owner may enter, before
/// anything else but the state directory, and the display socket of an accepted definition is a file
/// of that directory, with no separator in its name.
pub proof fn displays_are_private(supervisor: Supervisor, dirs: Directories, seen: Surroundings)
    requires
        supervisor.definition().fault(true, true) is None,
    ensures
        supervisor.preparation(dirs, seen).len() >= 2,
        supervisor.preparation(dirs, seen)[1] == (StepView::MakePrivateDirectory {
            path: vm::sockets_path(dirs),
        }),
        supervisor.definition().spice_path(dirs) == vm::sockets_path(dirs) + "/"@ + (
        supervisor.definition().name@ + ".spice.sock"@),
        !(supervisor.definition().name@ + ".spice.sock"@).contains('/'),
{
    vm::sockets_are_direct_children(supervisor.definition(), dirs);
}

/// How a request to save or load a machine's state is written, letter for letter, of names that need
/// no escape: the node that holds the state is the one device of the snapshot.
#[verifier::spinoff_prover]
#[verifier::rlimit(40)]
pub proof fn state_requests_read(node: Seq<char>, job: Seq<char>, tag: Seq<char>)
    requires
        forall|i: int|
            0 <= i < node.len() ==> #[trigger] node[i] != '"' && node[i] != '\\' && node[i] as int
                >= 32,
        forall|i: int|
            0 <= i < job.len() ==> #[trigger] job[i] != '"' && job[i] != '\\' && job[i] as int >= 32,
        forall|i: int|
            0 <= i < tag.len() ==> #[trigger] tag[i] != '"' && tag[i] != '\\' && tag[i] as int >= 32,
    ensures
        json::object4(
            json::member("devices"@, json::list(seq![json::quoted(node)])),
            json::member("job-id"@, json::quoted(job)),
            json::member("tag"@, json::quoted(tag)),
            json::member("vmstate"@, json::quoted(node)),
        ) == "{\"devices\":[\""@ + node + "\"],\"job-id\":\""@ + job + "\",\"tag\":\""@ + tag
            + "\",\"vmstate\":\""@ + node + "\"}"@,
{
    reveal_strlit("{");
    reveal_strlit("}");
    reveal_strlit("[");
    reveal_strlit("]");
    reveal_strlit(",");
    reveal_strlit("devices");
    reveal_strlit("job-id");
    reveal_strlit("tag");
    reveal_strlit("vmstate");
    reveal_strlit("{\"devices\":[\"");
    reveal_strlit("\"],\"job-id\":\"");
    reveal_strlit("\",\"tag\":\"");
    reveal_strlit("\",\"vmstate\":\"");
    reveal_strlit("\"}");
    json::plain_texts_are_quoted_as_they_are(node);
    json::plain_texts_are_quoted_as_they_are(job);
    json::plain_texts_are_quoted_as_they_are(tag);
    let name = json::quoted(node);
    assert(text::joined(seq![name], ","@) == name) by {
        reveal_with_fuel(text::joined, 2);
    }
    let devices = json::list(seq![name]);
    assert(devices =~= seq!['[', '"'] + node + seq!['"', ']']);
    json::plain_members_are_named("devices"@, devices);
    json::plain_members_are_named("job-id"@, json::quoted(job));
    json::plain_members_are_named("tag"@, json::quoted(tag));
    json::plain_members_are_named("vmstate"@, name);
    let (a, b, c, d) = (
        json::member("devices"@, devices),
        json::member("job-id"@, json::quoted(job)),
        json::member("tag"@, json::quoted(tag)),
        json::member("vmstate"@, name),
    );
    let head = "{"@ + a + ","@;
    assert(head + seq!['"', 'j', 'o', 'b', '-', 'i', 'd', '"', ':', '"'] =~= "{\"devices\":[\""@ + node
        + "\"],\"job-id\":\""@);
    let middle = "{"@ + a + ","@ + b + ","@;
    assert(middle + seq!['"', 't', 'a', 'g', '"', ':', '"'] =~= "{\"devices\":[\""@ + node
        + "\"],\"job-id\":\""@ + job + "\",\"tag\":\""@);
    let whole = json::object4(a, b, c, d);
    assert(whole =~= middle + c + ","@ + d + "}"@);
    assert(whole =~= "{\"devices\":[\""@ + node + "\"],\"job-id\":\""@ + job + "\",\"tag\":\""@ + tag
        + "\",\"vmstate\":\""@ + node + "\"}"@);
}

/// A VM that is suspended is saved into the node that was found for its state, under one fixed name.
pub proof fn suspending_saves_into_the_node(node: Seq<char>)
    requires
        forall|i: int|
            0 <= i < node.len() ==> #[trigger] node[i] != '"' && node[i] != '\\' && node[i] as int
                >= 32,
    ensures
        Supervisor::suspend_arguments(node) == "{\"devices\":[\""@ + node + "\"],\"job-id\":\""@
            + "wvm-suspend"@ + "\",\"tag\":\""@ + "wvm-suspend"@ + "\",\"vmstate\":\""@ + node
            + "\"}"@,
{
    reveal_strlit("wvm-suspend");
    state_requests_read(node, "wvm-suspend"@, "wvm-suspend"@);
}

/// A VM is stopped exactly where it has no process. One that has a process and does not answer is
/// unresponsive, and its process is named. One that answers is running, with the status that it
/// reports and no other.
pub proof fn states_follow_the_process_and_the_reply(
    state: VmState,
    pid: Option<i32>,
    reply: Option<Option<Seq<char>>>,
)
    requires
        Supervisor::is_state(state, pid, reply),
    ensures
        state is Stopped <==> pid is None,
        state is Unresponsive <==> pid is Some && reply is None,
        state is Running <==> pid is Some && reply is Some,
        state matches VmState::Unresponsive { pid: p } ==> pid == Some(p),
        state matches VmState::Running { status } ==> (match reply->Some_0 {
            Some(s) => status@ == s,
            None => status@ == "unknown"@,
        }),
        state is Stopped ==> state.shown() == "stopped"@,
        state matches VmState::Running { status } ==> state.shown() == "running ("@ + status@
            + ")"@,
        state matches VmState::Unresponsive { pid: p } ==> state.shown()
            == "running but unresponsive (pid "@ + text::signed_decimal(p as int) + ")"@,
{
}

/// A process is found for a VM exactly where one is in the list whose entry is a number, whose
/// program's name begins with `qemu-system`, and which has the VM's name directly after `-name`. The
/// first such process is the one found.
pub proof fn only_qemu_of_this_name_is_found(processes: Seq<Process>, name: Seq<char>, pid: i32)
    ensures
        first_running(processes, name) == Some(pid) <==> exists|i: int|
            {
                &&& 0 <= i < processes.len()
                &&& #[trigger] text::numeral_i32(processes[i].entry@) == Some(pid)
                &&& text::starts_with(text::trimmed(processes[i].comm@), "qemu-system"@)
                &&& vm::given(arguments(processes[i].cmdline@), "-name"@, name)
                &&& forall|k: int|
                    0 <= k < i && #[trigger] text::numeral_i32(processes[k].entry@) is Some
                        && text::starts_with(text::trimmed(processes[k].comm@), "qemu-system"@)
                        ==> !vm::given(arguments(processes[k].cmdline@), "-name"@, name)
            },
    decreases processes.len(),
{
    assert forall|p: Process| #[trigger]
        names_vm(arguments(p.cmdline@), name) <==> vm::given(
        arguments(p.cmdline@),
        "-name"@,
        name,
    ) by {
        let args = arguments(p.cmdline@);
        if names_vm(args, name) {
            let i = choose|i: int|
                0 <= i < args.len() - 1 && #[trigger] args[i] == "-name"@ && args[i + 1] == name;
            assert(args[i] == "-name"@);
        }
        if vm::given(args, "-name"@, name) {
            let i = choose|i: int|
                0 <= i && i + 1 < args.len() && #[trigger] args[i] == "-name"@ && args[i + 1] == name;
            assert(args[i] == "-name"@);
        }
    }
    if processes.len() > 0 {
        let rest = processes.skip(1);
        only_qemu_of_this_name_is_found(rest, name, pid);
        assert forall|i: int| 0 < i < processes.len() implies processes[i] == rest[i - 1] by {}
        assert(runs_vm(processes[0], name) <==> {
            &&& text::numeral_i32(processes[0].entry@) is Some
            &&& text::starts_with(text::trimmed(processes[0].comm@), "qemu-system"@)
            &&& vm::given(arguments(processes[0].cmdline@), "-name"@, name)
        });
        if runs_vm(processes[0], name) {
            if first_running(processes, name) == Some(pid) {
                assert(text::numeral_i32(processes[0].entry@) == Some(pid));
            }
        } else {
            if first_running(rest, name) == Some(pid) {
                let i = choose|i: int|
                    {
                        &&& 0 <= i < rest.len()
                        &&& #[trigger] text::numeral_i32(rest[i].entry@) == Some(pid)
                        &&& text::starts_with(text::trimmed(rest[i].comm@), "qemu-system"@)
                        &&& vm::given(arguments(rest[i].cmdline@), "-name"@, name)
                        &&& forall|k: int|
                            0 <= k < i && #[trigger] text::numeral_i32(rest[k].entry@) is Some
                                && text::starts_with(text::trimmed(rest[k].comm@), "qemu-system"@)
                                ==> !vm::given(arguments(rest[k].cmdline@), "-name"@, name)
                    };
                let j = i + 1;
                assert(processes[j] == rest[i]);
                assert(text::numeral_i32(processes[j].entry@) == Some(pid));
                assert forall|k: int|
                    0 <= k < j && #[trigger] text::numeral_i32(processes[k].entry@) is Some
                        && text::starts_with(
                        text::trimmed(processes[k].comm@),
                        "qemu-system"@,
                    ) implies !vm::given(arguments(processes[k].cmdline@), "-name"@, name) by {
                    if k > 0 {
                        assert(processes[k] == rest[k - 1]);
                        assert(text::numeral_i32(rest[k - 1].entry@) is Some);
                    }
                }
            }
            if exists|i: int|
                {
                    &&& 0 <= i < processes.len()
                    &&& #[trigger] text::numeral_i32(processes[i].entry@) == Some(pid)
                    &&& text::starts_with(text::trimmed(processes[i].comm@), "qemu-system"@)
                    &&& vm::given(arguments(processes[i].cmdline@), "-name"@, name)
                    &&& forall|k: int|
                        0 <= k < i && #[trigger] text::numeral_i32(processes[k].entry@) is Some
                            && text::starts_with(text::trimmed(processes[k].comm@), "qemu-system"@)
                            ==> !vm::given(arguments(processes[k].cmdline@), "-name"@, name)
                } {
                let j = choose|i: int|
                    {
                        &&& 0 <= i < processes.len()
                        &&& #[trigger] text::numeral_i32(processes[i].entry@) == Some(pid)
                        &&& text::starts_with(text::trimmed(processes[i].comm@), "qemu-system"@)
                        &&& vm::given(arguments(processes[i].cmdline@), "-name"@, name)
                        &&& forall|k: int|
                            0 <= k < i && #[trigger] text::numeral_i32(processes[k].entry@) is Some
                                && text::starts_with(
                                text::trimmed(processes[k].comm@),
                                "qemu-system"@,
                            ) ==> !vm::given(arguments(processes[k].cmdline@), "-name"@, name)
                    };
                assert(j > 0);
                let i = j - 1;
                assert(text::numeral_i32(rest[i].entry@) == Some(pid));
                assert forall|k: int|
                    0 <= k < i && #[trigger] text::numeral_i32(rest[k].entry@) is Some
                        && text::starts_with(text::trimmed(rest[k].comm@), "qemu-system"@) implies !vm::given(
                    arguments(rest[k].cmdline@),
                    "-name"@,
                    name,
                ) by {
                    assert(processes[k + 1] == rest[k]);
                    assert(text::numeral_i32(processes[k + 1].entry@) is Some);
                }
            }
        }
    }
}

/// The arguments of a process are what stands between the zero bytes of its command line, in order:
/// the first is what stands before the first zero byte, and the others are those of what follows.
pub proof fn arguments_stand_between_zeros(first: Seq<u8>, rest: Seq<u8>)
    requires
        first.len() > 0,
        !first.contains(0u8),
    ensures
        arguments(first + seq![0u8] + rest) == seq![text::lossy(first)] + arguments(rest),
{
    let all = first + seq![0u8] + rest;
    let n = first.len() as int;
    argument_ends_at_zero(all, 0, n);
    assert(all[0] == first[0]);
    assert(first.contains(first[0]));
    assert(argument_end(all, 0) == n);
    assert(all.subrange(0, n) =~= first);
    arguments_of_the_rest(all, rest, n + 1, 0);
    assert(arguments_from(all, n) == arguments_from(all, n + 1));
}

proof fn argument_ends_at_zero(bytes: Seq<u8>, i: int, n: int)
    requires
        0 <= i <= n < bytes.len(),
        bytes[n] == 0,
        forall|k: int| i <= k < n ==> #[trigger] bytes[k] != 0,
    ensures
        argument_end(bytes, i) == n,
    decreases n - i,
{
    if i < n {
        argument_ends_at_zero(bytes, i + 1, n);
    }
}

proof fn argument_ends_agree(all: Seq<u8>, rest: Seq<u8>, at: int, i: int)
    requires
        0 <= at,
        all.len() == at + rest.len(),
        forall|k: int| 0 <= k < rest.len() ==> #[trigger] rest[k] == all[at + k],
        0 <= i <= rest.len(),
    ensures
        argument_end(all, at + i) == at + argument_end(rest, i),
    decreases rest.len() - i,
{
    if i < rest.len() && rest[i] != 0 {
        argument_ends_agree(all, rest, at, i + 1);
    }
}

proof fn arguments_of_the_rest(all: Seq<u8>, rest: Seq<u8>, at: int, i: int)
    requires
        0 <= at,
        all.len() == at + rest.len(),
        forall|k: int| 0 <= k < rest.len() ==> #[trigger] rest[k] == all[at + k],
        0 <= i <= rest.len(),
    ensures
        arguments_from(all, at + i) == arguments_from(rest, i),
    decreases rest.len() - i,
{
    if i < rest.len() {
        if rest[i] == 0 {
            arguments_of_the_rest(all, rest, at, i + 1);
        } else {
            argument_end_bounds(rest, i + 1);
            argument_ends_agree(all, rest, at, i);
            let k = argument_end(rest, i);
            assert(all.subrange(at + i, at + k) =~= rest.subrange(i, k));
            arguments_of_the_rest(all, rest, at, k);
        }
    }
}

/// Only a device with a medium that can be written, and that is no firmware flash, can hold a
/// machine's state. It does so by its node's name, or by its own where the node has none.
pub proof fn state_is_held_by_writable_media(block: BlockView)
    ensures
        block.state_node() matches Some(node) ==> {
            &&& block.inserted
            &&& !block.readonly
            &&& block.device matches Some(d) ==> !text::starts_with(d, "pflash"@)
            &&& block.node_name == Some(node) || (block.node_name is None && block.device == Some(
                node,
            ))
        },
        block.inserted && !block.readonly && block.device is None ==> block.state_node()
            == block.node_name,
        block.device matches Some(d) ==> (block.inserted && !block.readonly && !text::starts_with(
            d,
            "pflash"@,
        ) ==> block.state_node() == Some(
            match block.node_name {
                Some(n) => n,
                None => d,
            },
        )),
{
}

/// Preparing a VM creates its disk exactly where there is none, at the size of its definition in GiB,
/// and so never over one that exists. The variable store is copied exactly where the firmware is UEFI
/// and there is none yet, to where the machine is told that it stands.
pub proof fn preparing_overwrites_nothing(
    supervisor: Supervisor,
    dirs: Directories,
    seen: Surroundings,
)
    ensures
        ({
            let c = supervisor.definition();
            let steps = supervisor.preparation(dirs, seen);
            &&& steps[0] == (StepView::MakeDirectory { path: c.state_path(dirs) })
            &&& steps[1] == (StepView::MakePrivateDirectory { path: vm::sockets_path(dirs) })
            &&& !seen.disk_exists ==> steps[2] == (StepView::MakeDiskDirectory { disk: c.disk@ })
                && steps[3] == (StepView::CreateDisk {
                disk: c.disk@,
                size: text::decimal(c.disk_gib as nat) + "G"@,
            })
            &&& seen.disk_exists ==> forall|i: int|
                0 <= i < steps.len() ==> !(#[trigger] steps[i] is CreateDisk)
            &&& c.firmware == Firmware::Uefi && !seen.variables_exist ==> steps.last() == (
            StepView::CopyVariables {
                from: "/usr/share/OVMF/OVMF_VARS_4M.fd"@,
                to: c.state_file(dirs, "OVMF_VARS.fd"@),
            })
            &&& c.firmware == Firmware::Bios || seen.variables_exist ==> forall|i: int|
                0 <= i < steps.len() ==> !(#[trigger] steps[i] is CopyVariables)
            &&& steps.len() == 2 + (if seen.disk_exists {
                0int
            } else {
                2
            }) + (if c.firmware == Firmware::Uefi && !seen.variables_exist {
                1int
            } else {
                0
            })
        }),
{
}

/// A start is refused exactly where the disk is there and was installed under the firmware that the
/// definition does not name. What is said names the disk, both firmwares, and the line that mends it.
pub proof fn disks_of_the_other_firmware_are_refused(supervisor: Supervisor, seen: Surroundings)
    ensures
        supervisor.mismatched(seen) <==> {
            &&& seen.disk_exists
            &&& ({
                ||| seen.installed == Some(Firmware::Uefi) && supervisor.definition().firmware
                    == Firmware::Bios
                ||| seen.installed == Some(Firmware::Bios) && supervisor.definition().firmware
                    == Firmware::Uefi
            })
        },
        supervisor.definition().firmware == Firmware::Uefi ==> supervisor.mismatch(Firmware::Bios)
            == "firmware mismatch: "@ + supervisor.definition().disk@ + " was installed under "@
            + "Bios"@ + " firmware but the config says "@ + "Uefi"@
            + ".\nThe guest will not boot, and the firmware will not report why.\nFix: set `firmware = \""@
            + "bios"@ + "\"` in the VM config, or reinstall under the other firmware."@,
        supervisor.definition().firmware == Firmware::Bios ==> supervisor.mismatch(Firmware::Uefi)
            == "firmware mismatch: "@ + supervisor.definition().disk@ + " was installed under "@
            + "Uefi"@ + " firmware but the config says "@ + "Bios"@
            + ".\nThe guest will not boot, and the firmware will not report why.\nFix: set `firmware = \""@
            + "uefi"@ + "\"` in the VM config, or reinstall under the other firmware."@,
{
    match supervisor.definition().firmware {
        Firmware::Uefi => {},
        Firmware::Bios => {},
    }
    if let Some(f) = seen.installed {
        match f {
            Firmware::Uefi => {},
            Firmware::Bios => {},
        }
    }
}

/// The tail of a log is its last lines, as many as were asked for or all that there are, in order.
pub proof fn tails_are_the_last_lines(log: Seq<char>, count: nat)
    ensures
        exists|kept: Seq<Seq<char>>, before: Seq<Seq<char>>|
            #![trigger before + kept]
            text::lines(log) == before + kept && (kept.len() == count || (kept.len() < count
                && before.len() == 0)) && Supervisor::tail(log, count) == text::joined(kept, "\n"@),
{
    let all = text::lines(log);
    if all.len() <= count {
        let before = Seq::<Seq<char>>::empty();
        assert(all == before + all);
    } else {
        let n = all.len() - count;
        assert(all == all.take(n) + all.skip(n));
    }
}

/// What is read of an entry of a list of devices, and from where: a medium that is missing or null is
/// none, and only one that is said to be read-only is.
pub proof fn devices_are_read_where_they_stand(reply: Seq<char>, i: nat)
    ensures
        ({
            let entry = "/return/"@ + text::decimal(i);
            let block = block_at(reply, i as int);
            &&& block.inserted <==> json::value_at(reply, entry + "/inserted"@) is Some
                && json::value_at(reply, entry + "/inserted"@) != Some("null"@)
            &&& block.readonly <==> json::value_at(reply, entry + "/inserted/ro"@) == Some("true"@)
            &&& block.device == json::text_at(reply, entry + "/device"@)
            &&& block.node_name == json::text_at(reply, entry + "/inserted/node-name"@)
        }),
{
}

/// A process that is recorded and alive is the VM's, whatever else was found. One that is recorded and
/// gone counts for nothing.
pub proof fn a_live_record_comes_first(recorded: Option<i32>, alive: bool, found: Option<i32>)
    ensures
        recorded is Some && alive ==> Supervisor::process_of(recorded, alive, found) == recorded,
        recorded is None || !alive ==> Supervisor::process_of(recorded, alive, found) == found,
{
}

/// The number in a PID file is read with the white space around it left out, and a file that is not
/// there, or holds anything else, names no process.
pub proof fn records_read_back(before: Seq<char>, pid: i32)
    requires
        pid > 0,
        text::trimmed(before) == text::decimal(pid as nat),
    ensures
        Supervisor::recorded_in(Some(before)) == Some(pid),
        Supervisor::recorded_in(None) is None,
        Supervisor::recorded_in(Some(Seq::empty())) is None,
{
    text::numerals_read_back(pid as nat, 0);
    text::decimal_round_trip(pid as nat);
    let d = text::decimal(pid as nat);
    assert('0' <= d[0] && d[0] <= '9');
}

/// A VM is started only where it is stopped: one that has a process is never started over, whether it
/// answers or not, and what is said tells its name and its state.
pub proof fn only_stopped_vms_are_started(supervisor: Supervisor, current: VmState)
    ensures
        supervisor.start_refusal(current) is None <==> current is Stopped,
        current is Running || current is Unresponsive ==> supervisor.start_refusal(current) == Some(
            "VM '"@ + supervisor.definition().name@ + "' is already "@ + current.shown(),
        ),
{
}

/// Waiting for QEMU goes on while it does not answer and there is time, and for no other reason.
pub proof fn waiting_ends_with_an_answer_or_the_time(state: VmState, time_is_up: bool)
    ensures
        Supervisor::is_over(state, time_is_up) <==> state is Running || time_is_up,
        state is Stopped && !time_is_up ==> !Supervisor::is_over(state, time_is_up),
        state is Unresponsive && !time_is_up ==> !Supervisor::is_over(state, time_is_up),
{
}

/// A shutdown is done only once the VM has no process, and is given up only once its time is up. What
/// is then said tells the time that it was given.
pub proof fn shutdowns_end_with_the_process(current: VmState, time_is_up: bool, timeout_secs: nat)
    ensures
        Supervisor::shutdown_outcome(current, time_is_up, timeout_secs) == Some(
            Ok::<(), Seq<char>>(()),
        ) <==> current is Stopped && !time_is_up,
        Supervisor::shutdown_outcome(current, time_is_up, timeout_secs) is None <==> !(
        current is Stopped) && !time_is_up,
        time_is_up ==> Supervisor::shutdown_outcome(current, time_is_up, timeout_secs) == Some(
            Err::<(), Seq<char>>(
                "the guest did not shut down within "@ + text::decimal(timeout_secs)
                    + "s; it may be ignoring ACPI (use `wvm vm kill` to force it)"@,
            ),
        ),
{
}

/// Every entry of a list of devices is read, in order, and a result that is no list has none. The one
/// chosen for a machine's state is the first that can hold it.
pub proof fn every_device_is_read(reply: Seq<char>, blocks: Seq<BlockView>, i: int)
    ensures
        json::count_at(reply, "/return"@) matches Some(n) ==> blocks_in(reply).len() == n && (0 <= i
            < n ==> blocks_in(reply)[i] == block_at(reply, i)),
        json::count_at(reply, "/return"@) is None ==> blocks_in(reply).len() == 0,
        0 <= i < blocks.len() && blocks[i].state_node() is Some && (forall|k: int|
            0 <= k < i ==> (#[trigger] blocks[k]).state_node() is None) ==> first_state_node(blocks)
            == blocks[i].state_node(),
    decreases blocks.len(),
{
    if 0 <= i < blocks.len() && blocks[i].state_node() is Some && (forall|k: int|
        0 <= k < i ==> (#[trigger] blocks[k]).state_node() is None) {
        if i > 0 {
            let rest = blocks.skip(1);
            assert(blocks[0].state_node() is None);
            assert forall|k: int| 0 <= k < i - 1 implies (#[trigger] rest[k]).state_node() is None by {
                assert(rest[k] == blocks[k + 1]);
            }
            assert(rest[i - 1] == blocks[i]);
            every_device_is_read(reply, rest, i - 1);
        }
    }
}

/// A VM whose disk is of the other firmware is refused, and nothing is made but the two directories:
/// no disk, and no variable store. Any other is prepared to the end, and not refused.
pub proof fn refused_vms_are_left_alone(
    supervisor: Supervisor,
    dirs: Directories,
    seen: Surroundings,
)
    ensures
        ({
            let (steps, refused) = supervisor.prepared(dirs, seen);
            let other = seen.disk_exists && seen.installed is Some && seen.installed->Some_0
                != supervisor.definition().firmware;
            &&& refused is Some <==> other
            &&& other ==> refused == Some(supervisor.mismatch(seen.installed->Some_0))
            &&& other ==> steps.len() == 2 && steps[0] is MakeDirectory
                && steps[1] is MakePrivateDirectory
            &&& !other ==> steps == supervisor.preparation(dirs, seen)
        }),
{
}

} // verus!
