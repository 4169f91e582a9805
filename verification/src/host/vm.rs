//! The definition of a virtual machine, and the QEMU command line that it stands for.
//!
//! The command line is a function of the definition and of where the user's directories are, so it
//! can be read before anything is launched.
use crate::host::shell;
use crate::posix;
use crate::text;
use vstd::prelude::*;
use vstd::string::*;

verus! {

// ---------------------------------------------------------------------------
// Directories
// ---------------------------------------------------------------------------

/// Where the environment says that the user's directories are.
#[derive(Debug)]
pub struct Directories {
    /// `XDG_RUNTIME_DIR`.
    pub runtime: Option<String>,
    /// `XDG_STATE_HOME`.
    pub state: Option<String>,
    /// `HOME`.
    pub home: Option<String>,
}

impl Directories {
    /// The user's state directory.
    pub open spec fn state_base(self) -> Seq<char> {
        match self.state {
            Some(s) => s@,
            None => match self.home {
                Some(h) => posix::joined(h@, ".local/state"@),
                None => "/tmp"@,
            },
        }
    }

    /// The user's runtime directory, or the state directory where there is none.
    pub open spec fn runtime_base(self) -> Seq<char> {
        match self.runtime {
            Some(r) => r@,
            None => self.state_base(),
        }
    }

    /// The directory that holds the state of all instances.
    pub fn state_home(&self) -> (r: String)
        ensures
            r@ == self.state_base(),
    {
        match &self.state {
            Some(s) => s.clone(),
            None => match &self.home {
                Some(h) => posix::join(h.as_str(), ".local/state"),
                None => text::own("/tmp"),
            },
        }
    }
}

/// The per-user directory that this user's runtime files live in.
pub fn runtime_dir(dirs: &Directories) -> (r: String)
    ensures
        r@ == dirs.runtime_base(),
{
    match &dirs.runtime {
        Some(r) => r.clone(),
        None => dirs.state_home(),
    }
}

/// The directory that the user's sockets stand in: the control socket and the display of every VM.
pub open spec fn sockets_path(dirs: Directories) -> Seq<char> {
    posix::joined(dirs.runtime_base(), "wvm"@)
}

/// The directory that the user's sockets stand in. Who can enter it can see every desktop, so it is
/// the user's alone.
pub fn sockets_dir(dirs: &Directories) -> (r: String)
    ensures
        r@ == sockets_path(*dirs),
{
    posix::join(runtime_dir(dirs).as_str(), "wvm")
}

// ---------------------------------------------------------------------------
// The definition
// ---------------------------------------------------------------------------

/// A VM definition.
#[derive(Debug, PartialEq, Eq)]
pub struct VmConfig {
    /// Display name, used in the journal and for the QEMU `-name` argument.
    pub name: String,
    /// Path to the Windows disk image.
    pub disk: String,
    /// Disk size to create, in GiB, when the image does not yet exist.
    pub disk_gib: u64,
    /// Memory in MiB.
    pub memory_mib: u64,
    /// vCPUs.
    pub cpus: u8,
    /// Path to an installer ISO. Present during install; absent for normal use.
    pub install_iso: Option<String>,
    /// Path to the driver ISO, attached as a second CD-ROM, read-only and never bootable.
    pub driver_iso: Option<String>,
    /// Firmware.
    pub firmware: Firmware,
    /// The port that the guest service listens on.
    pub guest_port: u16,
    /// Host port forwarded to the guest's control port.
    pub forward_port: u16,
    /// Where runtime state lives. Defaults to a directory derived from the instance name.
    pub state_dir: Option<String>,
    /// Exit QEMU when the guest reboots, instead of rebooting it.
    pub no_reboot: bool,
}

/// The firmware that a VM boots with.
#[derive(Debug, Clone, Copy, PartialEq, Eq, Structural)]
pub enum Firmware {
    Uefi,
    Bios,
}

impl Default for Firmware {
    fn default() -> (r: Firmware)
        ensures
            r == Firmware::Uefi,
    {
        Firmware::Uefi
    }
}

/// Disk size where the definition gives none, in GiB.
pub fn default_disk_gib() -> (r: u64)
    ensures
        r == 64,
{
    64
}

/// Memory where the definition gives none, in MiB.
pub fn default_memory_mib() -> (r: u64)
    ensures
        r == 4096,
{
    4096
}

/// vCPUs where the definition gives none.
pub fn default_cpus() -> (r: u8)
    ensures
        r == 4,
{
    4
}

/// Guest port where the definition gives none.
pub fn default_guest_port() -> (r: u16)
    ensures
        r == 48273,
{
    48273
}

/// Forwarded host port where the definition gives none.
pub fn default_forward_port() -> (r: u16)
    ensures
        r == 48274,
{
    48274
}

impl VmConfig {
    /// What is wrong with the definition, if anything, given whether the two discs that it may name
    /// are there.
    pub open spec fn fault(self, install_iso_exists: bool, driver_iso_exists: bool) -> Option<
        Seq<char>,
    > {
        if text::is_blank(self.name@) {
            Some("vm.name must not be empty"@)
        } else if self.cpus == 0 {
            Some("vm.cpus must be at least 1"@)
        } else if self.memory_mib < 1024 {
            Some(
                "vm.memory_mib is "@ + text::decimal(self.memory_mib as nat)
                    + " — a Windows guest needs at least 1024, and realistically 4096"@,
            )
        } else if self.disk_gib == 0 {
            Some("vm.disk_gib must be at least 1"@)
        } else if self.install_iso is Some && !install_iso_exists {
            Some("install_iso does not exist: "@ + self.install_iso->Some_0@)
        } else if self.driver_iso is Some && !driver_iso_exists {
            Some("driver_iso does not exist: "@ + self.driver_iso->Some_0@)
        } else if self.state_dir is None && self.name@.contains('/') {
            Some("vm.name must not contain a path separator when state_dir is unset"@)
        } else if self.name@.contains('/') {
            Some("vm.name must not contain a path separator: it names the display socket"@)
        } else {
            None
        }
    }

    /// Check that the definition is consistent and that the discs it names exist, before anything
    /// is launched.
    pub fn validate(&self, install_iso_exists: bool, driver_iso_exists: bool) -> (r: Result<
        (),
        String,
    >)
        ensures
            match (r, self.fault(install_iso_exists, driver_iso_exists)) {
                (Ok(()), None) => true,
                (Err(e), Some(why)) => e@ == why,
                _ => false,
            },
    {
        if text::blank(self.name.as_str()) {
            return Err(text::own("vm.name must not be empty"));
        }
        if self.cpus == 0 {
            return Err(text::own("vm.cpus must be at least 1"));
        }
        if self.memory_mib < 1024 {
            return Err(
                text::cat3(
                    "vm.memory_mib is ",
                    text::to_decimal(self.memory_mib).as_str(),
                    " — a Windows guest needs at least 1024, and realistically 4096",
                ),
            );
        }
        if self.disk_gib == 0 {
            return Err(text::own("vm.disk_gib must be at least 1"));
        }
        if let Some(iso) = &self.install_iso {
            if !install_iso_exists {
                return Err(text::cat2("install_iso does not exist: ", iso.as_str()));
            }
        }
        if let Some(iso) = &self.driver_iso {
            if !driver_iso_exists {
                return Err(text::cat2("driver_iso does not exist: ", iso.as_str()));
            }
        }
        if text::has_char(self.name.as_str(), '/') {
            if self.state_dir.is_none() {
                return Err(
                    text::own("vm.name must not contain a path separator when state_dir is unset"),
                );
            }
            return Err(
                text::own("vm.name must not contain a path separator: it names the display socket"),
            );
        }
        Ok(())
    }

    // -----------------------------------------------------------------------
    // Where things live
    // -----------------------------------------------------------------------

    /// The directory that holds this instance's runtime state.
    pub open spec fn state_path(self, dirs: Directories) -> Seq<char> {
        match self.state_dir {
            Some(d) => d@,
            None => posix::joined(posix::joined(dirs.state_base(), "wvm"@), self.name@),
        }
    }

    /// A file of this instance's runtime state.
    pub open spec fn state_file(self, dirs: Directories, name: Seq<char>) -> Seq<char> {
        posix::joined(self.state_path(dirs), name)
    }

    /// The socket that a viewer attaches to, in the user's runtime directory.
    pub open spec fn spice_path(self, dirs: Directories) -> Seq<char> {
        posix::joined(sockets_path(dirs), self.name@ + ".spice.sock"@)
    }

    /// Directory holding runtime state for this instance.
    pub fn state_dir(&self, dirs: &Directories) -> (r: String)
        ensures
            r@ == self.state_path(*dirs),
    {
        match &self.state_dir {
            Some(d) => d.clone(),
            None => posix::join(
                posix::join(dirs.state_home().as_str(), "wvm").as_str(),
                self.name.as_str(),
            ),
        }
    }

    /// The file that holds the number of the running process.
    pub fn pid_file(&self, dirs: &Directories) -> (r: String)
        ensures
            r@ == self.state_file(*dirs, "qemu.pid"@),
    {
        posix::join(self.state_dir(dirs).as_str(), "qemu.pid")
    }

    /// QMP socket: the control channel to a running QEMU.
    pub fn qmp_socket(&self, dirs: &Directories) -> (r: String)
        ensures
            r@ == self.state_file(*dirs, "qmp.sock"@),
    {
        posix::join(self.state_dir(dirs).as_str(), "qmp.sock")
    }

    /// The socket that the on-demand viewer attaches to. The display server behind it has no
    /// authentication, so it lives in the user's private runtime directory.
    pub fn spice_socket(&self, dirs: &Directories) -> (r: String)
        ensures
            r@ == self.spice_path(*dirs),
            !self.name@.contains('/') ==> r@ == sockets_path(*dirs) + "/"@ + self.name@
                + ".spice.sock"@,
    {
        proof {
            if !self.name@.contains('/') {
                sockets_are_direct_children(*self, *dirs);
            }
        }
        posix::join(
            sockets_dir(dirs).as_str(),
            text::cat2(self.name.as_str(), ".spice.sock").as_str(),
        )
    }

    /// Serial console log.
    pub fn serial_log(&self, dirs: &Directories) -> (r: String)
        ensures
            r@ == self.state_file(*dirs, "serial.log"@),
    {
        posix::join(self.state_dir(dirs).as_str(), "serial.log")
    }

    /// What QEMU itself prints.
    pub fn monitor_log(&self, dirs: &Directories) -> (r: String)
        ensures
            r@ == self.state_file(*dirs, "qemu.log"@),
    {
        posix::join(self.state_dir(dirs).as_str(), "qemu.log")
    }

    // -----------------------------------------------------------------------
    // The command line
    // -----------------------------------------------------------------------

    /// Name, machine, processor and memory.
    pub open spec fn machine_args(self) -> Seq<Seq<char>> {
        seq![
            "-name"@,
            self.name@,
            "-machine"@,
            "q35,accel=kvm"@,
            "-cpu"@,
            "host"@,
            "-smp"@,
            text::decimal(self.cpus as nat),
            "-m"@,
            text::decimal(self.memory_mib as nat),
        ]
    }

    /// Firmware images, for a UEFI machine: the code read-only, the variables writable.
    pub open spec fn firmware_args(self, dirs: Directories) -> Seq<Seq<char>> {
        if self.firmware == Firmware::Uefi {
            seq![
                "-drive"@,
                "if=pflash,format=raw,readonly=on,file=/usr/share/OVMF/OVMF_CODE_4M.fd"@,
                "-drive"@,
                "if=pflash,format=raw,file="@ + self.state_file(dirs, "OVMF_VARS.fd"@),
            ]
        } else {
            seq![]
        }
    }

    /// The main disk, as two named nodes, so that snapshots can name it.
    pub open spec fn disk_args(self) -> Seq<Seq<char>> {
        seq![
            "-blockdev"@,
            "driver=file,filename="@ + self.disk@ + ",node-name=disk0.file"@,
            "-blockdev"@,
            "driver=qcow2,file=disk0.file,node-name=disk0,discard=unmap"@,
            "-device"@,
            "virtio-blk-pci,drive=disk0,bootindex=1"@,
        ]
    }

    /// The installer disc, bootable, where there is one.
    pub open spec fn installer_args(self) -> Seq<Seq<char>> {
        match self.install_iso {
            Some(iso) => seq![
                "-drive"@,
                "file="@ + iso@ + ",media=cdrom,readonly=on,if=none,id=cd0"@,
                "-device"@,
                "ide-cd,drive=cd0,bus=ide.0,bootindex=2"@,
            ],
            None => seq![],
        }
    }

    /// The driver disc, on a port of its own and not bootable, where there is one.
    pub open spec fn driver_args(self) -> Seq<Seq<char>> {
        match self.driver_iso {
            Some(iso) => seq![
                "-drive"@,
                "file="@ + iso@ + ",media=cdrom,readonly=on,if=none,id=cd1"@,
                "-device"@,
                "ide-cd,drive=cd1,bus=ide.1"@,
            ],
            None => seq![],
        }
    }

    /// A network of the guest's own, with one forward that is bound to this host's loopback.
    pub open spec fn network_args(self) -> Seq<Seq<char>> {
        seq![
            "-netdev"@,
            "user,id=net0,hostfwd=tcp:127.0.0.1:"@ + text::decimal(self.forward_port as nat)
                + "-:"@ + text::decimal(self.guest_port as nat),
            "-device"@,
            "e1000e,netdev=net0"@,
        ]
    }

    /// An absolute pointer behind its controller, no display of its own, and a display server on a
    /// socket.
    pub open spec fn display_args(self, dirs: Directories) -> Seq<Seq<char>> {
        seq![
            "-device"@,
            "qemu-xhci,id=xhci0"@,
            "-device"@,
            "usb-tablet,bus=xhci0.0"@,
            "-display"@,
            "none"@,
            "-spice"@,
            "unix=on,addr="@ + self.spice_path(dirs) + ",disable-ticketing=on"@,
        ]
    }

    /// The serial log, the control socket, and whether to exit on a reboot.
    pub open spec fn control_args(self, dirs: Directories) -> Seq<Seq<char>> {
        seq![
            "-serial"@,
            "file:"@ + self.state_file(dirs, "serial.log"@),
            "-qmp"@,
            "unix:"@ + self.state_file(dirs, "qmp.sock"@) + ",server=on,wait=off"@,
        ] + if self.no_reboot {
            seq!["-no-reboot"@]
        } else {
            seq![]
        }
    }

    /// The QEMU arguments that the definition stands for.
    pub open spec fn args(self, dirs: Directories) -> Seq<Seq<char>> {
        self.machine_args() + self.firmware_args(dirs) + self.disk_args() + self.installer_args()
            + self.driver_args() + self.network_args() + self.display_args(dirs)
            + self.control_args(dirs)
    }

    /// Build the QEMU argument vector.
    pub fn qemu_args(&self, dirs: &Directories) -> (r: Vec<String>)
        ensures
            text::views(r@) == self.args(*dirs),
    {
        let mut a: Vec<String> = Vec::new();
        assert(text::views(a@) == Seq::<Seq<char>>::empty());
        self.push_machine(&mut a);
        self.push_firmware(&mut a, dirs);
        self.push_disk(&mut a);
        self.push_discs(&mut a);
        self.push_network(&mut a);
        self.push_display(&mut a, dirs);
        self.push_control(&mut a, dirs);
        assert(text::views(a@) == self.args(*dirs));
        a
    }

    fn push_machine(&self, a: &mut Vec<String>)
        ensures
            text::views(final(a)@) == text::views(old(a)@) + self.machine_args(),
    {
        push(a, "-name", self.name.as_str());
        push(a, "-machine", "q35,accel=kvm");
        push(a, "-cpu", "host");
        push(a, "-smp", text::to_decimal(self.cpus as u64).as_str());
        push(a, "-m", text::to_decimal(self.memory_mib).as_str());
        assert(text::views(a@) == text::views(old(a)@) + self.machine_args());
    }

    fn push_firmware(&self, a: &mut Vec<String>, dirs: &Directories)
        ensures
            text::views(final(a)@) == text::views(old(a)@) + self.firmware_args(*dirs),
    {
        if self.firmware == Firmware::Uefi {
            let vars = posix::join(self.state_dir(dirs).as_str(), "OVMF_VARS.fd");
            push(
                a,
                "-drive",
                "if=pflash,format=raw,readonly=on,file=/usr/share/OVMF/OVMF_CODE_4M.fd",
            );
            push(
                a,
                "-drive",
                text::cat2("if=pflash,format=raw,file=", vars.as_str()).as_str(),
            );
        }
        assert(text::views(a@) == text::views(old(a)@) + self.firmware_args(*dirs));
    }

    fn push_disk(&self, a: &mut Vec<String>)
        ensures
            text::views(final(a)@) == text::views(old(a)@) + self.disk_args(),
    {
        push(
            a,
            "-blockdev",
            text::cat3("driver=file,filename=", self.disk.as_str(), ",node-name=disk0.file").as_str(),
        );
        push(a, "-blockdev", "driver=qcow2,file=disk0.file,node-name=disk0,discard=unmap");
        push(a, "-device", "virtio-blk-pci,drive=disk0,bootindex=1");
        assert(text::views(a@) == text::views(old(a)@) + self.disk_args());
    }

    fn push_discs(&self, a: &mut Vec<String>)
        ensures
            text::views(final(a)@) == text::views(old(a)@) + self.installer_args()
                + self.driver_args(),
    {
        if let Some(iso) = &self.install_iso {
            push(
                a,
                "-drive",
                text::cat3(
                    "file=",
                    iso.as_str(),
                    ",media=cdrom,readonly=on,if=none,id=cd0",
                ).as_str(),
            );
            push(a, "-device", "ide-cd,drive=cd0,bus=ide.0,bootindex=2");
        }
        assert(text::views(a@) == text::views(old(a)@) + self.installer_args());
        let ghost middle = text::views(a@);
        if let Some(iso) = &self.driver_iso {
            push(
                a,
                "-drive",
                text::cat3(
                    "file=",
                    iso.as_str(),
                    ",media=cdrom,readonly=on,if=none,id=cd1",
                ).as_str(),
            );
            push(a, "-device", "ide-cd,drive=cd1,bus=ide.1");
        }
        assert(text::views(a@) == middle + self.driver_args());
    }

    fn push_network(&self, a: &mut Vec<String>)
        ensures
            text::views(final(a)@) == text::views(old(a)@) + self.network_args(),
    {
        push(
            a,
            "-netdev",
            text::cat4(
                "user,id=net0,hostfwd=tcp:127.0.0.1:",
                text::to_decimal(self.forward_port as u64).as_str(),
                "-:",
                text::to_decimal(self.guest_port as u64).as_str(),
            ).as_str(),
        );
        push(a, "-device", "e1000e,netdev=net0");
        assert(text::views(a@) == text::views(old(a)@) + self.network_args());
    }

    fn push_display(&self, a: &mut Vec<String>, dirs: &Directories)
        ensures
            text::views(final(a)@) == text::views(old(a)@) + self.display_args(*dirs),
    {
        push(a, "-device", "qemu-xhci,id=xhci0");
        push(a, "-device", "usb-tablet,bus=xhci0.0");
        push(a, "-display", "none");
        push(
            a,
            "-spice",
            text::cat3(
                "unix=on,addr=",
                self.spice_socket(dirs).as_str(),
                ",disable-ticketing=on",
            ).as_str(),
        );
        assert(text::views(a@) == text::views(old(a)@) + self.display_args(*dirs));
    }

    fn push_control(&self, a: &mut Vec<String>, dirs: &Directories)
        ensures
            text::views(final(a)@) == text::views(old(a)@) + self.control_args(*dirs),
    {
        push(a, "-serial", text::cat2("file:", self.serial_log(dirs).as_str()).as_str());
        push(
            a,
            "-qmp",
            text::cat3("unix:", self.qmp_socket(dirs).as_str(), ",server=on,wait=off").as_str(),
        );
        if self.no_reboot {
            text::push_text(a, "-no-reboot");
        }
        assert(text::views(a@) == text::views(old(a)@) + self.control_args(*dirs));
    }

    /// The program and its arguments as one line that a shell takes, for display.
    pub fn qemu_cmdline(&self, dirs: &Directories) -> (r: String)
        ensures
            r@ == shell::line(seq!["qemu-system-x86_64"@] + self.args(*dirs)),
    {
        let mut words: Vec<String> = Vec::new();
        let mut args = self.qemu_args(dirs);
        words.push(text::own("qemu-system-x86_64"));
        let ghost before = words@;
        let ghost given = args@;
        words.append(&mut args);
        assert(text::views(words@) == seq!["qemu-system-x86_64"@] + self.args(*dirs)) by {
            assert(words@ == before + given);
            assert(text::views(given) == self.args(*dirs));
            assert(text::views(before + given) == text::views(before) + text::views(given));
        }
        shell::write_line(&words)
    }
}

fn push(a: &mut Vec<String>, flag: &str, value: &str)
    ensures
        text::views(final(a)@) == text::views(old(a)@) + seq![flag@, value@],
{
    text::push_text(a, flag);
    text::push_text(a, value);
    assert(text::views(a@) == text::views(old(a)@) + seq![flag@, value@]);
}

// ---------------------------------------------------------------------------
// Installed firmware
// ---------------------------------------------------------------------------

/// The first bytes on disk of the type of an EFI System Partition.
pub open spec fn esp_type() -> Seq<u8> {
    seq![0x28u8, 0x73, 0x2a, 0xc1, 0x1f, 0xf8, 0xd2, 0x11]
}

/// A first sector that says the disk is partitioned.
pub open spec fn is_partitioned(sector: Seq<u8>) -> bool {
    sector.len() >= 512 && sector[510] == 0x55 && sector[511] == 0xaa
}

/// A partition table that lists an EFI System Partition.
pub open spec fn has_esp(table: Seq<u8>) -> bool {
    exists|k: int| 0 <= k && k + 8 <= table.len() && #[trigger] table.subrange(k, k + 8) == esp_type()
}

/// Bytes in a sector.
pub const SECTOR_BYTES: usize = 512;

/// How many sectors the partition table takes, with the two in front of it.
pub const TABLE_SECTORS: usize = 34;

/// Which firmware wrote a disk, given its first sector and its partition table where they could be
/// read. What is shorter than it should be counts as unread. A disk that is not partitioned has no
/// opinion; an EFI System Partition means UEFI.
pub open spec fn installed_firmware(first: Option<Seq<u8>>, table: Option<Seq<u8>>) -> Option<
    Firmware,
> {
    match (first, table) {
        (Some(sector), Some(t)) => if !is_partitioned(sector) || t.len() < TABLE_SECTORS
            * SECTOR_BYTES {
            None
        } else if has_esp(t) {
            Some(Firmware::Uefi)
        } else {
            Some(Firmware::Bios)
        },
        _ => None,
    }
}

impl VmConfig {
    /// Which firmware the disk was installed under, given its first sector and the sectors of its
    /// partition table where they could be read.
    pub fn detect_installed_firmware(first: Option<&[u8]>, table: Option<&[u8]>) -> (r: Option<
        Firmware,
    >)
        ensures
            r == installed_firmware(
                match first {
                    Some(s) => Some(s@),
                    None => None,
                },
                match table {
                    Some(t) => Some(t@),
                    None => None,
                },
            ),
    {
        match (first, table) {
            (Some(sector), Some(t)) => if !partitioned(sector) || t.len() < TABLE_SECTORS
                * SECTOR_BYTES {
                None
            } else if lists_esp(t) {
                Some(Firmware::Uefi)
            } else {
                Some(Firmware::Bios)
            },
            _ => None,
        }
    }
}

/// Whether a first sector says that the disk is partitioned.
pub fn partitioned(sector: &[u8]) -> (r: bool)
    ensures
        r == is_partitioned(sector@),
{
    sector.len() >= 512 && sector[510] == 0x55 && sector[511] == 0xaa
}

fn lists_esp(table: &[u8]) -> (r: bool)
    ensures
        r == has_esp(table@),
{
    let mut k: usize = 0;
    while table.len() - k >= 8
        invariant
            k <= table@.len(),
            forall|j: int|
                0 <= j < k && j + 8 <= table@.len() ==> #[trigger] table@.subrange(j, j + 8)
                    != esp_type(),
        decreases table.len() - k,
    {
        let found: bool = table[k] == 0x28 && table[k + 1] == 0x73 && table[k + 2] == 0x2a && table[k
            + 3] == 0xc1 && table[k + 4] == 0x1f && table[k + 5] == 0xf8 && table[k + 6] == 0xd2
            && table[k + 7] == 0x11;
        let ghost here = table@.subrange(k as int, k + 8);
        if found {
            assert(here =~= esp_type());
            return true;
        }
        proof {
            let e = esp_type();
            assert(here[0] != e[0] || here[1] != e[1] || here[2] != e[2] || here[3] != e[3]
                || here[4] != e[4] || here[5] != e[5] || here[6] != e[6] || here[7] != e[7]);
        }
        k += 1;
    }
    false
}

// ---------------------------------------------------------------------------
// Laws
// ---------------------------------------------------------------------------

/// The display socket of a definition that was accepted is a file of the private directory: the
/// directory, one separator, and a name that holds no separator.
pub proof fn sockets_are_direct_children(config: VmConfig, dirs: Directories)
    requires
        config.fault(true, true) is None || !config.name@.contains('/'),
    ensures
        config.spice_path(dirs) == sockets_path(dirs) + "/"@ + (config.name@ + ".spice.sock"@),
        !(config.name@ + ".spice.sock"@).contains('/'),
{
    reveal_strlit(".spice.sock");
    reveal_strlit("wvm");
    reveal_strlit("/");
    let file = config.name@ + ".spice.sock"@;
    assert forall|i: int| 0 <= i < file.len() implies file[i] != '/' by {
        if i < config.name@.len() {
            assert(config.name@.contains(config.name@[i]));
        } else {
            assert(file[i] == ".spice.sock"@[i - config.name@.len()]);
        }
    }
    assert(file[0] != '/');
    assert(sockets_path(dirs).last() == 'm');
}

/// The files of an instance's runtime state lie inside its state directory.
pub proof fn state_files_are_inside(config: VmConfig, dirs: Directories)
    ensures
        text::starts_with(config.state_file(dirs, "qemu.pid"@), config.state_path(dirs)),
        text::starts_with(config.state_file(dirs, "qmp.sock"@), config.state_path(dirs)),
        text::starts_with(config.state_file(dirs, "serial.log"@), config.state_path(dirs)),
        text::starts_with(config.state_file(dirs, "qemu.log"@), config.state_path(dirs)),
{
    reveal_strlit("qemu.pid");
    reveal_strlit("qmp.sock");
    reveal_strlit("serial.log");
    reveal_strlit("qemu.log");
    let dir = config.state_path(dirs);
    posix::joining_stays_inside(dir, "qemu.pid"@);
    posix::joining_stays_inside(dir, "qmp.sock"@);
    posix::joining_stays_inside(dir, "serial.log"@);
    posix::joining_stays_inside(dir, "qemu.log"@);
}

/// An option stands in a list of arguments with a value directly after it.
pub open spec fn given(args: Seq<Seq<char>>, flag: Seq<char>, value: Seq<char>) -> bool {
    exists|i: int| 0 <= i && i + 1 < args.len() && #[trigger] args[i] == flag && args[i + 1] == value
}

/// The guest gets the name, the processors and the memory of its definition: the argument directly
/// after `-smp` reads back as the number of processors, and the one directly after `-m` as the memory
/// in MiB.
pub proof fn the_guest_gets_what_is_defined(config: VmConfig, dirs: Directories)
    ensures
        config.args(dirs).len() >= 10,
        config.args(dirs)[0] == "-name"@,
        config.args(dirs)[1] == config.name@,
        config.args(dirs)[6] == "-smp"@,
        text::numeral(config.args(dirs)[7]) == Some(config.cpus as nat),
        config.args(dirs)[8] == "-m"@,
        text::numeral(config.args(dirs)[9]) == Some(config.memory_mib as nat),
        given(config.args(dirs), "-machine"@, "q35,accel=kvm"@),
        given(config.args(dirs), "-cpu"@, "host"@),
{
    text::numerals_read_back(config.cpus as nat, 0);
    text::numerals_read_back(config.memory_mib as nat, 0);
    let args = config.args(dirs);
    assert(args.take(10) =~= config.machine_args());
    assert(args[0] == config.machine_args()[0]);
    assert(args[2] == "-machine"@ && args[3] == "q35,accel=kvm"@);
    assert(args[4] == "-cpu"@ && args[5] == "host"@);
}

/// What a definition says of the disk to create is no argument of the machine: two definitions that
/// differ in nothing else have the same command line.
pub proof fn the_size_to_create_is_no_argument(a: VmConfig, b: VmConfig, dirs: Directories)
    requires
        a.name@ == b.name@,
        a.disk@ == b.disk@,
        a.memory_mib == b.memory_mib,
        a.cpus == b.cpus,
        text::opt_view(a.install_iso) == text::opt_view(b.install_iso),
        text::opt_view(a.driver_iso) == text::opt_view(b.driver_iso),
        a.firmware == b.firmware,
        a.guest_port == b.guest_port,
        a.forward_port == b.forward_port,
        text::opt_view(a.state_dir) == text::opt_view(b.state_dir),
        a.no_reboot == b.no_reboot,
    ensures
        a.args(dirs) == b.args(dirs),
{
    assert(a.state_path(dirs) == b.state_path(dirs));
    assert(a.machine_args() =~= b.machine_args());
    assert(a.firmware_args(dirs) =~= b.firmware_args(dirs));
    assert(a.disk_args() =~= b.disk_args());
    assert(a.installer_args() =~= b.installer_args());
    assert(a.driver_args() =~= b.driver_args());
    assert(a.network_args() =~= b.network_args());
    assert(a.display_args(dirs) =~= b.display_args(dirs));
    assert(a.control_args(dirs) =~= b.control_args(dirs));
}

/// Two definitions whose command lines are the same agree in everything that the machine is given:
/// name, processors, memory, firmware, disk, discs, ports, and what a reboot does.
#[verifier::spinoff_prover]
#[verifier::rlimit(60)]
pub proof fn command_lines_tell_definitions_apart(a: VmConfig, b: VmConfig, dirs: Directories)
    requires
        a.args(dirs) == b.args(dirs),
    ensures
        a.name@ == b.name@,
        a.cpus == b.cpus,
        a.memory_mib == b.memory_mib,
        a.firmware == b.firmware,
        a.disk@ == b.disk@,
        text::opt_view(a.install_iso) == text::opt_view(b.install_iso),
        text::opt_view(a.driver_iso) == text::opt_view(b.driver_iso),
        a.forward_port == b.forward_port,
        a.guest_port == b.guest_port,
        a.no_reboot == b.no_reboot,
{
    reveal_strlit("-drive");
    reveal_strlit("-blockdev");
    reveal_strlit("-netdev");
    let args = a.args(dirs);
    the_guest_gets_what_is_defined(a, dirs);
    the_guest_gets_what_is_defined(b, dirs);
    assert("-drive"@[1] == 'd' && "-blockdev"@[1] == 'b' && "-netdev"@[1] == 'n');
    // Firmware.
    assert(args[10] == if a.firmware == Firmware::Uefi {
        "-drive"@
    } else {
        "-blockdev"@
    });
    assert(args[10] == if b.firmware == Firmware::Uefi {
        "-drive"@
    } else {
        "-blockdev"@
    });
    assert(a.firmware == b.firmware);
    // The disk.
    let at: int = if a.firmware == Firmware::Uefi {
        14
    } else {
        10
    };
    assert(args[at + 1] == a.disk_args()[1]);
    assert(args[at + 1] == b.disk_args()[1]);
    framed_texts_are_told_apart(
        "driver=file,filename="@,
        a.disk@,
        b.disk@,
        ",node-name=disk0.file"@,
    );
    // The discs.
    let discs = at + 6;
    discs_are_told_apart(a, b, dirs, discs);
    // The ports.
    let net = discs + a.installer_args().len() + a.driver_args().len();
    assert(args[net + 1] == a.network_args()[1]);
    assert(args[net + 1] == b.network_args()[1]);
    ports_are_told_apart(
        a.forward_port as nat,
        a.guest_port as nat,
        b.forward_port as nat,
        b.guest_port as nat,
    );
    // What a reboot does.
    assert(args.len() == net + 16 + if a.no_reboot {
        1int
    } else {
        0
    });
    assert(args.len() == net + 16 + if b.no_reboot {
        1int
    } else {
        0
    });
}

proof fn framed_texts_are_told_apart(
    before: Seq<char>,
    a: Seq<char>,
    b: Seq<char>,
    after: Seq<char>,
)
    ensures
        before + a + after == before + b + after ==> a == b,
{
    if before + a + after == before + b + after {
        let whole = before + a + after;
        let other = before + b + after;
        assert(whole.len() == other.len());
        assert(a.len() == b.len());
        assert(a =~= whole.subrange(before.len() as int, (before.len() + a.len()) as int));
        assert(b =~= other.subrange(before.len() as int, (before.len() + b.len()) as int));
    }
}

proof fn ports_are_told_apart(f: nat, g: nat, p: nat, q: nat)
    requires
        "user,id=net0,hostfwd=tcp:127.0.0.1:"@ + text::decimal(f) + "-:"@ + text::decimal(g)
            == "user,id=net0,hostfwd=tcp:127.0.0.1:"@ + text::decimal(p) + "-:"@ + text::decimal(q),
    ensures
        f == p,
        g == q,
{
    reveal_strlit("-:");
    let start = "user,id=net0,hostfwd=tcp:127.0.0.1:"@;
    let k = start.len() as int;
    let (df, dg, dp, dq) = (text::decimal(f), text::decimal(g), text::decimal(p), text::decimal(q));
    let a = start + df + "-:"@ + dg;
    let b = start + dp + "-:"@ + dq;
    text::numerals_read_back(f, p);
    text::numerals_read_back(p, f);
    text::numerals_read_back(g, q);
    if df.len() < dp.len() {
        assert(a[k + df.len()] == '-');
        assert(b[k + df.len()] == dp[df.len() as int]);
    } else if dp.len() < df.len() {
        assert(b[k + dp.len()] == '-');
        assert(a[k + dp.len()] == df[dp.len() as int]);
    } else {
        assert(df =~= a.subrange(k, k + df.len()));
        assert(dp =~= b.subrange(k, k + dp.len()));
        assert(dg =~= a.skip(k + df.len() + 2));
        assert(dq =~= b.skip(k + dp.len() + 2));
    }
}

#[verifier::spinoff_prover]
proof fn discs_are_told_apart(a: VmConfig, b: VmConfig, dirs: Directories, discs: int)
    requires
        a.args(dirs) == b.args(dirs),
        a.firmware == b.firmware,
        discs == (if a.firmware == Firmware::Uefi {
            20int
        } else {
            16
        }),
    ensures
        text::opt_view(a.install_iso) == text::opt_view(b.install_iso),
        text::opt_view(a.driver_iso) == text::opt_view(b.driver_iso),
        a.installer_args().len() == b.installer_args().len(),
        a.driver_args().len() == b.driver_args().len(),
{
    reveal_strlit("-drive");
    reveal_strlit("-netdev");
    reveal_strlit("file=");
    reveal_strlit(",media=cdrom,readonly=on,if=none,id=cd0");
    reveal_strlit(",media=cdrom,readonly=on,if=none,id=cd1");
    assert("-drive"@[1] == 'd' && "-netdev"@[1] == 'n');
    let args = a.args(dirs);
    let first = ",media=cdrom,readonly=on,if=none,id=cd0"@;
    let second = ",media=cdrom,readonly=on,if=none,id=cd1"@;
    let (ia, ib) = (a.install_iso, b.install_iso);
    let (da, db) = (a.driver_iso, b.driver_iso);
    assert(args[discs] == (if ia is Some || da is Some {
        "-drive"@
    } else {
        "-netdev"@
    }));
    assert(args[discs] == (if ib is Some || db is Some {
        "-drive"@
    } else {
        "-netdev"@
    }));
    if ia is Some || da is Some {
        let one = args[discs + 1];
        assert(ia is Some ==> one == "file="@ + ia->Some_0@ + first && one.last() == '0');
        assert(ib is Some ==> one == "file="@ + ib->Some_0@ + first && one.last() == '0');
        assert(ia is None ==> one == "file="@ + da->Some_0@ + second && one.last() == '1');
        assert(ib is None ==> one == "file="@ + db->Some_0@ + second && one.last() == '1');
        assert(ia is Some <==> ib is Some);
        if ia is Some {
            framed_texts_are_told_apart("file="@, ia->Some_0@, ib->Some_0@, first);
            assert(args[discs + 4] == (if da is Some {
                "-drive"@
            } else {
                "-netdev"@
            }));
            assert(args[discs + 4] == (if db is Some {
                "-drive"@
            } else {
                "-netdev"@
            }));
            if da is Some {
                assert(args[discs + 5] == "file="@ + da->Some_0@ + second);
                assert(args[discs + 5] == "file="@ + db->Some_0@ + second);
                framed_texts_are_told_apart("file="@, da->Some_0@, db->Some_0@, second);
            }
        } else {
            framed_texts_are_told_apart("file="@, da->Some_0@, db->Some_0@, second);
        }
    }
}

/// The devices of a machine, each with the value it is given: the disk boots first, the installer
/// disc after it, and the driver disc never. Discs and the firmware's code are read-only. The one
/// forward is bound to this host's loopback and leads from the forwarded port to the guest's. No
/// window opens: the display is served on its socket. There is nothing beyond these.
#[verifier::spinoff_prover]
#[verifier::rlimit(60)]
pub proof fn the_machine_has_these_devices(config: VmConfig, dirs: Directories)
    ensures
        ({
            let args = config.args(dirs);
            &&& config.firmware == Firmware::Uefi ==> given(
                args,
                "-drive"@,
                "if=pflash,format=raw,readonly=on,file=/usr/share/OVMF/OVMF_CODE_4M.fd"@,
            ) && given(
                args,
                "-drive"@,
                "if=pflash,format=raw,file="@ + config.state_file(dirs, "OVMF_VARS.fd"@),
            )
            &&& given(
                args,
                "-blockdev"@,
                "driver=file,filename="@ + config.disk@ + ",node-name=disk0.file"@,
            )
            &&& given(
                args,
                "-blockdev"@,
                "driver=qcow2,file=disk0.file,node-name=disk0,discard=unmap"@,
            )
            &&& given(args, "-device"@, "virtio-blk-pci,drive=disk0,bootindex=1"@)
            &&& config.install_iso matches Some(iso) ==> given(
                args,
                "-drive"@,
                "file="@ + iso@ + ",media=cdrom,readonly=on,if=none,id=cd0"@,
            ) && given(args, "-device"@, "ide-cd,drive=cd0,bus=ide.0,bootindex=2"@)
            &&& config.driver_iso matches Some(iso) ==> given(
                args,
                "-drive"@,
                "file="@ + iso@ + ",media=cdrom,readonly=on,if=none,id=cd1"@,
            ) && given(args, "-device"@, "ide-cd,drive=cd1,bus=ide.1"@)
            &&& given(
                args,
                "-netdev"@,
                "user,id=net0,hostfwd=tcp:127.0.0.1:"@ + text::decimal(config.forward_port as nat)
                    + "-:"@ + text::decimal(config.guest_port as nat),
            )
            &&& given(args, "-device"@, "e1000e,netdev=net0"@)
            &&& given(args, "-device"@, "qemu-xhci,id=xhci0"@)
            &&& given(args, "-device"@, "usb-tablet,bus=xhci0.0"@)
            &&& given(args, "-display"@, "none"@)
            &&& given(
                args,
                "-spice"@,
                "unix=on,addr="@ + config.spice_path(dirs) + ",disable-ticketing=on"@,
            )
            &&& given(args, "-serial"@, "file:"@ + config.state_file(dirs, "serial.log"@))
            &&& given(
                args,
                "-qmp"@,
                "unix:"@ + config.state_file(dirs, "qmp.sock"@) + ",server=on,wait=off"@,
            )
            &&& config.no_reboot ==> args.last() == "-no-reboot"@
            &&& args.len() == 32 + (if config.firmware == Firmware::Uefi {
                4int
            } else {
                0
            }) + (if config.install_iso is Some {
                4int
            } else {
                0
            }) + (if config.driver_iso is Some {
                4int
            } else {
                0
            }) + (if config.no_reboot {
                1int
            } else {
                0
            })
        }),
{
    let args = config.args(dirs);
    let disk: int = config.firmware_args(dirs).len() + 10int;
    if config.firmware == Firmware::Uefi {
        assert(args[10] == config.firmware_args(dirs)[0]);
        assert(args[11] == config.firmware_args(dirs)[1]);
        assert(args[12] == config.firmware_args(dirs)[2]);
        assert(args[13] == config.firmware_args(dirs)[3]);
    }
    assert(args[disk] == config.disk_args()[0] && args[disk + 1] == config.disk_args()[1]);
    assert(args[disk + 2] == config.disk_args()[2] && args[disk + 3] == config.disk_args()[3]);
    assert(args[disk + 4] == config.disk_args()[4] && args[disk + 5] == config.disk_args()[5]);
    let installer = disk + 6;
    if config.install_iso is Some {
        let group = config.installer_args();
        assert(args[installer] == group[0] && args[installer + 1] == group[1]);
        assert(args[installer + 2] == group[2] && args[installer + 3] == group[3]);
    }
    let driver = installer + config.installer_args().len();
    if config.driver_iso is Some {
        let group = config.driver_args();
        assert(args[driver] == group[0] && args[driver + 1] == group[1]);
        assert(args[driver + 2] == group[2] && args[driver + 3] == group[3]);
    }
    let net = driver + config.driver_args().len();
    let group = config.network_args();
    assert(args[net] == group[0] && args[net + 1] == group[1]);
    assert(args[net + 2] == group[2] && args[net + 3] == group[3]);
    let shown = net + 4;
    let group = config.display_args(dirs);
    assert(args[shown] == group[0] && args[shown + 1] == group[1]);
    assert(args[shown + 2] == group[2] && args[shown + 3] == group[3]);
    assert(args[shown + 4] == group[4] && args[shown + 5] == group[5]);
    assert(args[shown + 6] == group[6] && args[shown + 7] == group[7]);
    let control = shown + 8;
    let group = config.control_args(dirs);
    assert(args[control] == group[0] && args[control + 1] == group[1]);
    assert(args[control + 2] == group[2] && args[control + 3] == group[3]);
}

/// A definition is accepted exactly where it has a name without a separator, at least one processor,
/// at least 1024 MiB of memory, at least one GiB to create, and the discs it names are there. What is
/// said of one that is refused is the first of these that fails.
pub proof fn sound_definitions_are_accepted(
    config: VmConfig,
    install_iso_exists: bool,
    driver_iso_exists: bool,
)
    ensures
        config.fault(install_iso_exists, driver_iso_exists) is None <==> {
            &&& !text::is_blank(config.name@)
            &&& !config.name@.contains('/')
            &&& config.cpus >= 1
            &&& config.memory_mib >= 1024
            &&& config.disk_gib >= 1
            &&& config.install_iso is None || install_iso_exists
            &&& config.driver_iso is None || driver_iso_exists
        },
        text::is_blank(config.name@) ==> config.fault(install_iso_exists, driver_iso_exists)
            == Some("vm.name must not be empty"@),
        !text::is_blank(config.name@) && config.cpus == 0 ==> config.fault(
            install_iso_exists,
            driver_iso_exists,
        ) == Some("vm.cpus must be at least 1"@),
        !text::is_blank(config.name@) && config.cpus >= 1 && config.memory_mib < 1024
            ==> config.fault(install_iso_exists, driver_iso_exists) == Some(
            "vm.memory_mib is "@ + text::decimal(config.memory_mib as nat)
                + " — a Windows guest needs at least 1024, and realistically 4096"@,
        ),
        !text::is_blank(config.name@) && config.cpus >= 1 && config.memory_mib >= 1024
            && config.disk_gib == 0 ==> config.fault(install_iso_exists, driver_iso_exists) == Some(
            "vm.disk_gib must be at least 1"@,
        ),
{
}

/// The firmware that wrote a disk is known exactly where the first sector is marked as partitioned
/// and the whole table was read. It is UEFI exactly where the type of an EFI System Partition stands
/// in the table, at whatever place.
pub proof fn firmware_is_read_from_the_disk(first: Seq<u8>, table: Seq<u8>)
    ensures
        installed_firmware(None, Some(table)) is None,
        installed_firmware(Some(first), None) is None,
        installed_firmware(Some(first), Some(table)) is Some <==> first.len() >= 512 && first[510]
            == 0x55 && first[511] == 0xaa && table.len() >= 34 * 512,
        installed_firmware(Some(first), Some(table)) == Some(Firmware::Uefi) <==> {
            &&& installed_firmware(Some(first), Some(table)) is Some
            &&& exists|k: int|
                0 <= k <= table.len() - 8 && #[trigger] table[k] == 0x28 && table[k + 1] == 0x73
                    && table[k + 2] == 0x2a && table[k + 3] == 0xc1 && table[k + 4] == 0x1f
                    && table[k + 5] == 0xf8 && table[k + 6] == 0xd2 && table[k + 7] == 0x11
        },
{
    if has_esp(table) {
        let k = choose|k: int|
            0 <= k && k + 8 <= table.len() && #[trigger] table.subrange(k, k + 8) == esp_type();
        let here = table.subrange(k, k + 8);
        assert(here[0] == 0x28 && here[1] == 0x73 && here[2] == 0x2a && here[3] == 0xc1);
        assert(here[4] == 0x1f && here[5] == 0xf8 && here[6] == 0xd2 && here[7] == 0x11);
        assert(table[k] == 0x28);
    }
    if exists|k: int|
        0 <= k <= table.len() - 8 && #[trigger] table[k] == 0x28 && table[k + 1] == 0x73 && table[k
            + 2] == 0x2a && table[k + 3] == 0xc1 && table[k + 4] == 0x1f && table[k + 5] == 0xf8
            && table[k + 6] == 0xd2 && table[k + 7] == 0x11 {
        let k = choose|k: int|
            0 <= k <= table.len() - 8 && #[trigger] table[k] == 0x28 && table[k + 1] == 0x73
                && table[k + 2] == 0x2a && table[k + 3] == 0xc1 && table[k + 4] == 0x1f && table[k
                + 5] == 0xf8 && table[k + 6] == 0xd2 && table[k + 7] == 0x11;
        assert(table.subrange(k, k + 8) =~= esp_type());
    }
}

/// Where files live: what the definition or the environment names goes before what is assumed, each
/// instance has a directory of its own name, and its files are directly inside it.
pub proof fn state_lives_under_the_name(config: VmConfig, dirs: Directories, file: Seq<char>)
    requires
        file.len() > 0,
        file[0] != '/',
    ensures
        config.state_dir matches Some(d) ==> config.state_path(dirs) == d@,
        dirs.state matches Some(s) ==> dirs.state_base() == s@,
        dirs.state is None && dirs.home is None ==> dirs.state_base() == "/tmp"@,
        dirs.home matches Some(h) ==> (dirs.state is None && h@.len() > 0 && h@.last() != '/'
            ==> dirs.state_base() == h@ + "/.local/state"@),
        dirs.runtime matches Some(r) ==> dirs.runtime_base() == r@,
        dirs.runtime is None ==> dirs.runtime_base() == dirs.state_base(),
        config.state_dir is None && dirs.state_base().len() > 0 && dirs.state_base().last() != '/'
            && (config.name@.len() == 0 || config.name@[0] != '/') ==> config.state_path(dirs)
            == dirs.state_base() + "/wvm/"@ + config.name@,
        config.state_path(dirs).len() > 0 && config.state_path(dirs).last() != '/'
            ==> config.state_file(dirs, file) == config.state_path(dirs) + "/"@ + file,
{
    reveal_strlit("/");
    reveal_strlit("wvm");
    reveal_strlit("/wvm/");
    reveal_strlit(".local/state");
    reveal_strlit("/.local/state");
    if let Some(h) = dirs.home {
        assert(h@ + "/.local/state"@ =~= h@ + "/"@ + ".local/state"@);
    }
    let base = dirs.state_base();
    assert(base + "/wvm/"@ + config.name@ =~= base + "/"@ + "wvm"@ + "/"@ + config.name@);
    assert((base + "/"@ + "wvm"@).last() == 'm');
}

} // verus!
