//! VM definitions and the command lines they stand for.
use wvm::host::shell::{quote, write_line};
use wvm::host::vm::{
    default_cpus, default_disk_gib, default_forward_port, default_guest_port, default_memory_mib,
    sockets_dir, partitioned, runtime_dir, Directories, Firmware, VmConfig,
};

fn dirs() -> Directories {
    Directories {
        runtime: Some("/run/user/1000".into()),
        state: None,
        home: Some("/home/user".into()),
    }
}

fn config() -> VmConfig {
    VmConfig {
        name: "w11".into(),
        disk: "/tmp/wvm-test/disk.qcow2".to_string(),
        disk_gib: 64,
        memory_mib: 4096,
        cpus: 4,
        install_iso: None,
        driver_iso: None,
        firmware: Firmware::Uefi,
        guest_port: 48273,
        forward_port: 48274,
        state_dir: Some("/tmp/wvm-test/state".to_string()),
        no_reboot: false,
    }
}

#[test]
fn a_valid_config_passes() {
    config().validate(false, false).expect("should be valid");
}

#[test]
fn empty_name_is_rejected() {
    let mut c = config();
    c.name = String::new();
    assert!(c.validate(false, false).is_err());
}

#[test]
fn zero_cpus_is_rejected() {
    let mut c = config();
    c.cpus = 0;
    assert!(c.validate(false, false).is_err());
}

#[test]
fn absurdly_small_memory_is_rejected_with_an_explanation() {
    let mut c = config();
    c.memory_mib = 256;
    let err = c.validate(false, false).expect_err("256 MiB must be refused");
    assert!(
        err.to_string().contains("Windows guest"),
        "the error should say why: {err}"
    );
}

#[test]
fn a_missing_install_iso_is_rejected() {
    let mut c = config();
    c.install_iso = Some("/nonexistent/tiny11.iso".to_string());
    let err = c.validate(false, false).expect_err("a missing ISO must be refused");
    assert!(err.to_string().contains("install_iso"));
}

#[test]
fn cmdline_uses_kvm_and_the_host_cpu() {
    let args = config().qemu_args(&dirs());
    let joined = args.join(" ");
    assert!(joined.contains("q35,accel=kvm"), "KVM must be requested");
    assert!(
        joined.contains("-cpu host"),
        "the host CPU model is required"
    );
}

#[test]
fn the_absolute_pointer_has_a_controller_to_attach_to() {
    // With `usb-tablet` and no USB controller QEMU refuses to start:
    //     -device usb-tablet: No 'usb-bus' bus found for device 'usb-tablet'
    // q35 provides no USB bus by default. The guest is then reported "running but unresponsive"
    // because QEMU creates the QMP socket before exiting, so the symptom is a QMP connection
    // refused rather than an obvious argument error.
    //
    // The device and its bus are one change. Asserting both, and the ORDER, because the
    // controller must be declared before the device that sits on it.
    let args = config().qemu_args(&dirs());
    let joined = args.join(" ");

    assert!(
        joined.contains("usb-tablet"),
        "the guest needs an absolute pointer: {joined}"
    );
    assert!(
        joined.contains("qemu-xhci"),
        "usb-tablet needs a USB controller on q35: {joined}"
    );

    let controller = args
        .iter()
        .position(|a| a.contains("qemu-xhci"))
        .expect("controller present");
    let tablet = args
        .iter()
        .position(|a| a.contains("usb-tablet"))
        .expect("tablet present");
    assert!(
        controller < tablet,
        "the controller must be declared before the device that sits on its bus"
    );

    assert!(
        joined.contains("bus=xhci0.0"),
        "usb-tablet must name the bus it attaches to: {joined}"
    );
}

#[test]
fn the_disk_has_a_named_block_node_so_snapshots_are_possible() {
    // A disk declared with `-drive file=...,id=disk0` gets an ANONYMOUS block node — QEMU
    // generates one like `#block172`. That works fine for booting and looks identical in every
    // other respect, but `snapshot-save` needs a node with an explicit name and refuses it:
    //
    //     No block device node 'disk0'          (passing the device id)
    //     vmstate block device '...' does not exist   (passing the generated name)
    //
    // The failure is invisible until someone tries to take a snapshot, which is the worst kind
    // of coupling. So the assertion is not "snapshot-save is called" — it is that the DISK IS
    // DECLARED in a way that makes snapshots possible at all.
    //
    // If someone simplifies this to a single `-drive` line to tidy up the argument list,
    // they are silently removing `lifecycle`.
    let args = config().qemu_args(&dirs());
    let joined = args.join(" ");

    assert!(
        joined.contains("node-name=disk0"),
        "the disk format node must be explicitly named or snapshots cannot target it: {joined}"
    );
    assert!(
        joined.contains("node-name=disk0.file"),
        "the protocol node must be named too, since the format node references it: {joined}"
    );
    assert!(
        joined.contains("driver=qcow2,file=disk0.file"),
        "the format node must be layered over the protocol node: {joined}"
    );
    assert!(
        !joined.contains("-drive file="),
        "`-drive` reintroduces an anonymous node and with it loses snapshots: {joined}"
    );
    assert!(
        joined.contains("virtio-blk-pci,drive=disk0"),
        "the device must still attach to the named node, or the guest has no disk at all: {joined}"
    );
}

#[test]
fn the_nic_works_without_a_guest_driver_install() {
    // virtio-net is faster but needs the NetKVM driver installing inside the guest before any
    // adapter exists. On a fresh install the guest enumerates NO network interface, so it cannot
    // reach the host even though the host forward is bound and listening — which looks like a
    // broken transport, not a missing driver.
    //
    // e1000e uses the Windows in-box driver. If someone changes this back to virtio-net for
    // throughput, they are reintroducing a guest that boots with no network.
    let joined = config().qemu_args(&dirs()).join(" ");
    assert!(
        joined.contains("e1000e,netdev=net0"),
        "the NIC must be one Windows drives out of the box: {joined}"
    );
    assert!(
        !joined.contains("virtio-net-pci"),
        "virtio-net needs a guest driver install and leaves the guest with no adapter: {joined}"
    );
}

#[test]
fn the_host_forward_binds_loopback_only() {
    // The control channel is for this host, not the network. A forward on 0.0.0.0 would
    // expose the guest's control port to the LAN.
    let joined = config().qemu_args(&dirs()).join(" ");
    assert!(
        joined.contains("hostfwd=tcp:127.0.0.1:"),
        "the forward must be bound to loopback: {joined}"
    );
}

#[test]
fn cmdline_is_headless() {
    // The plane must work with no display attached.
    let args = config().qemu_args(&dirs());
    let joined = args.join(" ");
    assert!(
        joined.contains("-display none"),
        "must not require a display"
    );
}

#[test]
fn the_display_server_is_a_unix_socket_and_never_a_tcp_port() {
    // The security property of the whole feature, asserted rather than trusted.
    //
    // `disable-ticketing=on` means this display server has NO authentication -- the socket is
    // the only barrier. On a TCP port that would publish a live Windows desktop to every
    // interface with nothing in front of it. So what is checked is the SHAPE of the argument,
    // not merely that "-spice" appears somewhere in the command line.
    let joined = config().qemu_args(&dirs()).join(" ");
    assert!(joined.contains("-spice"), "no display server at all: {joined}");
    assert!(joined.contains("unix=on"), "must bind a unix socket: {joined}");
    assert!(
        joined.contains("wvm/w11.spice.sock"),
        "the socket must live in the per-user runtime tree: {joined}"
    );
    assert!(!joined.contains("port="), "must not bind a TCP port: {joined}");
    assert!(
        !joined.contains("addr=0.0.0.0"),
        "must not bind all interfaces: {joined}"
    );
    // Headless has to survive alongside it: the server is added TO `-display none`, not
    // instead of it. Losing that would make the VM need a desktop session to start at all.
    assert!(joined.contains("-display none"), "headless was lost: {joined}");
}

#[test]
fn cmdline_forwards_only_loopback() {
    // The guest control channel must not be exposed beyond this host.
    let joined = config().qemu_args(&dirs()).join(" ");
    assert!(
        joined.contains("hostfwd=tcp:127.0.0.1:48274-:48273"),
        "the forward must bind loopback explicitly: {joined}"
    );
    assert!(
        !joined.contains("hostfwd=tcp::"),
        "must not bind all interfaces"
    );
}

#[test]
fn cmdline_pins_the_disk_to_virtio_blk() {
    let joined = config().qemu_args(&dirs()).join(" ");
    assert!(
        joined.contains("virtio-blk-pci"),
        "disk should be virtio-blk"
    );
    assert!(joined.contains("bootindex=1"), "the disk should boot first");
}

#[test]
fn the_driver_iso_is_never_bootable() {
    let mut c = config();
    c.driver_iso = Some("/tmp/wvm-test/virtio-win.iso".to_string());

    let joined = c.qemu_args(&dirs()).join(" ");
    assert!(joined.contains("id=cd1"), "the driver ISO must be attached");
    // The driver ISO appears with no bootindex, unlike the installer CD.
    let cd1_dev_index = joined.find("drive=cd1").expect("cd1 device");
    let following = &joined[cd1_dev_index..];
    let end = following.find(" -").unwrap_or(following.len());
    assert!(
        !following[..end].contains("bootindex"),
        "the driver ISO must not be bootable: {}",
        &following[..end]
    );
}

#[test]
fn discs_go_on_the_ahci_bus_not_virtio_scsi() {
    // The constraint is a circular dependency, not performance: Windows Setup has no
    // virtio-scsi driver at install time, so a driver disc on that controller is unreadable
    // to the Setup that needs it. Both discs must therefore be on AHCI, which Windows reads
    // out of the box.
    let mut c = config();
    c.install_iso = Some("/tmp/wvm-test/tiny11.iso".to_string());
    c.driver_iso = Some("/tmp/wvm-test/virtio-win.iso".to_string());

    let joined = c.qemu_args(&dirs()).join(" ");
    assert!(
        !joined.contains("virtio-scsi"),
        "the discs must not be on virtio-scsi: {joined}"
    );
    assert!(joined.contains("ide-cd,drive=cd0"), "{joined}");
    assert!(joined.contains("ide-cd,drive=cd1"), "{joined}");
}

#[test]
fn each_disc_gets_its_own_ide_port() {
    // q35 gives each IDE *unit* one device, so two discs on
    // the same unit fails with
    //   "Can't create IDE unit 1, bus supports only 1 units"
    // and — because QEMU creates the QMP socket before exiting — the failure presents as
    // "running but unresponsive" rather than as the error it is.
    //
    // Separate ports (ide.0, ide.1) are fine: the limit is per unit, not per bus.
    let mut c = config();
    c.install_iso = Some("/tmp/wvm-test/tiny11.iso".to_string());
    c.driver_iso = Some("/tmp/wvm-test/virtio-win.iso".to_string());

    let args = c.qemu_args(&dirs());
    let buses: Vec<&String> = args
        .iter()
        .filter(|a| a.starts_with("ide-cd,drive="))
        .collect();

    assert_eq!(buses.len(), 2, "both discs should be attached");

    let ports: Vec<&str> = buses
        .iter()
        .map(|d| d.split("bus=").nth(1).unwrap_or(""))
        .collect();
    assert_eq!(
        ports.len(),
        2,
        "each disc needs an explicit bus, or QEMU picks the same unit for both"
    );
    assert_ne!(
        ports[0], ports[1],
        "the two discs must be on different units: {ports:?}"
    );
}

#[test]
fn the_installer_stays_bootable_and_the_driver_disc_does_not() {
    let mut c = config();
    c.install_iso = Some("/tmp/wvm-test/tiny11.iso".to_string());
    c.driver_iso = Some("/tmp/wvm-test/virtio-win.iso".to_string());

    let joined = c.qemu_args(&dirs()).join(" ");
    assert!(
        joined.contains("ide-cd,drive=cd0,bus=ide.0,bootindex=2"),
        "the installer must be bootable: {joined}"
    );

    // The driver disc must carry no bootindex, or the guest could boot from a disc of drivers.
    let cd1 = joined.find("ide-cd,drive=cd1").expect("cd1 device");
    let end = joined[cd1..].find(" -").unwrap_or(joined.len() - cd1);
    assert!(
        !joined[cd1..cd1 + end].contains("bootindex"),
        "the driver disc must not be bootable: {}",
        &joined[cd1..cd1 + end]
    );
}

#[test]
fn a_disc_without_a_driver_disc_still_works() {
    // During installation only the first disc is present, and afterwards the reverse. Neither
    // should depend on the other's presence.
    let mut c = config();
    c.install_iso = Some("/tmp/wvm-test/tiny11.iso".to_string());

    let joined = c.qemu_args(&dirs()).join(" ");
    assert!(
        joined.contains("ide-cd,drive=cd0,bus=ide.0,bootindex=2"),
        "{joined}"
    );
    assert!(
        !joined.contains("drive=cd1"),
        "no driver disc configured: {joined}"
    );

    let mut c2 = config();
    c2.driver_iso = Some("/tmp/wvm-test/virtio-win.iso".to_string());
    let joined2 = c2.qemu_args(&dirs()).join(" ");
    assert!(joined2.contains("ide-cd,drive=cd1,bus=ide.1"), "{joined2}");
    assert!(!joined2.contains("drive=cd0"), "{joined2}");
}

#[test]
fn no_reboot_is_absent_by_default() {
    // Windows reboots several times during setup.
    // With `-no-reboot` present, QEMU exits instead of rebooting the guest, so the install
    // appeared to vanish mid-flight. The default must therefore be "let it reboot".
    let c = config();
    let joined = c.qemu_args(&dirs()).join(" ");
    assert!(
        !joined.contains("-no-reboot"),
        "a default VM must reboot when the guest asks: {joined}"
    );
}

#[test]
fn no_reboot_is_honoured_when_asked_for() {
    // The other half: a long-lived VM may want the opposite, so the flag must still work.
    let mut c = config();
    c.no_reboot = true;
    let joined = c.qemu_args(&dirs()).join(" ");
    assert!(
        joined.contains("-no-reboot"),
        "opting in must add the flag: {joined}"
    );
}

#[test]
fn cmdline_exposes_a_qmp_socket() {
    let joined = config().qemu_args(&dirs()).join(" ");
    assert!(
        joined.contains("-qmp unix:"),
        "lifecycle control is over QMP"
    );
}

#[test]
fn state_paths_are_inside_the_state_dir() {
    let c = config();
    let dir = c.state_dir(&dirs());
    assert!(c.pid_file(&dirs()).starts_with(&dir));
    assert!(c.qmp_socket(&dirs()).starts_with(&dir));
    assert!(c.serial_log(&dirs()).starts_with(&dir));
}

#[test]
fn cmdline_is_readable_before_running() {
    let line = config().qemu_cmdline(&dirs());
    assert!(line.starts_with("qemu-system-x86_64 "));
    assert!(line.contains("accel=kvm"));
}


#[test]
fn defaults_are_those_of_a_windows_guest() {
    assert_eq!(default_disk_gib(), 64);
    assert_eq!(default_memory_mib(), 4096);
    assert_eq!(default_cpus(), 4);
    assert_eq!(default_guest_port(), 48273);
    assert_eq!(default_forward_port(), 48274);
    assert_eq!(Firmware::default(), Firmware::Uefi);
}

#[test]
fn discs_that_exist_pass_validation() {
    let mut c = config();
    c.install_iso = Some("/iso/a.iso".to_string());
    c.driver_iso = Some("/iso/b.iso".to_string());
    assert_eq!(c.validate(true, true), Ok(()));
    let err = c.validate(true, false).expect_err("the driver disc is missing");
    assert!(err.contains("driver_iso"), "{err}");
}

#[test]
fn state_goes_below_the_state_directory_by_default() {
    let mut c = config();
    c.state_dir = None;
    assert_eq!(c.state_dir(&dirs()), "/home/user/.local/state/wvm/w11");
    assert_eq!(c.spice_socket(&dirs()), "/run/user/1000/wvm/w11.spice.sock");
    assert_eq!(runtime_dir(&dirs()), "/run/user/1000");
}

#[test]
fn an_installed_disk_tells_its_firmware() {
    let mut sector = vec![0u8; 512];
    assert!(!partitioned(&sector));
    sector[510] = 0x55;
    sector[511] = 0xaa;
    assert_eq!(VmConfig::detect_installed_firmware(None, None), None);
    let blank = vec![0u8; 512];
    assert_eq!(VmConfig::detect_installed_firmware(Some(&blank), None), None);
    let mut table = vec![0u8; 34 * 512];
    assert_eq!(VmConfig::detect_installed_firmware(Some(&blank), Some(&table)), None);
    assert_eq!(VmConfig::detect_installed_firmware(Some(&sector), Some(&table)), Some(Firmware::Bios));
    let system: [u8; 16] = [
        0x28, 0x73, 0x2a, 0xc1, 0x1f, 0xf8, 0xd2, 0x11, 0xba, 0x4b, 0x00, 0xa0, 0xc9, 0x3e, 0xc9,
        0x3b,
    ];
    table[512..528].copy_from_slice(&system);
    assert_eq!(VmConfig::detect_installed_firmware(Some(&sector), Some(&table)), Some(Firmware::Uefi));
    // A table that was not read whole says nothing.
    assert_eq!(VmConfig::detect_installed_firmware(Some(&sector), Some(&table[..4096])), None);
    assert_eq!(VmConfig::detect_installed_firmware(Some(&sector), None), None);
}

#[test]
fn display_sockets_stand_in_the_runtime_directory() {
    assert_eq!(sockets_dir(&dirs()), "/run/user/1000/wvm");
}

#[test]
fn the_displayed_command_line_is_safe_in_a_shell() {
    let mut c = config();
    c.name = "it's $HOME; w11".into();
    let line = c.qemu_cmdline(&dirs());
    assert!(line.starts_with(
        "qemu-system-x86_64 -name 'it'\\''s $HOME; w11' -machine 'q35,accel=kvm' -cpu host -smp 4 "
    ));
    assert_eq!(quote(""), "''");
    assert_eq!(quote("file:/state/serial.log"), "file:/state/serial.log");
    assert_eq!(quote("a b"), "'a b'");
    assert_eq!(quote("a,b"), "'a,b'");
    assert_eq!(write_line(&["echo".to_string(), "*".to_string()]), "echo '*'");
}

#[test]
fn a_name_with_a_separator_is_rejected_whatever_the_state_directory() {
    let mut c = config();
    c.name = "../x".into();
    c.state_dir = Some("/tmp/state".into());
    assert_eq!(
        c.validate(false, false),
        Err("vm.name must not contain a path separator: it names the display socket".to_string())
    );
    c.state_dir = None;
    assert_eq!(
        c.validate(false, false),
        Err("vm.name must not contain a path separator when state_dir is unset".to_string())
    );
}
