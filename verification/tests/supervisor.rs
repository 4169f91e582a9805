//! VM state, preparation and the tail of a log.
use wvm::host::supervisor::{
    arguments_name, image_node, read_blocks, Block, Preparation, Process, Step, Supervisor,
    Surroundings, VmState,
};
use wvm::host::vm::{Directories, Firmware, VmConfig};

fn config(dir: &str) -> VmConfig {
    VmConfig {
        name: "test-vm".into(),
        disk: format!("{dir}/disk.qcow2"),
        disk_gib: 1,
        memory_mib: 1024,
        cpus: 1,
        install_iso: None,
        driver_iso: None,
        firmware: Firmware::Bios,
        guest_port: 48273,
        forward_port: 48274,
        state_dir: Some(dir.into()),
        no_reboot: false,
    }
}

/// Where the display sockets of these directories stand.
const DISPLAYS: &str = "/home/user/.local/state/wvm";

fn dirs() -> Directories {
    Directories { runtime: None, state: None, home: Some("/home/user".into()) }
}

fn process(entry: &str, comm: &str, args: &[&str]) -> Process {
    let mut cmdline = Vec::new();
    for a in args {
        cmdline.extend_from_slice(a.as_bytes());
        cmdline.push(0);
    }
    Process { entry: entry.into(), comm: comm.into(), cmdline }
}

#[test]
fn no_pid_file_means_stopped() {
    let s = Supervisor::new(config("/tmp/stopped"));
    assert_eq!(Supervisor::read_pid(None), None);
    let pid = s.running_pid(None, false, &[]);
    assert_eq!(Supervisor::state(pid, None), VmState::Stopped);
}

#[test]
fn a_stale_pid_file_naming_a_dead_process_means_stopped() {
    // The core trap: the file exists, so a naive check says "running".
    let s = Supervisor::new(config("/tmp/stale"));
    let recorded = Supervisor::read_pid(Some("4194303"));
    assert_eq!(recorded, Some(4194303));
    let pid = s.running_pid(recorded, false, &[]);
    assert_eq!(
        Supervisor::state(pid, None),
        VmState::Stopped,
        "a PID file whose process is gone must report Stopped, not Running"
    );
}

#[test]
fn a_pid_file_naming_this_live_process_is_not_reported_as_stopped() {
    let s = Supervisor::new(config("/tmp/live"));
    let recorded = Supervisor::read_pid(Some(" 4321\n"));
    match Supervisor::state(s.running_pid(recorded, true, &[]), None) {
        VmState::Unresponsive { pid } => assert_eq!(pid, 4321),
        other => panic!("expected Unresponsive, got {other:?}"),
    }
}

#[test]
fn unresponsive_is_reported_distinctly_from_stopped() {
    // "Running but not answering" and "not running" are different problems with different
    // fixes. Collapsing them is how a supervisor starts giving bad advice.
    let state = Supervisor::state(Some(77), None);
    assert!(state.is_running(), "a live PID counts as running");
    assert!(!matches!(state, VmState::Stopped));
    assert!(
        state.label().contains("unresponsive"),
        "label: {}",
        state.label()
    );
    assert_eq!(state.label(), "running but unresponsive (pid 77)");
    assert_eq!(VmState::Stopped.label(), "stopped");
}

#[test]
fn an_answering_vm_carries_qemus_own_status() {
    let reply = r#"{"return": {"status": "paused", "running": false}}"#;
    let state = Supervisor::state(Some(5), Some(reply));
    assert_eq!(state, VmState::Running { status: "paused".into() });
    assert_eq!(state.label(), "running (paused)");
    let odd = Supervisor::state(Some(5), Some(r#"{"return": {}}"#));
    assert_eq!(odd, VmState::Running { status: "unknown".into() });
    assert_eq!(
        Supervisor::observed(Some(5), true, Some("running".into())),
        VmState::Running { status: "running".into() }
    );
}

#[test]
fn a_running_vm_is_found_by_its_own_name() {
    let s = Supervisor::new(config("/tmp/found"));
    let qemu = "qemu-system-x86";
    let table = [
        process("self", qemu, &["qemu", "-name", "test-vm"]),
        process("10", "bash\n", &["bash", "-name", "test-vm"]),
        process("11", qemu, &["qemu", "-name", "other-vm"]),
        process("12", qemu, &["qemu", "-name test-vm"]),
        process("13", " qemu-system-x86\n", &["qemu", "-m", "1", "-name", "test-vm", "-x"]),
        process("14", qemu, &["qemu", "-name", "test-vm"]),
    ];
    assert_eq!(s.find_running_pid(&table), Some(13));
    assert_eq!(s.find_running_pid(&table[..4]), None);
    assert_eq!(s.running_pid(Some(3), true, &table), Some(3));
    assert_eq!(s.running_pid(Some(3), false, &table), Some(13));
    let args = vec!["-name".to_string(), "test-vm".to_string()];
    assert!(arguments_name(&args, "test-vm"));
    assert!(!arguments_name(&args, "test"));
    assert!(!arguments_name(&vec!["-name".to_string()], ""));
}

#[test]
fn a_name_that_is_not_utf8_is_compared_lossily() {
    let mut c = config("/tmp/lossy");
    c.name = "w\u{fffd}m".into();
    let s = Supervisor::new(c);
    let table = [Process {
        entry: "9".into(),
        comm: "qemu-system".into(),
        cmdline: b"-name\0w\xffm\0".to_vec(),
    }];
    assert_eq!(s.find_running_pid(&table), Some(9));
}

#[test]
fn prepare_creates_the_state_directory() {
    let s = Supervisor::new(config("/tmp/prepare"));
    let seen = Surroundings { disk_exists: true, installed: None, variables_exist: false };
    assert_eq!(
        s.prepare(&dirs(), seen),
        Preparation {
            steps: vec![
                Step::MakeDirectory { path: "/tmp/prepare".into() },
                Step::MakePrivateDirectory { path: DISPLAYS.into() },
            ],
            refused: None,
        }
    );
}

#[test]
fn the_display_socket_stands_in_a_private_directory() {
    let dirs = Directories {
        runtime: Some("/run/user/1000".into()),
        state: None,
        home: Some("/home/user".into()),
    };
    let s = Supervisor::new(config("/tmp/private"));
    let seen = Surroundings { disk_exists: true, installed: None, variables_exist: true };
    assert_eq!(
        s.prepare(&dirs, seen).steps[1],
        Step::MakePrivateDirectory { path: "/run/user/1000/wvm".into() }
    );
    assert_eq!(s.config().spice_socket(&dirs), "/run/user/1000/wvm/test-vm.spice.sock");
}

#[test]
fn prepare_creates_the_disk_directory_when_it_differs_from_the_state_dir() {
    // State holds runtime files, the disk is user data: the disk's directory has to be made too.
    let mut c = config("/tmp/state");
    c.disk = "/tmp/data/disk.qcow2".into();
    let s = Supervisor::new(c);
    let seen = Surroundings { disk_exists: false, installed: None, variables_exist: false };
    assert_eq!(
        s.prepare(&dirs(), seen).steps,
        vec![
            Step::MakeDirectory { path: "/tmp/state".into() },
            Step::MakePrivateDirectory { path: DISPLAYS.into() },
            Step::MakeDiskDirectory { disk: "/tmp/data/disk.qcow2".into() },
            Step::CreateDisk { disk: "/tmp/data/disk.qcow2".into(), size: "1G".into() },
        ]
    );
}

#[test]
fn a_uefi_vm_gets_a_variable_store_of_its_own() {
    let mut c = config("/tmp/uefi");
    c.firmware = Firmware::Uefi;
    let s = Supervisor::new(c);
    let seen = Surroundings {
        disk_exists: true,
        installed: Some(Firmware::Uefi),
        variables_exist: false,
    };
    assert_eq!(
        s.prepare(&dirs(), seen).steps[2],
        Step::CopyVariables {
            from: "/usr/share/OVMF/OVMF_VARS_4M.fd".into(),
            to: "/tmp/uefi/OVMF_VARS.fd".into(),
        }
    );
    let seen = Surroundings { variables_exist: true, ..seen };
    assert_eq!(s.prepare(&dirs(), seen).steps.len(), 2);
}

#[test]
fn a_disk_that_will_not_boot_is_refused() {
    let s = Supervisor::new(config("/tmp/mismatch"));
    let seen = Surroundings {
        disk_exists: true,
        installed: Some(Firmware::Uefi),
        variables_exist: false,
    };
    let p = s.prepare(&dirs(), seen);
    assert_eq!(p.steps.len(), 2);
    assert_eq!(
        p.refused.as_deref(),
        Some(
            "firmware mismatch: /tmp/mismatch/disk.qcow2 was installed under Uefi firmware but \
             the config says Bios.\n\
             The guest will not boot, and the firmware will not report why.\n\
             Fix: set `firmware = \"uefi\"` in the VM config, or reinstall under the other \
             firmware."
        )
    );
}

#[test]
fn start_refuses_when_already_running() {
    let s = Supervisor::new(config("/tmp/double-start"));
    let err = s
        .start(&VmState::Unresponsive { pid: 5 })
        .expect_err("must refuse a second start");
    assert!(
        err.to_string().contains("already"),
        "the error should say it is already running: {err}"
    );
    assert_eq!(err, "VM 'test-vm' is already running but unresponsive (pid 5)");
    assert_eq!(s.start(&VmState::Stopped), Ok(()));
    assert_eq!(s.config().name, "test-vm");
}

#[test]
fn waiting_ends_with_an_answer_or_the_deadline() {
    let running = VmState::Running { status: "running".into() };
    assert!(Supervisor::wait_until_responsive(&running, false));
    assert!(!Supervisor::wait_until_responsive(&VmState::Unresponsive { pid: 1 }, false));
    assert!(Supervisor::wait_until_responsive(&VmState::Stopped, true));
}

#[test]
fn a_shutdown_is_over_when_the_vm_is_gone() {
    let running = VmState::Running { status: "running".into() };
    assert_eq!(Supervisor::shutdown(&running, false, 120), None);
    assert_eq!(Supervisor::shutdown(&VmState::Stopped, false, 120), Some(Ok(())));
    assert_eq!(
        Supervisor::shutdown(&running, true, 120),
        Some(Err(
            "the guest did not shut down within 120s; it may be ignoring ACPI (use `wvm vm kill` \
             to force it)"
                .to_string()
        ))
    );
}

#[test]
fn serial_tail_reads_the_last_lines() {
    let log = "one\ntwo\nthree\nfour\n";
    assert_eq!(Supervisor::serial_tail(log, 2), "three\nfour");
    assert_eq!(Supervisor::serial_tail(log, 100), "one\ntwo\nthree\nfour");
    assert_eq!(Supervisor::serial_tail("a\r\nb\rc\n\nd\r", 9), "a\nb\rc\n\nd\r");
    assert_eq!(Supervisor::serial_tail(log, 0), "");
}

const BLOCKS: &str = r#"{"return": [
    {"device": "pflash0", "inserted": {"ro": false, "node-name": "pflash0-node"}},
    {"device": "cd0", "inserted": {"ro": true, "node-name": "cd0-node"}},
    {"device": "cd1", "inserted": null},
    {"device": "cd2"},
    {"inserted": {"ro": false}},
    {"device": "", "inserted": {"ro": false, "node-name": "disk0"}},
    {"device": "disk1", "inserted": {"node-name": "disk1-node"}}
]}"#;

#[test]
fn vm_state_goes_to_the_first_writable_disk() {
    assert_eq!(Supervisor::image_node_name(BLOCKS).as_deref(), Some("disk0"));
    let blocks = read_blocks(BLOCKS);
    assert_eq!(blocks.len(), 7);
    assert!(blocks[1].readonly && blocks[1].inserted);
    assert!(!blocks[2].inserted && !blocks[3].inserted);
    assert_eq!(blocks[6].node_name.as_deref(), Some("disk1-node"));
    assert_eq!(Supervisor::image_node_name(r#"{"return": {}}"#), None);
    assert_eq!(Supervisor::image_node_name("not json"), None);
    let unnamed = vec![Block {
        inserted: true,
        readonly: false,
        device: Some("ide0".into()),
        node_name: None,
    }];
    assert_eq!(image_node(&unnamed).as_deref(), Some("ide0"));
}

#[test]
fn a_suspend_names_the_node_it_saves_to() {
    assert_eq!(
        Supervisor::suspend(Some("disk0".into())),
        Ok(r#"{"devices":["disk0"],"job-id":"wvm-suspend","tag":"wvm-suspend","vmstate":"disk0"}"#
            .to_string())
    );
    let err = Supervisor::suspend(None).expect_err("nowhere to save to");
    assert!(err.starts_with("cannot suspend: no writable disk device found"));
}
