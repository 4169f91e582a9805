//! What the commands on a VM say.
use wvm::host::capabilities::{capabilities, render_table};
use wvm::host::guestclient::{aftermath, Aftermath};
use wvm::host::lifecycle::Snapshot;
use wvm::host::pull::Pulled;
use wvm::host::push::Pushed;
use wvm::host::report::{
    after_restore, after_save, crowding, hidden, pulled, pushed, require_running, responsiveness,
    snapshot_listing, status, validation, Purpose, Unresponsive,
};
use wvm::host::supervisor::VmState;
use wvm::host::vm::{Directories, Firmware, VmConfig};

fn config() -> VmConfig {
    VmConfig {
        name: "w11".into(),
        disk: "/data/w11.qcow2".into(),
        disk_gib: 64,
        memory_mib: 8192,
        cpus: 4,
        install_iso: None,
        driver_iso: None,
        firmware: Firmware::Uefi,
        guest_port: 48273,
        forward_port: 48274,
        state_dir: Some("/state".into()),
        no_reboot: false,
    }
}

fn dirs() -> Directories {
    Directories { runtime: None, state: None, home: None }
}

#[test]
fn a_stopped_vm_is_refused_for_every_purpose() {
    for (purpose, why) in [
        (
            Purpose::Transfer,
            "the VM is not running, so there is nothing to transfer to. \
             Start it with `wvm vm start`",
        ),
        (
            Purpose::Snapshot,
            "the VM is not running, so there is no machine state to work with. \
             A snapshot captures RAM as well as disk, and RAM only exists while the guest \
             is up. Start it with `wvm vm start`",
        ),
        (
            Purpose::Capture,
            "the VM is not running, so there is nothing to capture. \
             Start it with `wvm vm start`",
        ),
        (
            Purpose::Input,
            "the VM is not running, so there is nothing to send input to. \
             Start it with `wvm vm start`",
        ),
    ] {
        assert_eq!(require_running(&VmState::Stopped, purpose), Err(why.to_string()));
        assert_eq!(require_running(&VmState::Unresponsive { pid: 7 }, purpose), Ok(()));
        assert_eq!(
            require_running(&VmState::Running { status: "running".into() }, purpose),
            Ok(())
        );
    }
}

#[test]
fn a_valid_definition_is_spelled_out() {
    let said = validation("wvm.toml", &config(), &dirs(), false);
    let expected = [
        "wvm.toml is valid",
        "  name        w11",
        "  disk        /data/w11.qcow2 (64 GiB)",
        "  disk exists no — `wvm vm prepare` will create it",
        "  memory      8192 MiB",
        "  cpus        4",
        "  firmware    Uefi",
        "  install iso none",
        "  driver iso  none — Windows will not see a virtio disk without it",
        "  state dir   /state",
        "  forwards    127.0.0.1:48274 -> guest:48273",
    ];
    assert_eq!(said, expected.join("\n"));

    let mut c = config();
    c.install_iso = Some("/iso/w11.iso".into());
    c.driver_iso = Some("/iso/virtio.iso".into());
    c.firmware = Firmware::Bios;
    let said = validation("wvm.toml", &c, &dirs(), true);
    assert!(said.contains("  disk exists yes\n"));
    assert!(said.contains("  firmware    Bios\n"));
    assert!(said.contains("  install iso /iso/w11.iso\n"));
    assert!(said.contains("  driver iso  /iso/virtio.iso\n"));
}

#[test]
fn a_status_says_how_it_was_determined() {
    assert_eq!(
        status(&VmState::Unresponsive { pid: 42 }, &config(), &dirs(), true, false),
        "running but unresponsive (pid 42)\n  pid file    /state/qemu.pid (present)\n  qmp socket  \
         /state/qmp.sock (absent)"
    );
}

#[test]
fn a_start_is_a_success_only_when_qemu_answers() {
    let running = VmState::Running { status: "running".into() };
    assert_eq!(
        responsiveness(&running, 60, &config(), &dirs()),
        Ok("responsive: running".to_string())
    );
    assert_eq!(
        responsiveness(&VmState::Stopped, 60, &config(), &dirs()),
        Err(Unresponsive {
            warning: "warning: QEMU is stopped. Check the serial log with `wvm vm log` and \
                      /state/qemu.log"
                .into(),
            failure: "the VM did not become responsive within 60s".into(),
        })
    );
}

#[test]
fn transfers_say_what_they_moved() {
    let p = Pushed { bytes: 300_000, chunks: 2, guest_path: "C:\\wvm\\a".into() };
    assert_eq!(
        pushed(&p, "1.0 ms total, 9 KiB/s effective", true),
        "pushed 300000 bytes in 2 chunk(s) to C:\\wvm\\a\n  1.0 ms total, 9 KiB/s effective"
    );
    assert!(pushed(&p, "", false)
        .ends_with("\n  (an existing file at the destination would have been refused)"));
    let p = Pulled { bytes: 5, chunks: 1, host_path: "/tmp/a".into() };
    assert_eq!(
        pulled(&p, "C:\\wvm\\a", "2.0 ms total, 1 KiB/s effective"),
        "pulled 5 bytes in 1 chunk(s) from C:\\wvm\\a\n  written to /tmp/a\n  2.0 ms total, 1 \
         KiB/s effective"
    );
}

#[test]
fn a_crowded_disk_is_noted_before_a_save() {
    assert_eq!(crowding(2), None);
    let note = crowding(3).expect("three are many");
    assert!(note.starts_with("  note: this disk already holds 3 snapshots. Saves get slower"));
    assert!(note.ends_with("`wvm vm snapshot delete <tag>` reclaims one."));
}

#[test]
fn snapshots_are_listed_in_columns() {
    assert_eq!(snapshot_listing(&vec![], &vec![]), "no snapshots on this disk");
    let snapshots = vec![
        Snapshot { id: "--".into(), tag: "proof".into(), vm_size_bytes: 1 },
        Snapshot { id: "2".into(), tag: "a-tag-longer-than-its-column".into(), vm_size_bytes: 2 },
    ];
    let sizes = vec!["3.37 GiB".to_string(), "2 B".to_string()];
    let expected = format!(
        "snapshots on this disk:\n  {:<20} {:>10}   (id {})\n  {:<20} {:>10}   (id {})",
        "proof", "3.37 GiB", "--", "a-tag-longer-than-its-column", "2 B", "2"
    );
    assert_eq!(snapshot_listing(&snapshots, &sizes), expected);
}

#[test]
fn a_guest_that_fell_silent_is_a_failure() {
    let second: u128 = 1_000_000_000;
    assert_eq!(aftermath(false, 500 * second), Aftermath::Unclaimed);
    assert_eq!(aftermath(true, 20 * second), Aftermath::Answering);
    assert_eq!(aftermath(true, 20 * second + 1), Aftermath::Thawed);
    assert_eq!(aftermath(true, 240 * second), Aftermath::Silent);

    assert_eq!(after_save(Aftermath::Unclaimed, "1"), Ok(None));
    assert_eq!(after_save(Aftermath::Answering, "1"), Ok(None));
    assert_eq!(
        after_save(Aftermath::Thawed, "57"),
        Ok(Some("  guest answering again after 57s — that was the freeze ending".to_string()))
    );
    assert!(after_save(Aftermath::Silent, "240")
        .unwrap_err()
        .starts_with("the snapshot was written, BUT THE GUEST HAS NOT ANSWERED IN 240 SECONDS."));

    assert!(after_restore(Aftermath::Unclaimed, "0").unwrap().contains("no claim is made"));
    assert_eq!(
        after_restore(Aftermath::Answering, "3"),
        Ok("  guest is running again (3s) and anything written since the snapshot is gone".into())
    );
    assert!(after_restore(Aftermath::Silent, "240")
        .unwrap_err()
        .contains("C:\\Windows\\Minidump"));
}

#[test]
fn closed_viewers_are_counted() {
    assert_eq!(hidden(0), "  no viewer attached; nothing to close");
    assert_eq!(hidden(2), "  closed 2 viewer(s). The VM is untouched.");
}

#[test]
fn the_table_has_a_line_for_every_verb() {
    let all = capabilities();
    let table = render_table();
    let lines: Vec<&str> = table.split('\n').collect();
    assert_eq!(lines.len(), all.len());
    for (line, c) in lines.iter().zip(&all) {
        assert_eq!(*line, format!("{:10} {:6}  {}", c.op, c.runs_on, c.summary));
    }
}
