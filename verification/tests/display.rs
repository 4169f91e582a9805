//! The display and its viewers.
use wvm::host::display::{
    describe, readers_of_us, show, socket_path, viewer_count, viewer_missing, Entry,
};
use wvm::host::vm::{Directories, Firmware, VmConfig};

const SOCKET: &str = "/run/u/wvm/w11.spice.sock";

fn entry(name: &str, cmdline: &str) -> Entry {
    Entry { name: name.into(), cmdline: cmdline.as_bytes().to_vec() }
}

#[test]
fn viewers_are_told_by_the_socket_and_the_program() {
    let table = [
        entry("self", "remote-viewer\0spice+unix:///run/u/wvm/w11.spice.sock\0"),
        entry("10", "remote-viewer\0spice+unix:///run/u/wvm/w11.spice.sock\0"),
        entry("11", "qemu\0-spice\0unix=on,addr=/run/u/wvm/w11.spice.sock\0"),
        entry("12", "remote-viewer\0spice+unix:///run/u/wvm/other.spice.sock\0"),
        entry("13", "/usr/bin/remote-viewer\0spice+unix:///run/u/wvm/w11.spice.sock\0"),
    ];
    assert_eq!(readers_of_us(&table, SOCKET), vec![10, 13]);

    let config = VmConfig {
        name: "w11".into(),
        disk: "/d".into(),
        disk_gib: 1,
        memory_mib: 4096,
        cpus: 1,
        install_iso: None,
        driver_iso: None,
        firmware: Firmware::Uefi,
        guest_port: 1,
        forward_port: 2,
        state_dir: None,
        no_reboot: false,
    };
    let dirs = Directories { runtime: Some("/run/u".into()), state: None, home: None };
    assert_eq!(socket_path(&config, &dirs), SOCKET);
    assert_eq!(viewer_count(&config, &dirs, &table), 2);
    assert_eq!(viewer_count(&config, &dirs, &table[..1]), 0);
}

#[test]
fn the_display_is_summed_up_from_what_was_measured() {
    assert_eq!(
        describe(SOCKET, false, false, 0),
        "no display server: the socket does not exist (is the VM running?)"
    );
    assert!(describe(SOCKET, true, false, 0).contains("stale socket"));
    let on = "display available on /run/u/wvm/w11.spice.sock; ";
    assert_eq!(describe(SOCKET, true, true, 0), format!("{on}no viewer attached"));
    assert_eq!(describe(SOCKET, true, true, 1), format!("{on}1 viewer attached"));
    assert_eq!(describe(SOCKET, true, true, 12), format!("{on}12 viewers attached"));
}

#[test]
fn a_second_viewer_is_not_started() {
    assert_eq!(show(SOCKET, true, 0), Ok(format!("spice+unix://{SOCKET}")));
    assert!(show(SOCKET, false, 0).expect_err("no server").contains("no display server"));
    assert!(show(SOCKET, true, 1).expect_err("attached").contains("already attached"));
    assert!(viewer_missing().contains("virt-viewer"));
}
