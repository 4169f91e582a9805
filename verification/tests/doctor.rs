//! Host environment checks.
use wvm::host::doctor::{
    group_name_for_gid, total_memory, user_in_group, KvmDevice, Report, Run, Status,
};

const GROUPS: &str = "root:x:0:\nkvm:x:36:alice, bob\nusers:x:100:\nkvm:x:37:carol\n";

#[test]
fn a_report_without_failures_passes() {
    let mut r = Report::default();
    assert!(r.all_passed());
    assert_eq!(r.render(), "wvm doctor\n\n\npassed with 0 warning(s)\n");
    r.check_vsock(false);
    assert!(r.all_passed(), "a warning is not a failure");
    assert_eq!(
        r.render(),
        "wvm doctor\n\n  [warn] vhost-vsock            not present; the vsock transport will be \
         unavailable\n         -> Optional. The default TCP transport works without it.\n\n\
         passed with 1 warning(s)\n"
    );
    r.check_qemu(&Run::Missing);
    assert!(!r.all_passed());
    assert!(r.render().ends_with("\n1 check(s) failed, 1 warning(s)\n"));
    assert!(r.render().contains("  [FAIL] qemu                   qemu-system-x86_64 not found"));
}

#[test]
fn groups_are_found_by_number() {
    assert_eq!(group_name_for_gid(GROUPS, 36).as_deref(), Some("kvm"));
    assert_eq!(group_name_for_gid(GROUPS, 100).as_deref(), Some("users"));
    assert_eq!(group_name_for_gid(GROUPS, 5), None);
    assert_eq!(group_name_for_gid("broken\nkvm:x:36:\n", 36), None);
}

#[test]
fn members_are_those_of_the_first_line_of_the_group() {
    assert!(user_in_group(GROUPS, "kvm", "bob", 1000));
    assert!(!user_in_group(GROUPS, "kvm", "carol", 1000));
    assert!(!user_in_group(GROUPS, "kvm", "", 1000));
    assert!(!user_in_group(GROUPS, "nogroup", "bob", 1000));
    assert!(user_in_group("kvm:x:1\nkvm:x:1:bob\n", "kvm", "bob", 1000));
    // A primary group needs no list of members.
    assert!(user_in_group(GROUPS, "kvm", "mallory", 36));
    assert!(user_in_group(GROUPS, "kvm", "", 36));
    assert!(!user_in_group(GROUPS, "users", "mallory", 36));
}

fn kvm(refused: Option<&str>) -> KvmDevice {
    KvmDevice { mode: 0o20660, gid: 36, refused: refused.map(String::from) }
}

#[test]
fn access_to_the_device_is_explained() {
    let mut r = Report::default();
    r.check_kvm(Some(&kvm(None)), Some(GROUPS), "alice", 1000);
    r.check_kvm(Some(&kvm(None)), Some(GROUPS), "mallory", 1000);
    r.check_kvm(Some(&kvm(None)), None, "alice", 1000);
    r.check_kvm(Some(&kvm(Some("Permission denied"))), Some(GROUPS), "alice", 1000);
    r.check_kvm(None, Some(GROUPS), "alice", 1000);
    let details: Vec<&str> = r.checks.iter().map(|c| c.detail.as_str()).collect();
    assert_eq!(
        details,
        [
            "/dev/kvm openable, mode 660, in the 'kvm' group",
            "/dev/kvm openable, mode 660, via an ACL (not a member of 'kvm')",
            "/dev/kvm openable, mode 660, via an ACL (not a member of '36')",
            "/dev/kvm exists but is not openable: Permission denied",
            "/dev/kvm does not exist",
        ]
    );
    assert_eq!(
        r.checks[3].hint.as_deref(),
        Some(
            "Add yourself to the 'kvm' group: sudo usermod -aG kvm $USER  (then log out and back in)"
        )
    );
    assert_eq!(r.checks[4].name, "kvm device");
    assert_eq!(r.checks[4].status, Status::Fail);
}

#[test]
fn programs_are_checked_by_what_they_print() {
    let mut r = Report::default();
    r.check_qemu(&Run::Succeeded(b"QEMU emulator version 8.2\nCopyright\n".to_vec()));
    r.check_qemu(&Run::Succeeded(Vec::new()));
    r.check_qemu(&Run::Failed);
    assert_eq!(r.checks[0].detail, "QEMU emulator version 8.2");
    assert_eq!(r.checks[1].detail, "unknown");
    assert_eq!(r.checks[2].status, Status::Fail);

    let mut r = Report::default();
    r.check_rust_targets(&Run::Succeeded(b"x86_64-pc-windows-gnu\n".to_vec()), true);
    r.check_rust_targets(&Run::Succeeded(b"x86_64-unknown-linux-gnu\n".to_vec()), false);
    r.check_rust_targets(&Run::Failed, true);
    let statuses: Vec<Status> = r.checks.iter().map(|c| c.status).collect();
    assert_eq!(
        statuses,
        [Status::Pass, Status::Pass, Status::Warn, Status::Warn, Status::Warn, Status::Pass]
    );
    assert!(r.all_passed(), "building the guest service is optional");
}

#[test]
fn memory_is_read_and_judged() {
    let meminfo = "MemFree:  1 kB\nMemTotal:       16303008 kB\nMemTotal: 5 kB\n";
    assert_eq!(total_memory(meminfo), Some(16303008));
    assert_eq!(total_memory("MemTotal:\n"), None);
    assert_eq!(total_memory("MemFree: 1 kB\n"), None);
    let mut r = Report::default();
    r.check_resources(8 * 1024 * 1024, "8.0");
    r.check_resources(8 * 1024 * 1024 - 1, "8.0");
    assert_eq!(r.checks[0].status, Status::Pass);
    assert_eq!(r.checks[1].status, Status::Warn);
    assert_eq!(r.checks[1].detail, "8.0 GiB total");
}

#[test]
fn statuses_take_four_columns() {
    for s in [Status::Pass, Status::Warn, Status::Fail] {
        assert_eq!(s.label().len(), 4);
    }
}
