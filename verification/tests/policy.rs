//! The host's policy.
use wvm::guest::paths::{is_within_root, resolve_within};
use wvm::host::policy::{
    check_exec, check_guest_path, check_host_transfer, path_within_roots, Allowlist,
};
use wvm::ipc::{DenialReason, Grant, TransferDirection, Verb};


fn grant_with_roots() -> Grant {
    Grant {
        subject: "agent".into(),
        verbs: vec![Verb::Transfer, Verb::Exec],
        read_roots: vec!["/srv/wvm/in".into()],
        write_roots: vec!["/srv/wvm/out".into()],
        guest_root: "C:\\wvm".into(),
    }
}

#[test]
fn path_inside_root_is_permitted() {
    assert!(path_within_roots(
        "/srv/wvm/in/a.txt",
        &["/srv/wvm/in".into()]
    ));
}

#[test]
fn path_outside_root_is_refused() {
    assert!(!path_within_roots(
        "/etc/passwd",
        &["/srv/wvm/in".into()]
    ));
}

#[test]
fn traversal_out_of_root_is_refused() {
    // The naive prefix check would pass this. Resolution must not.
    assert!(!path_within_roots(
        "/srv/wvm/in/../../../etc/passwd",
        &["/srv/wvm/in".into()]
    ));
}

#[test]
fn sibling_with_shared_prefix_is_refused() {
    // "/srv/wvm/input" must not satisfy root "/srv/wvm/in" without a separator check.
    // Path::starts_with works on components, so this is the regression guard for that.
    assert!(!path_within_roots(
        "/srv/wvm/input/x",
        &["/srv/wvm/in".into()]
    ));
}

#[test]
fn empty_roots_permit_nothing() {
    assert!(!path_within_roots("/srv/wvm/in/a.txt", &[]));
}

#[test]
fn host_transfer_direction_uses_the_right_root() {
    let g = grant_with_roots();

    // Writing to the read root must fail: it is not a write root.
    let err = check_host_transfer(
        &g,
        TransferDirection::HostToGuest,
        "/srv/wvm/in/x",
    )
    .expect_err("write into read-only root must be refused");
    assert_eq!(err.reason, DenialReason::PathOutsideRoots);

    // Writing to the write root is fine.
    assert!(check_host_transfer(
        &g,
        TransferDirection::HostToGuest,
        "/srv/wvm/out/x"
    )
    .is_ok());
}

#[test]
fn host_transfer_with_no_roots_is_refused() {
    let mut g = grant_with_roots();
    g.write_roots.clear();
    let err = check_host_transfer(
        &g,
        TransferDirection::HostToGuest,
        "/srv/wvm/out/x",
    )
    .expect_err("no write root must be a refusal, not a pass");
    assert_eq!(err.reason, DenialReason::NoTransferRoot);
}

#[test]
fn guest_path_inside_root_is_permitted() {
    let g = grant_with_roots();
    assert!(check_guest_path(&g, "C:\\wvm\\file.txt").is_ok());
    assert!(check_guest_path(&g, "c:/wvm/sub/file.txt").is_ok());
}

#[test]
fn guest_path_traversal_is_refused() {
    let g = grant_with_roots();
    assert!(check_guest_path(&g, "C:\\wvm\\..\\Windows\\System32\\config").is_err());
}

#[test]
fn guest_path_sibling_with_shared_prefix_is_refused() {
    let g = grant_with_roots();
    // "C:\wvmdata" must not satisfy root "C:\wvm".
    assert!(check_guest_path(&g, "C:\\wvmdata\\x").is_err());
}

#[test]
fn guest_path_with_empty_root_permits_nothing() {
    let mut g = grant_with_roots();
    g.guest_root = String::new();
    assert!(check_guest_path(&g, "C:\\wvm\\x").is_err());
}

#[test]
fn allowlist_permits_only_listed_programs() {
    let a = Allowlist::default_for_windows();
    assert!(a.permits("C:\\Windows\\System32\\cmd.exe"));
    // Case-insensitive, because Windows paths are.
    assert!(a.permits("c:\\windows\\system32\\CMD.EXE"));
    assert!(!a.permits("C:\\Users\\admin\\Downloads\\payload.exe"));
}

#[test]
fn exec_outside_allowlist_is_refused() {
    let g = grant_with_roots();
    let a = Allowlist::default_for_windows();
    let err = check_exec(&g, "C:\\evil.exe", &a).expect_err("unlisted program must be refused");
    assert_eq!(err.reason, DenialReason::ProgramNotAllowlisted);
}

#[test]
fn denial_converts_to_the_wire_type() {
    let g = grant_with_roots();
    let a = Allowlist::default_for_windows();
    let err = check_exec(&g, "C:\\evil.exe", &a).unwrap_err();
    let wire = err.to_ipc();
    assert_eq!(wire.subject, "agent");
    assert_eq!(wire.verb, Verb::Exec);
}

#[test]
fn an_allowlist_of_ones_own_is_compared_without_case() {
    let a = Allowlist::new(&["C:\\Tools\\Build.EXE"]);
    assert!(!a.is_empty());
    assert!(a.permits("c:\\tools\\build.exe"));
    assert!(!a.permits("c:\\tools\\build"));
    assert!(Allowlist::new(&[]).is_empty());
    assert!(!Allowlist::new(&[]).permits(""));
}

#[test]
fn host_and_guest_decide_alike() {
    for root in ["C:\\wvm", "c:/WVM/staging", "C:\\wvm\\\\"] {
        let mut grant = grant_with_roots();
        grant.guest_root = root.to_string();
        for (path, accepted) in [
            ("C:\\wvm\\staging\\a.bin", true),
            ("c:/wvm/Staging", true),
            ("C:\\wvm\\staging\\.\\x\\..\\a", true),
            ("C:\\wvm\\staging\\..\\..\\Windows", false),
            ("C:\\wvmdata\\staging", false),
            ("D:\\wvm\\staging\\a", false),
            ("\\\\server\\wvm\\staging", false),
            ("/c:/wvm/staging/a", true),
            ("staging\\a", false),
            ("C:", false),
            ("", false),
            ("  ", false),
        ] {
            let host = check_guest_path(&grant, path).is_ok();
            let guest = resolve_within(root, path).is_ok();
            assert_eq!(host, accepted, "the host on {path} under {root}");
            assert_eq!(guest, accepted, "the guest on {path} under {root}");
        }
    }
}

#[test]
fn host_and_guest_decide_alike_for_every_root() {
    let roots = [
        "C:\\", "C:", "c:/", "C:wvm", "C:\\wvm\\..\\wvm", "\\\\server\\share", "//server/share/sub", "\\\\server",
        "\\wvm", "wvm", ".", "\\", "\\/\\", "", "  ", "\\\\",
    ];
    let paths = [
        "C:\\x", "C:x", "C:", "C:wvm\\x", "C:\\wvm\\x", "\\wvm\\x", "wvm/x", "C:\\..\\C:\\wvm\\x",
        "\\\\c:\\wvm\\x", "/\\C:/wvm/x", "\\\\server\\share\\a", "/\\server/share/sub/a",
        "\\\\server\\share\\..\\share\\a", "\\\\server\\other\\a", "", "  ", ".",
    ];
    for root in roots {
        let mut grant = grant_with_roots();
        grant.guest_root = root.to_string();
        for path in paths {
            assert_eq!(
                check_guest_path(&grant, path).is_ok(),
                is_within_root(root, path),
                "{path} under {root}"
            );
        }
    }
    let mut grant = grant_with_roots();
    grant.guest_root = "C:\\".into();
    assert!(check_guest_path(&grant, "C:\\x").is_ok(), "the whole drive is inside its root");
    assert!(check_guest_path(&grant, "D:\\x").is_err());
}

#[test]
fn a_guest_root_that_names_nothing_is_no_root() {
    for root in ["", "  ", "\\", "//", "\\/\\"] {
        let mut grant = grant_with_roots();
        grant.guest_root = root.to_string();
        let err = check_guest_path(&grant, "C:\\wvm\\x").unwrap_err();
        assert_eq!(err.reason, DenialReason::NoTransferRoot, "{root}");
    }
}

#[test]
fn guest_paths_are_decided_whatever_their_case_and_separators() {
    let grant = grant_with_roots();
    for path in ["C:\\wvm\\a", "c:/WVM/A", "C:/wvm\\A", "C:\\Windows", "//srv/Share/x"] {
        let spelling = path.replace('/', "\\").to_ascii_uppercase();
        assert_eq!(
            check_guest_path(&grant, path).is_ok(),
            check_guest_path(&grant, &spelling).is_ok(),
            "{path}"
        );
    }
}

#[test]
fn a_relative_root_holds_no_absolute_path() {
    assert!(!path_within_roots("/etc/passwd", &[".".into()]));
    assert!(!path_within_roots("/etc/passwd", &["".into()]));
    assert!(path_within_roots("a/b", &[".".into()]));
    assert!(path_within_roots("/etc/passwd", &["/".into()]));
}

#[test]
fn a_program_is_listed_in_either_case() {
    let a = Allowlist::new(&["C:\\Werkzeug\\Größe.exe"]);
    assert!(a.permits("c:\\WERKZEUG\\gRößE.EXE"));
    assert!(!a.permits("c:\\werkzeug\\grösse.exe"));
}
