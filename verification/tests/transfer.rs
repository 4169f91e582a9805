//! Planning and executing a transfer.
use wvm::guest::transfer::{execute, plan, Direction, MemoryIo, Refusal};

const GUEST_ROOT: &str = "C:\\wvm";
const HOST_ROOT: &str = "/srv/wvm/in";

#[test]
fn a_transfer_inside_both_roots_is_planned() {
    let p = plan(
        Direction::HostToGuest,
        GUEST_ROOT,
        HOST_ROOT,
        "C:\\wvm\\file.txt",
        "/srv/wvm/in/file.txt",
    )
    .expect("should be permitted");
    assert_eq!(p.guest_path, "C:\\wvm\\file.txt");
    assert_eq!(p.direction, Direction::HostToGuest);
}

#[test]
fn a_guest_path_outside_its_root_is_refused() {
    let err = plan(
        Direction::HostToGuest,
        GUEST_ROOT,
        HOST_ROOT,
        "C:\\Windows\\System32\\evil.dll",
        "/srv/wvm/in/evil.dll",
    )
    .expect_err("must be refused");
    assert!(err.to_string().contains("refusing"));
}

#[test]
fn the_host_path_is_recorded_not_validated_by_the_guest() {
    // The guest must NOT check the host path. It cannot know what that path means: the name
    // refers to a file on a filesystem the guest has no view of, so any check here is about a
    // string rather than about the file.
    //
    // Checking it would refuse every honest push: the host's real path (`/tmp/...`) is never inside
    // the guest's idea of a host root (`C:\ProgramData\wvm\staging-host`, which does not exist
    // inside the guest). A correct-looking refusal that makes the verb useless.
    //
    // A host path outside any host root is therefore PLANNED. Whether it is permitted is the
    // host's decision, taken before the request is sent, and the host is the only party with the
    // information to take it.
    let ok = plan(
        Direction::GuestToHost,
        GUEST_ROOT,
        HOST_ROOT,
        "C:\\wvm\\file.txt",
        "/etc/passwd",
    )
    .expect("the guest must not reject a host path it cannot evaluate");
    assert_eq!(ok.host_path, "/etc/passwd");

    // A pull legitimately has NO host path, because the guest is the source and the host's
    // destination is on a filesystem the guest cannot see. This must be PLANNED, not refused.
    let pull = plan(
        Direction::GuestToHost,
        GUEST_ROOT,
        HOST_ROOT,
        "C:\\wvm\\file.txt",
        "",
    )
    .expect("a pull has no host path and must still plan");
    assert_eq!(pull.host_path, "");
}

#[test]
fn traversal_on_the_guest_side_is_refused() {
    let err = plan(
        Direction::HostToGuest,
        GUEST_ROOT,
        HOST_ROOT,
        "C:\\wvm\\..\\Windows\\System32\\config\\SAM",
        "/srv/wvm/in/sam",
    )
    .expect_err("must be refused");
    assert!(err.to_string().contains("refusing"));
}

#[test]
fn an_empty_guest_root_refuses_everything() {
    let err = plan(
        Direction::HostToGuest,
        "",
        HOST_ROOT,
        "C:\\wvm\\x",
        "/srv/wvm/in/x",
    )
    .expect_err("an empty root is not 'no restriction'");
    assert!(err.to_string().contains("no guest root"));
}

#[test]
fn an_empty_host_root_refuses_everything() {
    let err = plan(
        Direction::HostToGuest,
        GUEST_ROOT,
        "",
        "C:\\wvm\\x",
        "/srv/wvm/in/x",
    )
    .expect_err("an empty root is a refusal");
    assert!(err.to_string().contains("no host root"));
}

#[test]
fn overwrite_defaults_to_false() {
    let p = plan(
        Direction::HostToGuest,
        GUEST_ROOT,
        HOST_ROOT,
        "C:\\wvm\\f",
        "/srv/wvm/in/f",
    )
    .unwrap();
    assert!(!p.overwrite, "a plan must not clobber by default");
}

#[test]
fn a_full_host_to_guest_transfer_moves_the_bytes() {
    let mut io = MemoryIo::new().with_host_file("/srv/wvm/in/a.bin", b"hello");
    let p = plan(
        Direction::HostToGuest,
        GUEST_ROOT,
        HOST_ROOT,
        "C:\\wvm\\a.bin",
        "/srv/wvm/in/a.bin",
    )
    .unwrap();

    let n = execute(&mut io, &p).expect("transfer");
    assert_eq!(n, 5);
    assert_eq!(
        io.guest_contents("C:\\wvm\\a.bin").as_deref(),
        Some(&b"hello"[..])
    );
}

#[test]
fn a_full_guest_to_host_transfer_moves_the_bytes() {
    let mut io = MemoryIo::new().with_guest_file("C:\\wvm\\out.log", b"line\n");
    let p = plan(
        Direction::GuestToHost,
        GUEST_ROOT,
        HOST_ROOT,
        "C:\\wvm\\out.log",
        "/srv/wvm/in/out.log",
    )
    .unwrap();

    let n = execute(&mut io, &p).expect("transfer");
    assert_eq!(n, 5);
    assert_eq!(
        io.host_contents("/srv/wvm/in/out.log").as_deref(),
        Some(&b"line\n"[..])
    );
}

#[test]
fn an_existing_destination_is_refused_not_clobbered() {
    let mut io = MemoryIo::new()
        .with_host_file("/srv/wvm/in/a.bin", b"new")
        .with_guest_file("C:\\wvm\\a.bin", b"PRECIOUS");
    let p = plan(
        Direction::HostToGuest,
        GUEST_ROOT,
        HOST_ROOT,
        "C:\\wvm\\a.bin",
        "/srv/wvm/in/a.bin",
    )
    .unwrap();

    let err = execute(&mut io, &p).expect_err("must not clobber");
    assert!(err.to_string().contains("refusing to overwrite"));
    // The refusal must be the typed value, not a string the caller has to parse.
    let refusal = err.refusal();
    assert_eq!(
        refusal,
        Some(&Refusal::WouldOverwrite {
            side: "guest",
            path: "C:\\wvm\\a.bin".into()
        })
    );
    // The existing content must be untouched.
    assert_eq!(
        io.guest_contents("C:\\wvm\\a.bin").as_deref(),
        Some(&b"PRECIOUS"[..])
    );
}

#[test]
fn overwrite_when_explicitly_requested_does_replace() {
    let mut io = MemoryIo::new()
        .with_host_file("/srv/wvm/in/a.bin", b"new")
        .with_guest_file("C:\\wvm\\a.bin", b"old");
    let mut p = plan(
        Direction::HostToGuest,
        GUEST_ROOT,
        HOST_ROOT,
        "C:\\wvm\\a.bin",
        "/srv/wvm/in/a.bin",
    )
    .unwrap();
    p.overwrite = true;

    execute(&mut io, &p).expect("explicit overwrite should proceed");
    assert_eq!(
        io.guest_contents("C:\\wvm\\a.bin").as_deref(),
        Some(&b"new"[..])
    );
}

#[test]
fn a_missing_source_is_an_error_not_a_silent_empty_file() {
    let mut io = MemoryIo::new();
    let p = plan(
        Direction::HostToGuest,
        GUEST_ROOT,
        HOST_ROOT,
        "C:\\wvm\\missing.bin",
        "/srv/wvm/in/missing.bin",
    )
    .unwrap();

    assert!(execute(&mut io, &p).is_err());
    assert!(
        io.guest_contents("C:\\wvm\\missing.bin").is_none(),
        "a failed transfer must not leave an empty file behind"
    );
}

#[test]
fn the_plan_renders_readably_for_the_journal() {
    let p = plan(
        Direction::HostToGuest,
        GUEST_ROOT,
        HOST_ROOT,
        "C:\\wvm\\f",
        "/srv/wvm/in/f",
    )
    .unwrap();
    let text = p.to_string();
    assert!(text.contains("->"), "{text}");
    assert!(text.contains("C:\\wvm\\f"), "{text}");
}

#[test]
fn a_refusal_is_told_from_a_failure() {
    let mut io = MemoryIo::new();
    let p = plan(
        Direction::HostToGuest,
        GUEST_ROOT,
        HOST_ROOT,
        "C:\\wvm\\a",
        "/srv/wvm/in/a",
    )
    .unwrap();
    let err = execute(&mut io, &p).expect_err("no source");
    assert!(err.refusal().is_none(), "a missing source is a failure: {err:?}");
}

#[test]
fn a_read_that_fails_ends_the_transfer_with_its_error() {
    let mut p = plan(
        Direction::HostToGuest,
        GUEST_ROOT,
        HOST_ROOT,
        "C:\\wvm\\f",
        "/srv/wvm/in/f",
    )
    .expect("plan");
    p.overwrite = true;
    let mut io = MemoryIo::new().with_guest_file("C:\\wvm\\f", b"old");
    let err = execute(&mut io, &p).expect_err("the source is missing");
    assert_eq!(err.to_string(), "no such host file: /srv/wvm/in/f");
    assert_eq!(io.guest_contents("C:\\wvm\\f"), Some(b"old".to_vec()));
}
