//! What the guest does with a request.
use wvm::guest::capture::Frame;
use wvm::guest::dispatch::{
    capture_reply, chunk_read_reply, chunk_written_reply, describe, ends_session, exec_reply,
    guest_description, handle, malformed_reply, open_reply, order, validate, Order,
};
use wvm::guest::fsio::{plan_from, Roots};
use wvm::guest::win32::{Execution, Outcome, DEFAULT_TIMEOUT_MS};
use wvm::ipc::{
    DisplayAction, InputEvent, LifecycleAction, Payload, Request, Response, TransferDirection,
    PROTOCOL_VERSION,
};

/// Handle a request with the default staging roots, as a build for a system other than Windows does.
fn handle_here(request: &Request) -> Response {
    handle(request, &Roots::default_staging())
}


#[test]
fn handshake_with_matching_version_is_ready() {
    let resp = handle_here(&Request::Hello {
        protocol_version: PROTOCOL_VERSION,
        client: "test".into(),
    });
    match resp {
        Response::Ready {
            protocol_version, ..
        } => assert_eq!(protocol_version, PROTOCOL_VERSION),
        other => panic!("expected Ready, got {other:?}"),
    }
}

#[test]
fn handshake_with_wrong_version_is_refused() {
    let resp = handle_here(&Request::Hello {
        protocol_version: PROTOCOL_VERSION + 1,
        client: "test".into(),
    });
    match resp {
        Response::Error { message } => assert!(message.contains("protocol mismatch")),
        other => panic!("expected Error, got {other:?}"),
    }
}

#[test]
fn inspect_returns_an_inventory() {
    match handle_here(&Request::Inspect) {
        Response::Success {
            payload: Payload::Inventory { .. },
        } => {}
        other => panic!("expected Inventory, got {other:?}"),
    }
}

#[test]
fn transfer_refuses_a_path_outside_the_staging_root() {
    // The property that matters most about transfer: the guest decides where bytes may land,
    // and refuses everything else. A transfer to an arbitrary path would be the host-`/`-as-`Z:`
    // mistake this project exists to avoid.
    //
    // Traversal is the specific case, because it is the one a naive `starts_with` check passes.
    let roots = Roots::default_staging();

    for escaped in [
        "../../Windows/System32/drivers/etc/hosts",
        r"C:\Windows\System32\config\SAM",
        r"..\..\..\Windows\win.ini",
    ] {
        let planned = plan_from(
            &TransferDirection::HostToGuest,
            &roots,
            escaped,
            "C:/staging/source.bin",
        );
        assert!(
            planned.is_err(),
            "'{escaped}' must be refused, not resolved into the staging root"
        );
    }

    // And a path INSIDE the root is accepted, so the check is not simply refusing everything —
    // a boundary that refuses all input is not a boundary, it is a wall, and it would pass the
    // loop above while making transfer useless.
    let ok = plan_from(
        &TransferDirection::HostToGuest,
        &roots,
        r"C:\ProgramData\wvm\staging\payload.bin",
        r"C:\ProgramData\wvm\staging-host\payload.bin",
    );
    assert!(
        ok.is_ok(),
        "a path inside the staging root must be allowed: {ok:?}"
    );
}

#[test]
fn transfer_on_a_host_build_refuses_rather_than_pretending() {
    // The filesystem layer is Windows-only. On a host build the honest answer is that the
    // platform half is absent — not an Ok with a fabricated byte count, and not the
    // "not implemented" stub message, which would imply the verb is unwritten.
    //
    // Both paths must be INSIDE the staging roots here, or the containment check refuses the
    // request first and this test never reaches the platform branch it is about. (The first
    // version of this test used an arbitrary host path and asserted the wrong thing failed —
    // which is itself evidence the containment check runs before anything else.)
    let roots = Roots::default_staging();

    let response = handle_here(&Request::Transfer {
        direction: TransferDirection::HostToGuest,
        host_path: Some(format!(r"{}\file.bin", roots.host)),
        guest_path: format!(r"{}\file.bin", roots.guest),
        overwrite: false,
    });

    match response {
        Response::Error { message } => {
            assert!(
                message.contains("Windows build"),
                "a host build must name the missing platform, said: {message}"
            );
            assert!(
                !message.contains("not implemented"),
                "transfer is implemented; the message must not claim otherwise"
            );
        }
        other => panic!("a host build must refuse, got {other:?}"),
    }
}

#[test]
fn unimplemented_operations_report_honestly() {
    // The critical property: a stub must never look like a success.
    //
    // `exec`, `capture` and `transfer` are not here: all three have real
    // implementations. On a host build their platform halves cannot run, and each reports that
    // explicitly rather than claiming to be unwritten; see the tests below.
    let cases = vec![
        Request::Input {
            event: InputEvent::MouseMove { x: 0, y: 0 },
        },
        Request::Lifecycle {
            action: LifecycleAction::Suspend,
        },
    ];

    for req in cases {
        match handle_here(&req) {
            Response::Error { message } => {
                assert!(
                    message.contains("not implemented"),
                    "unimplemented op must say so, said: {message}"
                );
            }
            other => panic!("a stub must not report success; got {other:?}"),
        }
    }
}

#[test]
fn exec_on_a_host_build_refuses_rather_than_pretending() {
    // `exec` has a real implementation, but its execution half exists only in a Windows
    // build. On the host it must say so — an error naming the platform, never an `Ok` with a
    // fabricated exit code, and never a `not implemented` message that would suggest the
    // feature is unwritten when it is merely unbuildable here.
    let req = Request::Exec {
        program: "c:/windows/system32/cmd.exe".into(),
        args: vec!["/c".into(), "echo".into(), "hi".into()],
        cwd: None,
        require_allowlist: true,
        timeout_ms: None,
    };

    match handle_here(&req) {
        Response::Error { message } => {
            assert!(
                message.contains("Win32 execution layer"),
                "the refusal must name what is missing: {message}"
            );
            assert!(
                !message.contains("not implemented"),
                "exec is implemented; only its platform half is absent here: {message}"
            );
        }
        other => panic!("a platform-absent exec must not report success; got {other:?}"),
    }
}

#[test]
fn capture_on_a_host_build_refuses_rather_than_returning_a_blank_image() {
    // A capture stub that returned a fabricated black PNG would be far worse than one that
    // refuses: it would look like a successful screenshot of a dark screen, and there is no
    // way to tell those apart from the caller's side.
    match handle_here(&Request::Capture { monitor: 0 }) {
        Response::Error { message } => {
            assert!(
                message.contains("Windows build"),
                "the refusal must name the platform: {message}"
            );
            assert!(
                !message.contains("not implemented"),
                "capture is implemented; only its platform half is absent here: {message}"
            );
        }
        other => panic!("a platform-absent capture must not report success; got {other:?}"),
    }
}

#[test]
fn validate_rejects_empty_program() {
    let req = Request::Exec {
        program: "   ".into(),
        args: vec![],
        cwd: None,
        require_allowlist: false,
        timeout_ms: None,
    };
    assert!(validate(&req).is_err());
}

#[test]
fn validate_rejects_empty_guest_path() {
    let req = Request::Transfer {
        direction: TransferDirection::GuestToHost,
        host_path: None,
        guest_path: String::new(),
        overwrite: false,
    };
    assert!(validate(&req).is_err());
}

#[test]
fn validate_accepts_well_formed_requests() {
    assert!(validate(&Request::Inspect).is_ok());
}

#[test]
fn exec_inside_windows_is_run_with_its_own_timeout_or_the_default() {
    let roots = Roots::default_staging();
    for (given, expected) in [(None, DEFAULT_TIMEOUT_MS), (Some(250), 250)] {
        let request = Request::Exec {
            program: "c:/windows/system32/cmd.exe".into(),
            args: vec!["/c".into()],
            cwd: Some("c:/".into()),
            require_allowlist: true,
            timeout_ms: given,
        };
        match order(&request, &roots, true) {
            Order::Run { program, args, cwd, timeout_ms } => {
                assert_eq!(program, "c:/windows/system32/cmd.exe");
                assert_eq!(args, vec!["/c".to_string()]);
                assert_eq!(cwd.as_deref(), Some("c:/"));
                assert_eq!(timeout_ms, expected);
            }
            other => panic!("expected a run, got {other:?}"),
        }
    }
}

#[test]
fn a_transfer_inside_windows_opens_a_contained_file() {
    let roots = Roots::default_staging();
    let request = Request::Transfer {
        direction: TransferDirection::HostToGuest,
        host_path: None,
        guest_path: r"C:\ProgramData\wvm\staging\a.bin".into(),
        overwrite: true,
    };
    match order(&request, &roots, true) {
        Order::Open(plan) => {
            assert_eq!(plan.guest_path, r"C:\ProgramData\wvm\staging\a.bin");
            assert!(plan.overwrite);
        }
        other => panic!("expected a plan, got {other:?}"),
    }
    let escaped = Request::Transfer {
        direction: TransferDirection::HostToGuest,
        host_path: None,
        guest_path: r"C:\ProgramData\wvm\staging\..\..\x".into(),
        overwrite: true,
    };
    match order(&escaped, &roots, true) {
        Order::Reply(Response::Error { message }) => assert!(message.contains("refusing")),
        other => panic!("expected a refusal, got {other:?}"),
    }
}

#[test]
fn a_chunk_is_decoded_before_it_is_written() {
    let roots = Roots::default_staging();
    let request = Request::TransferChunk { offset: 3, data_base64: "Zm9v".into(), eof: true };
    match order(&request, &roots, true) {
        Order::WriteChunk { offset, data, eof } => {
            assert_eq!((offset, data, eof), (3, b"foo".to_vec(), true));
        }
        other => panic!("expected a write, got {other:?}"),
    }
    let request = Request::PullChunk { offset: 7, length: 9 };
    match order(&request, &roots, true) {
        Order::ReadChunk { offset, length } => assert_eq!((offset, length), (7, 9)),
        other => panic!("expected a read, got {other:?}"),
    }
}

#[test]
fn display_is_refused_with_the_command_that_works() {
    match handle_here(&Request::Display { action: DisplayAction::Show }) {
        Response::Error { message } => {
            assert!(message.contains("wvm vm display show"), "{message}");
        }
        other => panic!("expected a refusal, got {other:?}"),
    }
}

#[test]
fn replies_carry_what_was_done() {
    let ran = Execution {
        outcome: Outcome::Exited { code: 3 },
        stdout: "out".into(),
        stderr: "err".into(),
        elapsed_ms: 12,
    };
    assert_eq!(
        exec_reply(Ok(ran)),
        Response::Success {
            payload: Payload::ProcessOutput {
                outcome: "exited".into(),
                code: 3,
                stdout: "out".into(),
                stderr: "err".into(),
                elapsed_ms: 12,
            }
        }
    );
    let frame = Frame { png: b"foo".to_vec(), width: 2, height: 1 };
    assert_eq!(
        capture_reply(Ok(frame)),
        Response::Success {
            payload: Payload::Frame { png_base64: "Zm9v".into(), width: 2, height: 1 }
        }
    );
    assert_eq!(
        chunk_written_reply(4, 2, false, Ok(6)),
        Response::Success {
            payload: Payload::ChunkWritten { offset: 4, bytes: 2, total: 6, eof: false }
        }
    );
    assert_eq!(
        chunk_read_reply(4, Ok((b"foo".to_vec(), true, 7))),
        Response::Success {
            payload: Payload::ChunkRead {
                offset: 4,
                data_base64: "Zm9v".into(),
                eof: true,
                total: 7,
            }
        }
    );
    let roots = Roots::default_staging();
    let plan = plan_from(
        &TransferDirection::GuestToHost,
        &roots,
        r"C:\ProgramData\wvm\staging\a.bin",
        "",
    )
    .expect("plan");
    assert_eq!(
        open_reply(&plan, Ok(9)),
        Response::Success {
            payload: Payload::Transferred {
                bytes: 9,
                direction: "guest_to_host".into(),
                guest_path: r"C:\ProgramData\wvm\staging\a.bin".into(),
            }
        }
    );
}

#[test]
fn failures_never_look_like_success() {
    let why = || "the disk is full".to_string();
    let roots = Roots::default_staging();
    let plan = plan_from(
        &TransferDirection::HostToGuest,
        &roots,
        r"C:\ProgramData\wvm\staging\a.bin",
        "",
    )
    .expect("plan");
    for reply in [
        exec_reply(Err(why())),
        capture_reply(Err(why())),
        open_reply(&plan, Err(why())),
        chunk_written_reply(0, 1, true, Err(why())),
        chunk_read_reply(0, Err(why())),
        malformed_reply("the disk is full"),
    ] {
        match reply {
            Response::Error { message } => assert!(message.contains("the disk is full")),
            other => panic!("expected an error, got {other:?}"),
        }
    }
}

#[test]
fn a_description_says_what_is_absent() {
    assert_eq!(describe(true), "Windows (wvm-guest 0.1.0)");
    assert_eq!(describe(false), guest_description());
    assert!(guest_description().contains("platform layer absent"));
}

#[test]
fn only_a_handshake_in_another_version_ends_the_session() {
    let hello = |protocol_version| Request::Hello { protocol_version, client: "t".into() };
    assert!(ends_session(&hello(PROTOCOL_VERSION + 1)));
    assert!(!ends_session(&hello(PROTOCOL_VERSION)));
    assert!(!ends_session(&Request::Inspect));
}
