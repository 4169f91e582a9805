//! The control socket's decisions.
use wvm::host::journal::Event;
use wvm::host::policy::Allowlist;
use wvm::host::server::{
    default_socket_path, describe, handle, hello_request, hello_result, malformed, op_name,
    payload_name, ServerConfig,
};
use wvm::host::vm::Directories;
use wvm::ipc::{
    Grant, Payload, Request, RequestKind, Response, TransferDirection, Verb, PROTOCOL_VERSION,
};

fn full_grant() -> Grant {
    Grant {
        subject: "test-agent".into(),
        verbs: vec![Verb::Inspect, Verb::Exec, Verb::Transfer],
        read_roots: vec!["/tmp/wvm-in".into()],
        write_roots: vec!["/tmp/wvm-out".into()],
        guest_root: "C:\\wvm".into(),
    }
}

fn config(grant: Grant) -> ServerConfig {
    ServerConfig {
        socket_path: "/tmp/wvm-test.sock".into(),
        grant,
        allowlist: Allowlist::default_for_windows(),
    }
}

/// One request, built within the grant and then served.
fn round_trip(grant: Grant, kind: RequestKind) -> Response {
    let request = Request::new(&grant, kind).expect("request within grant");
    handle(&config(grant), &request).reply
}

#[test]
fn inspect_succeeds_and_reports_no_guest_instead_of_faking_one() {
    let response = round_trip(full_grant(), RequestKind::Inspect);
    match response {
        Response::Success {
            payload: Payload::Inventory { os, drives, apps },
        } => {
            assert!(
                os.contains("host"),
                "must say the host answered, not a guest"
            );
            assert!(drives.is_empty(), "must not invent drives");
            assert!(apps.is_empty(), "must not invent applications");
        }
        other => panic!("expected Inventory, got {other:?}"),
    }
}

#[test]
fn a_granted_but_unimplemented_op_reports_no_guest() {
    let response = round_trip(full_grant(),
        RequestKind::Exec {
            program: "C:\\Windows\\System32\\cmd.exe".into(),
            args: vec![],
            cwd: None,
            require_allowlist: true,
            timeout_ms: None,
        },
    );
    match response {
        Response::Error { message } => assert!(
            message.contains("no guest channel"),
            "must name the real reason, said: {message}"
        ),
        other => panic!("expected Error, got {other:?}"),
    }
}

#[test]
fn exec_outside_the_allowlist_is_denied_at_the_socket() {
    let response = round_trip(full_grant(),
        RequestKind::Exec {
            program: "C:\\Users\\admin\\evil.exe".into(),
            args: vec![],
            cwd: None,
            require_allowlist: true,
            timeout_ms: None,
        },
    );
    match response {
        Response::Error { message } => {
            assert!(
                message.contains("denied"),
                "an unlisted program must be refused, said: {message}"
            );
            assert!(message.contains("exec"));
        }
        other => panic!("expected a denial, got {other:?}"),
    }
}

#[test]
fn transfer_outside_the_roots_is_denied() {
    let response = round_trip(full_grant(),
        RequestKind::Transfer {
            direction: TransferDirection::HostToGuest,
            host_path: Some("/etc/shadow".into()),
            guest_path: "C:\\wvm\\x".into(),
            overwrite: false,
        },
    );
    match response {
        Response::Error { message } => {
            assert!(message.contains("PathOutsideRoots"), "said: {message}");
        }
        other => panic!("expected a denial, got {other:?}"),
    }
}

#[test]
fn transfer_inside_the_roots_passes_policy_then_fails_on_the_missing_guest() {
    // Distinguishes "refused by policy" from "no guest yet": the two must not be confused.
    let response = round_trip(full_grant(),
        RequestKind::Transfer {
            direction: TransferDirection::HostToGuest,
            host_path: Some("/tmp/wvm-out/file.bin".into()),
            guest_path: "C:\\wvm\\file.bin".into(),
            overwrite: false,
        },
    );
    match response {
        Response::Error { message } => {
            assert!(
                message.contains("no guest channel"),
                "an authorised transfer must reach dispatch, said: {message}"
            );
            assert!(!message.contains("denied"), "must not be denied: {message}");
        }
        other => panic!("expected a no-guest error, got {other:?}"),
    }
}

#[test]
fn guest_path_traversal_is_denied() {
    let response = round_trip(full_grant(),
        RequestKind::Transfer {
            direction: TransferDirection::HostToGuest,
            host_path: Some("/tmp/wvm-out/x".into()),
            guest_path: "C:\\wvm\\..\\Windows\\System32\\config\\SAM".into(),
            overwrite: false,
        },
    );
    match response {
        Response::Error { message } => {
            assert!(message.contains("PathOutsideRoots"), "said: {message}");
        }
        other => panic!("expected a denial, got {other:?}"),
    }
}

#[test]
fn a_verb_outside_the_grant_is_denied() {
    // The agent may inspect but not execute. The construct of an Exec request must fail, and
    // if one reached the server by another route it must still be refused.
    let grant = Grant {
        subject: "read-only".into(),
        verbs: vec![Verb::Inspect],
        read_roots: vec![],
        write_roots: vec![],
        guest_root: String::new(),
    };

    // Construction refuses it.
    assert!(Request::new(
        &grant,
        RequestKind::Exec {
            program: "c:\\windows\\system32\\cmd.exe".into(),
            args: vec![],
            cwd: None,
            require_allowlist: false,
            timeout_ms: None,
        }
    )
    .is_err());

    // And the server refuses it even when the request is built by hand, bypassing `new`.
    let smuggled = Request::Exec {
        program: "c:\\windows\\system32\\cmd.exe".into(),
        args: vec![],
        cwd: None,
        require_allowlist: false,
        timeout_ms: None,
    };
    match handle(&config(grant), &smuggled).reply {
        Response::Error { message } => {
            assert!(message.contains("VerbNotGranted"), "said: {message}");
        }
        other => panic!("expected a denial, got {other:?}"),
    }
}

#[test]
fn the_journal_records_a_denial() {
    // This is the property the whole audit trail rests on: an attempted unauthorised action
    // must be recoverable from the journal even though it was refused.
    let served = handle(
        &config(full_grant()),
        &Request::Exec {
            program: "C:\\Users\\admin\\evil.exe".into(),
            args: vec![],
            cwd: None,
            require_allowlist: true,
            timeout_ms: None,
        },
    );
    assert!(matches!(served.reply, Response::Error { .. }));

    let denied: Vec<_> = served
        .events
        .iter()
        .filter(|e| matches!(e, Event::Denied { .. }))
        .collect();

    assert_eq!(denied.len(), 1, "exactly one denial must be recorded");
    match denied[0] {
        Event::Denied {
            subject,
            verb,
            reason,
        } => {
            assert_eq!(subject, "test-agent");
            assert_eq!(verb, "exec");
            assert!(
                reason.contains("ProgramNotAllowlisted"),
                "reason was {reason}"
            );
        }
        other => panic!("expected Denied, got {other:?}"),
    }

    // The attempt is also recorded, not just the refusal.
    assert!(
        served.events.iter().any(|e| matches!(e, Event::Request { .. })),
        "the request itself must be journalled"
    );
}

#[test]
fn a_malformed_frame_is_answered_not_ignored() {
    let served = malformed(&config(full_grant()), "expected value at line 1 column 1");
    match served.reply {
        Response::Error { message } => {
            assert!(message.contains("malformed"), "said: {message}");
        }
        other => panic!("expected Error, got {other:?}"),
    }
    // And it is on record as refused, with the reason.
    assert_eq!(
        served.events,
        vec![Event::Denied {
            subject: full_grant().subject,
            verb: "unknown".into(),
            reason: "malformed request: expected value at line 1 column 1".into(),
        }]
    );
}

#[test]
fn client_handshake_succeeds_with_matching_version() {
    let request = hello_request("integration-test");
    let served = handle(&config(full_grant()), &request);
    let guest = hello_result(served.reply).expect("handshake");
    assert!(guest.contains("no guest channel"), "guest was: {guest}");
}

#[test]
fn a_handshake_is_not_journalled_as_a_failure() {
    // An audit log that reports false errors on the happy path trains its readers to ignore it.
    let config = config(full_grant());
    let mut events = handle(&config, &hello_request("journal-test")).events;
    let inspect = Request::new(&full_grant(), RequestKind::Inspect).unwrap();
    events.extend(handle(&config, &inspect).events);

    // No completed record may claim a failure.
    let false_failures: Vec<_> = events
        .iter()
        .filter_map(|e| match e {
            Event::Completed {
                ok: false, detail, ..
            } => Some(detail.clone()),
            _ => None,
        })
        .collect();
    assert!(
        false_failures.is_empty(),
        "the happy path must not journal failures: {false_failures:?}"
    );

    // The real request is recorded as a success.
    assert!(
        events.iter().any(|e| matches!(
            e,
            Event::Completed { ok: true, verb, .. } if verb == "inspect"
        )),
        "the inspect request must be journalled as a success"
    );
}

#[test]
fn a_handshake_in_another_version_is_refused() {
    let request = Request::Hello { protocol_version: PROTOCOL_VERSION + 1, client: "t".into() };
    let reply = handle(&config(full_grant()), &request).reply;
    let err = hello_result(reply).expect_err("another version");
    assert!(err.contains("protocol"), "{err}");
}

#[test]
fn operations_and_payloads_have_names() {
    assert_eq!(op_name(&Request::Inspect), "inspect");
    assert_eq!(op_name(&Request::PullChunk { offset: 0, length: 0 }), "pull_chunk");
    assert_eq!(payload_name(&Payload::Empty), "none");
    let reply = Response::Error { message: "no".into() };
    assert!(describe(&reply).contains("no"));
}

#[test]
fn the_socket_lives_in_the_runtime_directory() {
    let dirs = Directories { runtime: Some("/run/u".into()), state: None, home: None };
    assert_eq!(default_socket_path(&dirs), "/run/u/wvm/control.sock");
    let development = ServerConfig::development(&dirs);
    assert_eq!(development.socket_path, "/run/u/wvm/control.sock");
    assert!(development.grant.permits(Verb::Exec));
}

#[test]
fn the_allowlist_applies_where_the_request_asks_for_it() {
    let unlisted = |require_allowlist: bool| Request::Exec {
        program: "C:\\tools\\build.exe".into(),
        args: vec![],
        cwd: None,
        require_allowlist,
        timeout_ms: None,
    };
    let asked = handle(&config(full_grant()), &unlisted(true)).reply;
    assert!(
        matches!(&asked, Response::Error { message } if message.contains("ProgramNotAllowlisted")),
        "got {asked:?}"
    );
    let free = handle(&config(full_grant()), &unlisted(false)).reply;
    assert!(
        matches!(&free, Response::Error { message } if message == "exec: no guest channel yet (M3 not started)"),
        "got {free:?}"
    );
}
