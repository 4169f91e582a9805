//! Grants, requests and what they require.
use wvm::ipc::{
    base64_decode, base64_encode_for_test, DenialReason, DisplayAction, Grant, InputEvent,
    LifecycleAction, Request, RequestKind, TransferDirection, Verb,
};

fn full_grant() -> Grant {
    Grant {
        subject: "test".into(),
        verbs: vec![
            Verb::Inspect,
            Verb::Exec,
            Verb::Capture,
            Verb::Input,
            Verb::Transfer,
            Verb::Lifecycle,
            Verb::Display,
        ],
        read_roots: vec!["/srv/wvm/in".into()],
        write_roots: vec!["/srv/wvm/out".into()],
        guest_root: "C:\\wvm".into(),
    }
}

#[test]
fn deny_all_grant_permits_nothing() {
    let g = Grant::deny_all("nobody");
    for v in [
        Verb::Inspect,
        Verb::Exec,
        Verb::Capture,
        Verb::Input,
        Verb::Transfer,
        Verb::Lifecycle,
    ] {
        assert!(!g.permits(v), "{:?} should not be permitted", v);
    }
}

#[test]
fn request_beyond_grant_is_refused_at_construction() {
    let g = Grant::deny_all("nobody");
    let err = Request::new(
        &g,
        RequestKind::Exec {
            program: "cmd.exe".into(),
            args: vec![],
            cwd: None,
            require_allowlist: true,
            timeout_ms: None,
        },
    )
    .expect_err("deny_all must refuse Exec");
    assert_eq!(err.verb, Verb::Exec);
    assert_eq!(err.reason, DenialReason::VerbNotGranted);
}

#[test]
fn request_within_grant_is_built() {
    let g = full_grant();
    let r = Request::new(&g, RequestKind::Inspect).expect("inspect is granted");
    assert_eq!(r.required_verb(), Verb::Inspect);
}

#[test]
fn every_kind_maps_to_a_verb_and_back() {
    // Guards against a new variant being added without a verb mapping.
    let g = full_grant();
    let kinds = vec![
        RequestKind::Inspect,
        RequestKind::Exec {
            program: "a.exe".into(),
            args: vec![],
            cwd: None,
            require_allowlist: false,
            timeout_ms: None,
        },
        RequestKind::Capture { monitor: 0 },
        RequestKind::Input {
            event: InputEvent::MouseMove { x: 1, y: 2 },
        },
        RequestKind::Transfer {
            direction: TransferDirection::HostToGuest,
            host_path: None,
            guest_path: "x".into(),
            overwrite: false,
        },
        RequestKind::Lifecycle {
            action: LifecycleAction::Suspend,
        },
        RequestKind::Display {
            action: DisplayAction::Show,
        },
    ];
    // THIS LIST IS MAINTAINED BY HAND, so it is only as good as the person editing it. The
    // canary below deliberately encodes the number of Verb variants: adding a verb without
    // adding a kind here turns this test red, which is the only reason a missing entry gets
    // noticed. It has already been the case once that a variant was added and this list was
    // not, and the test passed while covering nothing.
    assert_eq!(
        kinds.len(),
        7,
        "one kind per Verb variant (inspect, exec, capture, input, transfer, lifecycle, \
display) — if you added a verb, add its kind to this list and bump this number"
    );
    for k in kinds {
        let verb = k.required_verb();
        let r = Request::new(&g, k).expect("granted");
        assert_eq!(r.required_verb(), verb);
    }
}

#[test]
fn denied_is_an_error_type() {
    let g = Grant::deny_all("nobody");
    let err = Request::new(&g, RequestKind::Capture { monitor: 0 }).unwrap_err();
    assert!(err.to_string().contains("capture"));
}

#[test]
fn a_display_request_says_what_it_is() {
    // The spelling is what a caller types and what a refusal quotes back; the verb is what the
    // capability check authorises against.
    assert_eq!(DisplayAction::Show.to_string(), "show");
    assert_eq!(DisplayAction::Hide.to_string(), "hide");
    assert_eq!(DisplayAction::Status.to_string(), "status");

    let kind = RequestKind::Display {
        action: DisplayAction::Show,
    };
    assert_eq!(kind.required_verb(), Verb::Display);
    let request = kind.into_request();
    assert_eq!(request.required_verb(), Verb::Display);
    assert!(matches!(
        request,
        Request::Display {
            action: DisplayAction::Show
        }
    ));
}

#[test]
fn chunk_requests_exercise_the_transfer_verb() {
    let push = Request::TransferChunk { offset: 0, data_base64: String::new(), eof: true };
    assert_eq!(push.required_verb(), Verb::Transfer);
    assert_eq!(Request::PullChunk { offset: 0, length: 1 }.required_verb(), Verb::Transfer);
}

#[test]
fn chunk_data_round_trips() {
    let data: Vec<u8> = (0..=255u8).collect();
    assert_eq!(base64_decode(&base64_encode_for_test(&data)), Ok(data));
    assert!(base64_decode("****").is_err());
}
