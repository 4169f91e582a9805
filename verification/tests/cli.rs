//! The host's command line.
use wvm::framing::FrameError;
use wvm::host::cli::{check_geometry, parse_geometry, parse_verb, parse_verbs};
use wvm::host::guestclient::{
    aftermath, answering, asks_again, liveness_request, unanswered, unconnected, Aftermath,
};
use wvm::ipc::{Request, Response, Verb, PROTOCOL_VERSION};

#[test]
fn geometries_are_two_numbers() {
    assert_eq!(parse_geometry("1024x768"), Ok((1024, 768)));
    assert_eq!(parse_geometry(" 1 X +2 "), Ok((1, 2)));
    let err = |s: &str| parse_geometry(s).expect_err("must refuse");
    assert_eq!(err("1024"), "expected WIDTHxHEIGHT, got \"1024\"");
    assert_eq!(err("x5"), "bad width in \"x5\": cannot parse integer from empty string");
    assert_eq!(err("+x5"), "bad width in \"+x5\": invalid digit found in string");
    assert_eq!(err("-1x5"), "bad width in \"-1x5\": invalid digit found in string");
    assert_eq!(err("5x1x2"), "bad height in \"5x1x2\": invalid digit found in string");
    assert_eq!(
        err("4294967296x1"),
        "bad width in \"4294967296x1\": number too large to fit in target type"
    );
    assert_eq!(parse_geometry("4294967295x0"), Ok((4294967295, 0)));
}

#[test]
fn number_errors_are_those_of_the_standard_parser() {
    for s in ["", "+", "-", "++1", "12a", "99999999999a", "9999999a99999", "4294967295", "0004"] {
        let spec = format!("{s}x1");
        match (parse_geometry(&spec), s.parse::<u32>()) {
            (Ok((w, 1)), Ok(n)) => assert_eq!(w, n),
            (Err(e), Err(p)) => assert_eq!(e, format!("bad width in {spec:?}: {p}")),
            other => panic!("{s}: {other:?}"),
        }
    }
}

#[test]
fn a_capture_of_the_wrong_size_is_refused() {
    assert_eq!(check_geometry(1024, 768, "1024x768"), Ok(()));
    let err = check_geometry(640, 480, "1024x768").expect_err("another size");
    assert!(err.starts_with("the capture is 640x480 but 1024x768 was expected. \n"), "{err}");
    assert!(check_geometry(640, 480, "big").is_err());
}

#[test]
fn unknown_verbs_are_reported_not_dropped() {
    assert_eq!(parse_verb(" exec "), Ok(Verb::Exec));
    assert_eq!(parse_verb("fly"), Err("wvm: unknown verb 'fly' — ignoring".to_string()));
    let (verbs, notes) = parse_verbs("inspect, capture,fly,input,transfer,lifecycle,");
    assert_eq!(
        verbs,
        [Verb::Inspect, Verb::Capture, Verb::Input, Verb::Transfer, Verb::Lifecycle]
    );
    assert_eq!(
        notes,
        ["wvm: unknown verb 'fly' — ignoring", "wvm: unknown verb '' — ignoring"]
    );
}

#[test]
fn a_guest_is_asked_whether_it_is_there() {
    match liveness_request() {
        Request::Hello { protocol_version, client } => {
            assert_eq!(protocol_version, PROTOCOL_VERSION);
            assert_eq!(client, "wvm-liveness");
        }
        other => panic!("expected Hello, got {other:?}"),
    }
    assert!(answering(&Response::Ready { protocol_version: 1, guest: "w".into() }));
    assert!(!answering(&Response::Error { message: "no".into() }));
    assert!(!asks_again(false, 0));
    assert!(asks_again(true, 239_999_999_999));
    assert!(!asks_again(true, 240_000_000_000));
    assert_eq!(aftermath(false, 300_000_000_000), Aftermath::Unclaimed);
    assert_eq!(aftermath(true, 240_000_000_000), Aftermath::Silent);
    assert_eq!(aftermath(true, 20_000_000_001), Aftermath::Thawed);
    assert_eq!(aftermath(true, 20_000_000_000), Aftermath::Answering);
}

#[test]
fn a_silent_guest_is_not_a_failed_connection() {
    let text = unanswered(&FrameError::Closed);
    assert!(text.starts_with("the guest accepted the connection but did not answer: "));
    assert_eq!(
        unconnected("127.0.0.1:1"),
        "connecting to the guest control channel at 127.0.0.1:1"
    );
}
