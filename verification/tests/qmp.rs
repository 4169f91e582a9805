//! The QEMU Machine Protocol.
use wvm::host::input::{translate, KeyEvent};
use wvm::host::qmp::{check_greeting, check_line, classify, event_in, Message, Qmp, Read};

const GREETING: &str = r#"{"QMP": {"version": {}, "capabilities": []}}"#;

#[test]
fn a_conversation_begins_with_a_greeting() {
    assert!(Qmp::connect(GREETING).is_ok());
    assert_eq!(
        Qmp::connect("\n").expect_err("blank"),
        "QMP closed the connection"
    );
    assert_eq!(
        Qmp::connect("nonsense").expect_err("not JSON"),
        "parsing a QMP message: nonsense"
    );
    assert_eq!(
        Qmp::connect(r#"{ "hello" : 1 }"#).expect_err("no greeting"),
        r#"unexpected QMP greeting: {"hello":1}"#
    );
    assert!(check_line("{}", &Some("{}".into())).is_ok());
    assert!(check_greeting("{}", &Some("{}".into()), &None).is_err());
}

#[test]
fn commands_are_one_line_each() {
    assert_eq!(Qmp::execute("query-status", None), "{\"execute\":\"query-status\"}\n");
    assert_eq!(
        Qmp::execute("x", Some(r#"{"a":1}"#)),
        "{\"arguments\":{\"a\":1},\"execute\":\"x\"}\n"
    );
    assert_eq!(
        Qmp::screendump("/tmp/a \"b\"\u{7}\u{1f}\\\n.ppm", None),
        r#"{"filename":"/tmp/a \"b\"\u0007\u001f\\\n.ppm"}"#
    );
    assert_eq!(
        Qmp::screendump("/tmp/é.png", Some("png")),
        r#"{"filename":"/tmp/é.png","format":"png"}"#
    );
}

#[test]
fn events_are_kept_while_a_reply_is_awaited() {
    let mut qmp = Qmp::connect(GREETING).expect("greeting");
    let first = r#"{"event": "STOP"}"#.to_string();
    let second = r#"{"event": "RESUME"}"#.to_string();
    assert_eq!(qmp.received("stop", first.clone()), Ok(None));
    assert_eq!(qmp.received("stop", second.clone()), Ok(None));
    let reply = r#"{"return": {}}"#.to_string();
    assert_eq!(qmp.received("stop", reply.clone()), Ok(Some(reply)));
    assert_eq!(
        qmp.received("stop", r#"{"error": {"class": "GenericError", "desc": "no"}}"#.into()),
        Err(r#"QMP error for 'stop': {"class":"GenericError","desc":"no"}"#.to_string())
    );
    assert_eq!(
        qmp.received("stop", "".into()),
        Err("QMP closed the connection".to_string())
    );
    assert_eq!(qmp.queued_event(), Some(first));
    assert_eq!(qmp.queued_event(), Some(second));
    assert_eq!(qmp.queued_event(), None);
}

#[test]
fn an_error_wins_over_a_result() {
    assert_eq!(classify("c", &None, true), Message::Reply);
    assert_eq!(classify("c", &None, false), Message::Event);
    assert_eq!(
        classify("c", &Some("\"x\"".into()), true),
        Message::Refused { why: "QMP error for 'c': \"x\"".into() }
    );
}

#[test]
fn waiting_for_an_event_is_not_a_failure() {
    let event = r#"{"event": "STOP"}"#.to_string();
    assert_eq!(Qmp::next_event(Read::Line(event.clone())), Ok(Some(event)));
    assert_eq!(Qmp::next_event(Read::Line(r#"{"return": {}}"#.into())), Ok(None));
    assert_eq!(Qmp::next_event(Read::TimedOut), Ok(None));
    assert_eq!(Qmp::next_event(Read::Failed("the read timed out".into())), Ok(None));
    assert_eq!(Qmp::next_event(Read::Failed("kind: WouldBlock".into())), Ok(None));
    assert_eq!(
        Qmp::next_event(Read::Failed("connection reset".into())),
        Err("connection reset".to_string())
    );
    assert_eq!(
        Qmp::next_event(Read::Line("  ".into())),
        Err("QMP closed the connection".to_string())
    );
    assert_eq!(event_in(Read::Line("x".into()), &Some("1".into()), &None), Ok(None));
    assert_eq!(
        Qmp::next_event(Read::Line("the command timed out".into())),
        Err("parsing a QMP message: the command timed out".to_string()),
        "a line that arrived is no patience"
    );
}

#[test]
fn an_event_is_told_by_its_name() {
    assert!(Qmp::names_event(r#"{"event": "SCREENSHOT_COMPLETED"}"#, "SCREENSHOT_COMPLETED"));
    assert!(!Qmp::names_event(r#"{"event": "STOP"}"#, "SCREENSHOT_COMPLETED"));
    assert!(!Qmp::names_event(r#"{"event": 1}"#, "1"));
    assert_eq!(Qmp::event_overdue("X"), "timed out waiting for the QMP event 'X'");
    assert_eq!(Qmp::event_in_time("X", 29_999_999_999), Ok(()));
    assert_eq!(Qmp::event_in_time("X", 30_000_000_000), Err(Qmp::event_overdue("X")));
}

fn key(down: bool, code: &str) -> String {
    format!(r#"{{"data":{{"down":{down},"key":{{"data":"{code}","type":"qcode"}}}},"type":"key"}}"#)
}

#[test]
fn modifiers_go_down_before_the_key_and_come_up_after_it() {
    let event = |down| KeyEvent {
        modifiers: vec!["ctrl".into(), "shift".into()],
        key: "a".into(),
        down,
    };
    assert_eq!(
        Qmp::send_key_event(&event(true)),
        format!(
            r#"{{"events":[{},{},{}]}}"#,
            key(true, "ctrl"),
            key(true, "shift"),
            key(true, "a")
        )
    );
    assert_eq!(
        Qmp::send_key_event(&event(false)),
        format!(
            r#"{{"events":[{},{},{}]}}"#,
            key(false, "a"),
            key(false, "shift"),
            key(false, "ctrl")
        )
    );
    let typed = translate("Q").expect("translate");
    assert_eq!(
        Qmp::send_key_event(&typed[0]),
        format!(r#"{{"events":[{},{}]}}"#, key(true, "shift"), key(true, "q"))
    );
}

#[test]
fn a_chord_holds_everything_across_the_last_key() {
    let keys = vec!["meta_l".to_string(), "r".to_string()];
    assert_eq!(
        Qmp::send_chord(&keys).expect("chord"),
        format!(
            r#"{{"events":[{},{},{},{}]}}"#,
            key(true, "meta_l"),
            key(true, "r"),
            key(false, "r"),
            key(false, "meta_l")
        )
    );
    assert_eq!(
        Qmp::send_chord(&vec![]),
        Err("a chord needs at least one key".to_string())
    );
}

fn at(x: u32, y: u32) -> String {
    format!(
        r#"{{"events":[{{"data":{{"axis":"x","value":{x}}},"type":"abs"}},{{"data":{{"axis":"y","value":{y}}},"type":"abs"}}]}}"#
    )
}

#[test]
fn a_pointer_position_is_scaled_and_kept_on_the_axis() {
    assert_eq!(Qmp::send_pointer_move(512, 384, 1024, 768), Ok(at(16383, 16383)));
    assert_eq!(Qmp::send_pointer_move(0, 768, 1024, 768), Ok(at(0, 32767)));
    assert_eq!(Qmp::send_pointer_move(-5, 9999, 1024, 768), Ok(at(0, 32767)));
    assert_eq!(
        Qmp::send_pointer_move(1, 1, 0, 768),
        Err("the guest reports a 0x768 screen; cannot map a coordinate onto it".to_string())
    );
    assert_eq!(Qmp::query_screen_size(2, 3), Ok((2, 3)));
    assert_eq!(
        Qmp::query_screen_size(2, 0),
        Err("the guest framebuffer reports 2x0; a coordinate cannot be mapped".to_string())
    );
}

#[test]
fn only_three_buttons_are_known() {
    assert_eq!(
        Qmp::send_pointer_button("left", true),
        Ok(r#"{"events":[{"data":{"button":"left","down":true},"type":"btn"}]}"#.to_string())
    );
    assert!(Qmp::send_pointer_button("middle", false).is_ok());
    assert_eq!(
        Qmp::send_pointer_button("fourth", true),
        Err("unknown mouse button \"fourth\"; use left, right or middle".to_string())
    );
}
