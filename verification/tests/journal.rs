//! The journal.
use wvm::host::journal::{
    at_line_start, default_path, entry, split_journal, tail, Event, Record,
};
use wvm::host::vm::Directories;

fn state(vm: &str) -> Event {
    Event::VmState { vm: vm.into(), from: "off".into(), to: "on".into() }
}

#[test]
fn append_then_tail_round_trips() {
    let lines = vec![
        Some(Record::new(1, Event::Started { version: "0.1.0".into() })),
        Some(Record::new(
            2,
            Event::Request { subject: "agent".into(), verb: "exec".into(), op: "exec".into() },
        )),
    ];
    let got = tail(lines, 10);
    assert_eq!(got.len(), 2);
    assert!(matches!(got[0].event, Event::Started { .. }));
    assert!(matches!(got[1].event, Event::Request { .. }));
}

#[test]
fn tail_respects_limit_and_keeps_newest() {
    let lines: Vec<Option<Record>> =
        (0..10u64).map(|i| Some(Record::new(i, state(&format!("vm{i}"))))).collect();
    let got = tail(lines, 3);
    assert_eq!(got.len(), 3);
    // Newest three: vm7, vm8, vm9 — oldest first.
    for (record, expected) in got.iter().zip(["vm7", "vm8", "vm9"]) {
        match &record.event {
            Event::VmState { vm, .. } => assert_eq!(vm, expected),
            other => panic!("expected VmState, got {other:?}"),
        }
    }
}

#[test]
fn malformed_trailing_line_is_skipped() {
    let lines = vec![Some(Record::new(1, Event::Started { version: "0.1.0".into() })), None];
    let got = tail(lines, 10);
    assert_eq!(got.len(), 1, "the valid record must survive a torn write");
}

#[test]
fn the_journal_lives_in_the_state_directory() {
    let dirs = Directories { runtime: None, state: Some("/s".into()), home: None };
    assert_eq!(default_path(&dirs), Ok("/s/wvm/journal.jsonl".to_string()));
    let dirs = Directories { runtime: None, state: None, home: Some("/home/u".into()) };
    assert_eq!(default_path(&dirs), Ok("/home/u/.local/state/wvm/journal.jsonl".to_string()));
    let none = Directories { runtime: None, state: None, home: None };
    assert!(default_path(&none).is_err());
}

#[test]
fn what_is_appended_after_a_torn_line_begins_a_line_of_its_own() {
    for before in [&b""[..], b"one\n", b"one\n{\"torn", b"\xff\xfe", b"\n\n"] {
        let mut file = before.to_vec();
        let start = at_line_start(file.last().copied());
        file.extend(entry(b"record", start));
        let lines = split_journal(&file);
        assert_eq!(lines.last().map(|l| l.as_slice()), Some(&b"record"[..]));
        assert_eq!(lines[..lines.len() - 1], split_journal(before));
        assert_eq!(at_line_start(file.last().copied()), true);
    }
    assert_eq!(split_journal(b"a\nb"), vec![b"a".to_vec(), b"b".to_vec()]);
    assert!(split_journal(b"").is_empty());
}
