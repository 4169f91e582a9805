//! The list of verbs and the document made from it.
use wvm::host::capabilities::{capabilities, render_markdown, CAPABILITIES};

#[test]
fn every_capability_has_a_summary_and_a_home() {
    for c in capabilities() {
        assert!(!c.summary.is_empty(), "{} has no summary", c.op);
        assert!(
            c.runs_on == "host" || c.runs_on == "guest",
            "{} has an unknown home: {}",
            c.op,
            c.runs_on
        );
    }
}

#[test]
fn the_markdown_covers_every_verb() {
    // The property that makes the file trustworthy: a verb added to the list cannot be missing
    // from the generated doc. Without this the two could drift and the doc would be the one
    // that lies.
    let md = render_markdown();
    for c in capabilities() {
        assert!(
            md.contains(&format!("### `{}`", c.op)),
            "{} is in the capability list but missing from the generated markdown",
            c.op
        );
    }
}

#[test]
fn the_markdown_says_it_is_generated() {
    // A generated file that does not say so invites exactly the hand-edit that then gets
    // overwritten, which is a bad way to find out.
    let md = render_markdown();
    assert!(md.starts_with("<!-- GENERATED FILE"));
    assert!(md.contains("capabilities.rs"));
}

#[test]
fn traps_are_not_decoration() {
    // Each trap is a licence to skip a debugging session. If a verb has none, either it is
    // genuinely trivial or nobody has written down what it cost — and the second is more
    // likely. `hello` is the one deliberate exception.
    for c in capabilities() {
        if c.op == "hello" {
            continue;
        }
        assert!(!c.traps.is_empty(), "{} has no recorded traps", c.op);
    }
}

#[test]
fn the_list_holds_each_verb_once() {
    let names: Vec<&str> = CAPABILITIES.iter().map(|c| c.0).collect();
    assert_eq!(names, ["hello", "exec", "capture", "input", "transfer", "lifecycle"]);
    for (c, listed) in capabilities().iter().zip(CAPABILITIES.iter()) {
        assert_eq!((c.op, c.cli, c.runs_on, c.summary), *listed);
    }
}

#[test]
fn a_verb_without_a_command_shows_none() {
    let md = render_markdown();
    let hello = &md[md.find("### `hello`").unwrap()..md.find("### `exec`").unwrap()];
    assert!(!hello.contains("**CLI:**"));
    assert!(hello.contains("- **Runs on:** guest\n\nTraps:\n\n- Do this first."));
    let capture = &md[md.find("### `capture`").unwrap()..md.find("### `input`").unwrap()];
    assert!(capture.contains("- **CLI:** `wvm vm capture --config <cfg> --out shot.png`\n"));
}
