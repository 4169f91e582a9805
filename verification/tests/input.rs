//! Typing and key chords.
use wvm::host::input::{parse_chord, translate, PLAIN, SHIFTED};

/// Find the key events for one character, for readability in the tests.
fn one(ch: char) -> (Vec<String>, String) {
    let events = translate(&ch.to_string()).expect("translate");
    assert_eq!(events.len(), 2, "a character is a press and a release");
    assert!(events[0].down, "the first event is a press");
    assert!(!events[1].down, "the second is a release");
    assert_eq!(
        events[0].key, events[1].key,
        "press and release are the same key"
    );
    (events[0].modifiers.clone(), events[0].key.clone())
}

#[test]
fn letters_and_digits_map_to_themselves() {
    assert_eq!(one('a'), (vec![], "a".to_string()));
    assert_eq!(one('z'), (vec![], "z".to_string()));
    assert_eq!(one('7'), (vec![], "7".to_string()));
}

#[test]
fn an_uppercase_letter_holds_shift() {
    let (mods, key) = one('A');
    assert_eq!(mods, vec!["shift".to_string()]);
    assert_eq!(
        key, "a",
        "the keycode is the lowercase letter, held with shift"
    );
}

#[test]
fn the_uk_quote_and_at_sign_are_swapped_relative_to_us() {
    // The single most expensive bug in this project. On UK, `"` is SHIFT+2 and `@` is
    // SHIFT+apostrophe — the opposite of a US keyboard. The old map had them as US, so every
    // double quote arrived as `@` and `sc.exe` rejected its own quoting:
    //     sc.exe create wvm-guest binPath= @C:/Program Files/...@
    // It presented as a bad path or a permissions problem, and the mangled character was only
    // visible by reading the echo closely.
    assert_eq!(one('"'), (vec!["shift".to_string()], "2".to_string()));
    assert_eq!(
        one('@'),
        (vec!["shift".to_string()], "apostrophe".to_string())
    );
}

#[test]
fn a_backslash_is_refused_with_the_workaround_named() {
    // No keycode produces a literal backslash here. Sending the closest match silently gave a
    // `#`, which mangled a driver path and made pnputil report a missing driver package.
    let err = translate("C:\\path").expect_err("a backslash must be refused");
    let msg = err.to_string();
    assert!(
        msg.contains("forward slash"),
        "the error should name the fix: {msg}"
    );
    assert!(msg.contains("UK"), "and the reason: {msg}");
}

#[test]
fn the_characters_a_command_line_needs_all_map() {
    // The set that actually appears in the commands this tool sends. Each was verified by
    // typing it into the guest and reading the echo.
    for ch in "\"':;/\\.,-=[]{}!@#$%^&*()_+<>?~`| ".chars() {
        let result = translate(&ch.to_string());
        if ch == '\\' {
            assert!(result.is_err(), "a backslash must be refused, not mapped");
        } else if ch == ' ' {
            // Space is a key in its own right and must map, not be dropped.
            let (_, key) = one(ch);
            assert_eq!(key, "spc");
        } else {
            assert!(result.is_ok(), "{ch:?} must have a mapping");
        }
    }
}

#[test]
fn punctuation_maps_to_the_measured_keycodes() {
    assert_eq!(
        one(':'),
        (vec!["shift".to_string()], "semicolon".to_string())
    );
    assert_eq!(one('/'), (vec![], "slash".to_string()));
    assert_eq!(one('.'), (vec![], "dot".to_string()));
    assert_eq!(one(' '), (vec![], "spc".to_string()));
    assert_eq!(one('-'), (vec![], "minus".to_string()));
    assert_eq!(one('%'), (vec!["shift".to_string()], "5".to_string()));
}

#[test]
fn every_press_is_paired_with_a_release() {
    // An unpaired press leaves a key held, and the guest's driver then reorders subsequent
    // input. This is a property of the whole translation, not of one character.
    let events = translate("hello world").expect("translate");
    assert_eq!(events.len() % 2, 0, "events must come in pairs");
    for pair in events.chunks(2) {
        assert!(pair[0].down, "each pair starts with a press");
        assert!(!pair[1].down, "and ends with a release");
        assert_eq!(
            pair[0].key, pair[1].key,
            "the same key is pressed and released"
        );
        assert_eq!(
            pair[0].modifiers, pair[1].modifiers,
            "with the same modifiers"
        );
    }
}

#[test]
fn an_unmappable_character_is_refused_rather_than_dropped() {
    // Dropping it would produce a subtly wrong command. The error names the character so it can
    // be found in the string that was sent.
    let err = translate("café").expect_err("é has no mapping");
    assert!(
        err.to_string().contains('é'),
        "the error should name the character: {err}"
    );
}

#[test]
fn a_plain_key_parses_to_a_single_element() {
    assert_eq!(parse_chord("ret").expect("parse"), vec!["ret".to_string()]);
    assert_eq!(parse_chord("esc").expect("parse"), vec!["esc".to_string()]);
}

#[test]
fn a_chord_parses_in_order() {
    assert_eq!(
        parse_chord("ctrl+alt+delete").expect("parse"),
        vec!["ctrl".to_string(), "alt".to_string(), "delete".to_string()]
    );
}

#[test]
fn whitespace_around_chord_elements_is_tolerated() {
    assert_eq!(
        parse_chord("ctrl + c").expect("parse"),
        vec!["ctrl".to_string(), "c".to_string()]
    );
}

#[test]
fn an_unknown_key_name_is_refused_with_the_valid_list() {
    let err = parse_chord("f13").expect_err("must refuse");
    let msg = err.to_string();
    assert!(msg.contains("f13"), "should name the bad key: {msg}");
    assert!(msg.contains("ret"), "should list what is accepted: {msg}");
}

#[test]
fn a_single_character_key_is_accepted_for_convenience() {
    assert_eq!(parse_chord("a").expect("parse"), vec!["a".to_string()]);
    assert_eq!(
        parse_chord("ctrl+s").expect("parse"),
        vec!["ctrl".to_string(), "s".to_string()]
    );
}

#[test]
fn a_command_line_survives_translation_intact() {
    // The property that matters: every character in a realistic command produces the events
    // that reproduce THAT character — not a neighbour that happens to share a keycode. The mapping
    // is checked directly, per character: a test that works the string back out of the events would
    // test that working out.
    let cmd =
        "sc.exe create wvm-guest binPath= \"C:/Program Files/wvm/wvm-guest.exe\" start= auto";

    for ch in cmd.chars() {
        let events = translate(&ch.to_string())
            .unwrap_or_else(|e| panic!("{ch:?} must be translatable in a real command: {e}"));

        // Exactly one press and one release.
        assert_eq!(events.len(), 2, "{ch:?} should be two events");
        assert!(
            events[0].down && !events[1].down,
            "{ch:?} press then release"
        );

        let shift = events[0].modifiers.iter().any(|m| m == "shift");
        let key = events[0].key.as_str();

        // Verify the character maps to a keycode that, with that modifier, produces it.
        if ch.is_ascii_uppercase() {
            assert!(shift, "{ch:?} needs shift");
            assert_eq!(
                key,
                ch.to_ascii_lowercase().to_string(),
                "{ch:?} is the lowercase key"
            );
        } else if ch.is_ascii_lowercase() || ch.is_ascii_digit() {
            assert!(!shift, "{ch:?} needs no shift");
            assert_eq!(key, ch.to_string(), "{ch:?} maps to itself");
        } else if let Some((_, expected)) = PLAIN.iter().find(|(c, _)| *c == ch.to_string()) {
            assert!(!shift, "{ch:?} is unshifted");
            assert_eq!(
                key, *expected,
                "{ch:?} must map to its own keycode, not another that shares one"
            );
        } else if let Some((_, expected)) = SHIFTED.iter().find(|(c, _)| *c == ch.to_string()) {
            assert!(shift, "{ch:?} requires shift");
            assert_eq!(key, *expected, "{ch:?} maps to the wrong shifted keycode");
        } else {
            panic!("{ch:?} has no mapping but appears in a realistic command");
        }
    }
}

#[test]
fn the_two_characters_that_share_a_keycode_are_distinguished_by_shift() {
    // `slash` is `/` unshifted and `:` shifted; `semicolon` is `;` unshifted and `:` shifted;
    // `2` is `2` unshifted and `"` shifted. A map that ignored shift, or a lookup that checked
    // the unshifted table first without considering it, silently substitutes one for the other
    // — and this is exactly what produced the bug that stalled M4.
    assert_eq!(one('/'), (vec![], "slash".to_string()));
    assert_eq!(
        one(':'),
        (vec!["shift".to_string()], "semicolon".to_string())
    );
    assert_eq!(one(';'), (vec![], "semicolon".to_string()));
    assert_eq!(one('2'), (vec![], "2".to_string()));
    assert_eq!(one('"'), (vec!["shift".to_string()], "2".to_string()));
}

#[test]
fn an_empty_chord_is_refused() {
    assert_eq!(parse_chord(" + "), Err("empty key spec".to_string()));
}

#[test]
fn no_two_typable_characters_share_a_keystroke() {
    let mut seen = Vec::new();
    for code in 0x20u8..0x7f {
        if code == b'\\' {
            continue;
        }
        let (mods, key) = one(code as char);
        assert!(!seen.contains(&(mods.clone(), key.clone())), "{}", code as char);
        seen.push((mods, key));
    }
    assert_eq!(seen.len(), 94);
}

#[test]
fn a_character_that_cannot_be_printed_is_no_key() {
    assert!(parse_chord("ctrl+\u{1}").is_err());
    assert!(parse_chord("\u{7f}").is_err());
    assert_eq!(parse_chord("~"), Ok(vec!["~".to_string()]));
    assert_eq!(parse_chord("!"), Ok(vec!["!".to_string()]));
}
