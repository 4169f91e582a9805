//! Sending input to the guest, as emulated hardware.
//!
//! The guest runs as a Windows service in session 0, which cannot reach the interactive desktop
//! through an API. Emulated hardware has no such restriction: the kernel delivers device events to
//! whichever session owns the active console.
//!
//! Key names are QEMU's codes, and they stand for physical positions, not characters. What a
//! position produces depends on the guest's keyboard layout, and the tables below are those of a
//! UK layout, where `@` and `"` are swapped relative to a US keyboard. No key produces a literal
//! backslash on it, so a backslash is refused.
use crate::text;
use vstd::prelude::*;
use vstd::string::*;

verus! {

/// Keys that produce a plain character with no modifier.
pub const PLAIN: [(&'static str, &'static str); 11] = [
    (" ", "spc"),
    ("-", "minus"),
    ("=", "equal"),
    ("[", "bracket_left"),
    ("]", "bracket_right"),
    (";", "semicolon"),
    ("'", "apostrophe"),
    (",", "comma"),
    (".", "dot"),
    ("/", "slash"),
    ("`", "grave_accent"),
];

/// Characters that need shift, with the key that produces them.
pub const SHIFTED: [(&'static str, &'static str); 21] = [
    ("!", "1"),
    ("@", "apostrophe"),
    ("#", "3"),
    ("$", "4"),
    ("%", "5"),
    ("^", "6"),
    ("&", "7"),
    ("*", "8"),
    ("(", "9"),
    (")", "0"),
    ("_", "minus"),
    ("+", "equal"),
    ("{", "bracket_left"),
    ("}", "bracket_right"),
    ("|", "backslash"),
    (":", "semicolon"),
    ("\"", "2"),
    ("<", "comma"),
    (">", "dot"),
    ("?", "slash"),
    ("~", "grave_accent"),
];

/// Named keys that a chord may hold.
pub const NAMED_KEYS: [&'static str; 22] = [
    "ret",
    "esc",
    "tab",
    "spc",
    "backspace",
    "delete",
    "up",
    "down",
    "left",
    "right",
    "home",
    "end",
    "pgup",
    "pgdn",
    "ctrl",
    "ctrl_r",
    "shift",
    "shift_r",
    "alt",
    "alt_r",
    "meta_l",
    "meta_r",
];

/// One key event: a key pressed or released with modifiers held.
#[derive(Debug, Clone, PartialEq, Eq)]
pub struct KeyEvent {
    /// Keys held for this event, in a stable order.
    pub modifiers: Vec<String>,
    /// The key itself.
    pub key: String,
    /// Pressed, or released.
    pub down: bool,
}

/// What a key event holds.
pub struct KeyEventView {
    /// The keys held.
    pub modifiers: Seq<Seq<char>>,
    /// The key itself.
    pub key: Seq<char>,
    /// Pressed, or released.
    pub down: bool,
}

impl KeyEvent {
    /// What this event holds.
    pub open spec fn view(&self) -> KeyEventView {
        KeyEventView { modifiers: text::views(self.modifiers@), key: self.key@, down: self.down }
    }
}

/// What each event of a list holds.
pub open spec fn event_views(events: Seq<KeyEvent>) -> Seq<KeyEventView> {
    events.map_values(|e: KeyEvent| e@)
}

// ---------------------------------------------------------------------------
// Typing
// ---------------------------------------------------------------------------

/// The key that a table gives for a character.
pub open spec fn key_in(table: Seq<(&'static str, &'static str)>, c: char) -> Option<Seq<char>>
    decreases table.len(),
{
    if table.len() == 0 {
        None
    } else if table[0].0@ == seq![c] {
        Some(table[0].1@)
    } else {
        key_in(table.skip(1), c)
    }
}

/// A lower-case ASCII letter.
pub open spec fn is_lower(c: char) -> bool {
    'a' <= c && c <= 'z'
}

/// An upper-case ASCII letter.
pub open spec fn is_upper(c: char) -> bool {
    'A' <= c && c <= 'Z'
}

/// The key that produces a character, and whether shift is held with it.
pub open spec fn keystroke(c: char) -> Option<(Seq<char>, bool)> {
    if is_lower(c) || text::is_digit(c) {
        Some((seq![c], false))
    } else if is_upper(c) {
        Some((seq![text::ascii_lower(c)], true))
    } else {
        match key_in(PLAIN@, c) {
            Some(key) => Some((key, false)),
            None => match key_in(SHIFTED@, c) {
                Some(key) => Some((key, true)),
                None => None,
            },
        }
    }
}

/// The first character of a text that no key produces.
pub open spec fn untypable(s: Seq<char>) -> Option<char>
    decreases s.len(),
{
    if s.len() == 0 {
        None
    } else if keystroke(s[0]) is None {
        Some(s[0])
    } else {
        untypable(s.skip(1))
    }
}

/// Why a character is refused.
pub open spec fn refusal(c: char) -> Seq<char> {
    if c == '\\' {
        "cannot type a backslash: no QEMU keycode produces one on this guest's UK layout, and the closest (`backslash`) yields `#`. Windows accepts forward slashes in paths, so replace `\\` with `/` in the command you are sending"@
    } else {
        "no key mapping for "@ + text::debug_char(c)
            + ". The map covers ASCII printable characters; extend it in wvm-host/src/input.rs if this is needed, and verify the result by reading the guest's echo rather than assuming the keycode"@
    }
}

/// The event that presses or releases the key of a character, with shift where it needs it.
pub open spec fn stroke_event(c: char, down: bool) -> KeyEventView {
    KeyEventView {
        modifiers: if keystroke(c).unwrap().1 {
            seq!["shift"@]
        } else {
            Seq::empty()
        },
        key: keystroke(c).unwrap().0,
        down,
    }
}

/// The events that type a text: for each character a press and then a release.
pub open spec fn strokes(s: Seq<char>) -> Seq<KeyEventView> {
    Seq::new(2 * s.len(), |i: int| stroke_event(s[i / 2], i % 2 == 0))
}

/// The key of a table for a character.
fn find_key(table: &[(&'static str, &'static str)], c: char) -> (r: Option<String>)
    ensures
        text::opt_view(r) == key_in(table@, c),
{
    let mut i: usize = 0;
    assert(table@.skip(0) == table@);
    while i < table.len()
        invariant
            i <= table.len(),
            key_in(table@, c) == key_in(table@.skip(i as int), c),
        decreases table.len() - i,
    {
        let produced = text::to_chars(table[i].0);
        let ghost rest = table@.skip(i as int);
        assert(rest[0] == table@[i as int]);
        assert(rest.skip(1) == table@.skip(i + 1));
        if produced.len() == 1 && produced[0] == c {
            assert(produced@ == seq![c]);
            return Some(text::own(table[i].1));
        }
        assert(produced@ != seq![c]) by {
            if produced@ == seq![c] {
                assert(produced@[0] == c);
            }
        }
        i += 1;
    }
    None
}

/// The key that produces a character, and whether shift is held with it.
fn find_keystroke(c: char) -> (r: Option<(String, bool)>)
    ensures
        match (r, keystroke(c)) {
            (Some(found), Some(expected)) => found.0@ == expected.0 && found.1 == expected.1,
            (None, None) => true,
            _ => false,
        },
{
    if ('a' <= c && c <= 'z') || ('0' <= c && c <= '9') {
        let one = [c];
        assert(one@ == seq![c]);
        return Some((text::from_chars(&one), false));
    }
    if 'A' <= c && c <= 'Z' {
        let lower: u8 = c as u8 + 32;
        let one = [lower as char];
        assert(one@ == seq![text::ascii_lower(c)]);
        return Some((text::from_chars(&one), true));
    }
    match find_key(&PLAIN, c) {
        Some(key) => Some((key, false)),
        None => match find_key(&SHIFTED, c) {
            Some(key) => Some((key, true)),
            None => None,
        },
    }
}

/// The modifiers of a keystroke.
fn modifiers(shift: bool) -> (r: Vec<String>)
    ensures
        text::views(r@) == (if shift {
            seq!["shift"@]
        } else {
            Seq::<Seq<char>>::empty()
        }),
{
    let mut out: Vec<String> = Vec::new();
    if shift {
        text::push_text(&mut out, "shift");
    }
    out
}

/// Why a character is refused.
fn refuse(c: char) -> (r: String)
    ensures
        r@ == refusal(c),
{
    if c == '\\' {
        text::own(
            "cannot type a backslash: no QEMU keycode produces one on this guest's UK layout, and the closest (`backslash`) yields `#`. Windows accepts forward slashes in paths, so replace `\\` with `/` in the command you are sending",
        )
    } else {
        let shown = text::format_debug_char(c);
        text::cat3(
            "no key mapping for ",
            shown.as_str(),
            ". The map covers ASCII printable characters; extend it in wvm-host/src/input.rs if this is needed, and verify the result by reading the guest's echo rather than assuming the keycode",
        )
    }
}

/// Translate a text into the key events that produce it.
///
/// Letters and digits map to themselves. A character that no key produces is an error naming it,
/// because dropping it would produce a command that is subtly wrong. Every press is followed at
/// once by its release: holding a key across the next one makes the guest reorder them.
pub fn translate(input: &str) -> (r: Result<Vec<KeyEvent>, String>)
    ensures
        match (r, untypable(input@)) {
            (Ok(events), None) => event_views(events@) == strokes(input@),
            (Err(e), Some(c)) => e@ == refusal(c),
            _ => false,
        },
{
    let chars = text::to_chars(input);
    let mut events: Vec<KeyEvent> = Vec::new();
    let mut i: usize = 0;
    assert(chars@.skip(0) == chars@);
    while i < chars.len()
        invariant
            chars@ == input@,
            i <= chars.len(),
            untypable(input@) == untypable(chars@.skip(i as int)),
            event_views(events@) == strokes(input@).take(2 * i),
        decreases chars.len() - i,
    {
        let c = chars[i];
        proof {
            assert(chars@.skip(i as int)[0] == c);
            assert(chars@.skip(i as int).skip(1) == chars@.skip(i + 1));
        }
        match find_keystroke(c) {
            Some((key, shift)) => {
                let press = KeyEvent { modifiers: modifiers(shift), key: key.clone(), down: true };
                let release = KeyEvent { modifiers: modifiers(shift), key, down: false };
                proof {
                    assert(press@ == stroke_event(c, true));
                    assert(release@ == stroke_event(c, false));
                    let all = strokes(input@);
                    assert(all[2 * i] == stroke_event(c, true)) by {
                        assert((2 * i) / 2 == i && (2 * i) % 2 == 0);
                    }
                    assert(all[2 * i + 1] == stroke_event(c, false)) by {
                        assert((2 * i + 1) / 2 == i && (2 * i + 1) % 2 == 1);
                    }
                    assert(event_views(events@.push(press).push(release)) == event_views(
                        events@,
                    ).push(press@).push(release@));
                    assert(all.take(2 * (i + 1)) == all.take(2 * i).push(all[2 * i]).push(
                        all[2 * i + 1],
                    ));
                }
                events.push(press);
                events.push(release);
            },
            None => {
                return Err(refuse(c));
            },
        }
        i += 1;
    }
    assert(strokes(input@).take(2 * input@.len() as int) == strokes(input@));
    Ok(events)
}

// ---------------------------------------------------------------------------
// Chords
// ---------------------------------------------------------------------------

/// The parts of a key description: what stands between plus signs, trimmed, without the empty ones.
pub open spec fn chord_parts(spec: Seq<char>) -> Seq<Seq<char>> {
    text::split(spec, '+').map_values(|p: Seq<char>| text::trimmed(p)).filter(
        |p: Seq<char>| p.len() > 0,
    )
}

/// A part that is a named key, or one printable ASCII character.
pub open spec fn is_key(part: Seq<char>) -> bool {
    ||| exists|i: int| 0 <= i < 22 && #[trigger] NAMED_KEYS@[i]@ == part
    ||| part.len() == 1 && ' ' < part[0] && part[0] <= '~'
}

/// The names of the named keys, in order.
pub open spec fn key_names() -> Seq<Seq<char>> {
    NAMED_KEYS@.map_values(|k: &'static str| k@)
}

/// The first part that is not a key.
pub open spec fn unknown_part(parts: Seq<Seq<char>>) -> Option<Seq<char>>
    decreases parts.len(),
{
    if parts.len() == 0 {
        None
    } else if !is_key(parts[0]) {
        Some(parts[0])
    } else {
        unknown_part(parts.skip(1))
    }
}

/// Why a key description is refused.
pub open spec fn chord_fault(spec: Seq<char>) -> Option<Seq<char>> {
    let parts = chord_parts(spec);
    if parts.len() == 0 {
        Some("empty key spec"@)
    } else {
        match unknown_part(parts) {
            Some(part) => Some(
                "unknown key "@ + text::debug_text(part) + ". Named keys: "@ + text::joined(
                    key_names(),
                    ", "@,
                ) + ". A single character is also accepted."@,
            ),
            None => None,
        }
    }
}

/// Whether a part is a key.
fn known_key(part: &[char]) -> (r: bool)
    ensures
        r == is_key(part@),
{
    let mut i: usize = 0;
    while i < 22
        invariant
            i <= 22,
            forall|k: int| 0 <= k < i ==> #[trigger] NAMED_KEYS@[k]@ != part@,
        decreases 22 - i,
    {
        let name = text::to_chars(NAMED_KEYS[i]);
        if text::same_chars(&name, part) {
            assert(NAMED_KEYS@[i as int]@ == part@);
            return true;
        }
        i += 1;
    }
    part.len() == 1 && ' ' < part[0] && part[0] <= '~'
}

/// The names of the named keys, put together.
fn name_list() -> (r: String)
    ensures
        r@ == text::joined(key_names(), ", "@),
{
    let mut names: Vec<String> = Vec::new();
    let mut i: usize = 0;
    while i < 22
        invariant
            i <= 22,
            text::views(names@) == key_names().take(i as int),
        decreases 22 - i,
    {
        text::push_text(&mut names, NAMED_KEYS[i]);
        proof {
            assert(key_names().take(i + 1) == key_names().take(i as int).push(
                key_names()[i as int],
            ));
        }
        i += 1;
    }
    assert(key_names().take(22) == key_names());
    text::join(&names, ", ")
}

/// Parse a key description such as `ret` or `ctrl+alt+delete` into its keys.
///
/// A single name is a plain press. A list joined with plus signs is a chord, where everything but
/// the last key is held down across the last.
pub fn parse_chord(spec: &str) -> (r: Result<Vec<String>, String>)
    ensures
        match (r, chord_fault(spec@)) {
            (Ok(keys), None) => text::views(keys@) == chord_parts(spec@),
            (Err(e), Some(why)) => e@ == why,
            _ => false,
        },
{
    let chars = text::to_chars(spec);
    let raw = text::split_chars(&chars, '+');
    let ghost pieces = text::split(spec@, '+').map_values(|p: Seq<char>| text::trimmed(p));
    let ghost full = |p: Seq<char>| p.len() > 0;
    let mut parts: Vec<Vec<char>> = Vec::new();
    let mut i: usize = 0;
    proof {
        reveal(Seq::filter);
        assert(pieces.take(0) == Seq::<Seq<char>>::empty());
        assert(text::char_views(raw@) == text::split(spec@, '+'));
        assert(text::char_views(raw@).len() == raw@.len());
    }
    while i < raw.len()
        invariant
            i <= raw.len(),
            text::char_views(raw@) == text::split(spec@, '+'),
            pieces == text::split(spec@, '+').map_values(|p: Seq<char>| text::trimmed(p)),
            pieces.len() == raw@.len(),
            full == (|p: Seq<char>| p.len() > 0),
            text::char_views(parts@) == pieces.take(i as int).filter(full),
        decreases raw.len() - i,
    {
        let piece = text::trim(&raw[i]);
        proof {
            reveal(Seq::filter);
            assert(text::char_views(raw@)[i as int] == raw@[i as int]@);
            assert(pieces[i as int] == piece@);
            assert(pieces.take(i + 1).drop_last() == pieces.take(i as int));
            assert(pieces.take(i + 1).last() == piece@);
            text::char_views_push(parts@, piece);
        }
        if piece.len() > 0 {
            parts.push(piece);
        }
        i += 1;
    }
    proof {
        assert(pieces.take(raw@.len() as int) == pieces);
        assert(text::char_views(parts@) == chord_parts(spec@));
        assert(text::char_views(parts@).len() == parts@.len());
    }
    if parts.len() == 0 {
        return Err(text::own("empty key spec"));
    }
    let ghost all = chord_parts(spec@);
    let mut keys: Vec<String> = Vec::new();
    let mut k: usize = 0;
    assert(all.skip(0) == all);
    while k < parts.len()
        invariant
            k <= parts.len(),
            all == chord_parts(spec@),
            all.len() > 0,
            text::char_views(parts@) == all,
            text::views(keys@) == all.take(k as int),
            unknown_part(all) == unknown_part(all.skip(k as int)),
        decreases parts.len() - k,
    {
        proof {
            assert(text::char_views(parts@)[k as int] == parts@[k as int]@);
            assert(all.skip(k as int)[0] == parts@[k as int]@);
            assert(all.skip(k as int).skip(1) == all.skip(k + 1));
            assert(all.take(k + 1) == all.take(k as int).push(all[k as int]));
        }
        let part = text::from_chars(&parts[k]);
        if !known_key(&parts[k]) {
            let shown = text::format_debug_text(part.as_str());
            let names = name_list();
            return Err(
                text::cat5(
                    "unknown key ",
                    shown.as_str(),
                    ". Named keys: ",
                    names.as_str(),
                    ". A single character is also accepted.",
                ),
            );
        }
        proof {
            text::views_push(keys@, part);
        }
        keys.push(part);
        k += 1;
    }
    assert(all.take(parts@.len() as int) == all);
    Ok(keys)
}

// ---------------------------------------------------------------------------
// Laws
// ---------------------------------------------------------------------------

/// Every press is paired with a release of the same key with the same modifiers, directly after it:
/// typing a text leaves no key held.
pub proof fn every_press_is_released(s: Seq<char>, k: int)
    requires
        0 <= k < s.len(),
    ensures
        strokes(s).len() == 2 * s.len(),
        strokes(s)[2 * k].down,
        !strokes(s)[2 * k + 1].down,
        strokes(s)[2 * k].key == strokes(s)[2 * k + 1].key,
        strokes(s)[2 * k].modifiers == strokes(s)[2 * k + 1].modifiers,
{
    assert((2 * k) / 2 == k && (2 * k) % 2 == 0);
    assert((2 * k + 1) / 2 == k && (2 * k + 1) % 2 == 1);
}

/// What a table gives for a character is the key of an entry for that character.
proof fn key_in_has_an_entry(table: Seq<(&'static str, &'static str)>, c: char) -> (i: int)
    requires
        key_in(table, c) is Some,
    ensures
        0 <= i < table.len(),
        table[i].0@ == seq![c],
        table[i].1@ == key_in(table, c).unwrap(),
    decreases table.len(),
{
    if table[0].0@ == seq![c] {
        0
    } else {
        let j = key_in_has_an_entry(table.skip(1), c);
        assert(table.skip(1)[j] == table[j + 1]);
        j + 1
    }
}

/// The plain keys differ from each other and from every key named by one character.
proof fn plain_keys_differ(i: int, j: int)
    requires
        0 <= i < 11,
        0 <= j < 11,
    ensures
        PLAIN@[i].1@ == PLAIN@[j].1@ ==> i == j,
        PLAIN@[i].1@.len() > 1,
{
    reveal_strlit("spc");
    reveal_strlit("minus");
    reveal_strlit("equal");
    reveal_strlit("bracket_left");
    reveal_strlit("bracket_right");
    reveal_strlit("semicolon");
    reveal_strlit("apostrophe");
    reveal_strlit("comma");
    reveal_strlit("dot");
    reveal_strlit("slash");
    reveal_strlit("grave_accent");
    let a = PLAIN@[i].1@;
    let b = PLAIN@[j].1@;
    if a == b {
        assert(a.len() == b.len());
        assert(a[0] == b[0]);
    }
}

/// The shifted keys differ from each other, and one that is named by one character is named by a
/// digit.
proof fn shifted_keys_differ(i: int, j: int)
    requires
        0 <= i < 21,
        0 <= j < 21,
    ensures
        SHIFTED@[i].1@ == SHIFTED@[j].1@ ==> i == j,
        SHIFTED@[i].1@.len() == 1 ==> text::is_digit(SHIFTED@[i].1@[0]),
{
    reveal_strlit("1");
    reveal_strlit("apostrophe");
    reveal_strlit("3");
    reveal_strlit("4");
    reveal_strlit("5");
    reveal_strlit("6");
    reveal_strlit("7");
    reveal_strlit("8");
    reveal_strlit("9");
    reveal_strlit("0");
    reveal_strlit("minus");
    reveal_strlit("equal");
    reveal_strlit("bracket_left");
    reveal_strlit("bracket_right");
    reveal_strlit("backslash");
    reveal_strlit("semicolon");
    reveal_strlit("2");
    reveal_strlit("comma");
    reveal_strlit("dot");
    reveal_strlit("slash");
    reveal_strlit("grave_accent");
    let a = SHIFTED@[i].1@;
    let b = SHIFTED@[j].1@;
    if a == b {
        assert(a.len() == b.len());
        assert(a[0] == b[0]);
    }
}

/// No two characters are typed with the same keystroke: a key and shift held or not stand for one
/// character at most.
pub proof fn keystrokes_are_distinct(c: char, d: char)
    requires
        keystroke(c) is Some,
        keystroke(c) == keystroke(d),
    ensures
        c == d,
{
    let key = keystroke(c).unwrap().0;
    let by_letter = |x: char| is_lower(x) || is_upper(x) || text::is_digit(x);
    if by_letter(c) && by_letter(d) {
        assert(key[0] == (if is_upper(c) {
            text::ascii_lower(c)
        } else {
            c
        }));
        assert(key[0] == (if is_upper(d) {
            text::ascii_lower(d)
        } else {
            d
        }));
    } else if !by_letter(c) && !by_letter(d) {
        if key_in(PLAIN@, c) is Some {
            let i = key_in_has_an_entry(PLAIN@, c);
            let j = key_in_has_an_entry(PLAIN@, d);
            plain_keys_differ(i, j);
            assert(seq![c][0] == seq![d][0]);
        } else {
            let i = key_in_has_an_entry(SHIFTED@, c);
            let j = key_in_has_an_entry(SHIFTED@, d);
            shifted_keys_differ(i, j);
            assert(seq![c][0] == seq![d][0]);
        }
    } else {
        let (letter, other) = if by_letter(c) {
            (c, d)
        } else {
            (d, c)
        };
        if key_in(PLAIN@, other) is Some {
            let i = key_in_has_an_entry(PLAIN@, other);
            plain_keys_differ(i, i);
        } else {
            let i = key_in_has_an_entry(SHIFTED@, other);
            shifted_keys_differ(i, i);
        }
        assert(key.len() == 1);
        assert(false);
    }
}

/// Two texts that can be typed and whose key events are the same are the same text.
pub proof fn typing_tells_texts_apart(s: Seq<char>, t: Seq<char>)
    requires
        untypable(s) is None,
        untypable(t) is None,
        strokes(s) == strokes(t),
    ensures
        s == t,
{
    assert(strokes(s).len() == 2 * s.len());
    assert(strokes(t).len() == 2 * t.len());
    assert forall|k: int| 0 <= k < s.len() implies s[k] == t[k] by {
        every_press_is_released(s, k);
        every_press_is_released(t, k);
        typable_everywhere(s, k);
        typable_everywhere(t, k);
        assert((2 * k) / 2 == k && (2 * k) % 2 == 0);
        assert(strokes(s)[2 * k] == stroke_event(s[k], true));
        assert(strokes(t)[2 * k] == stroke_event(t[k], true));
        let a = stroke_event(s[k], true);
        let b = stroke_event(t[k], true);
        assert(a.modifiers.len() == b.modifiers.len());
        assert(keystroke(s[k]).unwrap().1 == keystroke(t[k]).unwrap().1);
        assert(keystroke(s[k]) == keystroke(t[k]));
        keystrokes_are_distinct(s[k], t[k]);
    }
    assert(s =~= t);
}

/// Each character of a text that can be typed has a keystroke.
proof fn typable_everywhere(s: Seq<char>, k: int)
    requires
        untypable(s) is None,
        0 <= k < s.len(),
    ensures
        keystroke(s[k]) is Some,
    decreases s.len(),
{
    if k > 0 {
        typable_everywhere(s.skip(1), k - 1);
        assert(s.skip(1)[k - 1] == s[k]);
    }
}

/// The characters that the entries of the two tables produce.
proof fn characters_of_the_tables()
    ensures
        forall|i: int|
            0 <= i < 11 ==> (#[trigger] PLAIN@[i]).0@ == seq![seq![' ', '-', '=', '[', ']', ';', '\'', ',', '.', '/', '`'][i]],
        forall|i: int|
            0 <= i < 21 ==> (#[trigger] SHIFTED@[i]).0@ == seq![seq!['!', '@', '#', '$', '%', '^', '&', '*', '(', ')', '_', '+', '{', '}', '|', ':', '"', '<', '>', '?', '~'][i]],
{
    reveal_strlit(" ");
    reveal_strlit("-");
    reveal_strlit("=");
    reveal_strlit("[");
    reveal_strlit("]");
    reveal_strlit(";");
    reveal_strlit("'");
    reveal_strlit(",");
    reveal_strlit(".");
    reveal_strlit("/");
    reveal_strlit("`");
    reveal_strlit("!");
    reveal_strlit("@");
    reveal_strlit("#");
    reveal_strlit("$");
    reveal_strlit("%");
    reveal_strlit("^");
    reveal_strlit("&");
    reveal_strlit("*");
    reveal_strlit("(");
    reveal_strlit(")");
    reveal_strlit("_");
    reveal_strlit("+");
    reveal_strlit("{");
    reveal_strlit("}");
    reveal_strlit("|");
    reveal_strlit(":");
    reveal_strlit("\"");
    reveal_strlit("<");
    reveal_strlit(">");
    reveal_strlit("?");
    reveal_strlit("~");
    assert(" "@ =~= seq![' ']);
    assert("-"@ =~= seq!['-']);
    assert("="@ =~= seq!['=']);
    assert("["@ =~= seq!['[']);
    assert("]"@ =~= seq![']']);
    assert(";"@ =~= seq![';']);
    assert("'"@ =~= seq!['\'']);
    assert(","@ =~= seq![',']);
    assert("."@ =~= seq!['.']);
    assert("/"@ =~= seq!['/']);
    assert("`"@ =~= seq!['`']);
    assert("!"@ =~= seq!['!']);
    assert("@"@ =~= seq!['@']);
    assert("#"@ =~= seq!['#']);
    assert("$"@ =~= seq!['$']);
    assert("%"@ =~= seq!['%']);
    assert("^"@ =~= seq!['^']);
    assert("&"@ =~= seq!['&']);
    assert("*"@ =~= seq!['*']);
    assert("("@ =~= seq!['(']);
    assert(")"@ =~= seq![')']);
    assert("_"@ =~= seq!['_']);
    assert("+"@ =~= seq!['+']);
    assert("{"@ =~= seq!['{']);
    assert("}"@ =~= seq!['}']);
    assert("|"@ =~= seq!['|']);
    assert(":"@ =~= seq![':']);
    assert("\""@ =~= seq!['"']);
    assert("<"@ =~= seq!['<']);
    assert(">"@ =~= seq!['>']);
    assert("?"@ =~= seq!['?']);
    assert("~"@ =~= seq!['~']);
}

/// The entry of a table whose character no other entry produces is the one that is found.
proof fn entries_are_found(table: Seq<(&'static str, &'static str)>, i: int, c: char)
    requires
        0 <= i < table.len(),
        table[i].0@ == seq![c],
        forall|k: int| 0 <= k < table.len() && k != i ==> (#[trigger] table[k]).0@ != seq![c],
    ensures
        key_in(table, c) == Some(table[i].1@),
    decreases table.len(),
{
    if i > 0 {
        let rest = table.skip(1);
        assert(table[0].0@ != seq![c]);
        assert forall|k: int| 0 <= k < rest.len() && k != i - 1 implies (#[trigger] rest[k]).0@
            != seq![c] by {
            assert(rest[k] == table[k + 1]);
        }
        assert(rest[i - 1] == table[i]);
        entries_are_found(rest, i - 1, c);
    }
}

/// A character that no entry of a table produces is not found.
proof fn others_are_not_found(table: Seq<(&'static str, &'static str)>, c: char)
    requires
        forall|k: int| 0 <= k < table.len() ==> (#[trigger] table[k]).0@ != seq![c],
    ensures
        key_in(table, c) is None,
{
    if key_in(table, c) is Some {
        let i = key_in_has_an_entry(table, c);
        assert(table[i].0@ != seq![c]);
    }
}

proof fn unshifted_symbol(i: int)
    requires
        0 <= i < 11,
    ensures
        keystroke(PLAIN@[i].0@[0]) == Some((PLAIN@[i].1@, false)),
{
    characters_of_the_tables();
    let chars = seq![' ', '-', '=', '[', ']', ';', '\'', ',', '.', '/', '`'];
    let c = chars[i];
    assert(PLAIN@[i].0@ == seq![c]);
    assert forall|k: int| 0 <= k < 11 && k != i implies (#[trigger] PLAIN@[k]).0@ != seq![c] by {
        assert(PLAIN@[k].0@[0] == chars[k]);
        assert(seq![c][0] == c);
    }
    entries_are_found(PLAIN@, i, c);
    assert(seq![c][0] == c);
}

proof fn shifted_symbol(i: int)
    requires
        0 <= i < 21,
    ensures
        keystroke(SHIFTED@[i].0@[0]) == Some((SHIFTED@[i].1@, true)),
{
    characters_of_the_tables();
    let plain = seq![' ', '-', '=', '[', ']', ';', '\'', ',', '.', '/', '`'];
    let chars = seq!['!', '@', '#', '$', '%', '^', '&', '*', '(', ')', '_', '+', '{', '}', '|', ':', '"', '<', '>', '?', '~'];
    let c = chars[i];
    assert(SHIFTED@[i].0@ == seq![c]);
    assert(seq![c][0] == c);
    assert forall|k: int| 0 <= k < 11 implies (#[trigger] PLAIN@[k]).0@ != seq![c] by {
        assert(PLAIN@[k].0@[0] == plain[k]);
    }
    assert forall|k: int| 0 <= k < 21 && k != i implies (#[trigger] SHIFTED@[k]).0@ != seq![c] by {
        assert(SHIFTED@[k].0@[0] == chars[k]);
    }
    others_are_not_found(PLAIN@, c);
    entries_are_found(SHIFTED@, i, c);
}

/// Which key each symbol is typed with on a UK layout, and whether shift is held.
pub proof fn symbols_are_where_a_uk_layout_has_them()
    ensures
        keystroke(' ') == Some(("spc"@, false)),
        keystroke('-') == Some(("minus"@, false)),
        keystroke('=') == Some(("equal"@, false)),
        keystroke('[') == Some(("bracket_left"@, false)),
        keystroke(']') == Some(("bracket_right"@, false)),
        keystroke(';') == Some(("semicolon"@, false)),
        keystroke('\'') == Some(("apostrophe"@, false)),
        keystroke(',') == Some(("comma"@, false)),
        keystroke('.') == Some(("dot"@, false)),
        keystroke('/') == Some(("slash"@, false)),
        keystroke('`') == Some(("grave_accent"@, false)),
        keystroke('!') == Some(("1"@, true)),
        keystroke('@') == Some(("apostrophe"@, true)),
        keystroke('#') == Some(("3"@, true)),
        keystroke('$') == Some(("4"@, true)),
        keystroke('%') == Some(("5"@, true)),
        keystroke('^') == Some(("6"@, true)),
        keystroke('&') == Some(("7"@, true)),
        keystroke('*') == Some(("8"@, true)),
        keystroke('(') == Some(("9"@, true)),
        keystroke(')') == Some(("0"@, true)),
        keystroke('_') == Some(("minus"@, true)),
        keystroke('+') == Some(("equal"@, true)),
        keystroke('{') == Some(("bracket_left"@, true)),
        keystroke('}') == Some(("bracket_right"@, true)),
        keystroke('|') == Some(("backslash"@, true)),
        keystroke(':') == Some(("semicolon"@, true)),
        keystroke('"') == Some(("2"@, true)),
        keystroke('<') == Some(("comma"@, true)),
        keystroke('>') == Some(("dot"@, true)),
        keystroke('?') == Some(("slash"@, true)),
        keystroke('~') == Some(("grave_accent"@, true)),
{
    characters_of_the_tables();
    unshifted_symbol(0);
    unshifted_symbol(1);
    unshifted_symbol(2);
    unshifted_symbol(3);
    unshifted_symbol(4);
    unshifted_symbol(5);
    unshifted_symbol(6);
    unshifted_symbol(7);
    unshifted_symbol(8);
    unshifted_symbol(9);
    unshifted_symbol(10);
    shifted_symbol(0);
    shifted_symbol(1);
    shifted_symbol(2);
    shifted_symbol(3);
    shifted_symbol(4);
    shifted_symbol(5);
    shifted_symbol(6);
    shifted_symbol(7);
    shifted_symbol(8);
    shifted_symbol(9);
    shifted_symbol(10);
    shifted_symbol(11);
    shifted_symbol(12);
    shifted_symbol(13);
    shifted_symbol(14);
    shifted_symbol(15);
    shifted_symbol(16);
    shifted_symbol(17);
    shifted_symbol(18);
    shifted_symbol(19);
    shifted_symbol(20);
}

/// A lower case letter or a digit is typed with the key of its own name and nothing held. An upper
/// case letter is typed with the key of the lower case one, and shift held.
pub proof fn letters_and_digits_are_their_own_keys(c: char)
    ensures
        ('a' <= c && c <= 'z') || ('0' <= c && c <= '9') ==> keystroke(c) == Some((seq![c], false)),
        'A' <= c && c <= 'Z' ==> keystroke(c) == Some((seq![(c as u8 + 32) as char], true)),
{
}

/// What can be typed is exactly the printable ASCII characters other than the backslash, so a text is
/// typed exactly where it holds nothing else; and where it does, the character refused is the first
/// such one.
pub proof fn printable_characters_can_be_typed(s: Seq<char>, c: char)
    ensures
        keystroke(c) is Some <==> ' ' <= c && c <= '~' && c != '\\',
        untypable(s) is None <==> forall|i: int|
            0 <= i < s.len() ==> ' ' <= #[trigger] s[i] && s[i] <= '~' && s[i] != '\\',
        untypable(s) matches Some(d) ==> exists|i: int|
            0 <= i < s.len() && #[trigger] s[i] == d && !(' ' <= d && d <= '~' && d != '\\')
                && forall|k: int|
                0 <= k < i ==> ' ' <= #[trigger] s[k] && s[k] <= '~' && s[k] != '\\',
    decreases s.len(),
{
    printable_character(c);
    if s.len() > 0 {
        let rest = s.skip(1);
        printable_character(s[0]);
        printable_characters_can_be_typed(rest, c);
        assert forall|i: int| 0 < i < s.len() implies s[i] == rest[i - 1] by {}
        if keystroke(s[0]) is Some {
            if untypable(rest) is None {
                assert forall|i: int| 0 <= i < s.len() implies ' ' <= #[trigger] s[i] && s[i] <= '~'
                    && s[i] != '\\' by {
                    if i > 0 {
                        assert(s[i] == rest[i - 1]);
                    }
                }
            } else {
                let d = untypable(rest)->Some_0;
                let i = choose|i: int|
                    0 <= i < rest.len() && #[trigger] rest[i] == d && !(' ' <= d && d <= '~' && d
                        != '\\') && forall|k: int|
                        0 <= k < i ==> ' ' <= #[trigger] rest[k] && rest[k] <= '~' && rest[k] != '\\';
                assert(s[i + 1] == d);
                assert forall|k: int| 0 <= k < i + 1 implies ' ' <= #[trigger] s[k] && s[k] <= '~'
                    && s[k] != '\\' by {
                    if k > 0 {
                        assert(s[k] == rest[k - 1]);
                    }
                }
            }
        } else {
            assert(s[0] == untypable(s)->Some_0);
        }
    }
}

proof fn printable_character(c: char)
    ensures
        keystroke(c) is Some <==> ' ' <= c && c <= '~' && c != '\\',
{
    characters_of_the_tables();
    symbols_are_where_a_uk_layout_has_them();
    if !(is_lower(c) || text::is_digit(c) || is_upper(c)) {
        if key_in(PLAIN@, c) is Some {
            let i = key_in_has_an_entry(PLAIN@, c);
            assert(PLAIN@[i].0@[0] == seq![c][0]);
        } else if key_in(SHIFTED@, c) is Some {
            let i = key_in_has_an_entry(SHIFTED@, c);
            assert(SHIFTED@[i].0@[0] == seq![c][0]);
        }
    }
}

/// Each character of a text is one press and then one release of its key, in the order of the text,
/// with shift, and nothing else, held for both where the character needs it.
pub proof fn texts_are_typed_in_order(s: Seq<char>, k: int)
    requires
        0 <= k < s.len(),
        keystroke(s[k]) is Some,
    ensures
        strokes(s).len() == 2 * s.len(),
        strokes(s)[2 * k].down,
        !strokes(s)[2 * k + 1].down,
        forall|i: int|
            2 * k <= i <= 2 * k + 1 ==> {
                &&& (#[trigger] strokes(s)[i]).key == keystroke(s[k])->Some_0.0
                &&& strokes(s)[i].modifiers == (if keystroke(s[k])->Some_0.1 {
                    seq!["shift"@]
                } else {
                    Seq::empty()
                })
            },
{
    assert((2 * k) / 2 == k && (2 * k) % 2 == 0);
    assert((2 * k + 1) / 2 == k && (2 * k + 1) % 2 == 1);
    assert forall|i: int| 2 * k <= i <= 2 * k + 1 implies {
        &&& (#[trigger] strokes(s)[i]).key == keystroke(s[k])->Some_0.0
        &&& strokes(s)[i].modifiers == (if keystroke(s[k])->Some_0.1 {
            seq!["shift"@]
        } else {
            Seq::empty()
        })
    } by {
        assert(i == 2 * k || i == 2 * k + 1);
    }
}

/// A key is known exactly where it is one printable character other than the space, or one of the
/// named keys.
pub proof fn keys_are_characters_or_names(part: Seq<char>)
    ensures
        is_key(part) <==> {
            ||| part.len() == 1 && '!' <= part[0] && part[0] <= '~'
            ||| part == "ret"@
            ||| part == "esc"@
            ||| part == "tab"@
            ||| part == "spc"@
            ||| part == "backspace"@
            ||| part == "delete"@
            ||| part == "up"@
            ||| part == "down"@
            ||| part == "left"@
            ||| part == "right"@
            ||| part == "home"@
            ||| part == "end"@
            ||| part == "pgup"@
            ||| part == "pgdn"@
            ||| part == "ctrl"@
            ||| part == "ctrl_r"@
            ||| part == "shift"@
            ||| part == "shift_r"@
            ||| part == "alt"@
            ||| part == "alt_r"@
            ||| part == "meta_l"@
            ||| part == "meta_r"@
        },
{
    if is_key(part) {
        if exists|i: int| 0 <= i < 22 && #[trigger] NAMED_KEYS@[i]@ == part {
            let i = choose|i: int| 0 <= i < 22 && #[trigger] NAMED_KEYS@[i]@ == part;
            assert(i == 0 || i == 1 || i == 2 || i == 3 || i == 4 || i == 5 || i == 6 || i == 7 || i == 8
                || i == 9 || i == 10 || i == 11 || i == 12 || i == 13 || i == 14 || i == 15 || i == 16
                || i == 17 || i == 18 || i == 19 || i == 20 || i == 21);
        }
    }
    assert(NAMED_KEYS@[0]@ == "ret"@);
    assert(NAMED_KEYS@[1]@ == "esc"@);
    assert(NAMED_KEYS@[2]@ == "tab"@);
    assert(NAMED_KEYS@[3]@ == "spc"@);
    assert(NAMED_KEYS@[4]@ == "backspace"@);
    assert(NAMED_KEYS@[5]@ == "delete"@);
    assert(NAMED_KEYS@[6]@ == "up"@);
    assert(NAMED_KEYS@[7]@ == "down"@);
    assert(NAMED_KEYS@[8]@ == "left"@);
    assert(NAMED_KEYS@[9]@ == "right"@);
    assert(NAMED_KEYS@[10]@ == "home"@);
    assert(NAMED_KEYS@[11]@ == "end"@);
    assert(NAMED_KEYS@[12]@ == "pgup"@);
    assert(NAMED_KEYS@[13]@ == "pgdn"@);
    assert(NAMED_KEYS@[14]@ == "ctrl"@);
    assert(NAMED_KEYS@[15]@ == "ctrl_r"@);
    assert(NAMED_KEYS@[16]@ == "shift"@);
    assert(NAMED_KEYS@[17]@ == "shift_r"@);
    assert(NAMED_KEYS@[18]@ == "alt"@);
    assert(NAMED_KEYS@[19]@ == "alt_r"@);
    assert(NAMED_KEYS@[20]@ == "meta_l"@);
    assert(NAMED_KEYS@[21]@ == "meta_r"@);
}

/// A chord is read from its front: what stands before the first plus is the first key, with the white
/// space around it left out, and no key at all where it is nothing but white space. The others are
/// those of what follows.
pub proof fn chords_are_read_from_the_front(first: Seq<char>, rest: Seq<char>)
    requires
        !first.contains('+'),
    ensures
        chord_parts(first + seq!['+'] + rest) == (if text::trimmed(first).len() > 0 {
            seq![text::trimmed(first)] + chord_parts(rest)
        } else {
            chord_parts(rest)
        }),
        chord_parts(first) == (if text::trimmed(first).len() > 0 {
            seq![text::trimmed(first)]
        } else {
            Seq::empty()
        }),
{
    text::splits_at_the_first_separator(first, '+', rest);
    let trim = |p: Seq<char>| text::trimmed(p);
    let full = |p: Seq<char>| p.len() > 0;
    let tail = text::split(rest, '+').map_values(trim);
    let whole = text::split(first + seq!['+'] + rest, '+').map_values(trim);
    assert(whole =~= seq![trim(first)] + tail);
    Seq::<Seq<char>>::filter_distributes_over_add(seq![trim(first)], tail, full);
    assert(seq![trim(first)].filter(full) =~= if full(trim(first)) {
        seq![trim(first)]
    } else {
        Seq::empty()
    }) by {
        reveal_with_fuel(Seq::filter, 2);
        assert(seq![trim(first)].drop_last() =~= Seq::<Seq<char>>::empty());
    }
    assert(Seq::<Seq<char>>::empty() + tail.filter(full) =~= tail.filter(full));
    assert(text::split(first, '+').map_values(trim) =~= seq![trim(first)]);
}

/// A chord is accepted exactly where it has a key and all its keys are known.
pub proof fn chords_of_known_keys_are_accepted(spec: Seq<char>)
    ensures
        chord_fault(spec) is None <==> chord_parts(spec).len() > 0 && forall|i: int|
            0 <= i < chord_parts(spec).len() ==> is_key(#[trigger] chord_parts(spec)[i]),
        chord_parts(spec).len() == 0 ==> chord_fault(spec) == Some("empty key spec"@),
{
    unknown_parts_are_found(chord_parts(spec));
}

proof fn unknown_parts_are_found(parts: Seq<Seq<char>>)
    ensures
        unknown_part(parts) is None <==> forall|i: int|
            0 <= i < parts.len() ==> is_key(#[trigger] parts[i]),
    decreases parts.len(),
{
    if parts.len() > 0 {
        let rest = parts.skip(1);
        unknown_parts_are_found(rest);
        assert forall|i: int| 0 < i < parts.len() implies parts[i] == rest[i - 1] by {}
        if unknown_part(parts) is None {
            assert forall|i: int| 0 <= i < parts.len() implies is_key(#[trigger] parts[i]) by {
                if i > 0 {
                    assert(is_key(rest[i - 1]));
                }
            }
        } else if is_key(parts[0]) {
            let i = choose|i: int| 0 <= i < rest.len() && !is_key(#[trigger] rest[i]);
            assert(!is_key(parts[i + 1]));
        }
    }
}

/// What is said of a character that cannot be typed: of a backslash, what to type in its place, and of
/// any other, which character it is.
pub proof fn refusals_name_the_character(c: char)
    ensures
        c != '\\' ==> text::starts_with(refusal(c), "no key mapping for "@ + text::debug_char(c)),
        text::starts_with(refusal('\\'), "cannot type a backslash: "@),
{
    reveal_strlit("cannot type a backslash: ");
    reveal_strlit(
        "cannot type a backslash: no QEMU keycode produces one on this guest's UK layout, and the closest (`backslash`) yields `#`. Windows accepts forward slashes in paths, so replace `\\` with `/` in the command you are sending",
    );
    let head = "no key mapping for "@ + text::debug_char(c);
    if c != '\\' {
        assert(refusal(c).take(head.len() as int) =~= head);
    }
    let start = "cannot type a backslash: "@;
    assert(refusal('\\').take(start.len() as int) =~= start);
}

} // verus!
