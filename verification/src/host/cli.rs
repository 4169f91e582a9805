//! What the command line of the host means: geometries, verbs and the checks made on a capture.
use crate::ipc::Verb;
use crate::text;
use vstd::prelude::*;
use vstd::string::*;

verus! {

// ---------------------------------------------------------------------------
// Geometry
// ---------------------------------------------------------------------------

/// Where the first `x` of a text stands, in either case, or the length when there is none.
pub open spec fn cross(s: Seq<char>) -> int
    decreases s.len(),
{
    if s.len() == 0 {
        0
    } else if s[0] == 'x' || s[0] == 'X' {
        0
    } else {
        1 + cross(s.skip(1))
    }
}

proof fn cross_bounds(s: Seq<char>)
    ensures
        0 <= cross(s) <= s.len(),
    decreases s.len(),
{
    if s.len() > 0 && s[0] != 'x' && s[0] != 'X' {
        cross_bounds(s.skip(1));
    }
}

/// Why digits that follow a number are no number of 32 bits: the first of them that is no digit, or
/// that makes the number too large.
pub open spec fn digits_fault(s: Seq<char>, value: nat) -> Option<Seq<char>>
    decreases s.len(),
{
    if s.len() == 0 {
        None
    } else if !text::is_digit(s[0]) {
        Some("invalid digit found in string"@)
    } else {
        let next = value * 10 + (s[0] as u32 - 48) as nat;
        if next > u32::MAX {
            Some("number too large to fit in target type"@)
        } else {
            digits_fault(s.skip(1), next)
        }
    }
}

/// Why a text is no number of 32 bits.
pub open spec fn number_fault(s: Seq<char>) -> Option<Seq<char>> {
    if s.len() == 0 {
        Some("cannot parse integer from empty string"@)
    } else if s == "+"@ {
        Some("invalid digit found in string"@)
    } else if s[0] == '+' {
        digits_fault(s.skip(1), 0)
    } else {
        digits_fault(s, 0)
    }
}

/// A text stands for a number of 32 bits exactly where there is no fault in it.
proof fn faultless_digits(s: Seq<char>, value: nat, before: Seq<char>)
    requires
        text::all_digits(before),
        value == text::digits_value(before),
        value <= u32::MAX,
    ensures
        digits_fault(s, value) is None <==> (text::all_digits(s) && text::digits_value(before + s)
            <= u32::MAX),
    decreases s.len(),
{
    if s.len() == 0 {
        assert(before + s == before);
    } else if text::is_digit(s[0]) {
        let longer = before.push(s[0]);
        assert(longer.drop_last() == before);
        assert(before + s == longer + s.skip(1));
        assert(text::all_digits(longer));
        assert(text::digits_value(longer) == value * 10 + (s[0] as u32 - 48) as nat);
        if text::all_digits(s) {
            assert forall|i: int| 0 <= i < (before + s).len() implies text::is_digit(
                #[trigger] (before + s)[i],
            ) by {
                if i >= before.len() {
                    assert((before + s)[i] == s[i - before.len()]);
                }
            }
            text::digits_value_grows(before + s, longer.len() as int);
            assert((before + s).take(longer.len() as int) == longer);
        }
        if text::digits_value(longer) <= u32::MAX {
            faultless_digits(s.skip(1), text::digits_value(longer), longer);
        }
        assert(text::all_digits(s) == text::all_digits(s.skip(1))) by {
            if text::all_digits(s.skip(1)) {
                assert forall|i: int| 0 <= i < s.len() implies text::is_digit(#[trigger] s[i]) by {
                    if i > 0 {
                        assert(s.skip(1)[i - 1] == s[i]);
                    }
                }
            }
            if text::all_digits(s) {
                assert forall|i: int| 0 <= i < s.skip(1).len() implies text::is_digit(
                    #[trigger] s.skip(1)[i],
                ) by {
                    assert(s.skip(1)[i] == s[i + 1]);
                }
            }
        }
    } else {
        assert(!text::is_digit(s[0]));
    }
}

/// The numeral of a number of 32 bits has no fault, and a text without one is such a numeral.
pub proof fn numerals_are_faultless(s: Seq<char>)
    ensures
        number_fault(s) is None <==> text::numeral_up_to(s, u32::MAX as nat) is Some,
{
    reveal_strlit("+");
    let none = Seq::<char>::empty();
    assert(text::digits_value(none) == 0);
    if s.len() > 0 {
        if s[0] == '+' {
            faultless_digits(s.skip(1), 0, none);
            assert(none + s.skip(1) == s.skip(1));
            if s.len() == 1 {
                assert(s == "+"@);
            } else {
                assert(s != "+"@);
            }
        } else {
            faultless_digits(s, 0, none);
            assert(none + s == s);
            assert(s != "+"@);
        }
    }
}

/// The two sides of a geometry, trimmed.
pub open spec fn sides(spec: Seq<char>) -> (Seq<char>, Seq<char>) {
    (text::trimmed(spec.take(cross(spec))), text::trimmed(spec.skip(cross(spec) + 1)))
}

/// Why a text is no geometry.
pub open spec fn geometry_fault(spec: Seq<char>) -> Option<Seq<char>> {
    if cross(spec) == spec.len() {
        Some("expected WIDTHxHEIGHT, got "@ + text::debug_text(spec))
    } else {
        match number_fault(sides(spec).0) {
            Some(why) => Some("bad width in "@ + text::debug_text(spec) + ": "@ + why),
            None => match number_fault(sides(spec).1) {
                Some(why) => Some("bad height in "@ + text::debug_text(spec) + ": "@ + why),
                None => None,
            },
        }
    }
}

/// The number that a text stands for, or why it is none.
fn parse_number(s: &[char]) -> (r: Result<u32, &'static str>)
    ensures
        match (r, number_fault(s@)) {
            (Ok(n), None) => text::numeral_up_to(s@, u32::MAX as nat) == Some(n as nat),
            (Err(e), Some(why)) => e@ == why,
            _ => false,
        },
{
    proof {
        reveal_strlit("+");
        numerals_are_faultless(s@);
    }
    if s.len() == 0 {
        return Err("cannot parse integer from empty string");
    }
    if s.len() == 1 && s[0] == '+' {
        assert(s@ == "+"@);
        return Err("invalid digit found in string");
    }
    assert(s@ != "+"@);
    match text::parse_u32(s) {
        Some(n) => Ok(n),
        None => {
            let from: usize = if s[0] == '+' {
                1
            } else {
                0
            };
            let ghost digits = s@.skip(from as int);
            assert(s@.skip(0) == s@);
            let mut value: u64 = 0;
            let mut i: usize = from;
            while i < s.len()
                invariant
                    from <= i <= s.len(),
                    value <= u32::MAX,
                    digits_fault(digits, 0) == digits_fault(s@.skip(i as int), value as nat),
                    number_fault(s@) == digits_fault(digits, 0),
                    number_fault(s@) is Some,
                decreases s.len() - i,
            {
                proof {
                    assert(s@.skip(i as int)[0] == s@[i as int]);
                    assert(s@.skip(i as int).skip(1) == s@.skip(i + 1));
                }
                let c = s[i];
                if !('0' <= c && c <= '9') {
                    return Err("invalid digit found in string");
                }
                value = value * 10 + (c as u32 - 48) as u64;
                if value > 0xffff_ffff {
                    return Err("number too large to fit in target type");
                }
                i += 1;
            }
            assert(false);
            Err("")
        },
    }
}

/// Parse a `WIDTHxHEIGHT` geometry.
pub fn parse_geometry(spec: &str) -> (r: Result<(u32, u32), String>)
    ensures
        match (r, geometry_fault(spec@)) {
            (Ok(size), None) => {
                &&& text::numeral_up_to(sides(spec@).0, u32::MAX as nat) == Some(size.0 as nat)
                &&& text::numeral_up_to(sides(spec@).1, u32::MAX as nat) == Some(size.1 as nat)
            },
            (Err(e), Some(why)) => e@ == why,
            _ => false,
        },
{
    let chars = text::to_chars(spec);
    let mut i: usize = 0;
    assert(chars@.skip(0) == chars@);
    while i < chars.len() && chars[i] != 'x' && chars[i] != 'X'
        invariant
            chars@ == spec@,
            i <= chars.len(),
            cross(spec@) == i + cross(chars@.skip(i as int)),
        decreases chars.len() - i,
    {
        proof {
            assert(chars@.skip(i as int)[0] == chars@[i as int]);
            assert(chars@.skip(i as int).skip(1) == chars@.skip(i + 1));
        }
        i += 1;
    }
    if i == chars.len() {
        let shown = text::format_debug_text(spec);
        return Err(text::cat2("expected WIDTHxHEIGHT, got ", shown.as_str()));
    }
    proof {
        assert(chars@.skip(i as int)[0] == chars@[i as int]);
        assert(cross(spec@) == i);
        assert(chars@.subrange(0, i as int) == spec@.take(i as int));
        assert(chars@.subrange(i + 1, chars@.len() as int) == spec@.skip(i + 1));
    }
    let width = text::trim(&text::part(&chars, 0, i));
    let height = text::trim(&text::part(&chars, i + 1, chars.len()));
    match parse_number(&width) {
        Err(why) => {
            let shown = text::format_debug_text(spec);
            Err(text::cat4("bad width in ", shown.as_str(), ": ", why))
        },
        Ok(w) => match parse_number(&height) {
            Err(why) => {
                let shown = text::format_debug_text(spec);
                Err(text::cat4("bad height in ", shown.as_str(), ": ", why))
            },
            Ok(h) => Ok((w, h)),
        },
    }
}

/// A capture of the size that a geometry gives.
pub open spec fn is_expected(width: u32, height: u32, spec: Seq<char>) -> bool {
    &&& text::numeral_up_to(sides(spec).0, u32::MAX as nat) == Some(width as nat)
    &&& text::numeral_up_to(sides(spec).1, u32::MAX as nat) == Some(height as nat)
}

/// Check that a capture has the geometry that was expected of it. A capture can succeed and still be
/// the wrong thing.
pub fn check_geometry(width: u32, height: u32, spec: &str) -> (r: Result<(), String>)
    ensures
        match geometry_fault(spec@) {
            Some(why) => r matches Err(e) && e@ == why,
            None => {
                let expected = text::numeral_up_to(sides(spec@).0, u32::MAX as nat) == Some(
                    width as nat,
                ) && text::numeral_up_to(sides(spec@).1, u32::MAX as nat) == Some(height as nat);
                match r {
                    Ok(()) => expected,
                    Err(e) => !expected && e@ == "the capture is "@ + text::decimal(width as nat)
                        + "x"@ + text::decimal(height as nat) + " but "@ + spec@
                        + " was expected. \nA screendump can succeed and still be the wrong thing: a stale framebuffer, a resized display, or a guest that has not finished booting."@,
                }
            },
        },
        r is Ok <==> geometry_fault(spec@) is None && is_expected(width, height, spec@),
{
    match parse_geometry(spec) {
        Err(e) => Err(e),
        Ok((w, h)) => if width != w || height != h {
            let a = text::to_decimal(width as u64);
            let b = text::to_decimal(height as u64);
            Err(
                text::cat7(
                    "the capture is ",
                    a.as_str(),
                    "x",
                    b.as_str(),
                    " but ",
                    spec,
                    " was expected. \nA screendump can succeed and still be the wrong thing: a stale framebuffer, a resized display, or a guest that has not finished booting.",
                ),
            )
        } else {
            Ok(())
        },
    }
}

// ---------------------------------------------------------------------------
// Verbs
// ---------------------------------------------------------------------------

/// The verb that a word of the command line stands for.
pub open spec fn verb_named(word: Seq<char>) -> Option<Verb> {
    let name = text::trimmed(word);
    if name == "inspect"@ {
        Some(Verb::Inspect)
    } else if name == "exec"@ {
        Some(Verb::Exec)
    } else if name == "capture"@ {
        Some(Verb::Capture)
    } else if name == "input"@ {
        Some(Verb::Input)
    } else if name == "transfer"@ {
        Some(Verb::Transfer)
    } else if name == "lifecycle"@ {
        Some(Verb::Lifecycle)
    } else {
        None
    }
}

/// A verb, or the note to be shown of a word that stands for none: a grant that is quietly narrower
/// than the operator intended is worse.
pub fn parse_verb(word: &str) -> (r: Result<Verb, String>)
    ensures
        match (r, verb_named(word@)) {
            (Ok(verb), Some(expected)) => verb == expected,
            (Err(note), None) => note@ == "wvm: unknown verb '"@ + text::trimmed(word@)
                + "' — ignoring"@,
            _ => false,
        },
{
    let chars = text::to_chars(word);
    let name = text::from_chars(&text::trim(&chars));
    let n = name.as_str();
    if text::same(n, "inspect") {
        Ok(Verb::Inspect)
    } else if text::same(n, "exec") {
        Ok(Verb::Exec)
    } else if text::same(n, "capture") {
        Ok(Verb::Capture)
    } else if text::same(n, "input") {
        Ok(Verb::Input)
    } else if text::same(n, "transfer") {
        Ok(Verb::Transfer)
    } else if text::same(n, "lifecycle") {
        Ok(Verb::Lifecycle)
    } else {
        Err(text::cat3("wvm: unknown verb '", n, "' — ignoring"))
    }
}

/// The verbs that words stand for, in order; a word that stands for none is passed over.
pub open spec fn verbs_named(words: Seq<Seq<char>>) -> Seq<Verb>
    decreases words.len(),
{
    if words.len() == 0 {
        Seq::empty()
    } else {
        let before = verbs_named(words.drop_last());
        match verb_named(words.last()) {
            Some(verb) => before.push(verb),
            None => before,
        }
    }
}

/// The notes to be shown of words that stand for no verb, in order.
pub open spec fn notes(words: Seq<Seq<char>>) -> Seq<Seq<char>>
    decreases words.len(),
{
    if words.len() == 0 {
        Seq::empty()
    } else {
        let before = notes(words.drop_last());
        match verb_named(words.last()) {
            Some(_) => before,
            None => before.push(
                "wvm: unknown verb '"@ + text::trimmed(words.last()) + "' — ignoring"@,
            ),
        }
    }
}

/// The verbs of a list with commas between them, and the notes to be shown of words that stand for
/// none.
pub fn parse_verbs(list: &str) -> (r: (Vec<Verb>, Vec<String>))
    ensures
        r.0@ == verbs_named(text::split(list@, ',')),
        text::views(r.1@) == notes(text::split(list@, ',')),
{
    let chars = text::to_chars(list);
    let words = text::split_chars(&chars, ',');
    let ghost all = text::split(list@, ',');
    let mut verbs: Vec<Verb> = Vec::new();
    let mut said: Vec<String> = Vec::new();
    let mut i: usize = 0;
    assert(all.take(0) == Seq::<Seq<char>>::empty());
    assert(text::char_views(words@).len() == words@.len());
    while i < words.len()
        invariant
            i <= words.len(),
            all == text::split(list@, ','),
            text::char_views(words@) == all,
            all.len() == words@.len(),
            verbs@ == verbs_named(all.take(i as int)),
            text::views(said@) == notes(all.take(i as int)),
        decreases words.len() - i,
    {
        proof {
            assert(text::char_views(words@)[i as int] == words@[i as int]@);
            assert(all.take(i + 1).drop_last() == all.take(i as int));
            assert(all.take(i + 1).last() == words@[i as int]@);
        }
        let word = text::from_chars(&words[i]);
        match parse_verb(word.as_str()) {
            Ok(verb) => {
                verbs.push(verb);
            },
            Err(note) => {
                proof {
                    text::views_push(said@, note);
                }
                said.push(note);
            },
        }
        i += 1;
    }
    assert(all.take(words@.len() as int) == all);
    (verbs, said)
}

/// Every word of a list is granted or reported: none is silently dropped.
pub proof fn no_word_is_dropped(words: Seq<Seq<char>>)
    ensures
        verbs_named(words).len() + notes(words).len() == words.len(),
    decreases words.len(),
{
    if words.len() > 0 {
        no_word_is_dropped(words.drop_last());
    }
}

/// A verb that is written as journals spell it is read back as itself, but for the display, which
/// the command line does not grant.
pub proof fn verbs_are_read_back(verb: Verb)
    ensures
        verb_named(verb.name()) == if verb == Verb::Display {
            None
        } else {
            Some(verb)
        },
{
    reveal_strlit("inspect");
    reveal_strlit("exec");
    reveal_strlit("capture");
    reveal_strlit("input");
    reveal_strlit("transfer");
    reveal_strlit("lifecycle");
    reveal_strlit("display");
    let name = verb.name();
    assert(!text::is_space(name[0]));
    assert(!text::is_space(name.last()));
    assert(text::trimmed(name) == name);
    assert("inspect"@[0] == 'i' && "inspect"@[2] == 's');
    assert("input"@[2] == 'p');
    assert("exec"@[0] == 'e');
    assert("capture"@[0] == 'c');
    assert("transfer"@[0] == 't');
    assert("lifecycle"@[0] == 'l');
    assert("display"@[0] == 'd');
}

proof fn cross_is_found(before: Seq<char>, sign: char, after: Seq<char>)
    requires
        sign == 'x' || sign == 'X',
        !before.contains('x'),
        !before.contains('X'),
    ensures
        cross(before + seq![sign] + after) == before.len(),
        cross(before) == before.len(),
    decreases before.len(),
{
    let all = before + seq![sign] + after;
    if before.len() > 0 {
        let rest = before.skip(1);
        assert(before.contains(before[0]));
        assert(!rest.contains('x')) by {
            if rest.contains('x') {
                let k = choose|k: int| 0 <= k < rest.len() && rest[k] == 'x';
                assert(before[k + 1] == 'x');
            }
        }
        assert(!rest.contains('X')) by {
            if rest.contains('X') {
                let k = choose|k: int| 0 <= k < rest.len() && rest[k] == 'X';
                assert(before[k + 1] == 'X');
            }
        }
        cross_is_found(rest, sign, after);
        assert(all.skip(1) =~= rest + seq![sign] + after);
    }
}

/// A geometry reads back as the width and the height that it was written from, in that order, with
/// either form of the cross. A text without a cross is refused.
pub proof fn geometries_read_back(width: u32, height: u32, sign: char, word: Seq<char>)
    requires
        sign == 'x' || sign == 'X',
        !word.contains('x'),
        !word.contains('X'),
    ensures
        ({
            let spec = text::decimal(width as nat) + seq![sign] + text::decimal(height as nat);
            &&& geometry_fault(spec) is None
            &&& text::numeral_up_to(sides(spec).0, u32::MAX as nat) == Some(width as nat)
            &&& text::numeral_up_to(sides(spec).1, u32::MAX as nat) == Some(height as nat)
        }),
        geometry_fault(word) == Some("expected WIDTHxHEIGHT, got "@ + text::debug_text(word)),
{
    let w = text::decimal(width as nat);
    let h = text::decimal(height as nat);
    let spec = w + seq![sign] + h;
    text::numerals_read_back(width as nat, height as nat);
    text::numerals_read_back(height as nat, width as nat);
    text::decimal_round_trip(width as nat);
    text::decimal_round_trip(height as nat);
    assert forall|i: int| 0 <= i < w.len() implies #[trigger] w[i] != 'x' && w[i] != 'X' by {
        assert('0' <= w[i] && w[i] <= '9');
    }
    cross_is_found(w, sign, h);
    cross_is_found(word, sign, h);
    assert(spec.take(w.len() as int) =~= w);
    assert(spec.skip(w.len() as int + 1) =~= h);
    assert('0' <= w[0] && w[0] <= '9' && '0' <= w[w.len() - 1] && w[w.len() - 1] <= '9');
    assert('0' <= h[0] && h[0] <= '9' && '0' <= h[h.len() - 1] && h[h.len() - 1] <= '9');
    text::trimmed_texts_stay(w);
    text::trimmed_texts_stay(h);
    numerals_are_faultless(w);
    numerals_are_faultless(h);
}

/// The words that name a verb are these and no others, with the white space around them left out. The
/// display is granted by none of them.
pub proof fn verbs_are_named_so(word: Seq<char>)
    ensures
        verb_named(word) == Some(Verb::Inspect) <==> text::trimmed(word) == "inspect"@,
        verb_named(word) == Some(Verb::Exec) <==> text::trimmed(word) == "exec"@,
        verb_named(word) == Some(Verb::Capture) <==> text::trimmed(word) == "capture"@,
        verb_named(word) == Some(Verb::Input) <==> text::trimmed(word) == "input"@,
        verb_named(word) == Some(Verb::Transfer) <==> text::trimmed(word) == "transfer"@,
        verb_named(word) == Some(Verb::Lifecycle) <==> text::trimmed(word) == "lifecycle"@,
        verb_named(word) != Some(Verb::Display),
{
    reveal_strlit("inspect");
    reveal_strlit("exec");
    reveal_strlit("capture");
    reveal_strlit("input");
    reveal_strlit("transfer");
    reveal_strlit("lifecycle");
    assert("inspect"@[0] == 'i' && "inspect"@[2] == 's');
    assert("input"@[0] == 'i' && "input"@[2] == 'p');
    assert("exec"@[0] == 'e');
    assert("capture"@[0] == 'c');
    assert("transfer"@[0] == 't');
    assert("lifecycle"@[0] == 'l');
}

/// Each word of a list is read on its own account and in its place: it adds the verb that it names, or
/// else a note that quotes it.
pub proof fn words_are_read_in_order(words: Seq<Seq<char>>, word: Seq<char>)
    ensures
        verb_named(word) matches Some(verb) ==> verbs_named(words.push(word)) == verbs_named(
            words,
        ).push(verb) && notes(words.push(word)) == notes(words),
        verb_named(word) is None ==> verbs_named(words.push(word)) == verbs_named(words) && notes(
            words.push(word),
        ) == notes(words).push("wvm: unknown verb '"@ + text::trimmed(word) + "' — ignoring"@),
{
    assert(words.push(word).drop_last() =~= words);
}

/// A capture passes exactly the geometry of its own size: a width or a height that differs is noticed,
/// and the two are not confused.
pub proof fn captures_pass_their_own_geometry(
    width: u32,
    height: u32,
    other_width: u32,
    other_height: u32,
)
    ensures
        ({
            let spec = text::decimal(other_width as nat) + seq!['x'] + text::decimal(
                other_height as nat,
            );
            is_expected(width, height, spec) <==> width == other_width && height == other_height
        }),
{
    assert(!Seq::<char>::empty().contains('x') && !Seq::<char>::empty().contains('X'));
    geometries_read_back(other_width, other_height, 'x', Seq::empty());
}

/// What is wrong with a number: that there is none, that something in it is no digit, or that it does
/// not fit. A number that fits is faultless, and what comes first in the text is told first.
pub proof fn faults_of_numbers_are_told(s: Seq<char>)
    ensures
        s.len() == 0 ==> number_fault(s) == Some("cannot parse integer from empty string"@),
        s.len() > 0 && !text::is_digit(s[0]) && s[0] != '+' ==> number_fault(s) == Some(
            "invalid digit found in string"@,
        ),
        s == seq!['+'] ==> number_fault(s) == Some("invalid digit found in string"@),
        s.len() > 0 && text::all_digits(s) && text::digits_value(s) > u32::MAX ==> number_fault(s)
            == Some("number too large to fit in target type"@),
{
    reveal_strlit("+");
    if s == seq!['+'] {
        assert(s =~= "+"@);
    }
    if s.len() > 0 && s[0] != '+' {
        assert(s != "+"@);
    }
    if s.len() > 0 && text::all_digits(s) && text::digits_value(s) > u32::MAX {
        assert(text::is_digit(s[0]));
        numerals_are_faultless(s);
        too_many_digits(s, 0);
    }
}

proof fn too_many_digits(s: Seq<char>, value: nat)
    requires
        text::all_digits(s),
        digits_fault(s, value) is Some,
    ensures
        digits_fault(s, value) == Some("number too large to fit in target type"@),
    decreases s.len(),
{
    if s.len() > 0 {
        assert(text::is_digit(s[0]));
        let next = value * 10 + (s[0] as u32 - 48) as nat;
        if next <= u32::MAX {
            let rest = s.skip(1);
            assert forall|i: int| 0 <= i < rest.len() implies text::is_digit(#[trigger] rest[i]) by {
                assert(rest[i] == s[i + 1]);
            }
            too_many_digits(rest, next);
        }
    }
}

} // verus!
