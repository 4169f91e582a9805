//! JSON text: reading values out of a message by JSON Pointer, and writing strings, objects and
//! lists in compact form.
use crate::text;
use vstd::prelude::*;
use vstd::string::*;

verus! {

// ---------------------------------------------------------------------------
// Reading
// ---------------------------------------------------------------------------

/// The compact form of the value that a JSON text holds at a JSON Pointer. Nothing where the text
/// is not JSON or holds no value there.
pub uninterp spec fn value_at(message: Seq<char>, pointer: Seq<char>) -> Option<Seq<char>>;

/// `serde_json::from_str` on the message, `Value::pointer` on what came of it, and the compact form
/// in which the value found is displayed: a function of the message and the pointer alone.
#[verifier::external_body]
pub(crate) fn read_value(message: &str, pointer: &str) -> (r: Option<String>)
    ensures
        text::opt_view(r) == value_at(message@, pointer@),
{
    let value: serde_json::Value = serde_json::from_str(message).ok()?;
    value.pointer(pointer).map(|found| found.to_string())
}

/// The text of the string that a JSON text holds at a JSON Pointer. Nothing where the text is not
/// JSON, holds no value there or holds a value of another type.
pub uninterp spec fn text_at(message: Seq<char>, pointer: Seq<char>) -> Option<Seq<char>>;

/// `serde_json::from_str` on the message, `Value::pointer` on what came of it, and `Value::as_str`
/// on the value found: a function of the message and the pointer alone.
#[verifier::external_body]
pub(crate) fn read_text(message: &str, pointer: &str) -> (r: Option<String>)
    ensures
        text::opt_view(r) == text_at(message@, pointer@),
{
    let value: serde_json::Value = serde_json::from_str(message).ok()?;
    value.pointer(pointer).and_then(|found| found.as_str()).map(String::from)
}

/// How many elements the list has that a JSON text holds at a JSON Pointer. Nothing where the text
/// is not JSON, holds no value there or holds a value of another type.
pub uninterp spec fn count_at(message: Seq<char>, pointer: Seq<char>) -> Option<usize>;

/// `serde_json::from_str` on the message, `Value::pointer` on what came of it, and the length of
/// the list that `Value::as_array` gives: a function of the message and the pointer alone.
#[verifier::external_body]
pub(crate) fn read_count(message: &str, pointer: &str) -> (r: Option<usize>)
    ensures
        r == count_at(message@, pointer@),
{
    let value: serde_json::Value = serde_json::from_str(message).ok()?;
    value.pointer(pointer).and_then(|found| found.as_array()).map(|list| list.len())
}

// ---------------------------------------------------------------------------
// Writing
// ---------------------------------------------------------------------------

/// A hexadecimal digit, in lower case.
pub open spec fn hex_digit(d: int) -> char {
    if d < 10 {
        (48 + d) as char
    } else {
        (87 + d) as char
    }
}

/// How a character is written inside a JSON string.
pub open spec fn escaped(c: char) -> Seq<char> {
    if c == '"' {
        seq!['\\', '"']
    } else if c == '\\' {
        seq!['\\', '\\']
    } else if c == '\u{8}' {
        seq!['\\', 'b']
    } else if c == '\t' {
        seq!['\\', 't']
    } else if c == '\n' {
        seq!['\\', 'n']
    } else if c == '\u{c}' {
        seq!['\\', 'f']
    } else if c == '\r' {
        seq!['\\', 'r']
    } else if (c as int) < 32 {
        seq!['\\', 'u', '0', '0', hex_digit(c as int / 16), hex_digit(c as int % 16)]
    } else {
        seq![c]
    }
}

/// The JSON string of a text: each character in its written form, between quotation marks.
pub open spec fn quoted(s: Seq<char>) -> Seq<char> {
    seq!['"'] + s.map_values(|c: char| escaped(c)).flatten() + seq!['"']
}

/// `serde_json::to_string` of a `str`: the JSON string of the text. Quotation marks, backslashes and
/// control characters below the space are escaped; every other character stands as it is.
#[verifier::external_body]
pub(crate) fn quote(s: &str) -> (r: String)
    ensures
        r@ == quoted(s@),
{
    serde_json::to_string(s).unwrap_or_default()
}

/// A JSON truth value.
pub open spec fn truth(b: bool) -> Seq<char> {
    if b {
        "true"@
    } else {
        "false"@
    }
}

/// A JSON truth value.
pub fn write_truth(b: bool) -> (r: String)
    ensures
        r@ == truth(b),
{
    if b {
        text::own("true")
    } else {
        text::own("false")
    }
}

/// A JSON list of elements that are JSON already.
pub open spec fn list(elements: Seq<Seq<char>>) -> Seq<char> {
    "["@ + text::joined(elements, ","@) + "]"@
}

/// A JSON list of elements that are JSON already.
pub fn write_list(elements: &[String]) -> (r: String)
    ensures
        r@ == list(text::views(elements@)),
{
    let inner = text::join(elements, ",");
    text::cat3("[", inner.as_str(), "]")
}

/// A member of a JSON object whose value is JSON already.
pub open spec fn member(key: Seq<char>, value: Seq<char>) -> Seq<char> {
    quoted(key) + ":"@ + value
}

/// A member of a JSON object whose value is JSON already.
pub fn write_member(key: &str, value: &str) -> (r: String)
    ensures
        r@ == member(key@, value@),
{
    let k = quote(key);
    text::cat3(k.as_str(), ":", value)
}

/// A JSON object with one member.
pub open spec fn object1(m: Seq<char>) -> Seq<char> {
    "{"@ + m + "}"@
}

/// A JSON object with two members.
pub open spec fn object2(m: Seq<char>, n: Seq<char>) -> Seq<char> {
    "{"@ + m + ","@ + n + "}"@
}

/// A JSON object with four members.
pub open spec fn object4(m: Seq<char>, n: Seq<char>, o: Seq<char>, p: Seq<char>) -> Seq<char> {
    "{"@ + m + ","@ + n + ","@ + o + ","@ + p + "}"@
}

/// A JSON object with one member.
pub fn write_object1(m: &str) -> (r: String)
    ensures
        r@ == object1(m@),
{
    text::cat3("{", m, "}")
}

/// A JSON object with two members.
pub fn write_object2(m: &str, n: &str) -> (r: String)
    ensures
        r@ == object2(m@, n@),
{
    text::cat5("{", m, ",", n, "}")
}

/// A JSON object with four members.
pub fn write_object4(m: &str, n: &str, o: &str, p: &str) -> (r: String)
    ensures
        r@ == object4(m@, n@, o@, p@),
{
    let first = text::cat4("{", m, ",", n);
    text::cat6(first.as_str(), ",", o, ",", p, "}")
}

// ---------------------------------------------------------------------------
// Laws
// ---------------------------------------------------------------------------

/// A text without quotation marks, backslashes and control characters is written as it is, between
/// quotation marks.
pub proof fn plain_texts_are_quoted_as_they_are(s: Seq<char>)
    requires
        forall|i: int|
            0 <= i < s.len() ==> #[trigger] s[i] != '"' && s[i] != '\\' && s[i] as int >= 32,
    ensures
        quoted(s) == seq!['"'] + s + seq!['"'],
{
    plain_texts_stand(s);
}

proof fn plain_texts_stand(s: Seq<char>)
    requires
        forall|i: int|
            0 <= i < s.len() ==> #[trigger] s[i] != '"' && s[i] != '\\' && s[i] as int >= 32,
    ensures
        s.map_values(|c: char| escaped(c)).flatten() == s,
    decreases s.len(),
{
    let f = |c: char| escaped(c);
    let parts = s.map_values(f);
    if s.len() > 0 {
        let rest = s.drop_first();
        assert(parts.drop_first() == rest.map_values(f));
        assert forall|i: int| 0 <= i < rest.len() implies #[trigger] rest[i] != '"' && rest[i]
            != '\\' && rest[i] as int >= 32 by {
            assert(rest[i] == s[i + 1]);
        }
        plain_texts_stand(rest);
        assert(s[0] != '"');
        assert(parts.first() == seq![s[0]]);
        assert(seq![s[0]] + rest == s);
    }
}

/// A member with a plain name is the name between quotation marks, a colon and the value.
pub proof fn plain_members_are_named(key: Seq<char>, value: Seq<char>)
    requires
        forall|i: int|
            0 <= i < key.len() ==> #[trigger] key[i] != '"' && key[i] != '\\' && key[i] as int >= 32,
    ensures
        member(key, value) == seq!['"'] + key + seq!['"', ':'] + value,
{
    reveal_strlit(":");
    plain_texts_are_quoted_as_they_are(key);
    assert(member(key, value) =~= seq!['"'] + key + seq!['"', ':'] + value);
}

} // verus!
