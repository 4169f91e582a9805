//! Standard base64: the alphabet and padding of RFC 4648.
//!
//! Two decoders share one encoder and one rule: every character and every padding position has to
//! be right. [`decode_strict`] takes payloads that arrive from a peer as they are; [`decode`] first
//! drops the line breaks that text is often wrapped with.
use crate::text;
use vstd::prelude::*;
use vstd::string::*;
use vstd::utf8::*;

verus! {

// ---------------------------------------------------------------------------
// The alphabet
// ---------------------------------------------------------------------------

/// The character that stands for a six-bit value.
#[verifier::opaque]
pub open spec fn symbol(v: nat) -> char {
    if v < 26 {
        (65 + v) as char
    } else if v < 52 {
        (71 + v) as char
    } else if v < 62 {
        (v - 4) as char
    } else if v == 62 {
        '+'
    } else {
        '/'
    }
}

/// The six-bit value that a byte of base64 text stands for, if it is in the alphabet.
#[verifier::opaque]
pub open spec fn sextet(c: u8) -> Option<u8> {
    if 65 <= c <= 90 {
        Some((c - 65) as u8)
    } else if 97 <= c <= 122 {
        Some((c - 71) as u8)
    } else if 48 <= c <= 57 {
        Some((c + 4) as u8)
    } else if c == 43 {
        Some(62u8)
    } else if c == 47 {
        Some(63u8)
    } else {
        None
    }
}

/// The padding character, `=`.
pub const PAD: u8 = 61;

fn symbol_of(v: u32) -> (c: char)
    requires
        v < 64,
    ensures
        c == symbol(v as nat),
{
    reveal(symbol);
    if v < 26 {
        (65u8 + v as u8) as char
    } else if v < 52 {
        (71u8 + v as u8) as char
    } else if v < 62 {
        (v as u8 - 4u8) as char
    } else if v == 62 {
        '+'
    } else {
        '/'
    }
}

fn sextet_of(c: u8) -> (r: Option<u8>)
    ensures
        r == sextet(c),
        r matches Some(v) ==> v < 64,
{
    reveal(sextet);
    if 65 <= c && c <= 90 {
        Some(c - 65)
    } else if 97 <= c && c <= 122 {
        Some(c - 71)
    } else if 48 <= c && c <= 57 {
        Some(c + 4)
    } else if c == 43 {
        Some(62u8)
    } else if c == 47 {
        Some(63u8)
    } else {
        None
    }
}

// ---------------------------------------------------------------------------
// Encoding
// ---------------------------------------------------------------------------

/// Three bytes as one 24-bit number.
pub open spec fn pack(b0: u8, b1: u8, b2: u8) -> nat {
    (b0 * 65536 + b1 * 256 + b2) as nat
}

/// The four symbols of a 24-bit number, the most significant first.
pub open spec fn symbols(n: nat) -> Seq<char> {
    seq![symbol(n / 262144), symbol(n / 4096 % 64), symbol(n / 64 % 64), symbol(n % 64)]
}

/// The base64 text of a byte sequence.
pub open spec fn encoding(data: Seq<u8>) -> Seq<char>
    decreases data.len(),
{
    if data.len() == 0 {
        seq![]
    } else if data.len() == 1 {
        symbols(pack(data[0], 0, 0)).take(2) + seq!['=', '=']
    } else if data.len() == 2 {
        symbols(pack(data[0], data[1], 0)).take(3) + seq!['=']
    } else {
        symbols(pack(data[0], data[1], data[2])) + encoding(data.skip(3))
    }
}

/// Encode bytes as standard base64.
pub fn encode(input: &[u8]) -> (r: String)
    ensures
        r@ == encoding(input@),
{
    let mut out = String::new();
    let mut i: usize = 0;
    assert(input@.skip(0) == input@);
    while input.len() - i >= 3
        invariant
            i <= input.len(),
            out@ + encoding(input@.skip(i as int)) == encoding(input@),
        decreases input.len() - i,
    {
        let n: u32 = input[i] as u32 * 65536 + input[i + 1] as u32 * 256 + input[i + 2] as u32;
        let ghost before = out@;
        let ghost rest = input@.skip(i as int);
        out.push(symbol_of(n / 262144));
        out.push(symbol_of(n / 4096 % 64));
        out.push(symbol_of(n / 64 % 64));
        out.push(symbol_of(n % 64));
        proof {
            assert(n as nat == pack(rest[0], rest[1], rest[2]));
            assert(out@ == before + symbols(n as nat));
            assert(rest.skip(3) == input@.skip(i + 3));
            assert(out@ + encoding(rest.skip(3)) == before + encoding(rest));
        }
        i += 3;
    }
    let ghost before = out@;
    let ghost rest = input@.skip(i as int);
    if input.len() - i == 1 {
        let n: u32 = input[i] as u32 * 65536;
        out.push(symbol_of(n / 262144));
        out.push(symbol_of(n / 4096 % 64));
        out.push('=');
        out.push('=');
        assert(n as nat == pack(rest[0], 0, 0));
        assert(out@ == before + encoding(rest));
    } else if input.len() - i == 2 {
        let n: u32 = input[i] as u32 * 65536 + input[i + 1] as u32 * 256;
        out.push(symbol_of(n / 262144));
        out.push(symbol_of(n / 4096 % 64));
        out.push(symbol_of(n / 64 % 64));
        out.push('=');
        assert(n as nat == pack(rest[0], rest[1], 0));
        assert(out@ == before + encoding(rest));
    } else {
        assert(out@ == before + encoding(rest));
    }
    out
}

// ---------------------------------------------------------------------------
// Strict decoding
// ---------------------------------------------------------------------------

/// What is wrong with byte `j` of a group of four, if anything. Padding is legal only in the last
/// group and only in its last two places, and nothing may follow it.
#[verifier::opaque]
pub open spec fn fault_at(g: Seq<u8>, j: int, last: bool) -> Option<Seq<char>> {
    if g[j] == PAD {
        if !last || j < 2 {
            Some("padding in an invalid position"@)
        } else {
            None
        }
    } else if j == 3 && g[2] == PAD {
        Some("data after padding"@)
    } else if sextet(g[j]) is None {
        Some("invalid base64 character "@ + text::decimal(g[j] as nat))
    } else {
        None
    }
}

/// The first thing wrong with a group of four bytes, if anything.
pub open spec fn group_fault(g: Seq<u8>, last: bool) -> Option<Seq<char>> {
    if fault_at(g, 0, last) is Some {
        fault_at(g, 0, last)
    } else if fault_at(g, 1, last) is Some {
        fault_at(g, 1, last)
    } else if fault_at(g, 2, last) is Some {
        fault_at(g, 2, last)
    } else {
        fault_at(g, 3, last)
    }
}

/// The six-bit value of a byte of text, zero where it has none.
pub open spec fn value_of(c: u8) -> nat {
    match sextet(c) {
        Some(v) => v as nat,
        None => 0,
    }
}

/// The 24-bit number that four bytes of text stand for, padding counting as zero.
pub open spec fn group_number(g: Seq<u8>) -> nat {
    value_of(g[0]) * 262144 + value_of(g[1]) * 4096 + value_of(g[2]) * 64 + value_of(g[3])
}

/// The three bytes of a 24-bit number, the most significant first.
pub open spec fn unpack(n: nat) -> Seq<u8> {
    seq![(n / 65536) as u8, (n / 256 % 256) as u8, (n % 256) as u8]
}

/// The bytes that a group of four stands for: three, less one for each padding character.
#[verifier::opaque]
pub open spec fn group_bytes(g: Seq<u8>) -> Seq<u8> {
    unpack(group_number(g)).take(if g[2] == PAD {
        1
    } else if g[3] == PAD {
        2
    } else {
        3
    })
}

/// The bytes that whole groups of four stand for, or what is wrong with the first bad one.
pub open spec fn groups_decoded(b: Seq<u8>) -> Result<Seq<u8>, Seq<char>>
    decreases b.len(),
{
    if b.len() < 4 {
        Ok(seq![])
    } else {
        match group_fault(b.take(4), b.len() == 4) {
            Some(fault) => Err(fault),
            None => match groups_decoded(b.skip(4)) {
                Ok(rest) => Ok(group_bytes(b.take(4)) + rest),
                Err(fault) => Err(fault),
            },
        }
    }
}

/// What the strict decoder makes of the bytes of a text.
pub open spec fn strictly_decoded(b: Seq<u8>) -> Result<Seq<u8>, Seq<char>> {
    if b.len() % 4 != 0 {
        Err("length "@ + text::decimal(b.len()) + " is not a multiple of 4"@)
    } else {
        groups_decoded(b)
    }
}

fn check_at(b: &[u8], i: usize, j: usize, last: bool) -> (r: Option<String>)
    requires
        i + 4 <= b.len(),
        j < 4,
    ensures
        match (r, fault_at(b@.subrange(i as int, i + 4), j as int, last)) {
            (Some(t), Some(fault)) => t@ == fault,
            (None, None) => true,
            _ => false,
        },
{
    reveal(fault_at);
    let c: u8 = b[i + j];
    if c == PAD {
        if !last || j < 2 {
            Some(text::own("padding in an invalid position"))
        } else {
            None
        }
    } else if j == 3 && b[i + 2] == PAD {
        Some(text::own("data after padding"))
    } else {
        match sextet_of(c) {
            Some(_) => None,
            None => Some(text::cat2("invalid base64 character ", text::to_decimal(c as u64).as_str())),
        }
    }
}

fn value_at(c: u8) -> (v: u32)
    ensures
        v == value_of(c),
        v < 64,
{
    match sextet_of(c) {
        Some(v) => v as u32,
        None => 0,
    }
}

fn check_group(b: &[u8], i: usize, last: bool) -> (r: Option<String>)
    requires
        i + 4 <= b.len(),
    ensures
        match (r, group_fault(b@.subrange(i as int, i + 4), last)) {
            (Some(t), Some(fault)) => t@ == fault,
            (None, None) => true,
            _ => false,
        },
{
    match check_at(b, i, 0, last) {
        Some(fault) => Some(fault),
        None => match check_at(b, i, 1, last) {
            Some(fault) => Some(fault),
            None => match check_at(b, i, 2, last) {
                Some(fault) => Some(fault),
                None => check_at(b, i, 3, last),
            },
        },
    }
}

fn push_group(out: &mut Vec<u8>, b: &[u8], i: usize)
    requires
        i + 4 <= b.len(),
    ensures
        final(out)@ == old(out)@ + group_bytes(b@.subrange(i as int, i + 4)),
{
    let n: u32 = value_at(b[i]) * 262144 + value_at(b[i + 1]) * 4096 + value_at(b[i + 2]) * 64
        + value_at(b[i + 3]);
    let ghost g = b@.subrange(i as int, i + 4);
    reveal(group_bytes);
    assert(n as nat == group_number(g));
    out.push((n / 65536) as u8);
    if b[i + 2] != PAD {
        out.push((n / 256 % 256) as u8);
        if b[i + 3] != PAD {
            out.push((n % 256) as u8);
        }
    }
    assert(out@ == old(out)@ + group_bytes(g));
}

/// How decoding a whole text goes on from what a first part gave: the bytes so far come first.
pub open spec fn resumed(
    whole: Result<Seq<u8>, Seq<char>>,
    done: Seq<u8>,
    rest: Result<Seq<u8>, Seq<char>>,
) -> bool {
    match (whole, rest) {
        (Ok(all), Ok(tail)) => all == done + tail,
        (Err(all), Err(tail)) => all == tail,
        _ => false,
    }
}

/// Decode standard base64, strict about the alphabet, the padding and the length.
pub fn decode_strict(input: &str) -> (r: Result<Vec<u8>, String>)
    ensures
        match (r, strictly_decoded(input.spec_bytes())) {
            (Ok(bytes), Ok(expected)) => bytes@ == expected,
            (Err(e), Err(fault)) => e@ == fault,
            _ => false,
        },
{
    decode_bytes(input.as_bytes())
}

fn decode_bytes(b: &[u8]) -> (r: Result<Vec<u8>, String>)
    ensures
        match (r, strictly_decoded(b@)) {
            (Ok(bytes), Ok(expected)) => bytes@ == expected,
            (Err(e), Err(fault)) => e@ == fault,
            _ => false,
        },
{
    if b.len() % 4 != 0 {
        let size: u64 = b.len() as u64;
        return Err(text::cat3("length ", text::to_decimal(size).as_str(), " is not a multiple of 4"));
    }
    let mut out: Vec<u8> = Vec::new();
    let mut i: usize = 0;
    proof {
        assert(b@.skip(0) == b@);
        if let Ok(all) = groups_decoded(b@) {
            assert(all == out@ + all);
        }
    }
    while i < b.len()
        invariant
            i <= b.len(),
            b.len() % 4 == 0,
            i % 4 == 0,
            resumed(groups_decoded(b@), out@, groups_decoded(b@.skip(i as int))),
        decreases b.len() - i,
    {
        let ghost rest = b@.skip(i as int);
        let ghost g = b@.subrange(i as int, i + 4);
        proof {
            assert(rest.take(4) == g);
            assert(rest.skip(4) == b@.skip(i + 4));
        }
        let last: bool = b.len() - i == 4;
        if let Some(fault) = check_group(b, i, last) {
            return Err(fault);
        }
        let ghost before = out@;
        push_group(&mut out, b, i);
        proof {
            if let Ok(tail) = groups_decoded(rest.skip(4)) {
                assert(before + (group_bytes(g) + tail) == out@ + tail);
            }
        }
        i += 4;
    }
    assert(out@ + Seq::<u8>::empty() == out@);
    Ok(out)
}

// ---------------------------------------------------------------------------
// Wrapped text
// ---------------------------------------------------------------------------

/// Line breaks, spaces and tabs, which wrapped base64 text may hold anywhere.
pub open spec fn is_wrapping(c: u8) -> bool {
    c == 10 || c == 13 || c == 32 || c == 9
}

/// The bytes of a text from byte `i` on, without those that wrap it.
pub open spec fn unwrapped(b: Seq<u8>, i: int) -> Seq<u8>
    decreases b.len() - i,
{
    if i >= b.len() {
        seq![]
    } else if is_wrapping(b[i]) {
        unwrapped(b, i + 1)
    } else {
        seq![b[i]] + unwrapped(b, i + 1)
    }
}

/// A byte that has no place in base64 text: it neither wraps nor pads and is not in the alphabet.
pub open spec fn is_foreign(c: u8) -> bool {
    !is_wrapping(c) && c != PAD && sextet(c) is None
}

/// The first foreign byte of a text from byte `i` on, with its position.
pub open spec fn first_foreign(b: Seq<u8>, i: int) -> Option<(u8, int)>
    decreases b.len() - i,
{
    if i >= b.len() {
        None
    } else if is_foreign(b[i]) {
        Some((b[i], i))
    } else {
        first_foreign(b, i + 1)
    }
}

/// What decoding makes of the bytes of a text that may be wrapped: a foreign byte is an error that
/// names it, and the rest goes by the strict rule once the wrapping is gone.
pub open spec fn decoded(b: Seq<u8>) -> Result<Seq<u8>, Seq<char>> {
    match first_foreign(b, 0) {
        Some((c, at)) => Err(
            "invalid base64 character "@ + text::debug_char(c as char) + " at position "@
                + text::decimal(at as nat),
        ),
        None => strictly_decoded(unwrapped(b, 0)),
    }
}

/// Decode standard base64. Wrapping white space is ignored; the alphabet, the padding and the length
/// have to be right, and a character outside the alphabet is named.
pub fn decode(input: &str) -> (r: Result<Vec<u8>, String>)
    ensures
        match (r, decoded(input.spec_bytes())) {
            (Ok(bytes), Ok(expected)) => bytes@ == expected,
            (Err(e), Err(fault)) => e@ == fault,
            _ => false,
        },
{
    let b: &[u8] = input.as_bytes();
    let mut kept: Vec<u8> = Vec::new();
    let mut i: usize = 0;
    assert(kept@ + unwrapped(b@, 0) == unwrapped(b@, 0));
    while i < b.len()
        invariant
            i <= b.len(),
            b@ == input.spec_bytes(),
            first_foreign(b@, 0) == first_foreign(b@, i as int),
            kept@ + unwrapped(b@, i as int) == unwrapped(b@, 0),
        decreases b.len() - i,
    {
        let c: u8 = b[i];
        if !(c == 10 || c == 13 || c == 32 || c == 9) {
            if c != PAD && sextet_of(c).is_none() {
                let at: u64 = i as u64;
                return Err(
                    text::cat4(
                        "invalid base64 character ",
                        text::format_debug_char(c as char).as_str(),
                        " at position ",
                        text::to_decimal(at).as_str(),
                    ),
                );
            }
            assert(kept@ + (seq![c] + unwrapped(b@, i + 1)) == kept@.push(c) + unwrapped(
                b@,
                i + 1,
            ));
            kept.push(c);
        }
        i += 1;
    }
    assert(kept@ + Seq::<u8>::empty() == kept@);
    decode_bytes(kept.as_slice())
}

// ---------------------------------------------------------------------------
// Laws
// ---------------------------------------------------------------------------

/// The bytes of a text whose characters are all ASCII.
pub open spec fn ascii_bytes(t: Seq<char>) -> Seq<u8> {
    Seq::new(t.len(), |i: int| t[i] as u8)
}

proof fn symbols_ascii(n: nat)
    requires
        n < 16777216,
    ensures
        is_ascii_chars(symbols(n)),
{
    symbol_round_trip(n / 262144);
    symbol_round_trip(n / 4096 % 64);
    symbol_round_trip(n / 64 % 64);
    symbol_round_trip(n % 64);
}

/// Base64 text is ASCII, and every three bytes begun take four characters.
pub proof fn encoding_shape(data: Seq<u8>)
    ensures
        is_ascii_chars(encoding(data)),
        encode_utf8(encoding(data)) == ascii_bytes(encoding(data)),
        encoding(data).len() == (data.len() + 2) / 3 * 4,
        encoding(data).len() % 4 == 0,
{
    encoding_ascii(data);
    is_ascii_chars_encode_utf8(encoding(data));
    assert(encode_utf8(encoding(data)) == ascii_bytes(encoding(data)));
}

proof fn encoding_ascii(data: Seq<u8>)
    ensures
        is_ascii_chars(encoding(data)),
        encoding(data).len() == (data.len() + 2) / 3 * 4,
    decreases data.len(),
{
    if data.len() == 0 {
    } else if data.len() == 1 {
        symbols_ascii(pack(data[0], 0, 0));
    } else if data.len() == 2 {
        symbols_ascii(pack(data[0], data[1], 0));
    } else {
        let head = symbols(pack(data[0], data[1], data[2]));
        let rest = data.skip(3);
        symbols_ascii(pack(data[0], data[1], data[2]));
        encoding_ascii(rest);
        assert(head.len() == 4);
        is_ascii_chars_concat(encoding(data), head, encoding(rest));
    }
}

proof fn symbol_round_trip(v: nat)
    requires
        v < 64,
    ensures
        sextet(symbol(v) as u8) == Some(v as u8),
        symbol(v) as u8 != PAD,
        !is_wrapping(symbol(v) as u8),
        symbol(v) <= '\u{7f}',
{
    reveal(symbol);
    reveal(sextet);
}

proof fn unpack_pack(b0: u8, b1: u8, b2: u8)
    ensures
        unpack(pack(b0, b1, b2)) == seq![b0, b1, b2],
        pack(b0, b1, b2) / 262144 < 64,
{
    assert(unpack(pack(b0, b1, b2)) == seq![b0, b1, b2]);
}

/// The text of one group of one, two or three bytes.
#[verifier::opaque]
spec fn group_text(d: Seq<u8>) -> Seq<char> {
    if d.len() == 1 {
        symbols(pack(d[0], 0, 0)).take(2) + seq!['=', '=']
    } else if d.len() == 2 {
        symbols(pack(d[0], d[1], 0)).take(3) + seq!['=']
    } else {
        symbols(pack(d[0], d[1], d[2]))
    }
}

proof fn digits_recompose(n: nat)
    requires
        n < 16777216,
    ensures
        n == (n / 262144) * 262144 + (n / 4096 % 64) * 4096 + (n / 64 % 64) * 64 + n % 64,
        n / 262144 < 64,
{
}

proof fn text_values(g: Seq<u8>, t: Seq<char>, n: nat)
    requires
        n < 16777216,
        g.len() == 4,
        t == symbols(n),
        g[0] == t[0] as u8,
        g[1] == t[1] as u8,
        g[2] == t[2] as u8 || (g[2] == PAD && n / 64 % 64 == 0),
        g[3] == t[3] as u8 || (g[3] == PAD && n % 64 == 0),
    ensures
        group_number(g) == n,
        sextet(g[0]) is Some,
        sextet(g[1]) is Some,
        g[2] == t[2] as u8 ==> sextet(g[2]) is Some,
        g[3] == t[3] as u8 ==> sextet(g[3]) is Some,
        sextet(PAD) is None,
{
    digits_recompose(n);
    symbol_round_trip(n / 262144);
    symbol_round_trip(n / 4096 % 64);
    symbol_round_trip(n / 64 % 64);
    symbol_round_trip(n % 64);
    assert(sextet(PAD) is None) by {
        reveal(sextet);
    }
}

#[verifier::spinoff_prover]
proof fn group_of_one(d: Seq<u8>)
    requires
        d.len() == 1,
    ensures
        group_fault(ascii_bytes(group_text(d)), true) is None,
        group_bytes(ascii_bytes(group_text(d))) == d,
{
    reveal(group_text);
    let g = ascii_bytes(group_text(d));
    let n = pack(d[0], 0, 0);
    unpack_pack(d[0], 0, 0);
    text_values(g, symbols(n), n);
    assert(group_fault(g, true) is None) by {
        reveal(fault_at);
    }
    assert(group_bytes(g) == d) by {
        reveal(group_bytes);
    }
}

#[verifier::spinoff_prover]
proof fn group_of_two(d: Seq<u8>)
    requires
        d.len() == 2,
    ensures
        group_fault(ascii_bytes(group_text(d)), true) is None,
        group_bytes(ascii_bytes(group_text(d))) == d,
{
    reveal(group_text);
    let g = ascii_bytes(group_text(d));
    let n = pack(d[0], d[1], 0);
    unpack_pack(d[0], d[1], 0);
    text_values(g, symbols(n), n);
    assert(group_fault(g, true) is None) by {
        reveal(fault_at);
    }
    assert(group_bytes(g) == d) by {
        reveal(group_bytes);
    }
}

#[verifier::spinoff_prover]
proof fn group_of_three(d: Seq<u8>, last: bool)
    requires
        d.len() == 3,
    ensures
        group_fault(ascii_bytes(group_text(d)), last) is None,
        group_bytes(ascii_bytes(group_text(d))) == d,
{
    reveal(group_text);
    let g = ascii_bytes(group_text(d));
    let n = pack(d[0], d[1], d[2]);
    unpack_pack(d[0], d[1], d[2]);
    text_values(g, symbols(n), n);
    assert(group_fault(g, last) is None) by {
        reveal(fault_at);
    }
    assert(group_bytes(g) == d) by {
        reveal(group_bytes);
    }
}

proof fn group_round_trip(d: Seq<u8>, last: bool)
    requires
        1 <= d.len() <= 3,
        d.len() < 3 ==> last,
    ensures
        group_fault(ascii_bytes(group_text(d)), last) is None,
        group_bytes(ascii_bytes(group_text(d))) == d,
{
    if d.len() == 1 {
        group_of_one(d);
    } else if d.len() == 2 {
        group_of_two(d);
    } else {
        group_of_three(d, last);
    }
}

proof fn encoding_split(data: Seq<u8>, d: Seq<u8>, rest: Seq<u8>)
    requires
        data == d + rest,
        1 <= d.len() <= 3,
        d.len() < 3 ==> rest.len() == 0,
    ensures
        encoding(data) == group_text(d) + encoding(rest),
        group_text(d).len() == 4,
        encoding(rest).len() == 0 <==> rest.len() == 0,
{
    reveal(group_text);
    encoding_shape(rest);
    if d.len() < 3 {
        assert(data == d);
        assert(encoding(data) == group_text(d) + encoding(rest));
    } else {
        assert(data.skip(3) == rest);
    }
}

proof fn groups_step(b: Seq<u8>, g: Seq<u8>, tail: Seq<u8>, bytes: Seq<u8>, rest: Seq<u8>)
    requires
        b == g + tail,
        g.len() == 4,
        group_fault(g, tail.len() == 0) is None,
        group_bytes(g) == bytes,
        groups_decoded(tail) == Ok::<Seq<u8>, Seq<char>>(rest),
    ensures
        groups_decoded(b) == Ok::<Seq<u8>, Seq<char>>(bytes + rest),
{
    assert(b.take(4) == g);
    assert(b.skip(4) == tail);
}

proof fn groups_round_trip(data: Seq<u8>)
    ensures
        groups_decoded(ascii_bytes(encoding(data))) == Ok::<Seq<u8>, Seq<char>>(data),
    decreases data.len(),
{
    if data.len() == 0 {
        assert(data == Seq::<u8>::empty());
    } else {
        let k: int = if data.len() < 3 {
            data.len() as int
        } else {
            3
        };
        let d = data.take(k);
        let rest = data.skip(k);
        assert(data == d + rest);
        encoding_split(data, d, rest);
        group_round_trip(d, encoding(rest).len() == 0);
        groups_round_trip(rest);
        let g = ascii_bytes(group_text(d));
        let tail = ascii_bytes(encoding(rest));
        assert(ascii_bytes(group_text(d) + encoding(rest)) == g + tail);
        groups_step(ascii_bytes(encoding(data)), g, tail, d, rest);
    }
}

/// Decoding what was encoded gives the bytes back, with the strict decoder.
pub proof fn strict_round_trip(data: Seq<u8>)
    ensures
        strictly_decoded(encode_utf8(encoding(data))) == Ok::<Seq<u8>, Seq<char>>(data),
{
    encoding_shape(data);
    groups_round_trip(data);
}

/// Text that the strict decoder accepts decodes to the same bytes where wrapping is allowed.
pub proof fn decoders_agree(b: Seq<u8>)
    requires
        strictly_decoded(b) is Ok,
    ensures
        decoded(b) == strictly_decoded(b),
{
    assert(b.skip(0) == b);
    nothing_to_unwrap(b, 0);
}

proof fn nothing_to_unwrap(b: Seq<u8>, i: int)
    requires
        0 <= i <= b.len(),
        (b.len() - i) % 4 == 0,
        groups_decoded(b.skip(i)) is Ok,
    ensures
        unwrapped(b, i) == b.skip(i),
        first_foreign(b, i) is None,
    decreases b.len() - i,
{
    if i < b.len() {
        let rest = b.skip(i);
        let g = rest.take(4);
        let last = rest.len() == 4;
        assert(g[0] == b[i] && g[1] == b[i + 1] && g[2] == b[i + 2] && g[3] == b[i + 3]);
        assert(fault_at(g, 0, last) is None && fault_at(g, 1, last) is None);
        assert(fault_at(g, 2, last) is None && fault_at(g, 3, last) is None);
        reveal(fault_at);
        reveal(sextet);
        assert(rest.skip(4) == b.skip(i + 4));
        nothing_to_unwrap(b, i + 4);
        assert(first_foreign(b, i + 3) is None);
        assert(first_foreign(b, i + 2) is None);
        assert(first_foreign(b, i + 1) is None);
        assert(unwrapped(b, i + 3) == seq![b[i + 3]] + b.skip(i + 4));
        assert(unwrapped(b, i + 2) == seq![b[i + 2]] + unwrapped(b, i + 3));
        assert(unwrapped(b, i + 1) == seq![b[i + 1]] + unwrapped(b, i + 2));
        assert(unwrapped(b, i) == b.skip(i));
    } else {
        assert(b.skip(i) == Seq::<u8>::empty());
    }
}

/// Decoding what was encoded gives the bytes back where wrapping is allowed, too.
pub proof fn wrapped_round_trip(data: Seq<u8>)
    ensures
        decoded(encode_utf8(encoding(data))) == Ok::<Seq<u8>, Seq<char>>(data),
{
    strict_round_trip(data);
    decoders_agree(encode_utf8(encoding(data)));
}

proof fn wrapping_skipped(b: Seq<u8>, k: int, w: u8, i: int)
    requires
        0 <= i <= k <= b.len(),
        is_wrapping(w),
    ensures
        unwrapped(b.insert(k, w), i) == unwrapped(b, i),
        first_foreign(b.insert(k, w), i) is None <==> first_foreign(b, i) is None,
    decreases b.len() - i,
{
    let wrapped = b.insert(k, w);
    if i == k {
        assert(wrapped[i] == w);
        tail_shift(b, k, w, k);
    } else {
        assert(wrapped[i] == b[i]);
        wrapping_skipped(b, k, w, i + 1);
    }
}

proof fn tail_shift(b: Seq<u8>, k: int, w: u8, i: int)
    requires
        0 <= k <= i <= b.len(),
    ensures
        unwrapped(b.insert(k, w), i + 1) == unwrapped(b, i),
        first_foreign(b.insert(k, w), i + 1) is None <==> first_foreign(b, i) is None,
    decreases b.len() - i,
{
    if i < b.len() {
        assert(b.insert(k, w)[i + 1] == b[i]);
        tail_shift(b, k, w, i + 1);
    }
}

/// A line break, space or tab put anywhere into a text changes neither whether it decodes nor the
/// bytes it gives.
pub proof fn wrapping_is_ignored(b: Seq<u8>, k: int, w: u8)
    requires
        0 <= k <= b.len(),
        is_wrapping(w),
    ensures
        decoded(b.insert(k, w)) is Ok <==> decoded(b) is Ok,
        decoded(b) is Ok ==> decoded(b.insert(k, w)) == decoded(b),
{
    wrapping_skipped(b, k, w, 0);
}

/// What decodes is padded in full: without its wrapping it is a whole number of groups of four.
pub proof fn padding_is_demanded(b: Seq<u8>)
    ensures
        decoded(b) is Ok ==> unwrapped(b, 0).len() % 4 == 0,
{
}

/// The alphabet is the standard one: upper case letters, lower case letters, digits, plus and slash,
/// in that order.
pub proof fn the_alphabet_is_the_standard_one(v: nat)
    requires
        v < 64,
    ensures
        v < 26 ==> symbol(v) as int == 'A' as int + v,
        26 <= v < 52 ==> symbol(v) as int == 'a' as int + (v - 26),
        52 <= v < 62 ==> symbol(v) as int == '0' as int + (v - 52),
        v == 62 ==> symbol(v) == '+',
        v == 63 ==> symbol(v) == '/',
{
    reveal(symbol);
}

/// Three bytes become four symbols of six bits each, the most significant first. A last byte, or a
/// last two, are filled up with zero bits, and one or two signs say how many bytes are missing.
pub proof fn bytes_are_written_six_bits_at_a_time(a: u8, b: u8, c: u8, rest: Seq<u8>)
    ensures
        encoding(seq![a, b, c] + rest) == seq![
            symbol((a / 4) as nat),
            symbol((a % 4 * 16 + b / 16) as nat),
            symbol((b % 16 * 4 + c / 64) as nat),
            symbol((c % 64) as nat),
        ] + encoding(rest),
        encoding(seq![a, b]) == seq![
            symbol((a / 4) as nat),
            symbol((a % 4 * 16 + b / 16) as nat),
            symbol((b % 16 * 4) as nat),
            '=',
        ],
        encoding(seq![a]) == seq![symbol((a / 4) as nat), symbol((a % 4 * 16) as nat), '=', '='],
{
    let all = seq![a, b, c] + rest;
    assert(all.skip(3) =~= rest);
    assert(all[0] == a && all[1] == b && all[2] == c);
    six_bits(a, b, c);
    six_bits(a, b, 0);
    six_bits(a, 0, 0);
    assert(encoding(seq![a, b]) =~= seq![
        symbol((a / 4) as nat),
        symbol((a % 4 * 16 + b / 16) as nat),
        symbol((b % 16 * 4) as nat),
        '=',
    ]);
    assert(encoding(seq![a]) =~= seq![
        symbol((a / 4) as nat),
        symbol((a % 4 * 16) as nat),
        '=',
        '=',
    ]);
}

proof fn six_bits(a: u8, b: u8, c: u8)
    ensures
        pack(a, b, c) / 262144 == a / 4,
        pack(a, b, c) / 4096 % 64 == a % 4 * 16 + b / 16,
        pack(a, b, c) / 64 % 64 == b % 16 * 4 + c / 64,
        pack(a, b, c) % 64 == c % 64,
{
    let n = pack(a, b, c) as int;
    let (a1, a2) = (a as int / 4, a as int % 4);
    let (b1, b2) = (b as int / 16, b as int % 16);
    let (c1, c2) = (c as int / 64, c as int % 64);
    parted(n, 262144, a1, 65536 * a2 + 4096 * b1 + 256 * b2 + 64 * c1 + c2);
    parted(n, 4096, 64 * a1 + (16 * a2 + b1), 256 * b2 + 64 * c1 + c2);
    parted(64 * a1 + (16 * a2 + b1), 64, a1, 16 * a2 + b1);
    parted(n, 64, 64 * (64 * a1 + 16 * a2 + b1) + (4 * b2 + c1), c2);
    parted(
        64 * (64 * a1 + 16 * a2 + b1) + (4 * b2 + c1),
        64,
        64 * a1 + 16 * a2 + b1,
        4 * b2 + c1,
    );
}

proof fn parted(n: int, d: int, q: int, r: int)
    requires
        n == d * q + r,
        0 <= r < d,
    ensures
        n / d == q,
        n % d == r,
{
    assert(d * q == q * d) by (nonlinear_arith);
    vstd::arithmetic::div_mod::lemma_fundamental_div_mod_converse(n, d, q, r);
}

/// Text that decodes strictly is a whole number of groups of four, and holds nothing but the alphabet,
/// and at most two equals signs at its very end.
pub proof fn only_the_alphabet_decodes(b: Seq<u8>, i: int)
    requires
        strictly_decoded(b) is Ok,
        0 <= i < b.len(),
    ensures
        b.len() % 4 == 0,
        (65 <= b[i] <= 90) || (97 <= b[i] <= 122) || (48 <= b[i] <= 57) || b[i] == 43 || b[i] == 47
            || (b[i] == 61 && i >= b.len() - 2),
    decreases b.len(),
{
    reveal(sextet);
    reveal(fault_at);
    let g = b.take(4);
    if i < 4 {
        assert(g[i] == b[i]);
        assert(fault_at(g, 0, b.len() == 4) is None && fault_at(g, 1, b.len() == 4) is None);
        assert(fault_at(g, 2, b.len() == 4) is None && fault_at(g, 3, b.len() == 4) is None);
        assert(fault_at(g, i, b.len() == 4) is None) by {
            assert(i == 0 || i == 1 || i == 2 || i == 3);
        }
        assert(b[i] == 61 || sextet(b[i]) is Some);
        assert(b[i] == 61 ==> b.len() == 4 && i >= 2);
    } else {
        let rest = b.skip(4);
        assert(rest.len() % 4 == 0);
        only_the_alphabet_decodes(rest, i - 4);
        assert(rest[i - 4] == b[i]);
    }
}

/// What may wrap base64 text is a line feed, a carriage return, a space or a tab. Anything else that is
/// not in the alphabet, nor an equals sign, is refused where it stands.
pub proof fn only_white_space_wraps(b: Seq<u8>, c: u8, i: int)
    ensures
        is_wrapping(c) <==> c == 10 || c == 13 || c == 32 || c == 9,
        decoded(b) is Ok && 0 <= i < b.len() ==> !is_foreign(b[i]),
        is_foreign(c) <==> !is_wrapping(c) && c != 61 && c != 43 && c != 47 && !(65 <= c <= 90) && !(97
            <= c <= 122) && !(48 <= c <= 57),
{
    reveal(sextet);
    if 0 <= i < b.len() && is_foreign(b[i]) {
        foreign_bytes_are_found(b, 0, i);
    }
}

proof fn foreign_bytes_are_found(b: Seq<u8>, from: int, i: int)
    requires
        0 <= from <= i < b.len(),
        is_foreign(b[i]),
    ensures
        first_foreign(b, from) is Some,
    decreases i - from,
{
    if from < i && !is_foreign(b[from]) {
        foreign_bytes_are_found(b, from + 1, i);
    }
}

} // verus!
