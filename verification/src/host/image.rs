//! PPM decoding and PNG encoding, so that a screen dump can be returned as a PNG.
use crate::png;
use crate::text;
use vstd::prelude::*;
use vstd::slice::*;
use vstd::string::*;

verus! {

/// A decoded image.
#[derive(Debug)]
pub struct Image {
    pub width: u32,
    pub height: u32,
    /// RGBA8, row-major, top-down.
    pub rgba: Vec<u8>,
}

// ---------------------------------------------------------------------------
// The PPM header
// ---------------------------------------------------------------------------

/// ASCII white space.
pub open spec fn is_blank(c: u8) -> bool {
    c == 32 || c == 9 || c == 10 || c == 12 || c == 13
}

/// An ASCII digit.
pub open spec fn is_digit(c: u8) -> bool {
    48 <= c <= 57
}

/// Where the line that holds byte `at` ends: at a line feed, or at the end of the bytes.
pub open spec fn line_end(b: Seq<u8>, at: int) -> int
    decreases b.len() - at,
{
    if at >= b.len() || b[at] == 10 {
        at
    } else {
        line_end(b, at + 1)
    }
}

/// The first byte from `at` on that is neither white space nor part of a comment. A comment runs
/// from `#` to the end of its line.
pub open spec fn token_start(b: Seq<u8>, at: int) -> int
    decreases b.len() - at,
    via token_start_decreases
{
    if at >= b.len() {
        at
    } else if is_blank(b[at]) {
        token_start(b, at + 1)
    } else if b[at] == 35 {
        token_start(b, line_end(b, at))
    } else {
        at
    }
}

#[via_fn]
proof fn token_start_decreases(b: Seq<u8>, at: int) {
    if at < b.len() && b[at] == 35 {
        line_end_bounds(b, at + 1);
    }
}

proof fn line_end_bounds(b: Seq<u8>, at: int)
    requires
        at <= b.len(),
    ensures
        at <= line_end(b, at) <= b.len(),
    decreases b.len() - at,
{
    if at < b.len() && b[at] != 10 {
        line_end_bounds(b, at + 1);
    }
}

proof fn token_start_bounds(b: Seq<u8>, at: int)
    requires
        at <= b.len(),
    ensures
        at <= token_start(b, at) <= b.len(),
    decreases b.len() - at,
{
    if at < b.len() {
        if is_blank(b[at]) {
            token_start_bounds(b, at + 1);
        } else if b[at] == 35 {
            line_end_bounds(b, at + 1);
            token_start_bounds(b, line_end(b, at));
        }
    }
}

/// Where the run of digits from `at` on ends.
pub open spec fn digits_end(b: Seq<u8>, at: int) -> int
    decreases b.len() - at,
{
    if at >= b.len() || !is_digit(b[at]) {
        at
    } else {
        digits_end(b, at + 1)
    }
}

proof fn digits_end_bounds(b: Seq<u8>, at: int)
    requires
        0 <= at <= b.len(),
    ensures
        at <= digits_end(b, at) <= b.len(),
        forall|k: int| at <= k < digits_end(b, at) ==> is_digit(#[trigger] b[k]),
    decreases b.len() - at,
{
    if at < b.len() && is_digit(b[at]) {
        digits_end_bounds(b, at + 1);
    }
}

/// Bytes as characters of the same codes.
pub open spec fn as_chars(b: Seq<u8>) -> Seq<char> {
    Seq::new(b.len(), |i: int| b[i] as char)
}

/// One header field: its value and where it ends, or what is wrong with it. `done` fields came
/// before it.
pub open spec fn field(b: Seq<u8>, at: int, done: nat) -> Result<(u32, int), Seq<char>> {
    let start = token_start(b, at);
    let end = digits_end(b, start);
    if start >= b.len() {
        Err("the PPM header ended after "@ + text::decimal(done) + " field(s)"@)
    } else if start == end {
        Err(
            "expected a number in the PPM header at byte "@ + text::decimal(start as nat)
                + ", found "@ + text::debug_char(b[start] as char),
        )
    } else if text::digits_value(as_chars(b.subrange(start, end))) > u32::MAX {
        Err("parsing a PPM header field: number too large to fit in target type"@)
    } else {
        Ok((text::digits_value(as_chars(b.subrange(start, end))) as u32, end))
    }
}

/// The three header fields, width, height and largest sample value, with where the header ends, or
/// what is wrong with the first bad one.
pub open spec fn header(b: Seq<u8>) -> Result<(u32, u32, u32, int), Seq<char>> {
    match field(b, 2, 0) {
        Err(e) => Err(e),
        Ok((width, at1)) => match field(b, at1, 1) {
            Err(e) => Err(e),
            Ok((height, at2)) => match field(b, at2, 2) {
                Err(e) => Err(e),
                Ok((maxval, at3)) => Ok((width, height, maxval, at3)),
            },
        },
    }
}

/// RGB samples with an opaque alpha behind each three.
pub open spec fn with_alpha(rgb: Seq<u8>) -> Seq<u8> {
    Seq::new(
        rgb.len() / 3 * 4,
        |i: int|
            if i % 4 == 3 {
                255u8
            } else {
                rgb[i / 4 * 3 + i % 4]
            },
    )
}

/// How many bytes the samples of an RGB image take.
pub open spec fn sample_bytes(width: u32, height: u32) -> nat {
    (width * height * 3) as nat
}

/// What decoding a binary PPM comes to: its size and its pixels, or what is wrong with it.
pub open spec fn decoded(b: Seq<u8>) -> Result<(u32, u32, Seq<u8>), Seq<char>> {
    if b.len() < 2 {
        Err("the file is too short to be a PPM"@)
    } else if !(b[0] == 80 && b[1] == 54) {
        Err(
            "expected a binary PPM (P6), found "@ + text::debug_text(text::lossy(b.take(2)))
                + ". A P3 (ASCII) file would need a different decoder; check whether QEMU was asked for a different format"@,
        )
    } else {
        match header(b) {
            Err(e) => Err(e),
            Ok((width, height, maxval, at)) => body(b, width, height, maxval, at),
        }
    }
}

/// What the bytes behind a PPM header come to. Exactly one byte separates the two.
pub open spec fn body(b: Seq<u8>, width: u32, height: u32, maxval: u32, at: int) -> Result<
    (u32, u32, Seq<u8>),
    Seq<char>,
> {
    let needed = sample_bytes(width, height);
    let available = b.len() - at - 1;
    if width == 0 || height == 0 {
        Err(
            "the PPM declares a "@ + text::decimal(width as nat) + "x"@ + text::decimal(
                height as nat,
            ) + " image, which has no pixels"@,
        )
    } else if maxval != 255 {
        Err(
            "the PPM declares a maximum value of "@ + text::decimal(maxval as nat)
                + "; only 8-bit samples are handled. QEMU emits 255"@,
        )
    } else if at >= b.len() {
        Err("the PPM header is not followed by any pixel data"@)
    } else if available < needed {
        Err(truncated(available as nat, width, height))
    } else {
        Ok((width, height, with_alpha(b.subrange(at + 1, at + 1 + needed))))
    }
}

/// What a PPM with too few bytes behind its header is refused with.
pub open spec fn truncated(available: nat, width: u32, height: u32) -> Seq<char> {
    "the PPM is truncated: "@ + text::decimal(available) + " bytes of pixel data for a "@
        + text::decimal(width as nat) + "x"@ + text::decimal(height as nat)
        + " image, which needs "@ + text::decimal(sample_bytes(width, height))
        + ". A partial screendump reads exactly like this"@
}

fn blank(c: u8) -> (r: bool)
    ensures
        r == is_blank(c),
{
    c == 32 || c == 9 || c == 10 || c == 12 || c == 13
}

fn skip_whitespace_and_comments(bytes: &[u8], from: usize) -> (at: usize)
    requires
        from <= bytes@.len(),
    ensures
        at == token_start(bytes@, from as int),
        from <= at <= bytes@.len(),
{
    let mut at: usize = from;
    while at < bytes.len() && (blank(bytes[at]) || bytes[at] == 35)
        invariant
            from <= at <= bytes@.len(),
            token_start(bytes@, from as int) == token_start(bytes@, at as int),
        decreases bytes.len() - at,
    {
        if blank(bytes[at]) {
            at += 1;
        } else {
            let ghost start = at;
            proof {
                line_end_bounds(bytes@, at + 1);
            }
            at += 1;
            while at < bytes.len() && bytes[at] != 10
                invariant
                    start < at <= bytes@.len(),
                    bytes@[start as int] == 35,
                    line_end(bytes@, start as int) == line_end(bytes@, at as int),
                decreases bytes.len() - at,
            {
                at += 1;
            }
        }
    }
    at
}

fn read_field(bytes: &[u8], from: usize, done: u64) -> (r: Result<(u32, usize), String>)
    requires
        from <= bytes@.len(),
    ensures
        match (r, field(bytes@, from as int, done as nat)) {
            (Ok((value, at)), Ok((expected, end))) => value == expected && at == end && at
                <= bytes@.len(),
            (Err(e), Err(why)) => e@ == why,
            _ => false,
        },
{
    let start: usize = skip_whitespace_and_comments(bytes, from);
    if start >= bytes.len() {
        return Err(
            text::cat3("the PPM header ended after ", text::to_decimal(done).as_str(), " field(s)"),
        );
    }
    let mut at: usize = start;
    let mut digits: Vec<char> = Vec::new();
    proof {
        digits_end_bounds(bytes@, start as int);
    }
    while at < bytes.len() && 48 <= bytes[at] && bytes[at] <= 57
        invariant
            start <= at <= bytes@.len(),
            digits_end(bytes@, start as int) == digits_end(bytes@, at as int),
            digits@ == as_chars(bytes@.subrange(start as int, at as int)),
        decreases bytes.len() - at,
    {
        let ghost before = digits@;
        digits.push(bytes[at] as char);
        assert(digits@ =~= as_chars(bytes@.subrange(start as int, at + 1)));
        at += 1;
    }
    if start == at {
        let place: u64 = at as u64;
        return Err(
            text::cat4(
                "expected a number in the PPM header at byte ",
                text::to_decimal(place).as_str(),
                ", found ",
                text::format_debug_char(bytes[at] as char).as_str(),
            ),
        );
    }
    proof {
        assert forall|k: int| 0 <= k < digits@.len() implies text::is_digit(#[trigger] digits@[k]) by {
            assert(is_digit(bytes@[start + k]));
        }
        assert(digits@[0] != '+');
    }
    match text::parse_u32(&digits) {
        Some(value) => Ok((value, at)),
        None => Err(
            text::own("parsing a PPM header field: number too large to fit in target type"),
        ),
    }
}

fn add_alpha(rgb: &[u8]) -> (r: Vec<u8>)
    requires
        rgb@.len() % 3 == 0,
    ensures
        r@ == with_alpha(rgb@),
{
    let mut out: Vec<u8> = Vec::new();
    let mut i: usize = 0;
    while i < rgb.len()
        invariant
            i <= rgb.len(),
            i % 3 == 0,
            rgb@.len() % 3 == 0,
            out@ == with_alpha(rgb@).take(i / 3 * 4),
        decreases rgb.len() - i,
    {
        let ghost before = out@;
        out.push(rgb[i]);
        out.push(rgb[i + 1]);
        out.push(rgb[i + 2]);
        out.push(255);
        proof {
            let k = i as int / 3;
            assert(i == 3 * k);
            assert((i + 3) / 3 * 4 == 4 * k + 4);
            let all = with_alpha(rgb@);
            assert(all[4 * k] == rgb@[i as int]);
            assert(all[4 * k + 1] == rgb@[i + 1]);
            assert(all[4 * k + 2] == rgb@[i + 2]);
            assert(all[4 * k + 3] == 255);
            assert(out@ =~= all.take(4 * k + 4));
        }
        i += 3;
    }
    assert(with_alpha(rgb@).take(rgb@.len() as int / 3 * 4) == with_alpha(rgb@));
    out
}

/// Decode a binary PPM (P6).
pub fn decode_ppm(bytes: &[u8]) -> (r: Result<Image, String>)
    ensures
        match (r, decoded(bytes@)) {
            (Ok(image), Ok((width, height, rgba))) => {
                &&& image.width == width
                &&& image.height == height
                &&& image.rgba@ == rgba
            },
            (Err(e), Err(why)) => e@ == why,
            _ => false,
        },
{
    if bytes.len() < 2 {
        return Err(text::own("the file is too short to be a PPM"));
    }
    if !(bytes[0] == 80 && bytes[1] == 54) {
        let found = text::from_utf8_lossy(slice_subrange(bytes, 0, 2));
        assert(bytes@.subrange(0, 2) == bytes@.take(2));
        return Err(
            text::cat3(
                "expected a binary PPM (P6), found ",
                text::format_debug_text(found.as_str()).as_str(),
                ". A P3 (ASCII) file would need a different decoder; check whether QEMU was asked for a different format",
            ),
        );
    }
    let (width, at1) = match read_field(bytes, 2, 0) {
        Ok(found) => found,
        Err(e) => return Err(e),
    };
    let (height, at2) = match read_field(bytes, at1, 1) {
        Ok(found) => found,
        Err(e) => return Err(e),
    };
    let (maxval, at3) = match read_field(bytes, at2, 2) {
        Ok(found) => found,
        Err(e) => return Err(e),
    };
    read_body(bytes, width, height, maxval, at3)
}

fn read_body(bytes: &[u8], width: u32, height: u32, maxval: u32, at: usize) -> (r: Result<
    Image,
    String,
>)
    requires
        at <= bytes@.len(),
    ensures
        match (r, body(bytes@, width, height, maxval, at as int)) {
            (Ok(image), Ok((w, h, rgba))) => {
                &&& image.width == w
                &&& image.height == h
                &&& image.rgba@ == rgba
            },
            (Err(e), Err(why)) => e@ == why,
            _ => false,
        },
{
    let width_text = text::to_decimal(width as u64);
    let height_text = text::to_decimal(height as u64);
    if width == 0 || height == 0 {
        return Err(
            text::cat5(
                "the PPM declares a ",
                width_text.as_str(),
                "x",
                height_text.as_str(),
                " image, which has no pixels",
            ),
        );
    }
    if maxval != 255 {
        return Err(
            text::cat3(
                "the PPM declares a maximum value of ",
                text::to_decimal(maxval as u64).as_str(),
                "; only 8-bit samples are handled. QEMU emits 255",
            ),
        );
    }
    if at >= bytes.len() {
        return Err(text::own("the PPM header is not followed by any pixel data"));
    }
    assert(0 <= width * height <= 0x1_0000_0000 * 0x1_0000_0000) by (nonlinear_arith)
        requires
            0 <= width <= 0xffff_ffff,
            0 <= height <= 0xffff_ffff,
    ;
    let needed: u128 = width as u128 * height as u128 * 3;
    let available: usize = bytes.len() - at - 1;
    let available_wide: u64 = available as u64;
    if (available_wide as u128) < needed {
        let size = text::cat3(width_text.as_str(), "x", height_text.as_str());
        let message = text::cat7(
            "the PPM is truncated: ",
            text::to_decimal(available_wide).as_str(),
            " bytes of pixel data for a ",
            size.as_str(),
            " image, which needs ",
            text::to_decimal_wide(needed).as_str(),
            ". A partial screendump reads exactly like this",
        );
        assert(message@ == truncated(available as nat, width, height));
        return Err(message);
    }
    let count: usize = needed as usize;
    let samples = slice_subrange(bytes, at + 1, at + 1 + count);
    Ok(Image { width, height, rgba: add_alpha(samples) })
}

// ---------------------------------------------------------------------------
// PNG
// ---------------------------------------------------------------------------

/// What a pixel buffer that is too small is refused with.
pub open spec fn short_buffer(len: nat, width: u32, height: u32) -> Seq<char> {
    "the pixel buffer is "@ + text::decimal(len) + " bytes, need "@ + text::decimal(
        png::pixel_bytes(width, height),
    ) + " for "@ + text::decimal(width as nat) + "x"@ + text::decimal(height as nat)
}

/// Encode an image as a PNG, refusing one whose buffer is too small for its size.
pub fn encode_png(image: &Image) -> (r: Result<Vec<u8>, String>)
    ensures
        r is Ok <==> image.rgba@.len() >= png::pixel_bytes(image.width, image.height),
        match r {
            Ok(file) => file@ == png::png(image.rgba@, image.width, image.height),
            Err(e) => e@ == short_buffer(image.rgba@.len(), image.width, image.height),
        },
{
    let needed: u128 = png::pixel_bytes_of(image.width, image.height);
    let len: u64 = image.rgba.len() as u64;
    if (len as u128) < needed {
        let size = text::cat3(
            text::to_decimal(image.width as u64).as_str(),
            "x",
            text::to_decimal(image.height as u64).as_str(),
        );
        let message = text::cat6(
            "the pixel buffer is ",
            text::to_decimal(len).as_str(),
            " bytes, need ",
            text::to_decimal_wide(needed).as_str(),
            " for ",
            size.as_str(),
        );
        assert(message@ == short_buffer(image.rgba@.len(), image.width, image.height));
        return Err(message);
    }
    Ok(png::encode(image.rgba.as_slice(), image.width, image.height))
}

/// CRC-32 as PNG specifies it.
pub fn crc32(data: &[u8]) -> (r: u32)
    ensures
        r == png::crc(data@),
{
    png::crc32(data)
}

/// Adler-32, as zlib specifies.
pub fn adler32(data: &[u8]) -> (r: u32)
    ensures
        r == png::adler(data@),
{
    png::adler32(data)
}

// ---------------------------------------------------------------------------
// Laws
// ---------------------------------------------------------------------------

proof fn field_bounds(b: Seq<u8>, at: int, done: nat)
    requires
        0 <= at <= b.len(),
    ensures
        field(b, at, done) matches Ok((_, end)) ==> at <= end <= b.len(),
{
    token_start_bounds(b, at);
    digits_end_bounds(b, token_start(b, at));
}

/// A decoded image has a size, and exactly the pixels of that size, so that it can always be
/// encoded.
pub proof fn decoded_images_are_whole(b: Seq<u8>)
    requires
        decoded(b) is Ok,
    ensures
        ({
            let (width, height, rgba) = decoded(b)->Ok_0;
            width > 0 && height > 0 && rgba.len() == png::pixel_bytes(width, height)
        }),
{
    let (width, height, rgba) = decoded(b)->Ok_0;
    let (w, h, maxval, at) = header(b)->Ok_0;
    field_bounds(b, 2, 0);
    let at1 = (field(b, 2, 0)->Ok_0).1;
    field_bounds(b, at1, 1);
    let at2 = (field(b, at1, 1)->Ok_0).1;
    field_bounds(b, at2, 2);
    assert(sample_bytes(width, height) == 3 * (width * height));
    assert(sample_bytes(width, height) / 3 == width * height);
    assert(width * 4 * height == 4 * (width * height)) by (nonlinear_arith);
    assert(0 <= width * height) by (nonlinear_arith)
        requires
            0 <= width,
            0 <= height,
    ;
    assert(rgba == with_alpha(b.subrange(at + 1, at + 1 + sample_bytes(width, height))));
}

/// A dump's pixel comes as red, green and blue, and goes as the same with full opacity. Every pixel is
/// treated so, and in its place.
pub proof fn samples_keep_their_colours(rgb: Seq<u8>, k: int)
    requires
        0 <= k < rgb.len() / 3,
    ensures
        with_alpha(rgb).len() == 4 * (rgb.len() / 3),
        with_alpha(rgb)[4 * k] == rgb[3 * k],
        with_alpha(rgb)[4 * k + 1] == rgb[3 * k + 1],
        with_alpha(rgb)[4 * k + 2] == rgb[3 * k + 2],
        with_alpha(rgb)[4 * k + 3] == 255,
{
    assert((4 * k) % 4 == 0 && (4 * k + 1) % 4 == 1 && (4 * k + 2) % 4 == 2 && (4 * k + 3) % 4 == 3);
    assert((4 * k) / 4 == k && (4 * k + 1) / 4 == k && (4 * k + 2) / 4 == k && (4 * k + 3) / 4 == k);
}

/// The bytes of a text in ASCII.
pub open spec fn as_bytes(s: Seq<char>) -> Seq<u8> {
    Seq::new(s.len(), |i: int| s[i] as u8)
}

proof fn digits_end_there(b: Seq<u8>, at: int, end: int)
    requires
        0 <= at <= end < b.len(),
        forall|k: int| at <= k < end ==> is_digit(#[trigger] b[k]),
        !is_digit(b[end]),
    ensures
        digits_end(b, at) == end,
    decreases end - at,
{
    if at < end {
        digits_end_there(b, at + 1, end);
    }
}

proof fn field_reads_back(b: Seq<u8>, at: int, n: u32, done: nat)
    requires
        0 <= at < b.len(),
        is_blank(b[at]),
        at + 1 + text::decimal(n as nat).len() < b.len(),
        b.subrange(at + 1, at + 1 + text::decimal(n as nat).len()) == as_bytes(
            text::decimal(n as nat),
        ),
        is_blank(b[at + 1 + text::decimal(n as nat).len()]),
    ensures
        field(b, at, done) == Ok::<(u32, int), Seq<char>>(
            (n, at + 1 + text::decimal(n as nat).len()),
        ),
{
    let digits = text::decimal(n as nat);
    text::decimal_round_trip(n as nat);
    text::numerals_read_back(n as nat, 0);
    let start = at + 1;
    let end = start + digits.len();
    let shown = b.subrange(start, end);
    assert forall|k: int| start <= k < end implies is_digit(#[trigger] b[k]) by {
        assert(b[k] == shown[k - start]);
        assert('0' <= digits[k - start] && digits[k - start] <= '9');
    }
    assert(is_digit(b[start]));
    assert(token_start(b, start) == start);
    assert(token_start(b, at) == start);
    digits_end_there(b, start, end);
    assert forall|k: int| 0 <= k < digits.len() implies #[trigger] as_chars(shown)[k] == digits[k] by {
        assert(shown[k] == digits[k] as u8);
        assert('0' <= digits[k] && digits[k] <= '9');
    }
    assert(as_chars(shown) =~= digits);
}

/// A dump reads back as what it was written from: the header that gives its width, its height and the
/// largest sample, and then the samples of every pixel, come out as that size and those pixels.
#[verifier::spinoff_prover]
#[verifier::rlimit(40)]
pub proof fn dumps_read_back(width: u32, height: u32, rgb: Seq<u8>)
    requires
        width > 0,
        height > 0,
        rgb.len() == 3 * (width * height),
    ensures
        decoded(
            seq![0x50u8, 0x36, 10] + as_bytes(text::decimal(width as nat)) + seq![32u8] + as_bytes(
                text::decimal(height as nat),
            ) + seq![10u8, 0x32, 0x35, 0x35, 10] + rgb,
        ) == Ok::<(u32, u32, Seq<u8>), Seq<char>>((width, height, with_alpha(rgb))),
{
    let w = as_bytes(text::decimal(width as nat));
    let h = as_bytes(text::decimal(height as nat));
    let b = seq![0x50u8, 0x36, 10] + w + seq![32u8] + h + seq![10u8, 0x32, 0x35, 0x35, 10] + rgb;
    let at1 = 3 + w.len() as int;
    let at2 = at1 + 1 + h.len() as int;
    assert(b[2] == 10 && b[at1] == 32 && b[at2] == 10);
    assert(b.subrange(3, at1) =~= w);
    assert(b.subrange(at1 + 1, at2) =~= h);
    assert(text::decimal(255) =~= seq!['2', '5', '5']) by {
        reveal_with_fuel(text::decimal, 3);
    }
    assert(b[at2 + 1] == 0x32 && b[at2 + 2] == 0x35 && b[at2 + 3] == 0x35 && b[at2 + 4] == 10);
    assert(b.subrange(at2 + 1, at2 + 4) =~= as_bytes(text::decimal(255)));
    field_reads_back(b, 2, width, 0);
    field_reads_back(b, at1, height, 1);
    field_reads_back(b, at2, 255, 2);
    let at3 = at2 + 4;
    assert(header(b) == Ok::<(u32, u32, u32, int), Seq<char>>((width, height, 255, at3)));
    assert(sample_bytes(width, height) == rgb.len());
    assert(b.subrange(at3 + 1, at3 + 1 + rgb.len()) =~= rgb);
}

/// What a dump with too few samples is refused with says how many there are and how many it takes,
/// and one without pixels is refused whatever follows. No dump is accepted with fewer.
pub proof fn partial_dumps_are_refused(
    b: Seq<u8>,
    width: u32,
    height: u32,
    maxval: u32,
    at: int,
)
    requires
        0 <= at < b.len(),
    ensures
        body(b, width, height, maxval, at) is Ok <==> width > 0 && height > 0 && maxval == 255
            && b.len() - at - 1 >= 3 * (width * height),
        width > 0 && height > 0 && maxval == 255 && b.len() - at - 1 < 3 * (width * height)
            ==> body(b, width, height, maxval, at) == Err::<(u32, u32, Seq<u8>), Seq<char>>(
            "the PPM is truncated: "@ + text::decimal((b.len() - at - 1) as nat)
                + " bytes of pixel data for a "@ + text::decimal(width as nat) + "x"@
                + text::decimal(height as nat) + " image, which needs "@ + text::decimal(
                (3 * (width * height)) as nat,
            ) + ". A partial screendump reads exactly like this"@,
        ),
{
    assert(width * height * 3 == 3 * (width * height));
    assert(width * height >= 0) by (nonlinear_arith);
}

} // verus!
