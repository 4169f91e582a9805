//! Screen capture: what becomes of the pixels that the platform hands over.
//!
//! A guest that cannot be captured says so. A blank image would be indistinguishable from a dark
//! screen.
use crate::base64;
use crate::framing;
use crate::png;
use crate::text;
use vstd::prelude::*;
use vstd::string::*;

verus! {

/// A captured frame.
#[derive(Debug)]
pub struct Frame {
    /// PNG bytes.
    pub png: Vec<u8>,
    pub width: u32,
    pub height: u32,
}

/// Largest frame that is produced, in bytes: 12 MiB.
pub const MAX_PNG_BYTES: usize = 12_582_912;

/// What a capture is refused with where there is no platform layer.
pub open spec fn capture_absent() -> Seq<char> {
    "screen capture requires a Windows build of wvm-guest; this binary was built for the host, where it exists to be type-checked and tested rather than run"@
}

/// Capture the screen, in a build without the platform layer: refused, never a made-up frame.
pub fn capture(_monitor: u8) -> (r: Result<Frame, String>)
    ensures
        r matches Err(e) && e@ == capture_absent(),
{
    Err(
        text::own(
            "screen capture requires a Windows build of wvm-guest; this binary was built for the host, where it exists to be type-checked and tested rather than run",
        ),
    )
}

/// Whether there is anything on a screen of this size to capture.
pub open spec fn has_area(width: u32, height: u32) -> bool {
    width != 0 && height != 0
}

/// Why a screen of a given size is not captured, if it is not.
pub fn check_screen(width: u32, height: u32) -> (r: Result<(), String>)
    ensures
        r is Ok <==> width != 0 && height != 0,
        r is Ok <==> has_area(width, height),
        r matches Err(e) ==> e@ == "the virtual screen is "@ + text::decimal(width as nat) + "x"@
            + text::decimal(height as nat)
            + ", so there is nothing to capture. A guest with no display device cannot be screenshotted; this is expected for a fully headless VM and is not a fault in the request"@,
{
    if width == 0 || height == 0 {
        return Err(
            text::cat5(
                "the virtual screen is ",
                text::to_decimal(width as u64).as_str(),
                "x",
                text::to_decimal(height as u64).as_str(),
                ", so there is nothing to capture. A guest with no display device cannot be screenshotted; this is expected for a fully headless VM and is not a fault in the request",
            ),
        );
    }
    Ok(())
}

/// RGBA pixels out of the BGRA ones that the platform hands over: red and blue change places, and
/// alpha is opaque. Bytes behind the last whole pixel stay as they are.
pub open spec fn from_bgra(pixels: Seq<u8>) -> Seq<u8> {
    Seq::new(
        pixels.len(),
        |i: int|
            if i - i % 4 + 4 > pixels.len() {
                pixels[i]
            } else if i % 4 == 0 {
                pixels[i + 2]
            } else if i % 4 == 1 {
                pixels[i]
            } else if i % 4 == 2 {
                pixels[i - 2]
            } else {
                255u8
            },
    )
}

/// Turn BGRA pixels into RGBA ones with opaque alpha.
pub fn swap_channels(pixels: &[u8]) -> (r: Vec<u8>)
    ensures
        r@ == from_bgra(pixels@),
{
    let mut out: Vec<u8> = Vec::new();
    let mut i: usize = 0;
    while pixels.len() - i >= 4
        invariant
            i <= pixels.len(),
            i % 4 == 0,
            out@ == from_bgra(pixels@).take(i as int),
        decreases pixels.len() - i,
    {
        let ghost before = out@;
        out.push(pixels[i + 2]);
        out.push(pixels[i + 1]);
        out.push(pixels[i]);
        out.push(255);
        assert(out@ =~= from_bgra(pixels@).take(i + 4));
        i += 4;
    }
    while i < pixels.len()
        invariant
            i <= pixels.len(),
            pixels.len() - i < 4,
            pixels.len() - pixels.len() % 4 <= i,
            out@ == from_bgra(pixels@).take(i as int),
        decreases pixels.len() - i,
    {
        out.push(pixels[i]);
        assert(out@ =~= from_bgra(pixels@).take(i + 1));
        i += 1;
    }
    assert(from_bgra(pixels@).take(pixels@.len() as int) == from_bgra(pixels@));
    out
}

/// What a pixel buffer that is too small is refused with.
pub open spec fn short_buffer(len: nat, width: u32, height: u32) -> Seq<char> {
    "pixel buffer is "@ + text::decimal(len) + " bytes, need "@ + text::decimal(
        png::pixel_bytes(width, height),
    ) + " for "@ + text::decimal(width as nat) + "x"@ + text::decimal(height as nat)
}

/// Encode RGBA pixels as a PNG, refusing a buffer that is too small for the size.
pub fn encode_png(rgba: &[u8], width: u32, height: u32) -> (r: Result<Vec<u8>, String>)
    ensures
        r is Ok <==> rgba@.len() >= png::pixel_bytes(width, height),
        match r {
            Ok(file) => file@ == png::png(rgba@, width, height),
            Err(e) => e@ == short_buffer(rgba@.len(), width, height),
        },
{
    let needed: u128 = png::pixel_bytes_of(width, height);
    let len: u64 = rgba.len() as u64;
    if (len as u128) < needed {
        let size = text::cat3(
            text::to_decimal(width as u64).as_str(),
            "x",
            text::to_decimal(height as u64).as_str(),
        );
        let message = text::cat6(
            "pixel buffer is ",
            text::to_decimal(len).as_str(),
            " bytes, need ",
            text::to_decimal_wide(needed).as_str(),
            " for ",
            size.as_str(),
        );
        assert(message@ == short_buffer(rgba@.len(), width, height));
        return Err(message);
    }
    Ok(png::encode(rgba, width, height))
}

/// CRC-32 as PNG specifies it.
pub fn crc32(data: &[u8]) -> (r: u32)
    ensures
        r == png::crc(data@),
{
    png::crc32(data)
}

/// Adler-32, as zlib specifies.
pub fn adler32(data: &[u8]) -> (r: u32)
    ensures
        r == png::adler(data@),
{
    png::adler32(data)
}

/// What is wrong with a captured frame, if anything: the buffer does not hold it, or its encoding
/// is over the limit.
pub open spec fn frame_fault(pixels: Seq<u8>, width: u32, height: u32) -> Option<Seq<char>> {
    if pixels.len() < png::pixel_bytes(width, height) {
        Some("encoding the captured frame"@)
    } else if png::png(from_bgra(pixels), width, height).len() > MAX_PNG_BYTES {
        Some(
            "the encoded frame is "@ + text::decimal(
                png::png(from_bgra(pixels), width, height).len(),
            ) + " bytes, over the "@ + text::decimal(MAX_PNG_BYTES as nat)
                + "-byte limit. This happens with noisy full-screen content; capture a smaller region or reduce the guest's resolution"@,
        )
    } else {
        None
    }
}

/// The file that a capture is made into, or why none is.
pub open spec fn captured(pixels: Seq<u8>, width: u32, height: u32) -> Result<Seq<u8>, Seq<char>> {
    match frame_fault(pixels, width, height) {
        None => Ok(png::png(from_bgra(pixels), width, height)),
        Some(why) => Err(why),
    }
}

/// Make a frame of the BGRA pixels of a screen, refusing one that the transport could not carry.
pub fn finish(pixels: &[u8], width: u32, height: u32) -> (r: Result<Frame, String>)
    ensures
        match (r, frame_fault(pixels@, width, height)) {
            (Ok(frame), None) => {
                &&& frame.png@ == png::png(from_bgra(pixels@), width, height)
                &&& frame.width == width
                &&& frame.height == height
            },
            (Err(e), Some(why)) => e@ == why,
            _ => false,
        },
        match (r, captured(pixels@, width, height)) {
            (Ok(frame), Ok(file)) => frame.png@ == file && frame.width == width && frame.height
                == height,
            (Err(e), Err(why)) => e@ == why,
            _ => false,
        },
{
    let rgba = swap_channels(pixels);
    match encode_png(rgba.as_slice(), width, height) {
        Err(_) => Err(text::own("encoding the captured frame")),
        Ok(file) => {
            if file.len() > MAX_PNG_BYTES {
                let size: u64 = file.len() as u64;
                return Err(
                    text::cat5(
                        "the encoded frame is ",
                        text::to_decimal(size).as_str(),
                        " bytes, over the ",
                        text::to_decimal(MAX_PNG_BYTES as u64).as_str(),
                        "-byte limit. This happens with noisy full-screen content; capture a smaller region or reduce the guest's resolution",
                    ),
                );
            }
            Ok(Frame { png: file, width, height })
        },
    }
}

/// A capture that succeeds is one that the transport carries: as base64 it fills a quarter of a
/// frame at most, which leaves room for the rest of the reply.
pub proof fn captures_fit_a_frame(pixels: Seq<u8>, width: u32, height: u32)
    requires
        frame_fault(pixels, width, height) is None,
    ensures
        base64::encoding(png::png(from_bgra(pixels), width, height)).len() * 4
            <= framing::MAX_FRAME_LEN,
{
    base64::encoding_shape(png::png(from_bgra(pixels), width, height));
}

/// A captured pixel comes as blue, green, red and one byte more, and goes as red, green, blue and
/// full opacity. Every pixel is treated so, and in its place.
pub proof fn pixels_keep_their_colours(pixels: Seq<u8>, k: int)
    requires
        0 <= k,
        4 * k + 4 <= pixels.len(),
    ensures
        from_bgra(pixels).len() == pixels.len(),
        from_bgra(pixels)[4 * k] == pixels[4 * k + 2],
        from_bgra(pixels)[4 * k + 1] == pixels[4 * k + 1],
        from_bgra(pixels)[4 * k + 2] == pixels[4 * k],
        from_bgra(pixels)[4 * k + 3] == 255,
{
    assert((4 * k) % 4 == 0 && (4 * k + 1) % 4 == 1 && (4 * k + 2) % 4 == 2 && (4 * k + 3) % 4 == 3);
}

/// A frame is made exactly where there are four bytes for each pixel of the screen and the file is at
/// most twelve MiB. Reading the file gives the size of the screen, and each pixel in its colours.
pub proof fn frames_show_the_screen(pixels: Seq<u8>, width: u32, height: u32)
    requires
        pixels.len() == width * height * 4,
    ensures
        frame_fault(pixels, width, height) is None <==> png::png(
            from_bgra(pixels),
            width,
            height,
        ).len() <= 12 * 1024 * 1024,
        frame_fault(pixels, width, height) is None ==> png::png_read(
            png::png(from_bgra(pixels), width, height),
        ) == Some((width, height, from_bgra(pixels))),
{
    assert(width * 4 * height == width * height * 4) by (nonlinear_arith);
    if frame_fault(pixels, width, height) is None {
        png::files_hold_the_pixels(from_bgra(pixels), width, height);
        png::png_round_trip(from_bgra(pixels), width, height);
        assert(from_bgra(pixels).take(pixels.len() as int) =~= from_bgra(pixels));
    }
}

/// Fewer bytes than the pixels of the screen take are never made into a frame.
pub proof fn short_captures_are_refused(pixels: Seq<u8>, width: u32, height: u32)
    requires
        pixels.len() < width * height * 4,
    ensures
        frame_fault(pixels, width, height) == Some("encoding the captured frame"@),
{
    assert(width * 4 * height == width * height * 4) by (nonlinear_arith);
}

/// A screen is captured exactly where it has both a width and a height.
pub proof fn screens_need_both_sides(width: u32, height: u32)
    ensures
        has_area(width, height) <==> width > 0 && height > 0,
        has_area(width, height) <==> width * height > 0,
{
    assert(width * height > 0 <==> width > 0 && height > 0) by (nonlinear_arith)
        requires
            width >= 0,
            height >= 0,
    ;
}

/// A capture reads back as the screen: the file that it is made into has the screen's size, and each
/// pixel has the red, the green and the blue that were captured, with full opacity.
pub proof fn captures_read_back(pixels: Seq<u8>, width: u32, height: u32, k: int)
    requires
        pixels.len() == width * height * 4,
        captured(pixels, width, height) is Ok,
        0 <= k < width * height,
    ensures
        png::png_read(captured(pixels, width, height)->Ok_0) matches Some((w, h, rgba)) && {
            &&& w == width
            &&& h == height
            &&& rgba.len() == pixels.len()
            &&& rgba[4 * k] == pixels[4 * k + 2]
            &&& rgba[4 * k + 1] == pixels[4 * k + 1]
            &&& rgba[4 * k + 2] == pixels[4 * k]
            &&& rgba[4 * k + 3] == 255
        },
{
    frames_show_the_screen(pixels, width, height);
    pixels_keep_their_colours(pixels, k);
}

} // verus!
