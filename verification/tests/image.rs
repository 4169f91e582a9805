//! Decoding a screen dump and encoding it as PNG.
use wvm::host::image::{adler32, crc32, decode_ppm, encode_png, Image};

/// Build a minimal P6 PPM for testing.
fn ppm(width: u32, height: u32, pixels: &[(u8, u8, u8)]) -> Vec<u8> {
    let mut out = format!("P6\n{width} {height}\n255\n").into_bytes();
    for (r, g, b) in pixels {
        out.push(*r);
        out.push(*g);
        out.push(*b);
    }
    out
}

#[test]
fn a_small_ppm_decodes_to_the_right_pixels() {
    let img = decode_ppm(&ppm(2, 1, &[(255, 0, 0), (0, 128, 255)])).expect("decode");
    assert_eq!((img.width, img.height), (2, 1));
    assert_eq!(
        img.rgba,
        vec![255, 0, 0, 255, 0, 128, 255, 255],
        "RGB must become RGBA with an opaque alpha"
    );
}

#[test]
fn header_fields_may_be_on_one_line_or_separate_lines() {
    // The PPM spec allows either, and depending on a layout QEMU does not promise is how this
    // breaks on an upgrade.
    let pixels = &[(1u8, 2u8, 3u8), (4, 5, 6)];
    let one_line = {
        let mut v = b"P6 2 1 255\n".to_vec();
        for (r, g, b) in pixels {
            v.extend_from_slice(&[*r, *g, *b]);
        }
        v
    };
    let multi_line = ppm(2, 1, pixels);

    assert_eq!(
        decode_ppm(&one_line).expect("one line").rgba,
        decode_ppm(&multi_line).expect("multi line").rgba
    );
}

#[test]
fn a_comment_in_the_header_is_ignored() {
    let mut v = b"P6\n# produced by qemu\n2 1\n255\n".to_vec();
    v.extend_from_slice(&[9, 8, 7, 6, 5, 4]);
    let img = decode_ppm(&v).expect("decode");
    assert_eq!(img.rgba, vec![9, 8, 7, 255, 6, 5, 4, 255]);
}

#[test]
fn a_first_pixel_that_looks_like_whitespace_survives() {
    // The header is followed by exactly ONE whitespace byte. Skipping all whitespace would eat
    // a leading 0x20 or 0x0a in the pixel data — a one-pixel shift that is invisible in a
    // casual look at the image.
    for first_byte in [0x20u8, 0x0au8, 0x0du8, 0x09u8] {
        let mut v = b"P6\n1 1\n255\n".to_vec();
        v.extend_from_slice(&[first_byte, 0x40, 0x80]);
        let img = decode_ppm(&v).expect("decode");
        assert_eq!(
            img.rgba,
            vec![first_byte, 0x40, 0x80, 255],
            "a first pixel of {first_byte:#04x} was consumed as header whitespace"
        );
    }
}

#[test]
fn a_truncated_ppm_is_refused_with_the_shortfall() {
    // A partial screendump is the failure this catches, and the message must make the cause
    // obvious rather than reporting a generic parse error.
    let mut v = ppm(4, 4, &[]);
    v.extend_from_slice(&[1, 2, 3]); // one pixel of a sixteen-pixel image
    let err = decode_ppm(&v).expect_err("must refuse");
    let msg = err.to_string();
    assert!(msg.contains("truncated"), "should say truncated: {msg}");
    assert!(msg.contains("48"), "should name the missing bytes: {msg}");
}

#[test]
fn a_p3_ascii_ppm_is_refused_by_name() {
    // Refusing with the actual format makes a wrong-format failure diagnosable; a generic
    // "parse error" does not.
    let err = decode_ppm(b"P3\n1 1\n255\n255 0 0\n").expect_err("must refuse P3");
    assert!(
        err.to_string().contains("P3"),
        "should name the format: {err}"
    );
}

#[test]
fn a_non_8_bit_ppm_is_refused() {
    let err = decode_ppm(b"P6\n1 1\n65535\n").expect_err("must refuse 16-bit");
    assert!(
        err.to_string().contains("65535"),
        "should quote the maxval: {err}"
    );
}

#[test]
fn a_zero_sized_image_is_refused() {
    let err = decode_ppm(b"P6\n0 0\n255\n").expect_err("must refuse");
    assert!(err.to_string().contains("no pixels"), "{err}");
}

#[test]
fn image_crc32_matches_known_vectors() {
    assert_eq!(crc32(b"123456789"), 0xcbf4_3926);
    assert_eq!(crc32(b""), 0);
}

#[test]
fn image_adler32_matches_known_vectors() {
    assert_eq!(adler32(b"Wikipedia"), 0x11e6_0398);
    assert_eq!(adler32(b""), 1);
}

#[test]
fn an_encoded_png_has_valid_structure_and_crcs() {
    let img = Image {
        width: 3,
        height: 2,
        rgba: vec![0x40; 4 * 3 * 2],
    };
    let png = encode_png(&img).expect("encode");

    assert_eq!(&png[..8], &[0x89, b'P', b'N', b'G', 0x0d, 0x0a, 0x1a, 0x0a]);

    let mut pos = 8;
    let mut kinds = Vec::new();
    while pos + 12 <= png.len() {
        let len =
            u32::from_be_bytes([png[pos], png[pos + 1], png[pos + 2], png[pos + 3]]) as usize;
        let kind = &png[pos + 4..pos + 8];
        let data = &png[pos + 8..pos + 8 + len];
        let stored = u32::from_be_bytes([
            png[pos + 8 + len],
            png[pos + 9 + len],
            png[pos + 10 + len],
            png[pos + 11 + len],
        ]);

        let mut crc_input = Vec::new();
        crc_input.extend_from_slice(kind);
        crc_input.extend_from_slice(data);
        assert_eq!(
            stored,
            crc32(&crc_input),
            "bad CRC in {:?}",
            std::str::from_utf8(kind)
        );

        kinds.push(String::from_utf8_lossy(kind).to_string());
        pos += 12 + len;
    }

    assert_eq!(pos, png.len(), "chunks must cover the file exactly");
    assert_eq!(kinds, vec!["IHDR", "IDAT", "IEND"]);
}

#[test]
fn a_screenshot_dwarfs_the_ppm_it_came_from() {
    // The reason the conversion exists: a solid-colour 1024x768 frame is 2.3 MB as PPM. Even
    // with stored (uncompressed) deflate blocks the PNG should not be dramatically larger —
    // it has the same pixels plus one filter byte per row.
    let img = Image {
        width: 1024,
        height: 768,
        rgba: vec![0x33; 1024 * 768 * 4],
    };
    let png = encode_png(&img).expect("encode");
    let ppm_size = 1024 * 768 * 3;

    assert!(
        png.len() <= ppm_size + 1024 * 768 + 4096,
        "a stored-deflate PNG should be PPM plus one byte per row plus overhead, \
         got {} vs {ppm_size}",
        png.len()
    );
}

#[test]
fn an_image_with_too_few_bytes_is_not_encoded() {
    let img = Image { width: 2, height: 2, rgba: vec![0; 15] };
    let err = encode_png(&img).expect_err("a byte is missing");
    assert!(err.contains("16"), "{err}");
}
