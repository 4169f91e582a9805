//! Encoding a captured screen.
use wvm::guest::capture::{
    adler32, capture, check_screen, crc32, encode_png, finish, swap_channels,
};
use wvm::png::zlib_store;

#[test]
fn capture_crc32_matches_known_vectors() {
    // The IEEE CRC-32 of "123456789" is 0xCBF43926. A wrong table or a missing final XOR
    // produces a plausible-looking number, so check against a published value.
    assert_eq!(crc32(b"123456789"), 0xcbf4_3926);
    assert_eq!(crc32(b""), 0);
    assert_eq!(crc32(b"a"), 0xe8b7_be43);
}

#[test]
fn capture_adler32_matches_known_vectors() {
    // zlib's documented example: adler32("Wikipedia") == 0x11E60398.
    assert_eq!(adler32(b"Wikipedia"), 0x11e6_0398);
    assert_eq!(adler32(b""), 1);
}

#[test]
fn a_png_has_a_valid_structure() {
    let pixels = vec![0x80u8; 4 * 2 * 2]; // 2x2 RGBA
    let png = encode_png(&pixels, 2, 2).expect("encode");

    // Signature.
    assert_eq!(&png[..8], &[0x89, b'P', b'N', b'G', 0x0d, 0x0a, 0x1a, 0x0a]);

    // First chunk must be IHDR, and its declared length must be 13.
    assert_eq!(&png[12..16], b"IHDR");
    let ihdr_len = u32::from_be_bytes([png[8], png[9], png[10], png[11]]);
    assert_eq!(ihdr_len, 13);

    // Width and height as declared.
    let w = u32::from_be_bytes([png[16], png[17], png[18], png[19]]);
    let h = u32::from_be_bytes([png[20], png[21], png[22], png[23]]);
    assert_eq!((w, h), (2, 2));

    // Last chunk must be IEND, and it must be the final 12 bytes.
    assert_eq!(&png[png.len() - 8..png.len() - 4], b"IEND");
}

#[test]
fn every_chunk_crc_is_correct() {
    // Walk the chunks and recompute each CRC. A wrong CRC is the difference between a PNG that
    // opens and one that some viewers reject, and it is invisible without checking.
    let png = encode_png(&[0x11u8; 4 * 3 * 2], 3, 2).expect("encode");

    let mut pos = 8; // past the signature
    let mut chunks = 0;
    while pos + 12 <= png.len() {
        let len =
            u32::from_be_bytes([png[pos], png[pos + 1], png[pos + 2], png[pos + 3]]) as usize;
        let kind = &png[pos + 4..pos + 8];
        let data = &png[pos + 8..pos + 8 + len];
        let stored = u32::from_be_bytes([
            png[pos + 8 + len],
            png[pos + 9 + len],
            png[pos + 10 + len],
            png[pos + 11 + len],
        ]);

        let mut crc_input = Vec::new();
        crc_input.extend_from_slice(kind);
        crc_input.extend_from_slice(data);
        assert_eq!(
            stored,
            crc32(&crc_input),
            "CRC mismatch in chunk {:?}",
            std::str::from_utf8(kind)
        );

        chunks += 1;
        pos += 12 + len;
    }

    assert_eq!(pos, png.len(), "chunks must exactly cover the file");
    assert_eq!(chunks, 3, "a minimal PNG is IHDR, IDAT, IEND");
}

#[test]
fn a_multi_block_image_round_trips_through_zlib() {
    // Larger than one 65535-byte stored block, so the block splitting path is exercised.
    // Getting the split wrong corrupts everything after the first block.
    let data: Vec<u8> = (0..200_000u32).map(|i| (i % 251) as u8).collect();
    let z = zlib_store(&data);

    // Header.
    assert_eq!(z[0], 0x78, "zlib CMF");
    assert_eq!(z[1], 0x01, "zlib FLG");

    // Trailer: Adler-32 of the original data.
    let n = z.len();
    let stored = u32::from_be_bytes([z[n - 4], z[n - 3], z[n - 2], z[n - 1]]);
    assert_eq!(
        stored,
        adler32(&data),
        "trailer must be the data's Adler-32"
    );

    // Pull the blocks back out and confirm every byte survives.
    let mut recovered = Vec::with_capacity(data.len());
    let mut pos = 2;
    loop {
        let header = z[pos];
        let last = header & 1 == 1;
        let len = u16::from_le_bytes([z[pos + 1], z[pos + 2]]) as usize;
        let nlen = u16::from_le_bytes([z[pos + 3], z[pos + 4]]);
        assert_eq!(
            nlen,
            !(len as u16),
            "NLEN must be the one's complement of LEN"
        );

        recovered.extend_from_slice(&z[pos + 5..pos + 5 + len]);
        pos += 5 + len;

        if last {
            break;
        }
    }

    assert_eq!(recovered.len(), data.len(), "byte count must match");
    assert_eq!(recovered, data, "bytes must match exactly");
}

#[test]
fn an_empty_image_still_produces_a_valid_png() {
    // A zero-size capture is not useful, but producing structurally invalid output for it
    // would be worse: the failure should be in structure, not in a malformed file.
    let png = encode_png(&[], 0, 0).expect("encode");
    assert_eq!(&png[..8], &[0x89, b'P', b'N', b'G', 0x0d, 0x0a, 0x1a, 0x0a]);
    assert_eq!(&png[png.len() - 8..png.len() - 4], b"IEND");
}

#[test]
fn a_short_pixel_buffer_is_refused() {
    // Fewer bytes than width*height*4 must be an error, not a panic and not garbage output.
    let err = encode_png(&[0u8; 10], 4, 4).expect_err("must refuse a short buffer");
    assert!(
        err.to_string().contains("need"),
        "the error should say what is missing: {err}"
    );
}

#[test]
fn capture_without_a_windows_guest_says_so() {
    let err = capture(0).expect_err("must not succeed off Windows");
    assert!(
        err.to_string().contains("Windows build"),
        "the refusal must name the platform: {err}"
    );
}

#[test]
fn blue_and_red_change_places_and_alpha_is_opaque() {
    assert_eq!(
        swap_channels(&[1, 2, 3, 4, 5, 6, 7, 8]),
        vec![3, 2, 1, 255, 7, 6, 5, 255]
    );
    assert_eq!(swap_channels(&[1, 2, 3, 4, 9, 8]), vec![3, 2, 1, 255, 9, 8]);
}

#[test]
fn a_screen_without_area_cannot_be_captured() {
    assert_eq!(check_screen(1, 1), Ok(()));
    let err = check_screen(0, 600).expect_err("no width");
    assert!(err.starts_with("the virtual screen is 0x600, so there is nothing to capture."));
}

#[test]
fn a_finished_frame_is_the_png_of_the_swapped_pixels() {
    let frame = finish(&[1, 2, 3, 4], 1, 1).expect("finish");
    assert_eq!((frame.width, frame.height), (1, 1));
    assert_eq!(frame.png, encode_png(&[3, 2, 1, 255], 1, 1).expect("encode"));
    assert_eq!(
        finish(&[1, 2, 3], 1, 1).expect_err("too few bytes"),
        "encoding the captured frame"
    );
}

#[test]
fn a_frame_over_the_limit_is_refused() {
    let pixels = vec![7u8; 4 * 2048 * 2048];
    let err = finish(&pixels, 2048, 2048).expect_err("over the limit");
    assert!(err.contains("over the 12582912-byte limit"), "{err}");
}
