//! The base64 encoder and its two decoders.
use wvm::base64::{decode, decode_strict, encode};

#[test]
fn matches_the_rfc_test_vectors() {
    // RFC 4648 section 10. These cover all three padding cases, which is where hand-written
    // encoders usually break.
    assert_eq!(encode(b""), "");
    assert_eq!(encode(b"f"), "Zg==");
    assert_eq!(encode(b"fo"), "Zm8=");
    assert_eq!(encode(b"foo"), "Zm9v");
    assert_eq!(encode(b"foob"), "Zm9vYg==");
    assert_eq!(encode(b"fooba"), "Zm9vYmE=");
    assert_eq!(encode(b"foobar"), "Zm9vYmFy");
}

#[test]
fn every_byte_value_survives_a_round_trip() {
    // All 256 values, which exercises every 6-bit group and every alignment.
    let input: Vec<u8> = (0..=255u8).collect();
    let encoded = encode(&input);
    assert_eq!(decode(&encoded).expect("decode"), input);
}

#[test]
fn each_length_modulo_three_round_trips() {
    // The three padding cases explicitly, since a length-dependent bug is invisible on a
    // single well-chosen input.
    for len in 0..12usize {
        let input: Vec<u8> = (0..len).map(|i| (i * 37 + 11) as u8).collect();
        let encoded = encode(&input);
        assert_eq!(
            decode(&encoded).expect("decode"),
            input,
            "length {len} did not round trip"
        );
        assert_eq!(
            encoded.len() % 4,
            0,
            "length {len} produced a non-multiple of 4"
        );
    }
}

#[test]
fn padding_is_emitted_for_partial_groups() {
    assert!(encode(b"f").ends_with("=="));
    assert!(encode(b"fo").ends_with('='));
    assert!(!encode(b"foo").contains('='));
}

#[test]
fn the_alphabet_uses_plus_and_slash_not_url_safe_variants() {
    // 0xfb 0xff 0xbf encodes to "+/+/" in standard base64. Substituting the URL-safe alphabet
    // would produce "-_-_" and the peer would reject it.
    assert_eq!(encode(&[0xfb, 0xff, 0xbf]), "+/+/");
}

#[test]
fn decoding_rejects_invalid_characters() {
    // A lenient decoder silently produces wrong bytes; the input here comes from a peer.
    let err = decode("Zm9v!mFy").expect_err("must reject '!'");
    assert!(
        err.contains("invalid base64"),
        "the error should say why: {err}"
    );
}

#[test]
fn decoding_ignores_wrapped_whitespace() {
    // Base64 is commonly wrapped at 76 characters, and rejecting that would be needlessly
    // strict for a decoder that is otherwise correct.
    let encoded = encode(b"the quick brown fox jumps over the lazy dog");
    let wrapped = format!("{}\n{}", &encoded[..20], &encoded[20..]);
    assert_eq!(
        decode(&wrapped).expect("decode"),
        b"the quick brown fox jumps over the lazy dog"
    );
}

#[test]
fn a_png_sized_payload_stays_inside_the_frame_limit() {
    // The reason base64 rather than hex: an 8 MB capture must survive the 16 MiB frame cap.
    let raw = vec![0u8; 8 * 1024 * 1024];
    let encoded = encode(&raw);
    assert!(
        encoded.len() < 16 * 1024 * 1024,
        "an 8 MB frame became {} bytes, over the limit",
        encoded.len()
    );
    assert!(encoded.len() > raw.len(), "base64 must expand, not shrink");
}

#[test]
fn the_strict_decoder_takes_back_what_was_encoded() {
    for len in 0..20usize {
        let input: Vec<u8> = (0..len).map(|i| (i * 91 + 5) as u8).collect();
        assert_eq!(decode_strict(&encode(&input)), Ok(input));
    }
}

#[test]
fn the_strict_decoder_refuses_wrapped_text() {
    let wrapped = "Zm9v\nYmFy";
    assert_eq!(decode(wrapped), Ok(b"foobar".to_vec()));
    assert!(decode_strict(wrapped).is_err());
}

#[test]
fn both_decoders_demand_the_padding() {
    // One padding character short, none, too many, in the wrong place, and data behind it.
    for text in ["Zg=", "Zg", "Zm9vZ", "Zg===", "=Zg=", "Zg=\n", "Zg==Zg==", "Zg=v"] {
        assert!(decode(text).is_err(), "{text} must be refused");
        assert!(decode_strict(text).is_err(), "{text} must be refused");
    }
    assert_eq!(decode("Zg=="), Ok(b"f".to_vec()));
    assert_eq!(decode("Z g\t=\r\n="), Ok(b"f".to_vec()));
    assert_eq!(
        decode("Zm9v!mFy"),
        Err("invalid base64 character '!' at position 4".to_string())
    );
    assert_eq!(decode("Zg="), Err("length 3 is not a multiple of 4".to_string()));
}
