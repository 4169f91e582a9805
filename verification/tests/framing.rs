//! Length-prefixed frames.
use wvm::framing::{read_frame, write_frame, Cursor, FrameError, FrameReader, MAX_FRAME_LEN};
use wvm::ipc::base64_encode_for_test;


#[test]
fn round_trip_empty() {
    let mut buf = Vec::new();
    write_frame(&mut buf, b"").unwrap();
    let mut c = Cursor::new(buf);
    assert_eq!(read_frame(&mut c).unwrap(), b"");
}

#[test]
fn round_trip_payload() {
    let msg = br#"{"op":"inspect"}"#;
    let mut buf = Vec::new();
    write_frame(&mut buf, msg).unwrap();
    let mut c = Cursor::new(buf);
    assert_eq!(read_frame(&mut c).unwrap(), msg.as_slice());
}

/// A frame of a real transfer chunk must round-trip intact.
///
/// **The test the transfer design rests on.** A 256 KiB binary chunk base64-encodes to roughly
/// 341 KiB, and base64 inside JSON rather than multiplexed binary frames assumes that payload
/// survives as ONE frame. If it did not, the carrier choice would be wrong and every line of
/// file-assembly written on top of it would be wasted.
///
/// Written as a Cursor rather than a socket on purpose: this asserts the framing, which is the part
/// being decided here.
#[test]
fn a_transfer_sized_frame_round_trips() {
    // 256 KiB of varying bytes, base64-encoded, inside a JSON body: the shape of a real chunk.
    // Varying content matters — a run of identical bytes survives truncation and offset bugs.
    let raw: Vec<u8> = (0..256 * 1024).map(|i| (i % 251) as u8).collect();
    let encoded = base64_encode_for_test(&raw);
    let body =
        format!(r#"{{"chunk_base64":"{encoded}","offset":0,"final":true}}"#).into_bytes();

    assert!(
        body.len() > 340 * 1024,
        "the frame must be transfer-sized or this proves nothing; got {}",
        body.len()
    );

    let mut buf = Vec::new();
    write_frame(&mut buf, &body).unwrap();
    assert_eq!(buf.len(), 4 + body.len(), "4-byte header, then the payload");

    let mut c = Cursor::new(buf);
    let got = read_frame(&mut c).expect("a transfer-sized frame must be read");
    assert_eq!(got.len(), body.len(), "the whole payload must arrive");
    assert_eq!(got, body, "and byte-for-byte identical");
}

#[test]
fn sequential_frames_stay_aligned() {
    let mut buf = Vec::new();
    write_frame(&mut buf, b"one").unwrap();
    write_frame(&mut buf, b"two").unwrap();
    write_frame(&mut buf, b"three").unwrap();
    let mut c = Cursor::new(buf);
    assert_eq!(read_frame(&mut c).unwrap(), b"one");
    assert_eq!(read_frame(&mut c).unwrap(), b"two");
    assert_eq!(read_frame(&mut c).unwrap(), b"three");
}

#[test]
fn clean_eof_at_boundary_is_closed_not_truncated() {
    let mut c = Cursor::new(Vec::new());
    match read_frame(&mut c) {
        Err(FrameError::Closed) => {}
        other => panic!("expected Closed, got {other:?}"),
    }
}

#[test]
fn partial_header_is_truncated() {
    // Header claims 8 bytes but only 2 arrive.
    let mut c = Cursor::new(vec![0, 0, 0, 8, 0xAA, 0xBB]);
    match read_frame(&mut c) {
        Err(FrameError::Truncated { expected, got }) => {
            assert_eq!(expected, 8);
            assert_eq!(got, 2);
        }
        other => panic!("expected Truncated, got {other:?}"),
    }
}

#[test]
fn incomplete_header_is_truncated() {
    // Only two of four header bytes.
    let mut c = Cursor::new(vec![0, 0]);
    match read_frame(&mut c) {
        Err(FrameError::Truncated { expected, got }) => {
            assert_eq!(expected, 4);
            assert_eq!(got, 2);
        }
        other => panic!("expected Truncated, got {other:?}"),
    }
}

#[test]
fn oversized_frame_refused_before_allocating() {
    // Declare u32::MAX; must be refused, not attempted.
    let mut c = Cursor::new(u32::MAX.to_be_bytes().to_vec());
    match read_frame(&mut c) {
        Err(FrameError::TooLarge { declared, max }) => {
            assert_eq!(declared, u32::MAX);
            assert_eq!(max, MAX_FRAME_LEN);
        }
        other => panic!("expected TooLarge, got {other:?}"),
    }
}

#[test]
fn writing_oversized_payload_is_refused() {
    let big = vec![0u8; (MAX_FRAME_LEN as usize) + 1];
    let mut buf = Vec::new();
    match write_frame(&mut buf, &big) {
        Err(FrameError::TooLarge { .. }) => {}
        other => panic!("expected TooLarge, got {other:?}"),
    }
}

#[test]
fn max_size_payload_is_accepted() {
    let exact = vec![7u8; MAX_FRAME_LEN as usize];
    let mut buf = Vec::new();
    write_frame(&mut buf, &exact).unwrap();
    let mut c = Cursor::new(buf);
    let out = read_frame(&mut c).unwrap();
    assert_eq!(out.len(), MAX_FRAME_LEN as usize);
    assert!(out.iter().all(|&b| b == 7));
}

#[test]
fn header_is_big_endian() {
    let mut buf = Vec::new();
    write_frame(&mut buf, b"ab").unwrap();
    assert_eq!(&buf[..4], &[0, 0, 0, 2]);
    assert_eq!(&buf[4..], b"ab");
}

#[test]
fn a_reader_that_loses_its_source_says_how_far_it_got() {
    let mut reader = FrameReader::new();
    assert_eq!(reader.wanted(), 4);
    assert_eq!(reader.failure_note("reset"), None);
    reader.feed(&[0, 0, 0, 5]).expect("header");
    assert_eq!(reader.wanted(), 5);
    reader.feed(b"ab").expect("payload");
    assert_eq!(
        reader.failure_note("reset").as_deref(),
        Some("read failed after 2 of 5 payload bytes: reset")
    );
    match reader.ended() {
        FrameError::Truncated { expected, got } => assert_eq!((expected, got), (5, 2)),
        other => panic!("expected Truncated, got {other:?}"),
    }
}

#[test]
fn frame_errors_say_what_happened() {
    assert!(!FrameError::Closed.to_string().is_empty());
    let text = FrameError::TooLarge { declared: 70_000_000, max: MAX_FRAME_LEN }.to_string();
    assert!(text.contains("70000000") && text.contains("67108864"), "{text}");
    let text = FrameError::Truncated { expected: 9, got: 3 }.to_string();
    assert!(text.contains('9') && text.contains('3'), "{text}");
    assert!(FrameError::Io("broken".into()).to_string().contains("broken"));
}
