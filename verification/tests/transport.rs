//! Frames that arrive in pieces, and the guest's command line.
use wvm::base64::encode;
use wvm::framing::{write_frame, Cursor, FrameError, FrameReader, MAX_FRAME_LEN};
use wvm::guest::log::{log_path, probe, DEFAULT_LOG};
use wvm::guest::transport::{default_bind, parse_bind, round_trip};

/// A frame larger than one TCP segment must survive the round trip.
///
/// A read on a socket returns as soon as the kernel has anything ready, including the middle of a
/// message. So the frame is fed in small pieces, and the bytes that come out are compared.
#[test]
fn a_frame_larger_than_one_tcp_segment_survives_the_round_trip() {
    // 256 KiB, base64-encoded: exactly what a transfer chunk produces.
    let raw = vec![0xABu8; 256 * 1024];
    let encoded = encode(&raw);
    let payload = format!(r#"{{"chunk_base64":"{encoded}","final":true}}"#).into_bytes();

    assert!(
        payload.len() > 300 * 1024,
        "the payload must be comfortably past a TCP segment or this test proves nothing"
    );

    let mut frame = Vec::new();
    write_frame(&mut frame, &payload).expect("write");
    assert_eq!(frame[..4], (payload.len() as u32).to_be_bytes());

    let mut reader = FrameReader::new();
    let mut rest: &[u8] = &frame;
    while reader.wanted() > 0 {
        let n = reader.wanted().min(8192).min(rest.len());
        assert!(n > 0, "the frame must be whole");
        reader.feed(&rest[..n]).expect("a large frame must be read, not abandoned");
        rest = &rest[n..];
    }
    assert!(rest.is_empty());
    let got = reader.finish();
    assert_eq!(got.len(), payload.len(), "the whole frame must arrive");
    assert_eq!(got, payload, "and byte-for-byte identical");
}

#[test]
fn a_round_trip_sends_one_frame_and_reads_one() {
    let mut reply = Vec::new();
    write_frame(&mut reply, b"pong").expect("write");
    let mut incoming = Cursor::new(reply);
    let mut outgoing = Vec::new();
    let got = round_trip(&mut outgoing, &mut incoming, b"ping").expect("round trip");
    assert_eq!(got, b"pong");
    assert_eq!(outgoing, b"\x00\x00\x00\x04ping");
    assert_eq!(incoming.remaining(), 0);
}

#[test]
fn a_round_trip_that_fails_says_how_and_leaves_the_streams_so() {
    let big = vec![0u8; MAX_FRAME_LEN as usize + 1];
    let mut incoming = Cursor::new(b"rest".to_vec());
    let mut outgoing = b"before".to_vec();
    match round_trip(&mut outgoing, &mut incoming, &big) {
        Err(FrameError::TooLarge { declared, max }) => {
            assert_eq!((declared, max), (MAX_FRAME_LEN + 1, MAX_FRAME_LEN));
        }
        other => panic!("expected TooLarge, got {other:?}"),
    }
    assert_eq!(outgoing, b"before");
    assert_eq!(incoming.remaining(), 4);

    let mut incoming = Cursor::new(b"\xff\xff\xff\xffmore".to_vec());
    assert!(matches!(
        round_trip(&mut outgoing, &mut incoming, b"x"),
        Err(FrameError::TooLarge { declared: u32::MAX, .. })
    ));
    assert_eq!(incoming.remaining(), 4, "only the header is gone");
    let mut incoming = Cursor::new(b"\x00\x00\x00\x09short".to_vec());
    assert!(matches!(
        round_trip(&mut outgoing, &mut incoming, b"x"),
        Err(FrameError::Truncated { expected: 9, got: 5 })
    ));
    assert_eq!(incoming.remaining(), 0);
}

#[test]
fn the_bind_address_can_be_given() {
    let args = |list: &[&str]| list.iter().map(|a| a.to_string()).collect::<Vec<String>>();
    assert_eq!(parse_bind(&args(&["wvm-guest"])), None);
    assert_eq!(parse_bind(&args(&["wvm-guest", "--bind"])), None);
    assert_eq!(
        parse_bind(&args(&["wvm-guest", "--bind", "127.0.0.1:9", "--bind", "x"])),
        Some("127.0.0.1:9".to_string())
    );
    assert_eq!(default_bind(), "0.0.0.0:48273");
}

#[test]
fn the_log_goes_where_the_environment_says() {
    assert_eq!(log_path(None), DEFAULT_LOG);
    assert_eq!(log_path(Some("D:/x.log".to_string())), "D:/x.log");
    assert_eq!(probe(7, "one read"), "7 one read\n");
    assert_ne!(probe(1, "2 reads"), probe(12, "reads"));
}
