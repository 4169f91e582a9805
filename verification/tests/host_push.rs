//! Sending a file to the guest.
use wvm::host::push::{
    base64_encode, check_source, open_request, opened, Fault, Progress, PushSession, CHUNK_SIZE,
    MAX_PUSH_BYTES,
};
use wvm::ipc::{Payload, Request, Response, TransferDirection};

#[test]
fn the_encoder_matches_known_base64_vectors() {
    // Checked against RFC 4648's own examples rather than against the library's decoder, which would
    // only prove the two agree with each other. The guest's decoder was written separately, so a
    // shared misunderstanding is possible — this rules it out against the standard.
    assert_eq!(base64_encode(b""), "");
    assert_eq!(base64_encode(b"f"), "Zg==");
    assert_eq!(base64_encode(b"fo"), "Zm8=");
    assert_eq!(base64_encode(b"foo"), "Zm9v");
    assert_eq!(base64_encode(b"foob"), "Zm9vYg==");
    assert_eq!(base64_encode(b"fooba"), "Zm9vYmE=");
    assert_eq!(base64_encode(b"foobar"), "Zm9vYmFy");
}

#[test]
fn the_encoder_handles_every_remainder_class() {
    // The three padding cases are where a hand-written encoder is most likely to be wrong, and a
    // wrong encoder here would corrupt every file whose length is not a multiple of three.
    for len in [0usize, 1, 2, 3, 4, 5, 6, 7, 100, 1000, 1001, 1002] {
        let data: Vec<u8> = (0..len).map(|i| (i % 256) as u8).collect();
        let encoded = base64_encode(&data);

        // Length must be a multiple of four, and the padding must match the remainder.
        assert_eq!(
            encoded.len() % 4,
            0,
            "len {len}: base64 is always padded to a multiple of 4"
        );
        let expected_pad = match len % 3 {
            0 => 0,
            _ => 3 - (len % 3),
        };
        assert_eq!(
            encoded.chars().rev().take_while(|c| *c == '=').count(),
            expected_pad,
            "len {len}: wrong padding"
        );
    }
}

#[test]
fn a_file_larger_than_the_ceiling_is_refused_before_reading() {
    assert!(
        MAX_PUSH_BYTES > 1024 * 1024 * 1024,
        "the ceiling should be generous"
    );
    assert_eq!(check_source("/tmp/small.bin", true, 5), Ok(()));
    assert_eq!(check_source("/tmp/limit.bin", true, MAX_PUSH_BYTES), Ok(()));
    let err = check_source("/tmp/big.bin", true, MAX_PUSH_BYTES + 1).expect_err("too large");
    assert!(err.contains("4294967297"), "{err}");
    assert!(check_source("/tmp", false, 0).is_err(), "a directory cannot be pushed");
}

#[test]
fn chunk_offsets_advance_by_the_bytes_sent() {
    // The arithmetic the whole loop depends on. An off-by-one here shifts every subsequent
    // chunk and the guest refuses the second one.
    let total: u64 = CHUNK_SIZE as u64 * 2 + 7;
    let file: Vec<u8> = (0..total).map(|i| (i % 251) as u8).collect();
    let mut session = PushSession::begin("C:/x.bin", total);
    let mut seen = Vec::new();
    let mut at = 0usize;

    let pushed = loop {
        let n = CHUNK_SIZE.min(file.len() - at);
        let data = &file[at..at + n];
        let (offset, eof) = match session.next_request(data).expect("request") {
            Request::TransferChunk { offset, data_base64, eof } => {
                assert_eq!(data_base64, base64_encode(data));
                (offset, eof)
            }
            other => panic!("expected TransferChunk, got {other:?}"),
        };
        seen.push((offset, n as u64));
        at += n;
        let reply = Response::Success {
            payload: Payload::ChunkWritten { offset, bytes: n as u64, total: at as u64, eof },
        };
        match session.acknowledged(data, reply) {
            Ok(Progress::More) => assert!(!eof),
            Ok(Progress::Done(pushed)) => break pushed,
            Err(fault) => panic!("unexpected fault {fault:?}"),
        }
    };

    assert_eq!(at as u64, total, "offsets must land exactly on the total");
    assert_eq!(seen.len(), 3, "two full chunks and a short tail");
    assert_eq!(seen[2].1, 7, "the tail must not be dropped or padded");
    assert_eq!((pushed.bytes, pushed.chunks), (total, 3));
    assert_eq!(pushed.guest_path, "C:/x.bin");
}

#[test]
fn an_empty_file_is_pushed_in_one_empty_chunk() {
    let mut session = PushSession::begin("C:/empty.bin", 0);
    match session.next_request(&[]).expect("request") {
        Request::TransferChunk { offset, data_base64, eof } => {
            assert_eq!((offset, data_base64.as_str(), eof), (0, "", true));
        }
        other => panic!("expected TransferChunk, got {other:?}"),
    }
    let reply = Response::Success {
        payload: Payload::ChunkWritten { offset: 0, bytes: 0, total: 0, eof: true },
    };
    assert!(matches!(session.acknowledged(&[], reply), Ok(Progress::Done(_))));
}

#[test]
fn a_file_that_ends_early_is_noticed() {
    let session = PushSession::begin("C:/x.bin", 10);
    assert!(session.next_request(&[]).is_err());
}

#[test]
fn a_wrong_acknowledgement_ends_the_push() {
    let mut session = PushSession::begin("C:/x.bin", 3);
    let reply = Response::Success {
        payload: Payload::ChunkWritten { offset: 0, bytes: 2, total: 2, eof: true },
    };
    assert!(matches!(session.acknowledged(b"abc", reply), Err(Fault::Failed(_))));
    let mut session = PushSession::begin("C:/x.bin", 3);
    let odd = Response::Success { payload: Payload::Empty };
    assert!(matches!(session.acknowledged(b"abc", odd), Err(Fault::Unexpected { .. })));
    let mut session = PushSession::begin("C:/x.bin", 3);
    let refused = Response::Error { message: "disk full".into() };
    match session.acknowledged(b"abc", refused) {
        Err(Fault::Failed(why)) => assert!(why.contains("disk full"), "{why}"),
        other => panic!("expected a failure, got {other:?}"),
    }
}

#[test]
fn a_push_is_opened_with_the_host_as_the_source() {
    match open_request("/tmp/a", "C:/a", true) {
        Request::Transfer { direction, host_path, guest_path, overwrite } => {
            assert_eq!(direction, TransferDirection::HostToGuest);
            assert_eq!(host_path.as_deref(), Some("/tmp/a"));
            assert_eq!(guest_path, "C:/a");
            assert!(overwrite);
        }
        other => panic!("expected Transfer, got {other:?}"),
    }
    let fine = Response::Success { payload: Payload::Empty };
    assert_eq!(opened(&fine, "C:/a"), Ok(()));
    let refused = Response::Error { message: "refusing".into() };
    assert!(opened(&refused, "C:/a").expect_err("refused").contains("refusing"));
}
