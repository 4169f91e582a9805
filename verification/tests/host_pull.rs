//! Fetching a file from the guest.
use wvm::host::pull::{
    check_destination, open_request, opened, PullSession, CHUNK_SIZE, MAX_PULL_BYTES,
};
use wvm::host::push::{base64_encode, Fault};
use wvm::ipc::{Payload, Request, Response, TransferDirection};

#[test]
fn the_ceiling_is_generous_but_finite() {
    assert!(MAX_PULL_BYTES > 1024 * 1024 * 1024);
    assert!(MAX_PULL_BYTES < u64::MAX);
}

#[test]
fn chunk_offsets_advance_by_the_bytes_received() {
    // A pull derives its offsets from what the GUEST returned rather than from what the host
    // intended to send. A guest returning short chunks must still land exactly on the total.
    let total: u64 = CHUNK_SIZE * 2 + 7;
    let file: Vec<u8> = (0..total).map(|i| (i % 251) as u8).collect();
    let mut session = PullSession::begin(total);
    let mut spans = Vec::new();
    let mut received = Vec::new();

    loop {
        let (offset, length) = match session.next_request() {
            Request::PullChunk { offset, length } => (offset, length),
            other => panic!("expected PullChunk, got {other:?}"),
        };
        assert_eq!(offset, session.offset());
        let want = length.min(total - offset);
        spans.push((offset, want));
        let piece = &file[offset as usize..(offset + want) as usize];
        let reply = Response::Success {
            payload: Payload::ChunkRead {
                offset,
                data_base64: base64_encode(piece),
                eof: offset + want == total,
                total,
            },
        };
        let (data, eof) = session.received(reply).expect("chunk");
        received.extend_from_slice(&data);
        session.stored(&data);
        if eof {
            break;
        }
    }

    assert_eq!(session.offset(), total);
    assert_eq!(spans.len(), 3, "two full chunks and a short tail");
    assert_eq!(spans[2].1, 7, "the tail must not be dropped or padded");
    assert_eq!(received, file);
    assert_eq!(session.check_total(), Ok(()));
    let pulled = session.finish("/tmp/x.part", total, "/tmp/x").expect("finish");
    assert_eq!((pulled.bytes, pulled.chunks), (total, 3));
    assert_eq!(pulled.host_path, "/tmp/x");
}

#[test]
fn an_existing_destination_is_refused_without_overwrite() {
    let err = check_destination("/tmp/existing.bin", Some(12), false).expect_err("must be refused");
    assert!(
        err.to_string().contains("refusing to overwrite"),
        "the refusal must be explicit: {err}"
    );
    assert_eq!(check_destination("/tmp/existing.bin", Some(12), true), Ok(()));
    assert_eq!(check_destination("/tmp/new.bin", None, false), Ok(()));
}

#[test]
fn a_pull_is_opened_with_the_guest_as_the_source() {
    match open_request("C:/x.bin") {
        Request::Transfer { direction, host_path, guest_path, .. } => {
            assert_eq!(direction, TransferDirection::GuestToHost);
            assert_eq!(host_path, None);
            assert_eq!(guest_path, "C:/x.bin");
        }
        other => panic!("expected Transfer, got {other:?}"),
    }
    let reply = |bytes| Response::Success {
        payload: Payload::Transferred {
            bytes,
            direction: "guest_to_host".into(),
            guest_path: "C:/x.bin".into(),
        },
    };
    assert!(matches!(opened(reply(9), "C:/x.bin"), Ok(9)));
    assert!(matches!(opened(reply(MAX_PULL_BYTES + 1), "C:/x.bin"), Err(Fault::Failed(_))));
    let refused = Response::Error { message: "outside the root".into() };
    match opened(refused, "C:/x.bin") {
        Err(Fault::Failed(why)) => assert!(why.contains("outside the root"), "{why}"),
        other => panic!("expected a failure, got {other:?}"),
    }
    let odd = Response::Success { payload: Payload::Empty };
    assert!(matches!(opened(odd, "C:/x.bin"), Err(Fault::Unexpected { .. })));
}

#[test]
fn a_chunk_at_another_offset_is_refused() {
    let session = PullSession::begin(10);
    let reply = Response::Success {
        payload: Payload::ChunkRead {
            offset: 3,
            data_base64: base64_encode(b"abc"),
            eof: false,
            total: 10,
        },
    };
    assert!(matches!(session.received(reply), Err(Fault::Failed(_))));
}

#[test]
fn a_short_pull_is_noticed() {
    let mut session = PullSession::begin(4);
    session.stored(b"abc");
    let err = session.check_total().expect_err("a byte is missing");
    assert_eq!(
        err,
        "received 3 bytes but the guest said the file is 4; the transfer is short"
    );
    session.stored(b"d");
    assert!(session.finish("/tmp/y.part", 3, "/tmp/y").is_err(), "the file on disk is short");
}

#[test]
fn a_guest_cannot_send_more_than_it_announced() {
    let chunk = |offset: u64, data: &[u8], eof: bool| Response::Success {
        payload: Payload::ChunkRead { offset, data_base64: base64_encode(data), eof, total: 4 },
    };
    let mut session = PullSession::begin(4);
    match session.received(chunk(0, b"abcde", false)) {
        Err(Fault::Failed(why)) => assert_eq!(
            why,
            "the guest sent 5 bytes at offset 0 of a file that it said has 4"
        ),
        other => panic!("expected a failure, got {other:?}"),
    }
    session.stored(b"abcd");
    assert!(matches!(session.received(chunk(4, b"e", false)), Err(Fault::Failed(_))));
    assert!(matches!(session.received(chunk(4, b"e", true)), Err(Fault::Failed(_))));
    assert!(matches!(session.received(chunk(4, b"", false)), Err(Fault::Failed(_))));
    assert!(session.received(chunk(4, b"", true)).is_ok());
}
