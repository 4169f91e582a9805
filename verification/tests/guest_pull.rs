//! Serving a file chunk by chunk.
use wvm::guest::pull::{begin_source, Sources};

/// Serve one chunk of a file whose bytes are `data`.
fn read_chunk(
    open: &mut Sources,
    data: &[u8],
    path: &str,
    offset: u64,
    length: u64,
) -> Result<(Vec<u8>, bool, u64), String> {
    let want = open.read_chunk(path, offset, length)?;
    let start = offset as usize;
    let chunk = data[start..start + want as usize].to_vec();
    let (eof, total) = open.served(path, offset, chunk.len() as u64);
    Ok((chunk, eof, total))
}

/// Open a file whose bytes are `data`.
fn serving(path: &str, data: &[u8]) -> Sources {
    let mut open = Sources::new();
    let source = begin_source(path, true, data.len() as u64, u64::MAX).expect("open");
    assert_eq!(source.size, data.len() as u64);
    open.opened(source);
    open
}

#[test]
fn chunks_reassembled_in_order_reproduce_the_file() {
    let data: Vec<u8> = (0..1000u32).map(|i| (i % 251) as u8).collect();
    let path = "C:/staging/in-order.bin";
    let mut open = serving(path, &data);

    // Serve in 400-byte chunks so the last one is short.
    let mut reassembled = Vec::new();
    let mut offset = 0u64;
    loop {
        let (chunk, eof, _total) =
            read_chunk(&mut open, &data, path, offset, 400).expect("read");
        reassembled.extend_from_slice(&chunk);
        offset += chunk.len() as u64;
        if eof {
            break;
        }
    }

    assert_eq!(
        reassembled, data,
        "the reassembled bytes must match the source"
    );
}

#[test]
fn the_final_chunk_is_short_rather_than_padded() {
    // The property that catches an off-by-one at the end: asking for a full chunk when fewer
    // bytes remain must return only what exists.
    let data = b"0123456789".to_vec();
    let path = "C:/staging/short.bin";
    let mut open = serving(path, &data);

    let (chunk, eof, total) = read_chunk(&mut open, &data, path, 6, 4096).expect("read");
    assert_eq!(chunk, b"6789", "only the bytes that exist");
    assert!(eof, "the end of the file is reached");
    assert_eq!(total, 10);
}

#[test]
fn reading_past_the_end_is_refused() {
    // An offset beyond the file is a caller bug, not a request for an empty chunk.
    let path = "C:/staging/past-end.bin";
    let mut open = serving(path, b"short");
    let err = read_chunk(&mut open, b"short", path, 999, 100).expect_err("must be refused");
    assert!(err.to_string().contains("only 5 bytes"), "{err}");
}

#[test]
fn a_chunk_with_no_open_source_is_refused() {
    let open = Sources::new();
    let err = open.read_chunk("C:/nowhere.bin", 0, 100).expect_err("must be refused");
    assert!(err.to_string().contains("no pull is open"), "{err}");
}

#[test]
fn a_file_above_the_ceiling_is_refused_at_open() {
    // Refused before any bytes move.
    let err = begin_source("C:/staging/big.bin", true, 2048, 1024).expect_err("must be refused");
    assert!(
        err.to_string().contains("above the 1024 byte ceiling"),
        "{err}"
    );
}

#[test]
fn an_empty_file_serves_one_empty_final_chunk() {
    // The boundary below the interesting one. The host must still get an `eof` reply, or it
    // would wait forever for a zero-byte file.
    let path = "C:/staging/empty.bin";
    let mut open = serving(path, b"");

    let (chunk, eof, total) = read_chunk(&mut open, b"", path, 0, 4096).expect("read");
    assert!(chunk.is_empty());
    assert!(eof, "an empty file is immediately at its end");
    assert_eq!(total, 0);
}

#[test]
fn a_directory_is_not_a_file() {
    let err = begin_source("C:/staging", false, 0, u64::MAX).expect_err("must be refused");
    assert!(err.to_string().contains("not a regular file"), "{err}");
}

#[test]
fn a_chunk_is_taken_from_the_one_open_source() {
    let mut open = Sources::new();
    assert_eq!(
        open.only_open_source().expect_err("none"),
        "no pull is open; send Transfer with direction guest_to_host first"
    );
    open.opened(begin_source("C:/a", true, 1, u64::MAX).expect("a"));
    assert_eq!(open.only_open_source(), Ok("C:/a".to_string()));
    open.opened(begin_source("C:/b", true, 1, u64::MAX).expect("b"));
    assert_eq!(
        open.only_open_source().expect_err("two"),
        "2 pulls are open; the lockstep protocol allows one at a time"
    );
    open.end_source("C:/a");
    assert_eq!(open.only_open_source(), Ok("C:/b".to_string()));
}

#[test]
fn the_last_chunk_can_be_asked_for_again() {
    let data = b"0123456789".to_vec();
    let path = "C:/staging/replay.bin";
    let mut open = serving(path, &data);
    let first = read_chunk(&mut open, &data, path, 6, 4096).expect("read");
    assert_eq!(first, (b"6789".to_vec(), true, 10));
    assert_eq!(open.only_open_source(), Ok(path.to_string()));
    assert_eq!(read_chunk(&mut open, &data, path, 6, 4096), Ok(first));
    // Another file takes its place.
    open.opened(begin_source("C:/staging/next.bin", true, 3, u64::MAX).expect("next"));
    assert_eq!(open.only_open_source(), Ok("C:/staging/next.bin".to_string()));
    assert!(open.read_chunk(path, 0, 1).is_err());
    open.end_source("C:/staging/next.bin");
    assert!(open.only_open_source().is_err());
}
