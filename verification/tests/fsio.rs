//! Chunks, limits and staging roots.
use wvm::framing::Cursor;
use wvm::guest::fsio::{
    check_readable, check_written, chunks, plan_from, read_in_chunks, Gathered, Roots,
    CHUNK_SIZE, MAX_TRANSFER_BYTES,
};
use wvm::ipc::TransferDirection;

#[test]
fn chunks_tile_the_total_exactly() {
    // The property: no gaps, no overlaps, every byte covered once. Asserted over a range that
    // includes empty, smaller than one chunk, exactly one, just over, and several.
    for total in [
        0usize,
        1,
        100,
        CHUNK_SIZE - 1,
        CHUNK_SIZE,
        CHUNK_SIZE + 1,
        CHUNK_SIZE * 3,
    ] {
        let spans = chunks(total);
        let covered: usize = spans.iter().map(|(_, len)| len).sum();
        assert_eq!(covered, total, "total {total}: chunks must tile it exactly");

        let mut expected_offset = 0;
        for (offset, len) in &spans {
            assert_eq!(
                *offset, expected_offset,
                "total {total}: offsets must be contiguous"
            );
            assert!(
                *len <= CHUNK_SIZE,
                "total {total}: a chunk exceeded the chunk size"
            );
            assert!(
                *len > 0,
                "total {total}: a zero-length chunk would loop forever"
            );
            expected_offset += len;
        }
    }
}

#[test]
fn an_empty_transfer_produces_no_chunks() {
    // Not a chunk of length zero: that would be an infinite loop in any caller that loops
    // until it sees an empty chunk.
    assert!(chunks(0).is_empty());
}

#[test]
fn a_short_final_chunk_is_not_dropped() {
    // The classic off-by-one: total not a multiple of the chunk size. If the loop stopped on
    // "read less than CHUNK_SIZE" it would silently truncate the file.
    let total = CHUNK_SIZE * 2 + 7;
    let spans = chunks(total);
    assert_eq!(spans.len(), 3);
    assert_eq!(
        spans[2].1, 7,
        "the short tail must be its own chunk, not dropped"
    );
}

#[test]
fn a_consumer_that_fails_ends_the_reading() {
    let data = vec![7u8; CHUNK_SIZE * 3];
    let mut collector = Gathered::up_to(CHUNK_SIZE);
    let mut reader = Cursor::new(data);
    assert_eq!(
        read_in_chunks(&mut reader, &mut collector),
        Err("no room for another chunk".to_string())
    );
    assert_eq!(collector.count(), 2, "nothing is handed over after the failure");
    assert_eq!(collector.bytes(), vec![7u8; CHUNK_SIZE]);
    assert_eq!(reader.remaining(), CHUNK_SIZE);
}

#[test]
fn read_in_chunks_delivers_every_byte_in_order_exactly_once() {
    // Deliberately crossing a chunk boundary, and deliberately not a multiple of it, so a
    // boundary bug and a tail bug would both show.
    let data: Vec<u8> = (0..(CHUNK_SIZE * 2 + 123))
        .map(|i| (i % 251) as u8)
        .collect();

    let mut collector = Gathered::up_to(usize::MAX);
    let total = read_in_chunks(&mut Cursor::new(data.clone()), &mut collector).expect("read");
    let collected = collector.bytes();
    assert_eq!(collector.count(), 3);

    assert_eq!(
        total as usize,
        data.len(),
        "the count must match what was read"
    );
    assert_eq!(
        collected, data,
        "the bytes must arrive in order and complete"
    );
}

#[test]
fn an_empty_source_yields_no_chunks_and_zero_bytes() {
    let mut collector = Gathered::up_to(usize::MAX);
    let total = read_in_chunks(&mut Cursor::new(Vec::new()), &mut collector).expect("read");

    assert_eq!(total, 0);
    assert_eq!(collector.count(), 0, "no chunk callback for an empty source");
}

#[test]
fn the_chunk_size_leaves_room_to_breathe() {
    // A chunk larger than a typical socket buffer means the writer blocks waiting on the reader
    // while holding the whole chunk — the exact backpressure problem chunking is meant to
    // avoid. This asserts the relationship rather than the number, so changing the constant
    // does not break a test that was really trying to say something else.
    const TYPICAL_SOCKET_SEND_BUFFER: usize = 1024 * 1024;
    assert!(
        CHUNK_SIZE <= TYPICAL_SOCKET_SEND_BUFFER,
        "a chunk should fit in a socket buffer, so the writer is not forced to block mid-chunk"
    );
}

#[test]
fn staging_roots_come_from_the_environment_or_their_defaults() {
    let roots = Roots::from_env(None, None);
    assert_eq!(roots.guest, r"C:\ProgramData\wvm\staging");
    assert_eq!(roots.host, r"C:\ProgramData\wvm\staging-host");
    let roots = Roots::from_env(Some("D:/in".into()), None);
    assert_eq!(roots.guest, "D:/in");
    assert_eq!(roots.host, r"C:\ProgramData\wvm\staging-host");
    let plan = plan_from(&TransferDirection::GuestToHost, &roots, "D:/in/a", "").expect("plan");
    assert_eq!(plan.guest_path, r"D:\in\a");
}

#[test]
fn only_a_regular_file_within_the_limit_is_read() {
    assert_eq!(check_readable("a", true, MAX_TRANSFER_BYTES), Ok(()));
    let err = check_readable("a", true, MAX_TRANSFER_BYTES + 1).expect_err("too large");
    assert!(err.contains("4294967297"), "{err}");
    let err = check_readable("dir", false, 0).expect_err("a directory");
    assert!(err.contains("not a regular file"), "{err}");
}

#[test]
fn a_short_write_is_noticed() {
    assert_eq!(check_written("a", 5, 5), Ok(()));
    let err = check_written("a", 4, 5).expect_err("a byte is missing");
    assert!(err.contains('4') && err.contains('5'), "{err}");
}
