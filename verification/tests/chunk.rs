//! Writing a file chunk by chunk.
use wvm::guest::chunk::{begin, is_abandoned, Transfers, ABANDONED_AFTER_MS};

/// A destination as a file system would hold it: what has been written so far.
struct Disk {
    bytes: Vec<u8>,
}

/// Place a chunk, write it, and finish after the last one.
fn write_chunk(
    open: &mut Transfers,
    disk: &mut Disk,
    offset: u64,
    data: &[u8],
    eof: bool,
) -> Result<u64, String> {
    open.place(offset)?;
    disk.bytes.extend_from_slice(data);
    let total = open.written(data.len() as u64);
    if eof {
        open.finish(disk.bytes.len() as u64)?;
    }
    Ok(total)
}

#[test]
fn chunks_written_in_order_produce_the_intended_bytes() {
    let data: Vec<u8> = (0..1000u32).map(|i| (i % 251) as u8).collect();
    let mut open = Transfers::new();
    let mut disk = Disk { bytes: Vec::new() };
    let dest = begin(&open, "C:/staging/in-order.bin", 0, true).expect("begin");
    open.opened(&dest);

    // Three chunks, the last short, so a tail bug shows.
    let total = write_chunk(&mut open, &mut disk, 0, &data[..400], false).expect("c1");
    assert_eq!(total, 400);
    let total = write_chunk(&mut open, &mut disk, 400, &data[400..800], false).expect("c2");
    assert_eq!(total, 800);
    let total = write_chunk(&mut open, &mut disk, 800, &data[800..], true).expect("c3");
    assert_eq!(total, 1000);

    assert_eq!(
        disk.bytes, data,
        "the file must be byte-identical to the input"
    );
}

#[test]
fn a_chunk_at_the_wrong_offset_is_refused() {
    // The property that turns silent corruption into a loud error. Without this check the file
    // would be the right LENGTH with wrong CONTENTS, and only a hash comparison would notice.
    let mut open = Transfers::new();
    let mut disk = Disk { bytes: Vec::new() };
    let dest = begin(&open, "C:/staging/gap.bin", 0, true).expect("begin");
    open.opened(&dest);

    write_chunk(&mut open, &mut disk, 0, &[1u8; 100], false).expect("first chunk");

    // Skip forward: a gap.
    let err = write_chunk(&mut open, &mut disk, 200, &[2u8; 100], false)
        .expect_err("a gap must be refused");
    assert!(
        err.to_string().contains("claims offset 200"),
        "the error must name the offset mismatch: {err}"
    );

    // And overlapping the same region again.
    let err = write_chunk(&mut open, &mut disk, 50, &[3u8; 100], false)
        .expect_err("overlap must be refused");
    assert!(err.to_string().contains("claims offset 50"), "{err}");
}

#[test]
fn a_chunk_with_no_open_transfer_is_refused() {
    let open = Transfers::new();
    let err = open.place(0).expect_err("must be refused");
    assert!(
        err.to_string().contains("no transfer is open"),
        "the error must say what is missing: {err}"
    );
}

#[test]
fn overwriting_an_existing_file_requires_permission() {
    let open = Transfers::new();
    let err = begin(&open, "C:/staging/existing.bin", 12, false).expect_err("must be refused");
    assert!(
        err.to_string().contains("refusing to overwrite"),
        "the refusal must be explicit: {err}"
    );
    assert_eq!(
        err,
        "refusing to overwrite an existing file (12 bytes): C:/staging/existing.bin"
    );
    assert!(begin(&open, "C:/staging/existing.bin", 12, true).is_ok());
}

#[test]
fn aborting_removes_the_partial_file() {
    // A half-written file in the staging root is worse than none: its name claims to be the
    // artifact and nothing about it says incomplete.
    let mut open = Transfers::new();
    let mut disk = Disk { bytes: Vec::new() };
    let dest = begin(&open, "C:/staging/aborted.bin", 0, true).expect("begin");
    open.opened(&dest);
    write_chunk(&mut open, &mut disk, 0, &[9u8; 500], false).expect("write");

    assert_eq!(
        open.abort("C:/staging/aborted.bin"),
        Some(500),
        "the byte count is reported for the log"
    );
    assert_eq!(open.abort("C:/staging/aborted.bin"), None, "nothing is left to abort");
    assert!(open.place(500).is_err(), "an aborted transfer takes no chunk");
}

#[test]
fn an_empty_final_chunk_completes_a_transfer() {
    // A zero-byte file: one chunk, eof, nothing in it. The boundary case below the interesting
    // one, and the one an "if data.is_empty() then skip" optimisation would get wrong.
    let mut open = Transfers::new();
    let mut disk = Disk { bytes: Vec::new() };
    let dest = begin(&open, "C:/staging/empty.bin", 0, true).expect("begin");
    open.opened(&dest);

    let total = write_chunk(&mut open, &mut disk, 0, &[], true).expect("eof chunk");
    assert_eq!(total, 0);
    assert_eq!(disk.bytes.len(), 0, "an empty transfer produces an empty file");
    assert!(open.place(0).is_err(), "the transfer is over");
}

#[test]
fn a_file_of_the_wrong_size_does_not_finish() {
    let mut open = Transfers::new();
    let dest = begin(&open, "C:/staging/short.bin", 0, true).expect("begin");
    open.opened(&dest);
    open.written(10);
    assert_eq!(
        open.finish(9).expect_err("a byte is missing"),
        "C:/staging/short.bin is 9 bytes but 10 were written"
    );
    assert_eq!(open.finish(10), Ok(()));
}

#[test]
fn two_transfers_at_once_are_refused() {
    let mut open = Transfers::new();
    let a = begin(&open, "C:/staging/a.bin", 0, true).expect("a");
    open.opened(&a);
    let b = begin(&open, "C:/staging/b.bin", 0, true).expect("b");
    open.opened(&b);
    assert_eq!(
        open.place(0).expect_err("ambiguous"),
        "2 transfers are open; the lockstep protocol allows one at a time"
    );
    assert_eq!(open.abort("C:/staging/a.bin"), Some(0));
    assert_eq!(open.place(0), Ok("C:/staging/b.bin".to_string()));
}

#[test]
fn a_second_transfer_to_an_open_path_is_refused() {
    let mut open = Transfers::new();
    let dest = begin(&open, "C:/staging/x.bin", 0, true).expect("begin");
    open.opened(&dest);
    open.written(3);
    assert_eq!(
        begin(&open, "C:/staging/x.bin", 3, true).expect_err("already open"),
        "a transfer to C:/staging/x.bin is open already; there is one writer per destination"
    );
    assert_eq!(open.place(3), Ok("C:/staging/x.bin".to_string()), "the first one goes on");
    assert_eq!(open.abort("C:/staging/x.bin"), Some(3));
    assert!(begin(&open, "C:/staging/x.bin", 3, true).is_ok());
}

#[test]
fn a_retry_after_a_refused_chunk_still_works() {
    let mut open = Transfers::new();
    let mut disk = Disk { bytes: Vec::new() };
    let dest = begin(&open, "C:/staging/retry.bin", 0, true).expect("begin");
    open.opened(&dest);
    write_chunk(&mut open, &mut disk, 0, b"abc", false).expect("first");
    assert!(write_chunk(&mut open, &mut disk, 7, b"zzz", true).is_err());
    assert_eq!(disk.bytes, b"abc");
    assert_eq!(write_chunk(&mut open, &mut disk, 3, b"def", true), Ok(6));
    assert_eq!(disk.bytes, b"abcdef");
    assert!(write_chunk(&mut open, &mut disk, 6, b"", true)
        .expect_err("over")
        .contains("no transfer is open"));
}

#[test]
fn a_push_without_chunks_is_abandoned_in_the_end() {
    assert!(!is_abandoned(0));
    assert!(!is_abandoned(ABANDONED_AFTER_MS));
    assert!(is_abandoned(ABANDONED_AFTER_MS + 1));
}
