//! A file into the guest and back, through both sides of the protocol.
use wvm::guest::chunk::{begin, Transfers};
use wvm::guest::dispatch::{chunk_read_reply, chunk_written_reply, open_reply, order, Order};
use wvm::guest::fsio::Roots;
use wvm::guest::pull::{begin_source, Sources, MAX_PULL_BYTES};
use wvm::host::pull::{self, PullSession};
use wvm::host::push::{self, Progress, PushSession, CHUNK_SIZE};
use wvm::ipc::{Request, Response};

const GUEST_PATH: &str = "C:\\ProgramData\\wvm\\staging\\a.bin";

/// A guest with one file.
struct Guest {
    file: Vec<u8>,
    transfers: Transfers,
    sources: Sources,
}

impl Guest {
    fn new() -> Self {
        Guest { file: Vec::new(), transfers: Transfers::new(), sources: Sources::new() }
    }

    fn answer(&mut self, request: &Request) -> Response {
        match order(request, &Roots::default_staging(), true) {
            Order::Reply(response) => response,
            Order::Open(plan) if request_is_push(request) => {
                let destination =
                    begin(&self.transfers, &plan.guest_path, self.file.len() as u64, plan.overwrite);
                let opened = destination.map(|d| {
                    self.file.clear();
                    self.transfers.opened(&d);
                    0
                });
                open_reply(&plan, opened)
            }
            Order::Open(plan) => {
                let size = self.file.len() as u64;
                let source = begin_source(&plan.guest_path, true, size, MAX_PULL_BYTES);
                let opened = source.map(|s| {
                    self.sources.opened(s);
                    size
                });
                open_reply(&plan, opened)
            }
            Order::WriteChunk { offset, data, eof } => {
                let written = self.transfers.place(offset).and_then(|_| {
                    self.file.truncate(offset as usize);
                    self.file.extend_from_slice(&data);
                    let total = self.transfers.written(data.len() as u64);
                    if eof {
                        self.transfers.finish(self.file.len() as u64)?;
                    }
                    Ok(total)
                });
                chunk_written_reply(offset, data.len() as u64, eof, written)
            }
            Order::ReadChunk { offset, length } => {
                let read = self.sources.only_open_source().and_then(|path| {
                    let want = self.sources.read_chunk(&path, offset, length)?;
                    let from = offset as usize;
                    let data = self.file[from..from + want as usize].to_vec();
                    let (eof, total) = self.sources.served(&path, offset, want);
                    Ok((data, eof, total))
                });
                chunk_read_reply(offset, read)
            }
            other => panic!("unexpected order {other:?}"),
        }
    }
}

fn request_is_push(request: &Request) -> bool {
    matches!(request, Request::Transfer { host_path: Some(_), .. })
}

fn push_file(guest: &mut Guest, file: &[u8], overwrite: bool) -> Result<u64, String> {
    let reply = guest.answer(&push::open_request("/tmp/a.bin", GUEST_PATH, overwrite));
    push::opened(&reply, GUEST_PATH)?;
    let mut session = PushSession::begin(GUEST_PATH, file.len() as u64);
    let mut at = 0;
    loop {
        let data = &file[at..(at + CHUNK_SIZE).min(file.len())];
        let request = session.next_request(data)?;
        let reply = guest.answer(&request);
        at += data.len();
        match session.acknowledged(data, reply) {
            Ok(Progress::More) => {}
            Ok(Progress::Done(pushed)) => return Ok(pushed.chunks),
            Err(fault) => return Err(format!("{fault:?}")),
        }
    }
}

fn pull_file(guest: &mut Guest) -> Vec<u8> {
    let reply = guest.answer(&pull::open_request(GUEST_PATH));
    let total = pull::opened(reply, GUEST_PATH).expect("the guest serves the file");
    let mut session = PullSession::begin(total);
    let mut collected = Vec::new();
    loop {
        let reply = guest.answer(&session.next_request());
        let (data, eof) = session.received(reply).expect("a chunk");
        session.stored(&data);
        collected.extend_from_slice(&data);
        if eof {
            break;
        }
    }
    assert_eq!(session.check_total(), Ok(()));
    collected
}

#[test]
fn a_file_comes_back_as_it_went_in() {
    for (len, chunks) in [(0, 1), (1, 1), (CHUNK_SIZE, 1), (CHUNK_SIZE + 1, 2), (700_001, 3)] {
        let file: Vec<u8> = (0..len).map(|i| (i * 31 % 251) as u8).collect();
        let mut guest = Guest::new();
        assert_eq!(push_file(&mut guest, &file, false), Ok(chunks));
        assert_eq!(guest.file, file, "{len} bytes in");
        assert_eq!(pull_file(&mut guest), file, "{len} bytes out");
    }
}

#[test]
fn a_second_push_replaces_the_file_only_when_it_may() {
    let mut guest = Guest::new();
    push_file(&mut guest, b"first", false).expect("nothing is there yet");
    let refused = push_file(&mut guest, b"second", false).expect_err("something is there");
    assert!(refused.contains("refusing to overwrite an existing file (5 bytes)"), "{refused}");
    assert_eq!(guest.file, b"first");
    push_file(&mut guest, b"second", true).expect("it may be replaced");
    assert_eq!(pull_file(&mut guest), b"second");
}
