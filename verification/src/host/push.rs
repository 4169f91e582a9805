//! The host side of a chunked push: read, encode, send, wait, repeat.
//!
//! Every chunk is a round trip, so the transfer advances at the speed of the guest's disk and memory
//! stays flat. The guest's running total is held against the host's own count after every chunk, so
//! a lost or short write is caught on the chunk that caused it.
//!
//! A [`PushSession`] decides; whoever owns the file and the socket reads, sends and reports back.
use crate::base64;
use crate::framing;
use crate::guest::chunk;
use crate::guest::dispatch;
use crate::guest::fsio;
use crate::ipc::{Payload, Request, Response, TransferDirection};
use crate::text;
use vstd::prelude::*;
use vstd::string::*;

verus! {

/// Bytes per chunk.
pub const CHUNK_SIZE: usize = 262_144;

/// Largest file this will push: 4 GiB.
pub const MAX_PUSH_BYTES: u64 = 4_294_967_296;

/// What a completed push moved.
#[derive(Debug, PartialEq, Eq)]
pub struct Pushed {
    pub bytes: u64,
    pub chunks: u64,
    pub guest_path: String,
}

/// Why a transfer stopped.
#[derive(Debug)]
pub enum Fault {
    /// For the reason given.
    Failed(String),
    /// The guest answered `what` with a payload that does not belong to it.
    Unexpected { what: &'static str, payload: Payload },
}

impl Fault {
    /// The fault is a failure with this message.
    pub open spec fn says(self, message: Seq<char>) -> bool {
        self matches Fault::Failed(m) && m@ == message
    }
}

/// Standard base64, as the guest decodes it.
pub fn base64_encode(data: &[u8]) -> (r: String)
    ensures
        r@ == base64::encoding(data@),
{
    base64::encode(data)
}

/// Why a host file is not pushed, if it is not.
pub open spec fn source_refusal(path: Seq<char>, is_file: bool, size: u64) -> Option<Seq<char>> {
    if !is_file {
        Some(path + " is not a regular file"@)
    } else if size > MAX_PUSH_BYTES {
        Some(
            path + " is "@ + text::decimal(size as nat) + " bytes, above the "@ + text::decimal(
                MAX_PUSH_BYTES as nat,
            ) + " byte ceiling for a single transfer"@,
        )
    } else {
        None
    }
}

/// Decide from a file's metadata whether to push it, before it is opened.
pub fn check_source(path: &str, is_file: bool, size: u64) -> (r: Result<(), String>)
    ensures
        match (r, source_refusal(path@, is_file, size)) {
            (Ok(()), None) => true,
            (Err(e), Some(why)) => e@ == why,
            _ => false,
        },
{
    if !is_file {
        return Err(text::cat2(path, " is not a regular file"));
    }
    if size > MAX_PUSH_BYTES {
        return Err(
            text::cat6(
                path,
                " is ",
                text::to_decimal(size).as_str(),
                " bytes, above the ",
                text::to_decimal(MAX_PUSH_BYTES).as_str(),
                " byte ceiling for a single transfer",
            ),
        );
    }
    Ok(())
}

/// A request that opens a push of a file of the host.
pub open spec fn opens_push(
    r: Request,
    host_path: Seq<char>,
    guest_path: Seq<char>,
    overwrite: bool,
) -> bool {
    r matches Request::Transfer { direction, host_path: h, guest_path: g, overwrite: o }
        && direction == TransferDirection::HostToGuest && text::opt_view(h) == Some(host_path) && g@
        == guest_path && o == overwrite
}

/// The request that opens a push. The guest validates the path, refuses to overwrite and creates
/// the file before a single byte is sent.
pub fn open_request(host_path: &str, guest_path: &str, overwrite: bool) -> (r: Request)
    ensures
        r matches Request::Transfer { direction, host_path: h, guest_path: g, overwrite: o }
            && direction == TransferDirection::HostToGuest && text::opt_view(h) == Some(host_path@)
            && g@ == guest_path@ && o == overwrite,
        opens_push(r, host_path@, guest_path@, overwrite),
{
    Request::Transfer {
        direction: TransferDirection::HostToGuest,
        host_path: Some(text::own(host_path)),
        guest_path: text::own(guest_path),
        overwrite,
    }
}

/// Why a push is not open after a reply.
pub open spec fn opening_refusal(reply: Response, guest_path: Seq<char>) -> Option<Seq<char>> {
    match reply {
        Response::Success { .. } => None,
        Response::Error { message } => Some(
            "the guest refused the destination "@ + guest_path + ": "@ + message@,
        ),
        Response::Ready { .. } => Some(
            "the guest answered a transfer with a handshake; the guest service is probably the wrong version"@,
        ),
    }
}

/// Whether the guest accepted the destination.
pub fn opened(reply: &Response, guest_path: &str) -> (r: Result<(), String>)
    ensures
        r is Ok <==> *reply is Success,
        *reply matches Response::Error { message } ==> (r matches Err(e) && e@
            == "the guest refused the destination "@ + guest_path@ + ": "@ + message@),
        *reply is Ready ==> (r matches Err(e) && e@
            == "the guest answered a transfer with a handshake; the guest service is probably the wrong version"@),
        match (r, opening_refusal(*reply, guest_path@)) {
            (Ok(()), None) => true,
            (Err(e), Some(why)) => e@ == why,
            _ => false,
        },
{
    match reply {
        Response::Success { .. } => Ok(()),
        Response::Error { message } => Err(
            text::cat4(
                "the guest refused the destination ",
                guest_path,
                ": ",
                message.as_str(),
            ),
        ),
        Response::Ready { .. } => Err(
            text::own(
                "the guest answered a transfer with a handshake; the guest service is probably the wrong version",
            ),
        ),
    }
}

/// A push in progress.
pub struct PushSession {
    guest_path: String,
    total: u64,
    offset: u64,
    chunks: u64,
    sent: Ghost<Seq<(nat, Seq<u8>)>>,
}

/// Whether a push goes on after a chunk.
#[derive(Debug)]
pub enum Progress {
    /// Read and send the next chunk.
    More,
    /// The whole file has been sent and acknowledged.
    Done(Pushed),
}

impl PushSession {
    /// Where the bytes go.
    pub closed spec fn target(self) -> Seq<char> {
        self.guest_path@
    }

    /// The size of the file.
    pub closed spec fn size(self) -> nat {
        self.total as nat
    }

    /// How many bytes have been sent and acknowledged.
    pub closed spec fn at(self) -> nat {
        self.offset as nat
    }

    /// How many chunks have been sent and acknowledged.
    pub closed spec fn count(self) -> nat {
        self.chunks as nat
    }

    /// Every chunk acknowledged so far, with the offset it was sent at.
    pub closed spec fn history(self) -> Seq<(nat, Seq<u8>)> {
        self.sent@
    }

    /// The chunks went out in order, and the offset is where the next one belongs.
    pub open spec fn wf(self) -> bool {
        &&& self.at() <= self.size() <= MAX_PUSH_BYTES
        &&& self.count() <= self.at() + 1
        &&& chunk::in_order(self.history())
        &&& fsio::concatenated(chunk::data_of(self.history())).len() == self.at()
        &&& self.history().len() == self.count()
    }

    /// A push of a file of `total` bytes, about to send its first chunk.
    pub fn begin(guest_path: &str, total: u64) -> (r: PushSession)
        requires
            total <= MAX_PUSH_BYTES,
        ensures
            r.wf(),
            r.target() == guest_path@,
            r.size() == total,
            r.at() == 0,
            r.count() == 0,
            r.history().len() == 0,
            !r.complete(),
    {
        let r = PushSession {
            guest_path: text::own(guest_path),
            total,
            offset: 0,
            chunks: 0,
            sent: Ghost(Seq::empty()),
        };
        proof {
            assert(chunk::data_of(r.history()) == Seq::<Seq<u8>>::empty());
        }
        r
    }

    /// The whole file has been acknowledged, so nothing is left to send.
    pub open spec fn complete(self) -> bool {
        self.count() > 0 && self.at() == self.size()
    }

    /// A chunk of these many bytes is the last one.
    pub open spec fn is_last(self, bytes: nat) -> bool {
        self.at() + bytes >= self.size()
    }

    /// A request carries these bytes as the next chunk.
    pub open spec fn is_next(self, request: Request, data: Seq<u8>) -> bool {
        request matches Request::TransferChunk { offset, data_base64, eof } && offset == self.at()
            && data_base64@ == base64::encoding(data) && eof == self.is_last(data.len())
    }

    /// The request that carries the bytes just read. Reading nothing before the end means that the
    /// file shrank while it was being sent.
    pub fn next_request(&self, data: &[u8]) -> (r: Result<Request, String>)
        requires
            self.wf(),
            data@.len() <= CHUNK_SIZE,
        ensures
            r is Ok <==> data@.len() > 0 || self.is_last(0),
            match r {
                Ok(request) => self.is_next(request, data@),
                Err(e) => e@ == "read 0 bytes at offset "@ + text::decimal(self.at())
                    + " but the file is "@ + text::decimal(self.size())
                    + " bytes; it shrank while being sent"@,
            },
    {
        let n: u64 = data.len() as u64;
        let is_last: bool = self.offset + n >= self.total;
        if n == 0 && !is_last {
            return Err(
                text::cat5(
                    "read 0 bytes at offset ",
                    text::to_decimal(self.offset).as_str(),
                    " but the file is ",
                    text::to_decimal(self.total).as_str(),
                    " bytes; it shrank while being sent",
                ),
            );
        }
        Ok(
            Request::TransferChunk {
                offset: self.offset,
                data_base64: base64_encode(data),
                eof: is_last,
            },
        )
    }

    /// The guest acknowledges exactly what was sent: the offset, the number of bytes, and a running
    /// total that agrees with the host's.
    pub open spec fn is_acknowledgement(self, bytes: nat, reply: Response) -> bool {
        reply matches Response::Success {
            payload: Payload::ChunkWritten { offset, bytes: written, total, eof },
        } && offset == self.at() && written == bytes && total == self.at() + bytes
    }

    /// What is wrong with a reply to a chunk of these many bytes, as a message, where it is one that
    /// a message describes.
    pub open spec fn reply_fault(self, bytes: nat, reply: Response) -> Seq<char> {
        match reply {
            Response::Success {
                payload: Payload::ChunkWritten { offset, bytes: written, total, eof },
            } => if offset != self.at() {
                "the guest acknowledged offset "@ + text::decimal(offset as nat)
                    + " for the chunk this host sent at "@ + text::decimal(self.at())
                    + "; the two sides disagree about where the file is"@
            } else if written != bytes {
                "the guest wrote "@ + text::decimal(written as nat) + " bytes for a "@
                    + text::decimal(bytes) + "-byte chunk"@
            } else {
                "the guest reports "@ + text::decimal(total as nat) + " bytes written but "@
                    + text::decimal(self.at() + bytes)
                    + " have been sent; the write is short or the acknowledgement is stale"@
            },
            Response::Error { message } => "chunk at offset "@ + text::decimal(self.at())
                + " refused: "@ + message@,
            _ => "the guest answered a chunk with a handshake"@,
        }
    }

    /// Take the guest's reply to a chunk that was sent, and say whether the push goes on. It is
    /// complete only when exactly the whole file has been acknowledged.
    pub fn acknowledged(&mut self, data: &[u8], reply: Response) -> (r: Result<Progress, Fault>)
        requires
            old(self).wf(),
            !old(self).complete(),
            data@.len() <= CHUNK_SIZE,
            data@.len() > 0 || old(self).is_last(0),
        ensures
            final(self).target() == old(self).target(),
            final(self).size() == old(self).size(),
            r is Ok <==> old(self).is_acknowledgement(data@.len(), reply) && old(self).at()
                + data@.len() <= old(self).size(),
            match r {
                Ok(progress) => {
                    &&& final(self).wf()
                    &&& final(self).at() == old(self).at() + data@.len()
                    &&& final(self).count() == old(self).count() + 1
                    &&& final(self).history() == old(self).history().push((old(self).at(), data@))
                    &&& match progress {
                        Progress::More => {
                            &&& !old(self).is_last(data@.len())
                            &&& !final(self).complete()
                        },
                        Progress::Done(pushed) => {
                            &&& old(self).is_last(data@.len())
                            &&& pushed.bytes == old(self).size()
                            &&& pushed.bytes == final(self).at()
                            &&& pushed.chunks == final(self).count()
                            &&& pushed.guest_path@ == old(self).target()
                        },
                    }
                },
                Err(Fault::Unexpected { what, payload }) => what@ == "a chunk"@ && reply == (
                Response::Success { payload }) && !(payload is ChunkWritten),
                Err(Fault::Failed(e)) => if old(self).is_acknowledgement(data@.len(), reply) {
                    e@ == "sent "@ + text::decimal(old(self).at() + data@.len()) + " bytes but "@
                        + text::decimal(old(self).size()) + " were expected"@
                } else {
                    e@ == old(self).reply_fault(data@.len(), reply) && !(reply
                        matches Response::Success { payload } && !(payload is ChunkWritten))
                },
            },
    {
        let n: u64 = data.len() as u64;
        let is_last: bool = self.offset + n >= self.total;
        let (bytes, guest_total): (u64, u64) = match reply {
            Response::Success { payload } => match payload {
                Payload::ChunkWritten { offset, bytes, total, .. } => {
                    if offset != self.offset {
                        return Err(
                            Fault::Failed(
                                text::cat5(
                                    "the guest acknowledged offset ",
                                    text::to_decimal(offset).as_str(),
                                    " for the chunk this host sent at ",
                                    text::to_decimal(self.offset).as_str(),
                                    "; the two sides disagree about where the file is",
                                ),
                            ),
                        );
                    }
                    (bytes, total)
                },
                other => return Err(Fault::Unexpected { what: "a chunk", payload: other }),
            },
            Response::Error { message } => {
                return Err(
                    Fault::Failed(
                        text::cat4(
                            "chunk at offset ",
                            text::to_decimal(self.offset).as_str(),
                            " refused: ",
                            message.as_str(),
                        ),
                    ),
                )
            },
            Response::Ready { .. } => {
                return Err(Fault::Failed(text::own("the guest answered a chunk with a handshake")))
            },
        };
        if bytes != n {
            return Err(
                Fault::Failed(
                    text::cat5(
                        "the guest wrote ",
                        text::to_decimal(bytes).as_str(),
                        " bytes for a ",
                        text::to_decimal(n).as_str(),
                        "-byte chunk",
                    ),
                ),
            );
        }
        let reached: u64 = self.offset + n;
        if guest_total != reached {
            return Err(
                Fault::Failed(
                    text::cat5(
                        "the guest reports ",
                        text::to_decimal(guest_total).as_str(),
                        " bytes written but ",
                        text::to_decimal(reached).as_str(),
                        " have been sent; the write is short or the acknowledgement is stale",
                    ),
                ),
            );
        }
        if reached > self.total {
            return Err(
                Fault::Failed(
                    text::cat5(
                        "sent ",
                        text::to_decimal(reached).as_str(),
                        " bytes but ",
                        text::to_decimal(self.total).as_str(),
                        " were expected",
                    ),
                ),
            );
        }
        proof {
            if old(self).sent@.len() == 0 {
                assert(chunk::data_of(old(self).sent@) == Seq::<Seq<u8>>::empty());
            }
            let before = old(self).sent@;
            let entry = (old(self).offset as nat, data@);
            let after = before.push(entry);
            assert(chunk::data_of(after) == chunk::data_of(before).push(data@));
            assert(chunk::data_of(after).drop_last() == chunk::data_of(before));
            assert forall|i: int| 0 <= i < after.len() implies (#[trigger] after[i]).0
                == fsio::concatenated(chunk::data_of(after.take(i))).len() by {
                assert(after.take(i) == before.take(i));
                if i < before.len() {
                    assert(after[i] == before[i]);
                } else {
                    assert(before.take(i) == before);
                }
            }
        }
        let ghost record = self.sent@.push((self.offset as nat, data@));
        self.sent = Ghost(record);
        self.offset = reached;
        self.chunks = self.chunks + 1;
        if is_last {
            Ok(
                Progress::Done(
                    Pushed {
                        bytes: self.offset,
                        chunks: self.chunks,
                        guest_path: self.guest_path.clone(),
                    },
                ),
            )
        } else {
            Ok(Progress::More)
        }
    }
}

// ---------------------------------------------------------------------------
// Laws
// ---------------------------------------------------------------------------

/// What a guest that wrote every acknowledged chunk at its offset holds is exactly what the host
/// read, in order, and as long as the acknowledged count says.
pub proof fn a_push_delivers_the_file(session: PushSession)
    requires
        session.wf(),
    ensures
        chunk::file_after(session.history()) == fsio::concatenated(
            chunk::data_of(session.history()),
        ),
        chunk::file_after(session.history()).len() == session.at(),
{
    chunk::chunks_in_order_make_the_file(session.history());
}

/// A chunk that is sent is one that the transport carries: as base64 it fills a hundredth of a frame
/// at most.
pub proof fn chunks_fit_a_frame(data: Seq<u8>)
    requires
        data.len() <= CHUNK_SIZE,
    ensures
        base64::encoding(data).len() * 100 <= framing::MAX_FRAME_LEN,
{
    base64::encoding_shape(data);
}

/// What the host sends the guest is ordered to write: the same bytes, at the same offset. And the
/// reply of a guest that wrote them there, behind all that came before, is accepted.
pub proof fn chunks_arrive_as_sent(
    session: PushSession,
    data: Seq<u8>,
    request: Request,
    order: dispatch::Order,
    roots: fsio::Roots,
    windows: bool,
    reply: Response,
)
    requires
        session.is_next(request, data),
        dispatch::is_order(order, request, roots, windows),
        session.at() + data.len() <= u64::MAX,
        dispatch::is_written(
            reply,
            session.at() as u64,
            data.len() as u64,
            session.is_last(data.len()),
            (session.at() + data.len()) as u64,
        ),
    ensures
        order matches dispatch::Order::WriteChunk { offset, data: written, eof } && offset
            == session.at() && written@ == data && eof == session.is_last(data.len()),
        session.is_acknowledgement(data.len(), reply),
{
    base64::strict_round_trip(data);
}

/// A file can be pushed exactly where it is a regular file of at most four GiB.
pub proof fn regular_files_of_bounded_size_are_pushed(path: Seq<char>, is_file: bool, size: u64)
    ensures
        source_refusal(path, is_file, size) is None <==> is_file && size <= 4 * 1024 * 1024 * 1024,
        !is_file ==> source_refusal(path, is_file, size) == Some(path + " is not a regular file"@),
        is_file && size > 4 * 1024 * 1024 * 1024 ==> source_refusal(path, is_file, size) == Some(
            path + " is "@ + text::decimal(size as nat) + " bytes, above the "@ + text::decimal(
                4294967296,
            ) + " byte ceiling for a single transfer"@,
        ),
{
}

/// The next chunk goes where the last one ended, holds the very bytes, and is marked as the last
/// exactly where it reaches the end of the file.
pub proof fn chunks_go_on_where_the_last_ended(
    session: PushSession,
    request: Request,
    data: Seq<u8>,
)
    requires
        session.is_next(request, data),
    ensures
        request matches Request::TransferChunk { offset, data_base64, eof } && {
            &&& offset == session.at()
            &&& base64::strictly_decoded(vstd::utf8::encode_utf8(data_base64@)) == Ok::<
                Seq<u8>,
                Seq<char>,
            >(data)
            &&& eof <==> offset + data.len() >= session.size()
        },
        session.complete() <==> session.count() > 0 && session.at() == session.size(),
{
    base64::strict_round_trip(data);
}

/// A chunk counts as delivered exactly where the guest says that it wrote that many bytes at that
/// offset, and that the file is now as long as what was sent. An error never counts, and is told.
pub proof fn only_exact_acknowledgements_count(session: PushSession, bytes: nat, reply: Response)
    ensures
        session.is_acknowledgement(bytes, reply) <==> (reply matches Response::Success {
            payload: Payload::ChunkWritten { offset, bytes: written, total, eof },
        } && offset == session.at() && written == bytes && total == session.at() + bytes),
        reply is Error ==> !session.is_acknowledgement(bytes, reply),
        reply matches Response::Error { message } ==> session.reply_fault(bytes, reply)
            == "chunk at offset "@ + text::decimal(session.at()) + " refused: "@ + message@,
        reply is Ready ==> session.reply_fault(bytes, reply)
            == "the guest answered a chunk with a handshake"@,
{
}

/// A push tells the guest both paths and whether it may write over a file, and is open exactly where
/// the guest agrees. A refusal is told with the guest's own words.
pub proof fn pushes_tell_where_the_file_goes(
    r: Request,
    host_path: Seq<char>,
    guest_path: Seq<char>,
    overwrite: bool,
    reply: Response,
)
    ensures
        opens_push(r, host_path, guest_path, overwrite) ==> (r matches Request::Transfer {
            direction,
            host_path: h,
            guest_path: g,
            overwrite: o,
        } && direction is HostToGuest && h is Some && h->Some_0@ == host_path && g@ == guest_path
            && o == overwrite),
        opening_refusal(reply, guest_path) is None <==> reply is Success,
        reply matches Response::Error { message } ==> opening_refusal(reply, guest_path) == Some(
            "the guest refused the destination "@ + guest_path + ": "@ + message@,
        ),
{
}

/// What is said of an acknowledgement that does not fit names what the guest reported beside what was
/// sent: first where, then how much, then how much in all.
pub proof fn misfits_are_told_with_both_numbers(
    session: PushSession,
    bytes: nat,
    offset: u64,
    written: u64,
    total: u64,
    eof: bool,
)
    ensures
        ({
            let reply = Response::Success {
                payload: Payload::ChunkWritten { offset, bytes: written, total, eof },
            };
            let said = session.reply_fault(bytes, reply);
            &&& offset != session.at() ==> said == "the guest acknowledged offset "@ + text::decimal(
                offset as nat,
            ) + " for the chunk this host sent at "@ + text::decimal(session.at())
                + "; the two sides disagree about where the file is"@
            &&& offset == session.at() && written != bytes ==> said == "the guest wrote "@
                + text::decimal(written as nat) + " bytes for a "@ + text::decimal(bytes)
                + "-byte chunk"@
            &&& offset == session.at() && written == bytes ==> said == "the guest reports "@
                + text::decimal(total as nat) + " bytes written but "@ + text::decimal(
                session.at() + bytes,
            ) + " have been sent; the write is short or the acknowledgement is stale"@
        }),
{
}

} // verus!
