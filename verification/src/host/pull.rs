//! The host side of a chunked pull: ask for a chunk, receive it, write it, ask again.
//!
//! Each chunk is written as it arrives, to a temporary file that is renamed into place only when it
//! is complete, so a truncated file never wears the artifact's name.
//!
//! A [`PullSession`] decides; whoever owns the socket and the file sends, writes and reports back.
use crate::base64;
use crate::guest::dispatch;
use crate::guest::pull;
use crate::host::push::Fault;
use crate::ipc;
use crate::ipc::{Payload, Request, Response, TransferDirection};
use crate::text;
use vstd::prelude::*;
use vstd::string::*;

verus! {

/// Bytes requested per chunk.
pub const CHUNK_SIZE: u64 = 262_144;

/// Refuse a guest file larger than this, so that a guest that misreports a size cannot fill the
/// host's disk: 4 GiB.
pub const MAX_PULL_BYTES: u64 = 4_294_967_296;

/// What a completed pull produced.
#[derive(Debug, PartialEq, Eq)]
pub struct Pulled {
    pub bytes: u64,
    pub chunks: u64,
    pub host_path: String,
}

/// Refuse an existing destination before the transfer starts. `existing` is the size of what is
/// there, where anything is.
pub fn check_destination(host_path: &str, existing: Option<u64>, overwrite: bool) -> (r: Result<
    (),
    String,
>)
    ensures
        r is Ok <==> existing is None || overwrite,
        r matches Err(e) ==> e@ == "refusing to overwrite "@ + host_path@ + " ("@ + text::decimal(
            existing->Some_0 as nat,
        ) + " bytes); pass --overwrite to replace it"@,
{
    match existing {
        None => Ok(()),
        Some(size) => if overwrite {
            Ok(())
        } else {
            Err(
                text::cat5(
                    "refusing to overwrite ",
                    host_path,
                    " (",
                    text::to_decimal(size).as_str(),
                    " bytes); pass --overwrite to replace it",
                ),
            )
        },
    }
}

/// A request that opens a pull of a file of the guest.
pub open spec fn opens_pull(r: Request, guest_path: Seq<char>) -> bool {
    r matches Request::Transfer { direction, host_path, guest_path: g, overwrite } && direction
        == TransferDirection::GuestToHost && host_path is None && g@ == guest_path && !overwrite
}

/// The request that opens a pull: the guest checks the path and that the file is there.
pub fn open_request(guest_path: &str) -> (r: Request)
    ensures
        r matches Request::Transfer { direction, host_path, guest_path: g, overwrite } && direction
            == TransferDirection::GuestToHost && host_path is None && g@ == guest_path@
            && !overwrite,
        opens_pull(r, guest_path@),
{
    Request::Transfer {
        direction: TransferDirection::GuestToHost,
        host_path: None,
        guest_path: text::own(guest_path),
        overwrite: false,
    }
}

/// The guest opened the file that was asked for, and it is within the ceiling.
pub open spec fn is_opening(reply: Response, guest_path: Seq<char>) -> bool {
    reply matches Response::Success {
        payload: Payload::Transferred { bytes, direction, guest_path: echoed },
    } && bytes <= MAX_PULL_BYTES && echoed@ == guest_path
}

/// What is wrong with a reply to an opening, as a message, where it is one that a message
/// describes.
pub open spec fn opening_fault(reply: Response, guest_path: Seq<char>) -> Seq<char> {
    match reply {
        Response::Success {
            payload: Payload::Transferred { bytes, direction, guest_path: echoed },
        } => if bytes > MAX_PULL_BYTES {
            "the guest reports "@ + text::decimal(bytes as nat) + " bytes, above the "@
                + text::decimal(MAX_PULL_BYTES as nat) + " byte ceiling for a single transfer"@
        } else {
            "the guest acknowledges a different path: "@ + echoed@
        },
        Response::Error { message } => "the guest refused to open "@ + guest_path + ": "@
            + message@,
        _ => "the guest answered a transfer with a handshake; the guest service is probably the wrong version"@,
    }
}

/// The size of the file that the guest opened.
pub fn opened(reply: Response, guest_path: &str) -> (r: Result<u64, Fault>)
    ensures
        r is Ok <==> is_opening(reply, guest_path@),
        match r {
            Ok(total) => total <= MAX_PULL_BYTES && (reply matches Response::Success {
                payload: Payload::Transferred { bytes, direction, guest_path: g },
            } && bytes == total),
            Err(Fault::Unexpected { what, payload }) => what@ == "a pull"@ && reply == (
            Response::Success { payload }) && !(payload is Transferred),
            Err(Fault::Failed(e)) => e@ == opening_fault(reply, guest_path@) && !(reply
                matches Response::Success { payload } && !(payload is Transferred)),
        },
{
    match reply {
        Response::Success { payload } => match payload {
            Payload::Transferred { bytes, guest_path: echoed, .. } => {
                if bytes > MAX_PULL_BYTES {
                    return Err(
                        Fault::Failed(
                            text::cat5(
                                "the guest reports ",
                                text::to_decimal(bytes).as_str(),
                                " bytes, above the ",
                                text::to_decimal(MAX_PULL_BYTES).as_str(),
                                " byte ceiling for a single transfer",
                            ),
                        ),
                    );
                }
                if !text::same(echoed.as_str(), guest_path) {
                    return Err(
                        Fault::Failed(
                            text::cat2(
                                "the guest acknowledges a different path: ",
                                echoed.as_str(),
                            ),
                        ),
                    );
                }
                Ok(bytes)
            },
            other => Err(Fault::Unexpected { what: "a pull", payload: other }),
        },
        Response::Error { message } => Err(
            Fault::Failed(
                text::cat4("the guest refused to open ", guest_path, ": ", message.as_str()),
            ),
        ),
        Response::Ready { .. } => Err(
            Fault::Failed(
                text::own(
                    "the guest answered a transfer with a handshake; the guest service is probably the wrong version",
                ),
            ),
        ),
    }
}

/// A pull in progress.
pub struct PullSession {
    total: u64,
    offset: u64,
    chunks: u64,
    received: Ghost<Seq<u8>>,
}

impl PullSession {
    /// The size of the file, as the guest opened it.
    pub closed spec fn size(self) -> nat {
        self.total as nat
    }

    /// How many bytes have been received and stored.
    pub closed spec fn at(self) -> nat {
        self.offset as nat
    }

    /// How many chunks have been received and stored.
    pub closed spec fn count(self) -> nat {
        self.chunks as nat
    }

    /// The bytes stored so far.
    pub closed spec fn bytes(self) -> Seq<u8> {
        self.received@
    }

    /// The offset is the number of bytes stored, which is no more than the file was said to have,
    /// and no chunk but the last was empty.
    pub open spec fn wf(self) -> bool {
        &&& self.bytes().len() == self.at()
        &&& self.at() <= self.size() <= MAX_PULL_BYTES
        &&& self.count() <= self.at() + 1
    }

    /// A pull of a file of `total` bytes, about to ask for its first chunk.
    pub fn begin(total: u64) -> (r: PullSession)
        requires
            total <= MAX_PULL_BYTES,
        ensures
            r.wf(),
            r.size() == total,
            r.at() == 0,
            r.count() == 0,
            r.bytes() == Seq::<u8>::empty(),
    {
        PullSession { total, offset: 0, chunks: 0, received: Ghost(Seq::empty()) }
    }

    /// A request for the next chunk.
    pub open spec fn asks_on(self, r: Request) -> bool {
        r matches Request::PullChunk { offset, length } && offset == self.at() && length
            == CHUNK_SIZE
    }

    /// The request for the next chunk.
    pub fn next_request(&self) -> (r: Request)
        ensures
            r matches Request::PullChunk { offset, length } && offset == self.at() && length
                == CHUNK_SIZE,
            self.asks_on(r),
    {
        Request::PullChunk { offset: self.offset, length: CHUNK_SIZE }
    }

    /// A reply carries the chunk that was asked for: at the offset asked for, of a file whose size
    /// has not changed, with bytes that decode and that the file has room for, and with at least one
    /// of them unless it is the last.
    pub open spec fn is_chunk(self, reply: Response, data: Seq<u8>, eof: bool) -> bool {
        reply matches Response::Success {
            payload: Payload::ChunkRead { offset, data_base64, eof: last, total },
        } && offset == self.at() && total == self.size() && base64::strictly_decoded(
            vstd::utf8::encode_utf8(data_base64@),
        ) == Ok::<Seq<u8>, Seq<char>>(data) && last == eof && (data.len() > 0 || eof) && self.at() + data.len() <= self.size()
    }

    /// What is wrong with a reply to a request for a chunk, as a message, where it is one that a
    /// message describes.
    pub open spec fn chunk_fault(self, reply: Response) -> Seq<char> {
        match reply {
            Response::Success {
                payload: Payload::ChunkRead { offset, data_base64, eof, total },
            } => if offset != self.at() {
                "the guest served offset "@ + text::decimal(offset as nat) + " when "@
                    + text::decimal(self.at()) + " was requested"@
            } else if total != self.size() {
                "the guest reports a total of "@ + text::decimal(total as nat)
                    + " but opened the file as "@ + text::decimal(self.size())
                    + " bytes; the file changed while it was being sent"@
            } else {
                match base64::strictly_decoded(vstd::utf8::encode_utf8(data_base64@)) {
                    Err(fault) => "undecodable chunk at offset "@ + text::decimal(self.at())
                        + ": "@ + fault,
                    Ok(data) => if data.len() == 0 && !eof {
                        "the guest returned no bytes at offset "@ + text::decimal(self.at())
                            + " without signalling the end; continuing would loop forever"@
                    } else {
                        "the guest sent "@ + text::decimal(data.len()) + " bytes at offset "@
                            + text::decimal(self.at()) + " of a file that it said has "@
                            + text::decimal(self.size())
                    },
                }
            },
            Response::Error { message } => "chunk at offset "@ + text::decimal(self.at())
                + " refused: "@ + message@,
            _ => "the guest answered a chunk with a handshake"@,
        }
    }

    /// The bytes of the chunk that was asked for, and whether it is the last.
    pub fn received(&self, reply: Response) -> (r: Result<(Vec<u8>, bool), Fault>)
        requires
            self.wf(),
        ensures
            match r {
                Ok((data, eof)) => self.is_chunk(reply, data@, eof),
                Err(Fault::Unexpected { what, payload }) => what@ == "a chunk request"@ && reply
                    == (Response::Success { payload }) && !(payload is ChunkRead),
                Err(Fault::Failed(e)) => {
                    &&& e@ == self.chunk_fault(reply)
                    &&& !(reply matches Response::Success { payload } && !(payload is ChunkRead))
                    &&& forall|data: Seq<u8>, eof: bool| !self.is_chunk(reply, data, eof)
                },
            },
    {
        match reply {
            Response::Success { payload } => match payload {
                Payload::ChunkRead { offset, data_base64, eof, total } => {
                    if offset != self.offset {
                        return Err(
                            Fault::Failed(
                                text::cat5(
                                    "the guest served offset ",
                                    text::to_decimal(offset).as_str(),
                                    " when ",
                                    text::to_decimal(self.offset).as_str(),
                                    " was requested",
                                ),
                            ),
                        );
                    }
                    if total != self.total {
                        return Err(
                            Fault::Failed(
                                text::cat5(
                                    "the guest reports a total of ",
                                    text::to_decimal(total).as_str(),
                                    " but opened the file as ",
                                    text::to_decimal(self.total).as_str(),
                                    " bytes; the file changed while it was being sent",
                                ),
                            ),
                        );
                    }
                    match ipc::base64_decode(data_base64.as_str()) {
                        Err(e) => Err(
                            Fault::Failed(
                                text::cat4(
                                    "undecodable chunk at offset ",
                                    text::to_decimal(self.offset).as_str(),
                                    ": ",
                                    e.as_str(),
                                ),
                            ),
                        ),
                        Ok(data) => {
                            if data.len() == 0 && !eof {
                                return Err(
                                    Fault::Failed(
                                        text::cat3(
                                            "the guest returned no bytes at offset ",
                                            text::to_decimal(self.offset).as_str(),
                                            " without signalling the end; continuing would loop forever",
                                        ),
                                    ),
                                );
                            }
                            let room: u64 = self.total - self.offset;
                            let size: u64 = data.len() as u64;
                            if size > room {
                                return Err(
                                    Fault::Failed(
                                        text::cat6(
                                            "the guest sent ",
                                            text::to_decimal(size).as_str(),
                                            " bytes at offset ",
                                            text::to_decimal(self.offset).as_str(),
                                            " of a file that it said has ",
                                            text::to_decimal(self.total).as_str(),
                                        ),
                                    ),
                                );
                            }
                            Ok((data, eof))
                        },
                    }
                },
                other => Err(Fault::Unexpected { what: "a chunk request", payload: other }),
            },
            Response::Error { message } => Err(
                Fault::Failed(
                    text::cat4(
                        "chunk at offset ",
                        text::to_decimal(self.offset).as_str(),
                        " refused: ",
                        message.as_str(),
                    ),
                ),
            ),
            Response::Ready { .. } => Err(
                Fault::Failed(text::own("the guest answered a chunk with a handshake")),
            ),
        }
    }

    /// The bytes of a chunk were written to the destination. Only one chunk, the last, may be empty.
    pub fn stored(&mut self, data: &[u8])
        requires
            old(self).wf(),
            old(self).at() + data@.len() <= old(self).size(),
            data@.len() > 0 || old(self).count() <= old(self).at(),
        ensures
            final(self).wf(),
            final(self).size() == old(self).size(),
            final(self).at() == old(self).at() + data@.len(),
            final(self).count() == old(self).count() + 1,
            final(self).bytes() == old(self).bytes() + data@,
    {
        let ghost all = self.received@ + data@;
        self.received = Ghost(all);
        self.offset = self.offset + data.len() as u64;
        self.chunks = self.chunks + 1;
    }

    /// How many bytes have been stored.
    pub fn offset(&self) -> (n: u64)
        ensures
            n == self.at(),
    {
        self.offset
    }

    /// After the last chunk: whether as many bytes arrived as the guest said the file has.
    pub fn check_total(&self) -> (r: Result<(), String>)
        requires
            self.wf(),
        ensures
            r is Ok <==> self.bytes().len() == self.size(),
            r matches Err(e) ==> e@ == "received "@ + text::decimal(self.at())
                + " bytes but the guest said the file is "@ + text::decimal(self.size())
                + "; the transfer is short"@,
    {
        if self.offset != self.total {
            return Err(
                text::cat5(
                    "received ",
                    text::to_decimal(self.offset).as_str(),
                    " bytes but the guest said the file is ",
                    text::to_decimal(self.total).as_str(),
                    "; the transfer is short",
                ),
            );
        }
        Ok(())
    }

    /// The size on disk is held against the count before the file is moved into place.
    pub fn finish(&self, temp_path: &str, on_disk: u64, host_path: &str) -> (r: Result<
        Pulled,
        String,
    >)
        requires
            self.wf(),
            self.at() == self.size(),
        ensures
            r is Ok <==> on_disk == self.size(),
            match r {
                Ok(pulled) => {
                    &&& pulled.bytes == self.bytes().len()
                    &&& pulled.chunks == self.count()
                    &&& pulled.host_path@ == host_path@
                },
                Err(e) => e@ == temp_path@ + " is "@ + text::decimal(on_disk as nat)
                    + " bytes but the transfer counted "@ + text::decimal(self.size()),
            },
    {
        if on_disk != self.total {
            return Err(
                text::cat5(
                    temp_path,
                    " is ",
                    text::to_decimal(on_disk).as_str(),
                    " bytes but the transfer counted ",
                    text::to_decimal(self.total).as_str(),
                ),
            );
        }
        Ok(Pulled { bytes: self.offset, chunks: self.chunks, host_path: text::own(host_path) })
    }
}

// ---------------------------------------------------------------------------
// Laws
// ---------------------------------------------------------------------------

/// A guest that misreports a size cannot fill the host's disk: what is stored is never more than the
/// guest announced, which is within the ceiling, and a chunk that would go beyond is refused.
pub proof fn what_is_stored_is_bounded(session: PullSession, reply: Response, data: Seq<u8>, eof: bool)
    requires
        session.wf(),
    ensures
        session.bytes().len() <= session.size() <= MAX_PULL_BYTES,
        session.at() + data.len() > session.size() ==> !session.is_chunk(reply, data, eof),
        session.at() == session.size() && !eof ==> !session.is_chunk(reply, data, eof),
{
}

/// The bytes that have arrived are the beginning of the file.
pub open spec fn is_prefix(session: PullSession, file: Seq<u8>) -> bool {
    session.at() <= file.len() && session.bytes() == file.take(session.at() as int)
}

/// A chunk of the file that a guest serves as asked keeps what has arrived the beginning of that
/// file, and with the last chunk it is the whole file.
pub proof fn a_pull_collects_the_file(
    before: PullSession,
    after: PullSession,
    file: Seq<u8>,
    data: Seq<u8>,
)
    requires
        before.wf(),
        after.wf(),
        is_prefix(before, file),
        data == pull::chunk_of(file, before.at(), CHUNK_SIZE as nat),
        after.bytes() == before.bytes() + data,
    ensures
        is_prefix(after, file),
        after.at() == file.len() ==> after.bytes() == file,
        before.at() < file.len() ==> after.at() > before.at(),
{
    assert(after.bytes() == file.take(after.at() as int));
    if after.at() == file.len() {
        assert(file.take(file.len() as int) == file);
    }
}

/// The chunk that a guest reads out of a file as it was asked to is accepted, as the bytes that the
/// file holds there.
pub proof fn chunks_are_received_as_read(session: PullSession, file: Seq<u8>, reply: Response)
    requires
        session.wf(),
        session.size() == file.len(),
        session.at() <= file.len(),
        ({
            let data = pull::chunk_of(file, session.at(), CHUNK_SIZE as nat);
            dispatch::is_read(
                reply,
                session.at() as u64,
                data,
                session.at() + data.len() == file.len(),
                file.len() as u64,
            )
        }),
    ensures
        ({
            let data = pull::chunk_of(file, session.at(), CHUNK_SIZE as nat);
            session.is_chunk(reply, data, session.at() + data.len() == file.len())
        }),
{
    base64::strict_round_trip(pull::chunk_of(file, session.at(), CHUNK_SIZE as nat));
}

/// A pull is open exactly where the guest answers with the size of the file that was asked for, and
/// that is at most four GiB. An error of the guest is told.
pub proof fn pulls_open_on_the_file_asked_for(reply: Response, guest_path: Seq<char>)
    ensures
        is_opening(reply, guest_path) <==> (reply matches Response::Success {
            payload: Payload::Transferred { bytes, direction, guest_path: echoed },
        } && bytes <= 4 * 1024 * 1024 * 1024 && echoed@ == guest_path),
        reply matches Response::Error { message } ==> opening_fault(reply, guest_path)
            == "the guest refused to open "@ + guest_path + ": "@ + message@,
        reply is Ready ==> opening_fault(reply, guest_path)
            == "the guest answered a transfer with a handshake; the guest service is probably the wrong version"@,
{
}

/// Bytes are taken exactly where the guest sends them for the offset that was asked for, of a file of
/// the size it was opened with, and they decode, fit the file, and are some, or else the end. An
/// error is never taken for bytes.
pub proof fn only_the_chunk_asked_for_is_taken(
    session: PullSession,
    reply: Response,
    data: Seq<u8>,
    eof: bool,
)
    ensures
        session.is_chunk(reply, data, eof) <==> (reply matches Response::Success {
            payload: Payload::ChunkRead { offset, data_base64, eof: last, total },
        } && {
            &&& offset == session.at()
            &&& total == session.size()
            &&& base64::strictly_decoded(vstd::utf8::encode_utf8(data_base64@)) == Ok::<
                Seq<u8>,
                Seq<char>,
            >(data)
            &&& last == eof
            &&& data.len() > 0 || eof
            &&& session.at() + data.len() <= session.size()
        }),
        reply is Error || reply is Ready ==> !session.is_chunk(reply, data, eof),
{
}

/// A pull asks for the file from the guest, by its own path and to write over nothing there, and then
/// for 256 KiB at a time from where it has got to.
pub proof fn pulls_ask_for_the_file(session: PullSession, r: Request, guest_path: Seq<char>)
    ensures
        opens_pull(r, guest_path) ==> (r matches Request::Transfer {
            direction,
            host_path,
            guest_path: g,
            overwrite,
        } && direction is GuestToHost && host_path is None && g@ == guest_path && !overwrite),
        session.asks_on(r) ==> (r matches Request::PullChunk { offset, length } && offset
            == session.at() && length == 256 * 1024),
{
}

/// What is said of a chunk that does not fit names what the guest sent beside what was asked for.
pub proof fn misfits_are_told_with_both_numbers(
    session: PullSession,
    offset: u64,
    data_base64: String,
    eof: bool,
    total: u64,
)
    ensures
        ({
            let reply = Response::Success {
                payload: Payload::ChunkRead { offset, data_base64, eof, total },
            };
            let said = session.chunk_fault(reply);
            let data = base64::strictly_decoded(vstd::utf8::encode_utf8(data_base64@));
            &&& offset != session.at() ==> said == "the guest served offset "@ + text::decimal(
                offset as nat,
            ) + " when "@ + text::decimal(session.at()) + " was requested"@
            &&& offset == session.at() && total != session.size() ==> said
                == "the guest reports a total of "@ + text::decimal(total as nat)
                + " but opened the file as "@ + text::decimal(session.size())
                + " bytes; the file changed while it was being sent"@
            &&& offset == session.at() && total == session.size() && data is Err ==> said
                == "undecodable chunk at offset "@ + text::decimal(session.at()) + ": "@
                + data->Err_0
            &&& offset == session.at() && total == session.size() && data is Ok && data->Ok_0.len()
                == 0 && !eof ==> said == "the guest returned no bytes at offset "@ + text::decimal(
                session.at(),
            ) + " without signalling the end; continuing would loop forever"@
            &&& offset == session.at() && total == session.size() && data is Ok && (data->Ok_0.len()
                > 0 || eof) ==> said == "the guest sent "@ + text::decimal(data->Ok_0.len())
                + " bytes at offset "@ + text::decimal(session.at())
                + " of a file that it said has "@ + text::decimal(session.size())
        }),
{
}

/// What is said of a file that is too large, or not the one that was asked for, names its size or its
/// path.
pub proof fn other_files_are_told(
    bytes: u64,
    direction: String,
    echoed: String,
    guest_path: Seq<char>,
)
    ensures
        ({
            let reply = Response::Success {
                payload: Payload::Transferred { bytes, direction, guest_path: echoed },
            };
            &&& bytes > 4294967296 ==> opening_fault(reply, guest_path) == "the guest reports "@
                + text::decimal(bytes as nat) + " bytes, above the "@ + text::decimal(4294967296)
                + " byte ceiling for a single transfer"@
            &&& bytes <= 4294967296 ==> opening_fault(reply, guest_path)
                == "the guest acknowledges a different path: "@ + echoed@
        }),
{
}

} // verus!
