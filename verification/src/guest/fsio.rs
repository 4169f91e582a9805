//! Real filesystem access for transfers, chunked: the sizes, the limits and the staging roots.
//!
//! A file never travels as one frame. In chunks, memory stays flat whatever the file's size, and a
//! stream that dies halfway is detectably short.
use crate::framing;
use crate::guest::transfer;
use crate::ipc;
use crate::text;
use vstd::prelude::*;
use vstd::slice::*;
use vstd::string::*;

verus! {

/// Bytes per chunk.
pub const CHUNK_SIZE: usize = 262_144;

/// Refuse to transfer a single file larger than this, before opening anything: 4 GiB.
pub const MAX_TRANSFER_BYTES: u64 = 4_294_967_296;

/// Why a file is not read whole, if it is not: it has to be a regular file within the ceiling.
pub open spec fn read_refusal(path: Seq<char>, is_file: bool, size: u64) -> Option<Seq<char>> {
    if !is_file {
        Some("'"@ + path + "' is not a regular file"@)
    } else if size > MAX_TRANSFER_BYTES {
        Some(
            "'"@ + path + "' is "@ + text::decimal(size as nat) + " bytes, above the "@
                + text::decimal(MAX_TRANSFER_BYTES as nat)
                + " byte ceiling for a single transfer"@,
        )
    } else {
        None
    }
}

/// Decide from a file's metadata whether to read it, before a byte of it is read.
pub fn check_readable(path: &str, is_file: bool, size: u64) -> (r: Result<(), String>)
    ensures
        match (r, read_refusal(path@, is_file, size)) {
            (Ok(()), None) => true,
            (Err(e), Some(why)) => e@ == why,
            _ => false,
        },
{
    if !is_file {
        return Err(text::cat3("'", path, "' is not a regular file"));
    }
    if size > MAX_TRANSFER_BYTES {
        return Err(
            text::cat7(
                "'",
                path,
                "' is ",
                text::to_decimal(size).as_str(),
                " bytes, above the ",
                text::to_decimal(MAX_TRANSFER_BYTES).as_str(),
                " byte ceiling for a single transfer",
            ),
        );
    }
    Ok(())
}

/// Whether as much was written as was meant to be.
pub open spec fn is_whole(written: u64, intended: u64) -> bool {
    written == intended
}

/// Hold the size on disk against what was meant to be written.
pub fn check_written(path: &str, written: u64, intended: u64) -> (r: Result<(), String>)
    ensures
        r is Ok <==> written == intended,
        r is Ok <==> is_whole(written, intended),
        r matches Err(e) ==> e@ == "wrote "@ + text::decimal(written as nat) + " bytes to '"@
            + path@ + "' but intended "@ + text::decimal(intended as nat)
            + " — the transfer is short"@,
{
    if written != intended {
        return Err(
            text::cat7(
                "wrote ",
                text::to_decimal(written).as_str(),
                " bytes to '",
                path,
                "' but intended ",
                text::to_decimal(intended).as_str(),
                " — the transfer is short",
            ),
        );
    }
    Ok(())
}

// ---------------------------------------------------------------------------
// Staging roots
// ---------------------------------------------------------------------------

/// The staging roots this guest will read from and write to. A transfer can only ever touch the
/// directory chosen for it.
#[derive(Debug)]
pub struct Roots {
    pub guest: String,
    pub host: String,
}

/// A root, replaced by an override that is not blank.
pub open spec fn overridden(default: Seq<char>, value: Option<Seq<char>>) -> Seq<char> {
    match value {
        Some(v) => if text::is_blank(v) {
            default
        } else {
            v
        },
        None => default,
    }
}

impl Roots {
    /// The real staging roots for an installed guest.
    pub fn default_staging() -> (r: Roots)
        ensures
            r.guest@ == r"C:\ProgramData\wvm\staging"@,
            r.host@ == r"C:\ProgramData\wvm\staging-host"@,
    {
        Roots {
            guest: text::own(r"C:\ProgramData\wvm\staging"),
            host: text::own(r"C:\ProgramData\wvm\staging-host"),
        }
    }

    /// The roots, given the values of the two override variables where they are set. A blank
    /// override counts as none.
    pub fn from_env(guest_staging: Option<String>, host_staging: Option<String>) -> (r: Roots)
        ensures
            r.guest@ == overridden(
                r"C:\ProgramData\wvm\staging"@,
                match guest_staging {
                    Some(v) => Some(v@),
                    None => None,
                },
            ),
            r.host@ == overridden(
                r"C:\ProgramData\wvm\staging-host"@,
                match host_staging {
                    Some(v) => Some(v@),
                    None => None,
                },
            ),
    {
        let mut roots = Roots::default_staging();
        if let Some(v) = guest_staging {
            if !text::blank(v.as_str()) {
                roots.guest = v;
            }
        }
        if let Some(v) = host_staging {
            if !text::blank(v.as_str()) {
                roots.host = v;
            }
        }
        roots
    }
}

/// The planner's direction for a direction on the wire.
pub open spec fn internal_direction(direction: ipc::TransferDirection) -> transfer::Direction {
    match direction {
        ipc::TransferDirection::HostToGuest => transfer::Direction::HostToGuest,
        ipc::TransferDirection::GuestToHost => transfer::Direction::GuestToHost,
    }
}

/// Plan a transfer against these roots.
pub fn plan_from(
    direction: &ipc::TransferDirection,
    roots: &Roots,
    guest_path: &str,
    host_path: &str,
) -> (r: Result<transfer::TransferPlan, String>)
    ensures
        match (r, transfer::plan_refusal(roots.guest@, roots.host@, guest_path@)) {
            (Ok(p), None) => {
                &&& p.direction == internal_direction(*direction)
                &&& p.guest_path@ == text::replaced(guest_path@, '/', '\\')
                &&& p.host_path@ == host_path@
                &&& !p.overwrite
            },
            (Err(e), Some(why)) => e@ == why,
            _ => false,
        },
{
    let internal = match direction {
        ipc::TransferDirection::HostToGuest => transfer::Direction::HostToGuest,
        ipc::TransferDirection::GuestToHost => transfer::Direction::GuestToHost,
    };
    transfer::plan(internal, roots.guest.as_str(), roots.host.as_str(), guest_path, host_path)
}

// ---------------------------------------------------------------------------
// Chunks
// ---------------------------------------------------------------------------

/// The spans, as offset and length, of the chunks from `offset` up to `total`: full ones, then what
/// is left.
pub open spec fn spans(offset: nat, total: nat) -> Seq<(nat, nat)>
    decreases total - offset,
{
    if offset >= total {
        seq![]
    } else if total - offset <= CHUNK_SIZE {
        seq![(offset, (total - offset) as nat)]
    } else {
        seq![(offset, CHUNK_SIZE as nat)] + spans(offset + CHUNK_SIZE as nat, total)
    }
}

/// Spans as numbers.
pub open spec fn span_views(v: Seq<(usize, usize)>) -> Seq<(nat, nat)> {
    v.map_values(|p: (usize, usize)| (p.0 as nat, p.1 as nat))
}

/// The `(offset, len)` pairs of the chunks of `total` bytes.
pub fn chunks(total: usize) -> (r: Vec<(usize, usize)>)
    ensures
        span_views(r@) == spans(0, total as nat),
{
    let mut out: Vec<(usize, usize)> = Vec::new();
    let mut offset: usize = 0;
    assert(span_views(out@) + spans(0, total as nat) == spans(0, total as nat));
    while offset < total
        invariant
            offset <= total,
            span_views(out@) + spans(offset as nat, total as nat) == spans(0, total as nat),
        decreases total - offset,
    {
        let left: usize = total - offset;
        let len: usize = if CHUNK_SIZE < left {
            CHUNK_SIZE
        } else {
            left
        };
        let ghost before = out@;
        out.push((offset, len));
        proof {
            let rest = spans((offset + len) as nat, total as nat);
            assert(span_views(out@) == span_views(before).push((offset as nat, len as nat)));
            assert(spans(offset as nat, total as nat) == seq![(offset as nat, len as nat)] + rest);
            assert(span_views(before).push((offset as nat, len as nat)) + rest == span_views(before)
                + (seq![(offset as nat, len as nat)] + rest));
        }
        offset += len;
    }
    assert(span_views(out@) + Seq::<(nat, nat)>::empty() == span_views(out@));
    out
}

/// Spans tile a length from an offset on: each begins where the one before ended, none is empty or
/// over the chunk size, and the last one ends at the total.
pub open spec fn tiles(s: Seq<(nat, nat)>, offset: nat, total: nat) -> bool
    decreases s.len(),
{
    if s.len() == 0 {
        offset == total
    } else {
        &&& s[0].0 == offset
        &&& 0 < s[0].1 <= CHUNK_SIZE
        &&& tiles(s.skip(1), offset + s[0].1, total)
    }
}

/// The chunks of a total tile it exactly: no gap, no overlap, no empty chunk.
pub proof fn chunks_tile_the_total(offset: nat, total: nat)
    requires
        offset <= total,
    ensures
        tiles(spans(offset, total), offset, total),
    decreases total - offset,
{
    let s = spans(offset, total);
    if offset < total {
        if total - offset <= CHUNK_SIZE {
            assert(s.skip(1) == Seq::<(nat, nat)>::empty());
            assert(tiles(s.skip(1), total, total));
        } else {
            chunks_tile_the_total(offset + CHUNK_SIZE as nat, total);
            assert(s.skip(1) == spans(offset + CHUNK_SIZE as nat, total));
        }
    }
}

/// The bytes of several chunks, one after the other.
pub open spec fn concatenated(parts: Seq<Seq<u8>>) -> Seq<u8>
    decreases parts.len(),
{
    if parts.len() == 0 {
        seq![]
    } else {
        concatenated(parts.drop_last()) + parts.last()
    }
}

/// A chunk that was handed over, and what was answered.
pub type Handed = (Seq<u8>, Result<(), Seq<char>>);

/// Takes the chunks of a stream, one at a time, and may refuse one.
pub trait ChunkConsumer: Sized {
    /// The chunks handed over so far, in order.
    spec fn taken(&self) -> Seq<Handed>;

    /// Take one chunk.
    fn take_chunk(&mut self, chunk: &[u8]) -> (r: Result<(), String>)
        ensures
            final(self).taken() == old(self).taken().push(
                (
                    chunk@,
                    match r {
                        Ok(()) => Ok(()),
                        Err(e) => Err(e@),
                    },
                ),
            ),
    ;
}

/// The bytes of each chunk that was handed over.
pub open spec fn chunks_of(handed: Seq<Handed>) -> Seq<Seq<u8>> {
    handed.map_values(|h: Handed| h.0)
}

/// Chunks are handed over as they should be: none empty, none over the chunk size, none short but
/// the last, and none after one that was refused.
pub open spec fn well_handed(handed: Seq<Handed>) -> bool {
    &&& forall|i: int| 0 <= i < handed.len() ==> 0 < (#[trigger] handed[i]).0.len() <= CHUNK_SIZE
    &&& forall|i: int|
        0 <= i < handed.len() - 1 ==> (#[trigger] handed[i]).0.len() == CHUNK_SIZE && handed[i].1
            is Ok
}

/// Read a byte stream to its end in chunks, hand each over, and count the bytes. Every byte is
/// delivered exactly once and in order; a short last chunk is delivered too, and no chunk is empty.
/// A chunk that is refused ends the reading with the refusal, and nothing more is handed over. At
/// no time is more than one chunk held.
pub fn read_in_chunks<C: ChunkConsumer>(reader: &mut framing::Cursor, consumer: &mut C) -> (r:
    Result<u64, String>)
    requires
        old(reader).wf(),
    ensures
        final(reader).wf(),
        final(consumer).taken().len() >= old(consumer).taken().len(),
        final(consumer).taken().take(old(consumer).taken().len() as int) == old(consumer).taken(),
        ({
            let handed = final(consumer).taken().skip(old(consumer).taken().len() as int);
            &&& well_handed(handed)
            &&& old(reader).rest() == concatenated(chunks_of(handed)) + final(reader).rest()
            &&& match r {
                Ok(total) => {
                    &&& total == old(reader).rest().len()
                    &&& final(reader).rest().len() == 0
                    &&& handed.len() > 0 ==> handed.last().1 is Ok
                },
                Err(e) => handed.len() > 0 && handed.last().1 == Err::<(), Seq<char>>(e@),
            }
        }),
{
    let ghost stream = reader.rest();
    let ghost first = consumer.taken();
    let left: usize = reader.remaining();
    let mut total: u64 = 0;
    proof {
        assert(first.take(first.len() as int) == first);
        assert(first.skip(first.len() as int) == Seq::<Handed>::empty());
        assert(chunks_of(Seq::<Handed>::empty()) == Seq::<Seq<u8>>::empty());
        assert(stream == Seq::<u8>::empty() + stream);
    }
    loop
        invariant
            reader.wf(),
            stream == old(reader).rest(),
            first == old(consumer).taken(),
            consumer.taken().len() >= first.len(),
            consumer.taken().take(first.len() as int) == first,
            well_handed(consumer.taken().skip(first.len() as int)),
            stream == concatenated(chunks_of(consumer.taken().skip(first.len() as int)))
                + reader.rest(),
            total == stream.len() - reader.rest().len(),
            stream.len() == left,
            consumer.taken().len() > first.len() ==> consumer.taken().last().1 is Ok && (
            reader.rest().len() > 0 ==> consumer.taken().last().0.len() == CHUNK_SIZE),
        decreases reader.rest().len(),
    {
        let ghost before = reader.rest();
        let ghost all = consumer.taken();
        let ghost done = all.skip(first.len() as int);
        let piece: Vec<u8> = reader.read(CHUNK_SIZE);
        if piece.len() == 0 {
            assert(reader.rest().len() == 0);
            return Ok(total);
        }
        let answer: Result<(), String> = consumer.take_chunk(piece.as_slice());
        proof {
            let now = consumer.taken().skip(first.len() as int);
            assert(consumer.taken().take(first.len() as int) == all.take(first.len() as int));
            assert(now == done.push(consumer.taken().last()));
            assert(chunks_of(now) == chunks_of(done).push(piece@));
            assert(chunks_of(now).drop_last() == chunks_of(done));
            assert(before == piece@ + reader.rest());
            assert(concatenated(chunks_of(done)) + (piece@ + reader.rest()) == (concatenated(
                chunks_of(done),
            ) + piece@) + reader.rest());
            assert forall|i: int| 0 <= i < now.len() implies 0 < (#[trigger] now[i]).0.len()
                <= CHUNK_SIZE by {
                if i < done.len() {
                    assert(now[i] == done[i]);
                }
            }
            assert forall|i: int| 0 <= i < now.len() - 1 implies (#[trigger] now[i]).0.len()
                == CHUNK_SIZE && now[i].1 is Ok by {
                assert(now[i] == done[i]);
                if i == done.len() - 1 {
                    assert(done[i] == all.last());
                }
            }
        }
        if let Err(e) = answer {
            return Err(e);
        }
        total = total + piece.len() as u64;
    }
}

/// A consumer that keeps the chunks in memory, up to a limit.
#[derive(Debug)]
pub struct Gathered {
    handed: Vec<(Vec<u8>, bool)>,
    room: usize,
}

/// Chunks, each with whether it was kept, as they were handed over. One that is not kept is refused.
pub open spec fn handed_over(chunks: Seq<(Vec<u8>, bool)>) -> Seq<Handed> {
    chunks.map_values(
        |c: (Vec<u8>, bool)|
            (
                c.0@,
                if c.1 {
                    Ok::<(), Seq<char>>(())
                } else {
                    Err("no room for another chunk"@)
                },
            ),
    )
}

/// The bytes of the chunks that were taken, one after the other.
pub open spec fn kept(handed: Seq<Handed>) -> Seq<u8>
    decreases handed.len(),
{
    if handed.len() == 0 {
        seq![]
    } else if handed.last().1 is Ok {
        kept(handed.drop_last()) + handed.last().0
    } else {
        kept(handed.drop_last())
    }
}

impl Gathered {
    /// How many more bytes are kept.
    pub closed spec fn room(self) -> nat {
        self.room as nat
    }

    /// Nothing gathered yet, and up to `limit` bytes to come.
    pub fn up_to(limit: usize) -> (r: Gathered)
        ensures
            r.taken() == Seq::<Handed>::empty(),
            r.room() == limit,
    {
        let r = Gathered { handed: Vec::new(), room: limit };
        assert(r.taken() == Seq::<Handed>::empty());
        r
    }

    /// How many chunks were handed over.
    pub fn count(&self) -> (n: usize)
        ensures
            n == self.taken().len(),
    {
        self.handed.len()
    }

    /// The bytes of the chunks that were kept, one after the other.
    pub fn bytes(&self) -> (r: Vec<u8>)
        ensures
            r@ == kept(self.taken()),
    {
        let ghost all = self.taken();
        let mut out: Vec<u8> = Vec::new();
        let mut i: usize = 0;
        while i < self.handed.len()
            invariant
                i <= self.handed.len(),
                all == self.taken(),
                out@ == kept(all.take(i as int)),
            decreases self.handed.len() - i,
        {
            proof {
                assert(all.take(i + 1).drop_last() == all.take(i as int));
                assert(all.take(i + 1).last() == all[i as int]);
            }
            if self.handed[i].1 {
                out.extend_from_slice(self.handed[i].0.as_slice());
            }
            i += 1;
        }
        assert(all.take(all.len() as int) == all);
        out
    }
}

impl ChunkConsumer for Gathered {
    closed spec fn taken(&self) -> Seq<Handed> {
        handed_over(self.handed@)
    }

    fn take_chunk(&mut self, chunk: &[u8]) -> (r: Result<(), String>)
        ensures
            r is Ok <==> chunk@.len() <= old(self).room(),
            r is Ok ==> final(self).room() == old(self).room() - chunk@.len(),
            r matches Err(e) ==> e@ == "no room for another chunk"@ && final(self).room() == old(
                self,
            ).room(),
    {
        let ghost before = self.handed@;
        let fits: bool = chunk.len() <= self.room;
        let copy: Vec<u8> = slice_to_vec(chunk);
        self.handed.push((copy, fits));
        let ghost entry = handed_over(self.handed@).last();
        assert(handed_over(self.handed@) == handed_over(before).push(entry));
        if fits {
            self.room = self.room - chunk.len();
            Ok(())
        } else {
            Err(text::own("no room for another chunk"))
        }
    }
}

/// A file can be transferred exactly where it is a regular file of at most four GiB.
pub proof fn regular_files_of_bounded_size_are_read(path: Seq<char>, is_file: bool, size: u64)
    ensures
        read_refusal(path, is_file, size) is None <==> is_file && size <= 4 * 1024 * 1024 * 1024,
        !is_file ==> read_refusal(path, is_file, size) == Some(
            "'"@ + path + "' is not a regular file"@,
        ),
        is_file && size > 4 * 1024 * 1024 * 1024 ==> read_refusal(path, is_file, size) == Some(
            "'"@ + path + "' is "@ + text::decimal(size as nat) + " bytes, above the "@
                + text::decimal(4294967296) + " byte ceiling for a single transfer"@,
        ),
{
}

/// A file is sent in chunks of 256 KiB, one directly after the other from its start to its end, and
/// only the last may be smaller.
pub proof fn chunks_are_full_but_for_the_last(offset: nat, total: nat, i: int)
    requires
        offset <= total,
        0 <= i < spans(offset, total).len(),
    ensures
        spans(offset, total)[i].0 == offset + i * 262_144,
        i < spans(offset, total).len() - 1 ==> spans(offset, total)[i].1 == 262_144,
        i == spans(offset, total).len() - 1 ==> spans(offset, total)[i].0 + spans(
            offset,
            total,
        )[i].1 == total && 0 < spans(offset, total)[i].1 <= 262_144,
    decreases total - offset,
{
    let s = spans(offset, total);
    if total - offset > CHUNK_SIZE {
        let next = offset + CHUNK_SIZE as nat;
        let rest = spans(next, total);
        assert(s =~= seq![(offset, CHUNK_SIZE as nat)] + rest);
        if i > 0 {
            assert(s[i] == rest[i - 1]);
            chunks_are_full_but_for_the_last(next, total, i - 1);
        } else {
            assert(rest.len() > 0);
        }
    }
}

/// A staging directory that the environment names is used, and one that it does not name, or names
/// with nothing but white space, is the one assumed.
pub proof fn named_directories_are_used(default: Seq<char>, value: Seq<char>)
    ensures
        overridden(default, None) == default,
        text::is_blank(value) ==> overridden(default, Some(value)) == default,
        !text::is_blank(value) ==> overridden(default, Some(value)) == value,
{
}

/// A file counts as written exactly where neither a byte less nor a byte more than was meant is there.
pub proof fn short_and_long_writes_are_noticed(written: u64, intended: u64)
    ensures
        written < intended ==> !is_whole(written, intended),
        written > intended ==> !is_whole(written, intended),
        is_whole(intended, intended),
{
}

/// The pieces of a file put together are the first piece and then the others put together, with
/// nothing between, before or after them.
pub proof fn pieces_go_together_in_order(parts: Seq<Seq<u8>>, part: Seq<u8>)
    ensures
        concatenated(parts.push(part)) == concatenated(parts) + part,
        concatenated(Seq::empty()).len() == 0,
        concatenated(seq![part]) == part,
{
    assert(parts.push(part).drop_last() =~= parts);
    let none = Seq::<Seq<u8>>::empty();
    assert(seq![part].drop_last() =~= none);
    assert(concatenated(none) =~= Seq::<u8>::empty());
    assert(concatenated(none) + part =~= part);
}

} // verus!
