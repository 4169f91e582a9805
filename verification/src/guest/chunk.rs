//! The guest side of a chunked push: check the offset, place the bytes, acknowledge.
//!
//! The protocol is request then acknowledgement, one chunk at a time, so the transfer advances at
//! the speed of the guest's disk. A chunk that does not begin where the previous one ended is
//! refused: a file of the right size with a gap or an overlap in the middle would otherwise look
//! complete.
//!
//! The decisions are here. Whoever owns the files creates, writes, flushes and removes them, and
//! reports back what happened.
use crate::guest::fsio;
use crate::text;
use vstd::prelude::*;
use vstd::string::*;

verus! {

/// What the guest resolved a transfer into, before any bytes arrive.
#[derive(Debug)]
pub struct Destination {
    pub path: String,
    pub expected_bytes: u64,
}

/// A transfer being written: where, and how many bytes are in place.
#[derive(Debug)]
pub struct OpenTransfer {
    path: String,
    expected_offset: u64,
}

impl OpenTransfer {
    /// The destination.
    pub closed spec fn target(self) -> Seq<char> {
        self.path@
    }

    /// Bytes in place so far, which is where the next chunk has to begin.
    pub closed spec fn placed(self) -> nat {
        self.expected_offset as nat
    }
}

/// The transfers in progress, by destination. With the lockstep protocol there is at most one.
#[derive(Debug)]
pub struct Transfers {
    open: Vec<OpenTransfer>,
}

/// Why a push is not begun, if it is not: one to the same path is in progress already, or it would
/// replace a file that holds something.
pub open spec fn begin_refusal(
    open: Map<Seq<char>, nat>,
    path: Seq<char>,
    existing: u64,
    overwrite: bool,
) -> Option<Seq<char>> {
    if open.contains_key(path) {
        Some("a transfer to "@ + path + " is open already; there is one writer per destination"@)
    } else if existing > 0 && !overwrite {
        Some(
            "refusing to overwrite an existing file ("@ + text::decimal(existing as nat)
                + " bytes): "@ + path,
        )
    } else {
        None
    }
}

/// Decide whether a push to `path_in_root` may begin, given the transfers in progress and the size
/// of what is there already (zero when nothing is). This comes before the file is created, so a
/// refusal changes nothing.
pub fn begin(open: &Transfers, path_in_root: &str, existing: u64, overwrite: bool) -> (r: Result<
    Destination,
    String,
>)
    requires
        open.wf(),
    ensures
        match (r, begin_refusal(open@, path_in_root@, existing, overwrite)) {
            (Ok(d), None) => d.path@ == path_in_root@ && d.expected_bytes == 0,
            (Err(e), Some(why)) => e@ == why,
            _ => false,
        },
{
    if open.position(path_in_root).is_some() {
        return Err(
            text::cat3(
                "a transfer to ",
                path_in_root,
                " is open already; there is one writer per destination",
            ),
        );
    }
    if existing > 0 && !overwrite {
        return Err(
            text::cat4(
                "refusing to overwrite an existing file (",
                text::to_decimal(existing).as_str(),
                " bytes): ",
                path_in_root,
            ),
        );
    }
    Ok(Destination { path: text::own(path_in_root), expected_bytes: 0 })
}

/// How many milliseconds a push may go without a chunk. The host waits no longer for any reply, so
/// there is nobody behind one that does.
pub const ABANDONED_AFTER_MS: u64 = 120_000;

/// Whether a push that has had no chunk for so many milliseconds has nobody behind it.
pub open spec fn has_been_left(idle_ms: u64) -> bool {
    idle_ms > ABANDONED_AFTER_MS
}

/// Whether a push that has had no chunk for so many milliseconds was abandoned by the host, so that
/// it is to be aborted before another is begun.
pub fn is_abandoned(idle_ms: u64) -> (r: bool)
    ensures
        r == (idle_ms > ABANDONED_AFTER_MS),
        r == has_been_left(idle_ms),
{
    idle_ms > ABANDONED_AFTER_MS
}

/// How a chunk's refusal reads when it does not begin where the last one ended.
pub open spec fn misplaced(offset: u64, placed: nat, path: Seq<char>) -> Seq<char> {
    "chunk claims offset "@ + text::decimal(offset as nat) + " but "@ + text::decimal(placed)
        + " bytes are already written to "@ + path
        + "; a gap or an overlap here would produce a file of the right size with the wrong contents"@
}

impl Transfers {
    /// The transfers in progress: each destination, with the bytes in place.
    pub closed spec fn view(&self) -> Map<Seq<char>, nat> {
        progress(self.open@)
    }

    /// How many transfers are in progress.
    pub closed spec fn count(self) -> nat {
        self.open@.len()
    }

    /// No destination is listed twice.
    pub closed spec fn wf(self) -> bool {
        forall|i: int, j: int|
            0 <= i < j < self.open@.len() ==> #[trigger] self.open@[i].path@ != #[trigger] self.open@[j].path@
    }

    /// The one transfer in progress, where there is exactly one.
    pub closed spec fn only(self) -> OpenTransfer {
        self.open@[0]
    }

    /// No transfer in progress.
    pub fn new() -> (r: Transfers)
        ensures
            r.wf(),
            r.count() == 0,
            r@ == Map::<Seq<char>, nat>::empty(),
    {
        let r = Transfers { open: Vec::new() };
        proof {
            progress_of_one(r.open@);
        }
        r
    }

    /// A destination was created and is empty: a transfer to it is in progress, which was not
    /// before.
    pub fn opened(&mut self, destination: &Destination)
        requires
            old(self).wf(),
            !old(self)@.contains_key(destination.path@),
        ensures
            final(self).wf(),
            final(self)@ == old(self)@.insert(destination.path@, 0nat),
            final(self).count() == old(self).count() + 1,
            final(self).count() == 1 ==> final(self).only().target() == destination.path@
                && final(self).only().placed() == 0,
    {
        let entry = OpenTransfer { path: destination.path.clone(), expected_offset: 0 };
        self.open.push(entry);
        proof {
            let before = old(self).open@;
            let after = self.open@;
            listed(before, destination.path@);
            assert forall|p: Seq<char>| #[trigger] progress(after).contains_key(p) == progress(
                before,
            ).insert(destination.path@, 0nat).contains_key(p) by {
                listed(before, p);
                listed(after, p);
                if progress(before).contains_key(p) {
                    let k = choose|k: int| 0 <= k < before.len() && before[k].path@ == p;
                    assert(after[k].path@ == p);
                }
                if p == destination.path@ {
                    assert(after[after.len() - 1].path@ == p);
                }
            }
            assert forall|p: Seq<char>| #[trigger] progress(after).contains_key(p) implies progress(
                after,
            )[p] == progress(before).insert(destination.path@, 0nat)[p] by {
                listed(before, p);
                listed(after, p);
                let k = choose|k: int| 0 <= k < after.len() && after[k].path@ == p;
                if k < before.len() {
                    assert(before[k].path@ == p);
                }
            }
            assert(self@ =~= old(self)@.insert(destination.path@, 0nat));
        }
    }

    fn position(&self, path: &str) -> (r: Option<usize>)
        requires
            self.wf(),
        ensures
            match r {
                Some(i) => i < self.open@.len() && self.open@[i as int].path@ == path@,
                None => forall|k: int| 0 <= k < self.open@.len() ==> (#[trigger] self.open@[k]).path@
                    != path@,
            },
            r is Some <==> self@.contains_key(path@),
    {
        proof {
            listed(self.open@, path@);
        }
        let mut i: usize = 0;
        while i < self.open.len()
            invariant
                i <= self.open.len(),
                self@.contains_key(path@) <==> exists|k: int|
                    0 <= k < self.open@.len() && (#[trigger] self.open@[k]).path@ == path@,
                forall|k: int| 0 <= k < i ==> (#[trigger] self.open@[k]).path@ != path@,
            decreases self.open.len() - i,
        {
            if text::same(self.open[i].path.as_str(), path) {
                return Some(i);
            }
            i += 1;
        }
        None
    }

    /// Where the bytes of a chunk that claims an offset go, or why nowhere: there is one transfer in
    /// progress, and the chunk has to begin where the previous one ended.
    pub open spec fn place_answer(self, offset: u64) -> Result<Seq<char>, Seq<char>> {
        if self.count() > 1 {
            Err(
                text::decimal(self.count())
                    + " transfers are open; the lockstep protocol allows one at a time"@,
            )
        } else if self.count() == 0 {
            Err("no transfer is open; send Transfer before TransferChunk"@)
        } else if offset != self.only().placed() {
            Err(misplaced(offset, self.only().placed(), self.only().target()))
        } else {
            Ok(self.only().target())
        }
    }

    /// Where the bytes of a chunk go: the file of the one transfer in progress, at the offset the
    /// chunk claims, which has to be where the previous one ended. Nothing changes.
    pub fn place(&self, offset: u64) -> (r: Result<String, String>)
        ensures
            match (r, self.place_answer(offset)) {
                (Ok(path), Ok(target)) => path@ == target,
                (Err(e), Err(why)) => e@ == why,
                _ => false,
            },
    {
        let open: u64 = self.open.len() as u64;
        if self.open.len() > 1 {
            return Err(
                text::cat2(
                    text::to_decimal(open).as_str(),
                    " transfers are open; the lockstep protocol allows one at a time",
                ),
            );
        }
        if self.open.len() == 0 {
            return Err(text::own("no transfer is open; send Transfer before TransferChunk"));
        }
        let t: &OpenTransfer = &self.open[0];
        if offset != t.expected_offset {
            return Err(
                text::cat7(
                    "chunk claims offset ",
                    text::to_decimal(offset).as_str(),
                    " but ",
                    text::to_decimal(t.expected_offset).as_str(),
                    " bytes are already written to ",
                    t.path.as_str(),
                    "; a gap or an overlap here would produce a file of the right size with the wrong contents",
                ),
            );
        }
        Ok(t.path.clone())
    }

    /// The one transfer in progress has so many more bytes in place, and nothing else changed.
    pub open spec fn has_grown(self, before: Transfers, bytes: nat) -> bool {
        &&& self.count() == 1
        &&& self.only().target() == before.only().target()
        &&& self.only().placed() == before.only().placed() + bytes
        &&& self@ == before@.insert(before.only().target(), before.only().placed() + bytes)
    }

    /// The bytes of a placed chunk were written: the new total, for the acknowledgement.
    pub fn written(&mut self, bytes: u64) -> (total: u64)
        requires
            old(self).wf(),
            old(self).count() == 1,
            old(self).only().placed() + bytes <= u64::MAX,
        ensures
            final(self).wf(),
            final(self).has_grown(*old(self), bytes as nat),
            total == final(self).only().placed(),
    {
        let entry: OpenTransfer = OpenTransfer {
            path: self.open[0].path.clone(),
            expected_offset: self.open[0].expected_offset + bytes,
        };
        let total: u64 = entry.expected_offset;
        self.open.set(0, entry);
        proof {
            the_only_transfer(*old(self));
            the_only_transfer(*self);
            assert(self@ =~= old(self)@.insert(
                old(self).only().target(),
                old(self).only().placed() + bytes as nat,
            ));
        }
        total
    }

    /// The last chunk was written and flushed: hold the size on disk against the total. When they
    /// agree the transfer is over.
    pub fn finish(&mut self, on_disk: u64) -> (r: Result<(), String>)
        requires
            old(self).wf(),
            old(self).count() == 1,
        ensures
            final(self).wf(),
            r is Ok <==> on_disk == old(self).only().placed(),
            match r {
                Ok(()) => final(self).count() == 0 && final(self)@ == Map::<Seq<char>, nat>::empty(),
                Err(e) => *final(self) == *old(self) && e@ == old(self).only().target() + " is "@
                    + text::decimal(on_disk as nat) + " bytes but "@ + text::decimal(
                    old(self).only().placed(),
                ) + " were written"@,
            },
    {
        let total: u64 = self.open[0].expected_offset;
        if on_disk != total {
            return Err(
                text::cat6(
                    self.open[0].path.as_str(),
                    " is ",
                    text::to_decimal(on_disk).as_str(),
                    " bytes but ",
                    text::to_decimal(total).as_str(),
                    " were written",
                ),
            );
        }
        self.open.clear();
        proof {
            progress_of_one(self.open@);
        }
        Ok(())
    }

    /// Abandon a transfer: how many bytes had been written, or `None` when none was in progress to
    /// that path. What was written has to be removed, because nothing about it says that it is
    /// incomplete.
    pub fn abort(&mut self, path_in_root: &str) -> (r: Option<u64>)
        requires
            old(self).wf(),
        ensures
            final(self).wf(),
            r is Some <==> old(self)@.contains_key(path_in_root@),
            r matches Some(written) ==> written == old(self)@[path_in_root@],
            final(self)@ == old(self)@.remove(path_in_root@),
            r is Some ==> final(self).count() == old(self).count() - 1,
            r is None ==> *final(self) == *old(self),
    {
        match self.position(path_in_root) {
            None => {
                assert(self@ =~= old(self)@.remove(path_in_root@));
                None
            },
            Some(i) => {
                let t = self.open.swap_remove(i);
                proof {
                    let before = old(self).open@;
                    let after = self.open@;
                    listed(before, path_in_root@);
                    assert forall|p: Seq<char>| #[trigger] progress(after).contains_key(p)
                        == progress(before).remove(path_in_root@).contains_key(p) by {
                        listed(before, p);
                        listed(after, p);
                        if progress(before).contains_key(p) && p != path_in_root@ {
                            let k = choose|k: int| 0 <= k < before.len() && before[k].path@ == p;
                            if k == before.len() - 1 {
                                assert(after[i as int].path@ == p);
                            } else {
                                assert(after[k].path@ == p);
                            }
                        }
                    }
                    assert forall|p: Seq<char>| #[trigger] progress(after).contains_key(
                        p,
                    ) implies progress(after)[p] == progress(before).remove(path_in_root@)[p] by {
                        listed(before, p);
                        listed(after, p);
                        let k = choose|k: int| 0 <= k < after.len() && after[k].path@ == p;
                        if k == i {
                            assert(before[before.len() - 1].path@ == p);
                        } else {
                            assert(before[k].path@ == p);
                        }
                    }
                    assert(self@ =~= old(self)@.remove(path_in_root@));
                }
                Some(t.expected_offset)
            },
        }
    }
}

/// Each destination of a list of transfers, with the bytes in place.
spec fn progress(open: Seq<OpenTransfer>) -> Map<Seq<char>, nat> {
    Map::new(
        |p: Seq<char>| exists|k: int| 0 <= k < open.len() && (#[trigger] open[k]).path@ == p,
        |p: Seq<char>|
            open[choose|k: int| 0 <= k < open.len() && (#[trigger] open[k]).path@ == p].expected_offset as nat,
    )
}

proof fn listed(open: Seq<OpenTransfer>, p: Seq<char>)
    ensures
        progress(open).contains_key(p) <==> exists|k: int|
            0 <= k < open.len() && (#[trigger] open[k]).path@ == p,
        (forall|i: int, j: int|
            0 <= i < j < open.len() ==> #[trigger] open[i].path@ != #[trigger] open[j].path@)
            ==> forall|k: int|
            0 <= k < open.len() && (#[trigger] open[k]).path@ == p ==> progress(open)[p]
                == open[k].expected_offset,
{
}

proof fn progress_of_one(open: Seq<OpenTransfer>)
    ensures
        open.len() == 0 ==> progress(open) == Map::<Seq<char>, nat>::empty(),
{
    if open.len() == 0 {
        assert(progress(open) =~= Map::<Seq<char>, nat>::empty());
    }
}

/// Where there is exactly one transfer, it is all that is in progress.
pub proof fn the_only_transfer(transfers: Transfers)
    requires
        transfers.wf(),
        transfers.count() == 1,
    ensures
        transfers@ == Map::<Seq<char>, nat>::empty().insert(
            transfers.only().target(),
            transfers.only().placed(),
        ),
{
    let open = transfers.open@;
    let one = Map::<Seq<char>, nat>::empty().insert(open[0].path@, open[0].expected_offset as nat);
    assert forall|p: Seq<char>| #[trigger] progress(open).contains_key(p) == one.contains_key(p) by {
        listed(open, p);
        if p == open[0].path@ {
            assert(open[0].path@ == p);
        }
    }
    listed(open, open[0].path@);
    assert(progress(open) =~= one);
}

// ---------------------------------------------------------------------------
// Laws
// ---------------------------------------------------------------------------

/// A file after `data` was written at `offset`: what was there before, what was written, and
/// whatever stood behind it.
pub open spec fn written_at(file: Seq<u8>, offset: nat, data: Seq<u8>) -> Seq<u8> {
    let behind = if offset + data.len() < file.len() {
        file.skip((offset + data.len()) as int)
    } else {
        seq![]
    };
    file.take(offset as int) + data + behind
}

/// A file after each chunk was written at its offset, in order.
pub open spec fn file_after(chunks: Seq<(nat, Seq<u8>)>) -> Seq<u8>
    decreases chunks.len(),
{
    if chunks.len() == 0 {
        seq![]
    } else {
        written_at(file_after(chunks.drop_last()), chunks.last().0, chunks.last().1)
    }
}

/// Every chunk begins where the ones before it end, which is what [`Transfers::place`] demands of
/// it.
pub open spec fn in_order(chunks: Seq<(nat, Seq<u8>)>) -> bool {
    forall|i: int|
        0 <= i < chunks.len() ==> (#[trigger] chunks[i]).0 == fsio::concatenated(
            data_of(chunks.take(i)),
        ).len()
}

/// The bytes of each chunk.
pub open spec fn data_of(chunks: Seq<(nat, Seq<u8>)>) -> Seq<Seq<u8>> {
    chunks.map_values(|c: (nat, Seq<u8>)| c.1)
}

/// Chunks that are accepted in order leave exactly their bytes, one after the other: no gap and no
/// overlap, whatever their sizes.
pub proof fn chunks_in_order_make_the_file(chunks: Seq<(nat, Seq<u8>)>)
    requires
        in_order(chunks),
    ensures
        file_after(chunks) == fsio::concatenated(data_of(chunks)),
    decreases chunks.len(),
{
    if chunks.len() > 0 {
        let before = chunks.drop_last();
        assert forall|i: int| 0 <= i < before.len() implies (#[trigger] before[i]).0
            == fsio::concatenated(data_of(before.take(i))).len() by {
            assert(before.take(i) == chunks.take(i));
            assert(chunks[i] == before[i]);
        }
        chunks_in_order_make_the_file(before);
        assert(chunks.take(chunks.len() - 1) == before);
        assert(chunks[chunks.len() - 1].0 == fsio::concatenated(data_of(before)).len());
        assert(data_of(chunks).drop_last() == data_of(before));
        assert(data_of(chunks).last() == chunks.last().1);
        let file = file_after(before);
        assert(file.take(file.len() as int) == file);
        assert(file_after(chunks) =~= file + chunks.last().1);
    }
}

/// One request to write a chunk: the offset it claims, its bytes, and whether it is the last.
pub struct Chunk {
    pub offset: nat,
    pub data: Seq<u8>,
    pub eof: bool,
}

/// A push as the guest sees it: the bytes in place, while it is open, and the file.
pub struct Push {
    pub placed: Option<nat>,
    pub file: Seq<u8>,
}

impl Push {
    /// The bytes in place are all that the file holds.
    pub open spec fn wf(self) -> bool {
        self.placed matches Some(n) ==> n == self.file.len()
    }

    /// A chunk is written: the push is open and the chunk begins where the last one ended.
    pub open spec fn accepts(self, chunk: Chunk) -> bool {
        self.placed == Some(chunk.offset)
    }

    /// The push after a request to write a chunk.
    pub open spec fn after(self, chunk: Chunk) -> Push {
        if self.accepts(chunk) {
            Push {
                placed: if chunk.eof {
                    None
                } else {
                    Some(chunk.offset + chunk.data.len())
                },
                file: written_at(self.file, chunk.offset, chunk.data),
            }
        } else {
            self
        }
    }

    /// The push after several requests, in order.
    pub open spec fn after_all(self, chunks: Seq<Chunk>) -> Push
        decreases chunks.len(),
    {
        if chunks.len() == 0 {
            self
        } else {
            self.after_all(chunks.drop_last()).after(chunks.last())
        }
    }

    /// The bytes of the chunks that were accepted, in order.
    pub open spec fn accepted(self, chunks: Seq<Chunk>) -> Seq<u8>
        decreases chunks.len(),
    {
        if chunks.len() == 0 {
            seq![]
        } else if self.after_all(chunks.drop_last()).accepts(chunks.last()) {
            self.accepted(chunks.drop_last()) + chunks.last().data
        } else {
            self.accepted(chunks.drop_last())
        }
    }
}

/// The transfers in progress are this push: the only one, with so many bytes in place, or none.
pub open spec fn shows(transfers: Transfers, push: Push) -> bool {
    &&& transfers.wf()
    &&& match push.placed {
        Some(n) => transfers.count() == 1 && transfers.only().placed() == n,
        None => transfers.count() == 0,
    }
}

/// Whatever chunks arrive, in whatever order and however often, the file holds the bytes of those
/// that were accepted, one after the other, and as many are in place as it holds.
pub proof fn accepted_chunks_make_the_file(push: Push, chunks: Seq<Chunk>)
    requires
        push.wf(),
    ensures
        push.after_all(chunks).wf(),
        push.placed is Some ==> push.after_all(chunks).file == push.file + push.accepted(chunks),
        push.placed is None ==> push.after_all(chunks) == push,
    decreases chunks.len(),
{
    if chunks.len() == 0 {
        assert(push.file + push.accepted(chunks) == push.file);
    } else {
        let before = chunks.drop_last();
        let chunk = chunks.last();
        accepted_chunks_make_the_file(push, before);
        let file = push.after_all(before).file;
        if push.after_all(before).accepts(chunk) {
            assert(file.take(file.len() as int) == file);
            assert(written_at(file, chunk.offset, chunk.data) =~= file + chunk.data);
            assert(push.file + (push.accepted(before) + chunk.data) == (push.file + push.accepted(
                before,
            )) + chunk.data);
        }
    }
}

/// A chunk at the wrong offset changes nothing, neither the file nor how far the push has come, so
/// that the right one is still accepted; and once the last chunk is in place no other is.
pub proof fn refused_chunks_change_nothing(push: Push, chunk: Chunk, later: Chunk)
    requires
        push.wf(),
        push.placed is Some,
    ensures
        chunk.offset != push.file.len() ==> push.after(chunk) == push,
        chunk.offset == push.file.len() ==> push.after(chunk).file == push.file + chunk.data,
        chunk.offset == push.file.len() && !chunk.eof ==> push.after(chunk).placed == Some(
            push.file.len() + chunk.data.len(),
        ),
        chunk.offset == push.file.len() && chunk.eof ==> !push.after(chunk).accepts(later),
{
    if chunk.offset == push.file.len() {
        assert(push.file.take(push.file.len() as int) == push.file);
        assert(written_at(push.file, chunk.offset, chunk.data) =~= push.file + chunk.data);
    }
}

/// The transfers go through a push as it should go. A chunk is placed exactly when the push accepts
/// it, and is told why not otherwise; what [`Transfers::written`] leaves shows the push after the
/// chunk, and after the last one [`Transfers::finish`] leaves nothing open, so that the next chunk
/// is told that no transfer is.
pub proof fn transfers_follow_the_push(
    transfers: Transfers,
    grown: Transfers,
    closed: Transfers,
    push: Push,
    offset: u64,
    data: Seq<u8>,
)
    requires
        shows(transfers, push),
        grown.wf(),
        closed.wf(),
        push.placed == Some(offset as nat) ==> grown.has_grown(transfers, data.len()),
        closed.count() == 0,
    ensures
        ({
            let chunk = Chunk { offset: offset as nat, data, eof: false };
            let last = Chunk { offset: offset as nat, data, eof: true };
            &&& transfers.place_answer(offset) is Ok <==> push.accepts(chunk)
            &&& push.accepts(chunk) ==> shows(grown, push.after(chunk))
            &&& push.accepts(last) ==> shows(closed, push.after(last))
            &&& !push.accepts(chunk) ==> shows(transfers, push.after(chunk))
        }),
        closed.place_answer(offset) == Err::<Seq<char>, Seq<char>>(
            "no transfer is open; send Transfer before TransferChunk"@,
        ),
{
}

/// A push may begin exactly where none is open to the same file, and the file is either not there, or
/// empty, or may be written over.
pub proof fn pushes_begin_without_overwriting(
    open: Map<Seq<char>, nat>,
    path: Seq<char>,
    existing: u64,
    overwrite: bool,
)
    ensures
        begin_refusal(open, path, existing, overwrite) is None <==> !open.contains_key(path) && (
        existing == 0 || overwrite),
        open.contains_key(path) ==> begin_refusal(open, path, existing, overwrite) == Some(
            "a transfer to "@ + path + " is open already; there is one writer per destination"@,
        ),
        !open.contains_key(path) && existing > 0 && !overwrite ==> begin_refusal(
            open,
            path,
            existing,
            overwrite,
        ) == Some(
            "refusing to overwrite an existing file ("@ + text::decimal(existing as nat)
                + " bytes): "@ + path,
        ),
{
}

/// A chunk is placed exactly where one transfer is open and the chunk goes on where the file ends. It
/// then goes to that file and to no other.
pub proof fn chunks_are_placed_where_the_file_ends(transfers: Transfers, offset: u64)
    requires
        transfers.wf(),
    ensures
        transfers.place_answer(offset) is Ok <==> transfers.count() == 1 && offset
            == transfers.only().placed(),
        transfers.place_answer(offset) matches Ok(path) ==> path == transfers.only().target()
            && transfers@.contains_key(path) && transfers@[path] == offset,
        transfers.count() == 0 ==> transfers.place_answer(offset) == Err::<Seq<char>, Seq<char>>(
            "no transfer is open; send Transfer before TransferChunk"@,
        ),
{
    if transfers.count() == 1 {
        the_only_transfer(transfers);
    }
}

/// A push is given up after two minutes without a chunk, and not before: as long as the host waits for
/// a reply.
pub proof fn pushes_are_left_after_two_minutes(idle_ms: u64, longer_ms: u64)
    ensures
        has_been_left(idle_ms) <==> idle_ms > 2 * 60 * 1000,
        has_been_left(idle_ms) && idle_ms <= longer_ms ==> has_been_left(longer_ms),
        ABANDONED_AFTER_MS == crate::host::guestclient::REPLY_TIMEOUT * 1000,
{
}

/// What is said of a chunk that does not go on where the file ends names both places and the file.
pub proof fn misplaced_chunks_are_told_with_both_places(transfers: Transfers, offset: u64)
    requires
        transfers.count() == 1,
        offset != transfers.only().placed(),
    ensures
        transfers.place_answer(offset) == Err::<Seq<char>, Seq<char>>(
            "chunk claims offset "@ + text::decimal(offset as nat) + " but "@ + text::decimal(
                transfers.only().placed(),
            ) + " bytes are already written to "@ + transfers.only().target()
                + "; a gap or an overlap here would produce a file of the right size with the wrong contents"@,
        ),
{
}

} // verus!
