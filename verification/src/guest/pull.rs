//! The guest side of a chunked pull: serve the bytes, one acknowledged chunk at a time.
//!
//! Each request names the offset and the length it wants, so asking again gives the same bytes.
//! The decisions are here; whoever owns the file opens, seeks and reads it.
use crate::text;
use vstd::prelude::*;
use vstd::string::*;

verus! {

/// Largest file this will serve: 4 GiB.
pub const MAX_PULL_BYTES: u64 = 4_294_967_296;

/// A source opened for reading: where, and its size when it was opened.
#[derive(Debug, PartialEq, Eq)]
pub struct Source {
    pub path: String,
    pub size: u64,
}

/// Why a file is not served, if it is not.
pub open spec fn source_refusal(
    path: Seq<char>,
    is_file: bool,
    size: u64,
    ceiling: u64,
) -> Option<Seq<char>> {
    if !is_file {
        Some(path + " is not a regular file"@)
    } else if size > ceiling {
        Some(
            path + " is "@ + text::decimal(size as nat) + " bytes, above the "@ + text::decimal(
                ceiling as nat,
            ) + " byte ceiling for a single transfer"@,
        )
    } else {
        None
    }
}

/// Decide from a file's metadata whether to serve it, before the host has committed to receiving
/// anything.
pub fn begin_source(path_in_root: &str, is_file: bool, size: u64, ceiling: u64) -> (r: Result<
    Source,
    String,
>)
    ensures
        match (r, source_refusal(path_in_root@, is_file, size, ceiling)) {
            (Ok(source), None) => source.path@ == path_in_root@ && source.size == size,
            (Err(e), Some(why)) => e@ == why,
            _ => false,
        },
{
    if !is_file {
        return Err(text::cat2(path_in_root, " is not a regular file"));
    }
    if size > ceiling {
        return Err(
            text::cat6(
                path_in_root,
                " is ",
                text::to_decimal(size).as_str(),
                " bytes, above the ",
                text::to_decimal(ceiling).as_str(),
                " byte ceiling for a single transfer",
            ),
        );
    }
    Ok(Source { path: text::own(path_in_root), size })
}

/// How many bytes a chunk of a file has: what was asked for, and no more than the file still holds.
pub open spec fn chunk_len(size: nat, offset: nat, length: nat) -> nat {
    if length < size - offset {
        length
    } else {
        (size - offset) as nat
    }
}

/// A path is among some sources.
pub open spec fn listed(sources: Seq<Source>, path: Seq<char>) -> bool {
    exists|k: int| 0 <= k < sources.len() && (#[trigger] sources[k]).path@ == path
}

/// Where a path stands among some sources.
pub open spec fn place_of(sources: Seq<Source>, path: Seq<char>) -> int {
    choose|k: int| 0 <= k < sources.len() && (#[trigger] sources[k]).path@ == path
}

/// What a request for a chunk is answered, given the sources: how many bytes to read, or why none.
pub open spec fn chunk_answer(
    sources: Seq<Source>,
    path: Seq<char>,
    offset: u64,
    length: u64,
) -> Result<nat, Seq<char>> {
    if !listed(sources, path) {
        Err("no pull is open for "@ + path)
    } else {
        let size = sources[place_of(sources, path)].size;
        if offset > size {
            Err(
                "chunk requested at offset "@ + text::decimal(offset as nat) + " but "@ + path
                    + " is only "@ + text::decimal(size as nat) + " bytes"@,
            )
        } else {
            Ok(chunk_len(size as nat, offset as nat, length as nat))
        }
    }
}

/// The sources being served, by path. With the lockstep protocol there is at most one.
#[derive(Debug)]
pub struct Sources {
    open: Vec<Source>,
    finished: bool,
}

impl Sources {
    /// The sources being served, in the order they were opened.
    pub closed spec fn view(&self) -> Seq<Source> {
        self.open@
    }

    /// The end of a file was served. What is there stays only until the next file is opened.
    pub closed spec fn is_finished(self) -> bool {
        self.finished
    }

    /// No path is listed twice.
    pub open spec fn wf(self) -> bool {
        forall|i: int, j: int|
            0 <= i < j < self@.len() ==> #[trigger] self@[i].path@ != #[trigger] self@[j].path@
    }

    /// A path is being served.
    pub open spec fn serves(self, path: Seq<char>) -> bool {
        listed(self@, path)
    }

    /// The source at a path that is being served.
    pub open spec fn at(self, path: Seq<char>) -> Source {
        self@[place_of(self@, path)]
    }

    /// The sources that a newly opened file joins: none where a pull has come to its end.
    pub open spec fn remaining(self) -> Seq<Source> {
        if self.is_finished() {
            Seq::empty()
        } else {
            self@
        }
    }

    /// Nothing being served.
    pub fn new() -> (r: Sources)
        ensures
            r.wf(),
            r@.len() == 0,
            !r.is_finished(),
    {
        Sources { open: Vec::new(), finished: false }
    }

    fn position(&self, path: &str) -> (r: Option<usize>)
        ensures
            match r {
                Some(i) => i < self@.len() && self@[i as int].path@ == path@,
                None => !self.serves(path@),
            },
    {
        let mut i: usize = 0;
        while i < self.open.len()
            invariant
                i <= self.open.len(),
                forall|k: int| 0 <= k < i ==> (#[trigger] self@[k]).path@ != path@,
            decreases self.open.len() - i,
        {
            if text::same(self.open[i].path.as_str(), path) {
                return Some(i);
            }
            i += 1;
        }
        None
    }

    /// A file was opened to be served. What is left of a pull that came to its end goes, and a
    /// source at the same path is replaced.
    pub fn opened(&mut self, source: Source)
        requires
            old(self).wf(),
        ensures
            final(self).wf(),
            !final(self).is_finished(),
            !listed(old(self).remaining(), source.path@) ==> final(self)@
                == old(self).remaining().push(source),
            listed(old(self).remaining(), source.path@) ==> final(self)@
                == old(self).remaining().update(
                place_of(old(self).remaining(), source.path@),
                source,
            ),
            final(self).serves(source.path@),
            final(self).at(source.path@) == source,
    {
        if self.finished {
            self.open.clear();
            self.finished = false;
            assert(self@ == Seq::<Source>::empty());
        }
        let ghost before = self@;
        assert(before == old(self).remaining());
        match self.position(source.path.as_str()) {
            Some(i) => {
                assert(before[i as int].path@ == source.path@);
                self.open.set(i, source);
                assert(self@ == before.update(i as int, source));
                assert(self@[i as int].path@ == source.path@);
            },
            None => {
                self.open.push(source);
                assert(self@ == before.push(source));
                assert(self@[before.len() as int].path@ == source.path@);
            },
        }
    }

    /// How many bytes to read at `offset` for a request of up to `length`: never past the end, and
    /// never more than was asked for. Nothing changes, so asking again gives the same answer.
    pub fn read_chunk(&self, path_in_root: &str, offset: u64, length: u64) -> (r: Result<
        u64,
        String,
    >)
        requires
            self.wf(),
        ensures
            match (r, chunk_answer(self@, path_in_root@, offset, length)) {
                (Ok(want), Ok(n)) => want == n,
                (Err(e), Err(why)) => e@ == why,
                _ => false,
            },
    {
        match self.position(path_in_root) {
            None => Err(text::cat2("no pull is open for ", path_in_root)),
            Some(i) => {
                let src: &Source = &self.open[i];
                assert(self@[i as int].path@ == path_in_root@);
                if offset > src.size {
                    return Err(
                        text::cat7(
                            "chunk requested at offset ",
                            text::to_decimal(offset).as_str(),
                            " but ",
                            path_in_root,
                            " is only ",
                            text::to_decimal(src.size).as_str(),
                            " bytes",
                        ),
                    );
                }
                let remaining: u64 = src.size - offset;
                Ok(
                    if length < remaining {
                        length
                    } else {
                        remaining
                    },
                )
            },
        }
    }

    /// `filled` bytes at `offset` were read: whether they reach the end, and the file's size. The
    /// file stays open to be asked again until it is ended or another is opened, so a request whose
    /// reply was lost can be repeated, the last one too.
    pub fn served(&mut self, path_in_root: &str, offset: u64, filled: u64) -> (r: (bool, u64))
        requires
            old(self).wf(),
            old(self).serves(path_in_root@),
            offset + filled <= old(self).at(path_in_root@).size,
        ensures
            final(self).wf(),
            final(self)@ == old(self)@,
            final(self).is_finished() == (old(self).is_finished() || r.0),
            r.1 == old(self).at(path_in_root@).size,
            r.0 == (offset + filled == r.1),
    {
        match self.position(path_in_root) {
            None => {
                assert(false);
                (true, 0)
            },
            Some(i) => {
                let size: u64 = self.open[i].size;
                assert(self@[i as int].path@ == path_in_root@);
                let eof: bool = offset + filled >= size;
                if eof {
                    self.finished = true;
                }
                (eof, size)
            },
        }
    }

    /// The path of the single source being served. More than one means that the caller has broken
    /// the lockstep protocol, which is reported rather than guessed at.
    pub fn only_open_source(&self) -> (r: Result<String, String>)
        ensures
            match r {
                Ok(path) => self@.len() == 1 && path@ == self@[0].path@,
                Err(e) => {
                    ||| self@.len() == 0 && e@
                        == "no pull is open; send Transfer with direction guest_to_host first"@
                    ||| self@.len() > 1 && e@ == text::decimal(self@.len())
                        + " pulls are open; the lockstep protocol allows one at a time"@
                },
            },
            r is Ok <==> self@.len() == 1,
    {
        let n: u64 = self.open.len() as u64;
        if self.open.len() == 0 {
            return Err(
                text::own("no pull is open; send Transfer with direction guest_to_host first"),
            );
        }
        if self.open.len() == 1 {
            return Ok(self.open[0].path.clone());
        }
        Err(
            text::cat2(
                text::to_decimal(n).as_str(),
                " pulls are open; the lockstep protocol allows one at a time",
            ),
        )
    }

    /// Abandon a pull, so that a later one can open the file again.
    pub fn end_source(&mut self, path_in_root: &str)
        requires
            old(self).wf(),
        ensures
            final(self).wf(),
            final(self).is_finished() == old(self).is_finished(),
            !final(self).serves(path_in_root@),
            !old(self).serves(path_in_root@) ==> *final(self) == *old(self),
            old(self).serves(path_in_root@) ==> final(self)@ == old(self)@.remove(
                place_of(old(self)@, path_in_root@),
            ),
    {
        let ghost before = self@;
        if let Some(i) = self.position(path_in_root) {
            assert(before[i as int].path@ == path_in_root@);
            self.open.remove(i);
            proof {
                assert(self@ == before.remove(i as int));
                assert forall|k: int| 0 <= k < self@.len() implies (#[trigger] self@[k]).path@
                    != path_in_root@ by {
                    if k < i {
                        assert(self@[k] == before[k]);
                    } else {
                        assert(self@[k] == before[k + 1]);
                    }
                }
            }
        }
    }
}

// ---------------------------------------------------------------------------
// Laws
// ---------------------------------------------------------------------------

/// The bytes of a file that a request for `length` at `offset` gives.
pub open spec fn chunk_of(file: Seq<u8>, offset: nat, length: nat) -> Seq<u8> {
    file.subrange(offset as int, (offset + chunk_len(file.len(), offset, length)) as int)
}

/// The bytes that a host collects which asks for `length` bytes at a time, from `offset` on, until
/// a chunk reaches the end.
pub open spec fn collected(file: Seq<u8>, offset: nat, length: nat) -> Seq<u8>
    decreases file.len() - offset,
    when offset <= file.len() && length > 0
{
    let chunk = chunk_of(file, offset, length);
    if offset + chunk.len() >= file.len() {
        chunk
    } else {
        chunk + collected(file, offset + chunk.len(), length)
    }
}

/// Chunks asked for in order put the file together again, whatever the chunk size, and an empty
/// file takes one empty chunk.
pub proof fn chunks_reassemble_the_file(file: Seq<u8>, offset: nat, length: nat)
    requires
        offset <= file.len(),
        length > 0,
    ensures
        collected(file, offset, length) == file.skip(offset as int),
    decreases file.len() - offset,
{
    let chunk = chunk_of(file, offset, length);
    if offset + chunk.len() >= file.len() {
        assert(chunk == file.skip(offset as int));
    } else {
        chunks_reassemble_the_file(file, offset + chunk.len(), length);
        assert(chunk + file.skip((offset + chunk.len()) as int) == file.skip(offset as int));
    }
}

/// What a request for a chunk of an open file is replied: its bytes, whether they reach the end, and
/// the size of the file. [`Sources::read_chunk`] says how many bytes to read, and
/// [`Sources::served`] the rest.
pub open spec fn reply(
    sources: Seq<Source>,
    file: Seq<u8>,
    path: Seq<char>,
    offset: u64,
    length: u64,
) -> Result<(Seq<u8>, bool, nat), Seq<char>> {
    match chunk_answer(sources, path, offset, length) {
        Ok(n) => Ok(
            (
                file.subrange(offset as int, offset + n),
                offset + n == sources[place_of(sources, path)].size,
                sources[place_of(sources, path)].size as nat,
            ),
        ),
        Err(why) => Err(why),
    }
}

/// A replay is harmless: once a chunk was served, at the end of the file too, the same request has
/// the same reply, which is the file's bytes from the offset on, no more than were asked for.
pub proof fn a_replay_is_harmless(
    before: Sources,
    after: Sources,
    file: Seq<u8>,
    path: Seq<char>,
    offset: u64,
    length: u64,
)
    requires
        after@ == before@,
        before.serves(path),
        before.at(path).size == file.len(),
        offset <= file.len(),
    ensures
        reply(after@, file, path, offset, length) == reply(before@, file, path, offset, length),
        reply(before@, file, path, offset, length) matches Ok((data, eof, total)) && data
            == chunk_of(file, offset as nat, length as nat) && data.len() <= length && eof == (
        offset + data.len() == file.len()) && total == file.len(),
{
}

/// A file can be pulled exactly where it is a regular file that is no larger than the ceiling.
pub proof fn regular_files_under_the_ceiling_are_served(
    path: Seq<char>,
    is_file: bool,
    size: u64,
    ceiling: u64,
)
    ensures
        source_refusal(path, is_file, size, ceiling) is None <==> is_file && size <= ceiling,
        !is_file ==> source_refusal(path, is_file, size, ceiling) == Some(
            path + " is not a regular file"@,
        ),
{
}

/// What is read for a chunk is as much as was asked for, and only where the file ends before that is
/// it what is left. It never reaches past the end, and only at the end is it nothing.
pub proof fn chunks_are_as_long_as_asked(size: nat, offset: nat, length: nat)
    requires
        offset <= size,
    ensures
        chunk_len(size, offset, length) <= length,
        offset + chunk_len(size, offset, length) <= size,
        chunk_len(size, offset, length) == length || offset + chunk_len(size, offset, length)
            == size,
        chunk_len(size, offset, length) == 0 <==> length == 0 || offset == size,
{
}

/// A chunk is read exactly where its file is open and the chunk begins no later than the file ends.
pub proof fn chunks_are_read_within_the_file(
    sources: Sources,
    path: Seq<char>,
    offset: u64,
    length: u64,
)
    ensures
        chunk_answer(sources@, path, offset, length) is Ok <==> sources.serves(path) && offset
            <= sources.at(path).size,
        !sources.serves(path) ==> chunk_answer(sources@, path, offset, length) == Err::<
            nat,
            Seq<char>,
        >("no pull is open for "@ + path),
        chunk_answer(sources@, path, offset, length) matches Ok(n) ==> n <= length && offset + n
            <= sources.at(path).size,
{
}

/// What is said of a chunk that begins past the end names both the place and the size, and of a file
/// that is too large its size and the ceiling.
pub proof fn what_is_out_of_reach_is_told_with_its_size(
    sources: Sources,
    path: Seq<char>,
    offset: u64,
    length: u64,
    ceiling: u64,
)
    ensures
        sources.serves(path) && offset > sources.at(path).size ==> chunk_answer(
            sources@,
            path,
            offset,
            length,
        ) == Err::<nat, Seq<char>>(
            "chunk requested at offset "@ + text::decimal(offset as nat) + " but "@ + path
                + " is only "@ + text::decimal(sources.at(path).size as nat) + " bytes"@,
        ),
        length > ceiling ==> source_refusal(path, true, length, ceiling) == Some(
            path + " is "@ + text::decimal(length as nat) + " bytes, above the "@ + text::decimal(
                ceiling as nat,
            ) + " byte ceiling for a single transfer"@,
        ),
{
}

/// A file that is open is found by its path and by no other.
pub proof fn files_are_found_by_their_path(sources: Sources, path: Seq<char>, i: int)
    requires
        sources.wf(),
        0 <= i < sources@.len(),
        sources@[i].path@ == path,
    ensures
        sources.serves(path),
        sources.at(path) == sources@[i],
        !sources.is_finished() ==> sources.remaining() == sources@,
        sources.is_finished() ==> sources.remaining().len() == 0,
{
    let k = place_of(sources@, path);
    assert(sources@[k].path@ == path);
}

/// A file is served exactly where it is among those that are open.
pub proof fn only_open_files_are_served(sources: Sources, path: Seq<char>)
    ensures
        sources.serves(path) <==> exists|i: int|
            0 <= i < sources@.len() && (#[trigger] sources@[i]).path@ == path,
        sources@.len() == 0 ==> !sources.serves(path),
{
}

} // verus!
