//! The append-only journal: every request, every policy decision and every result, denials included.
//!
//! The file holds one record to a line. A write that was interrupted leaves a torn last line, which
//! is skipped when the journal is read; what is appended after it begins a line of its own.
use crate::posix;
use crate::text;
use crate::host::vm::Directories;
use vstd::prelude::*;
use vstd::string::*;

verus! {

/// One journal record.
#[derive(Debug, PartialEq, Eq)]
pub struct Record {
    /// Unix epoch milliseconds.
    pub at_ms: u64,
    /// What happened.
    pub event: Event,
}

/// What a journal record can say.
#[derive(Debug, PartialEq, Eq)]
pub enum Event {
    /// The daemon started.
    Started { version: String },
    /// A request was received.
    Request { subject: String, verb: String, op: String },
    /// A request was refused before dispatch. Carries the reason.
    Denied { subject: String, verb: String, reason: String },
    /// A request completed.
    Completed { subject: String, verb: String, ok: bool, detail: String },
    /// A VM state transition.
    VmState { vm: String, from: String, to: String },
}

impl Record {
    /// A record of an event at a time.
    pub fn new(at_ms: u64, event: Event) -> (r: Record)
        ensures
            r == (Record { at_ms, event }),
    {
        Record { at_ms, event }
    }
}

/// Where the journal is when nobody says otherwise.
pub fn default_path(dirs: &Directories) -> (r: Result<String, String>)
    ensures
        r is Ok <==> dirs.state is Some || dirs.home is Some,
        match r {
            Ok(path) => path@ == posix::joined(
                posix::joined(dirs.state_base(), "wvm"@),
                "journal.jsonl"@,
            ),
            Err(e) => e@ == "neither XDG_STATE_HOME nor HOME is set; cannot locate the journal"@,
        },
{
    if dirs.state.is_none() && dirs.home.is_none() {
        return Err(text::own("neither XDG_STATE_HOME nor HOME is set; cannot locate the journal"));
    }
    Ok(posix::join(posix::join(dirs.state_home().as_str(), "wvm").as_str(), "journal.jsonl"))
}

// ---------------------------------------------------------------------------
// Lines
// ---------------------------------------------------------------------------

/// The byte that ends a line.
pub const NEWLINE: u8 = 10;

/// The lines of a file that were ended, and the bytes behind the last of them.
pub open spec fn lines_and_rest(file: Seq<u8>) -> (Seq<Seq<u8>>, Seq<u8>)
    decreases file.len(),
{
    if file.len() == 0 {
        (seq![], seq![])
    } else {
        let (lines, rest) = lines_and_rest(file.drop_last());
        if file.last() == NEWLINE {
            (lines.push(rest), seq![])
        } else {
            (lines, rest.push(file.last()))
        }
    }
}

/// The lines of a file. Bytes behind the last newline are a line, too: a torn one.
pub open spec fn lines_of(file: Seq<u8>) -> Seq<Seq<u8>> {
    let (lines, rest) = lines_and_rest(file);
    if rest.len() == 0 {
        lines
    } else {
        lines.push(rest)
    }
}

/// A file whose next byte begins a line.
pub open spec fn ends_a_line(file: Seq<u8>) -> bool {
    file.len() == 0 || file.last() == NEWLINE
}

/// The bytes that append a line to a file: a newline first where the file ends in a torn line.
pub open spec fn addition(line: Seq<u8>, at_line_start: bool) -> Seq<u8> {
    if at_line_start {
        line.push(NEWLINE)
    } else {
        seq![NEWLINE] + line.push(NEWLINE)
    }
}

/// The lines of bytes.
pub open spec fn byte_views(v: Seq<Vec<u8>>) -> Seq<Seq<u8>> {
    v.map_values(|line: Vec<u8>| line@)
}

/// Whether the next byte of a file begins a line, given the last byte of the file, where it has one.
pub fn at_line_start(last: Option<u8>) -> (r: bool)
    ensures
        r == (last is None || last == Some(NEWLINE)),
{
    match last {
        Some(b) => b == NEWLINE,
        None => true,
    }
}

/// The bytes to append to a journal for a record that is written as `line`.
pub fn entry(line: &[u8], at_line_start: bool) -> (r: Vec<u8>)
    requires
        !line@.contains(NEWLINE),
    ensures
        r@ == addition(line@, at_line_start),
{
    let mut out: Vec<u8> = Vec::new();
    if !at_line_start {
        out.push(NEWLINE);
    }
    out.extend_from_slice(line);
    out.push(NEWLINE);
    assert(out@ == addition(line@, at_line_start));
    out
}

/// Cut a journal into its lines.
pub fn split_journal(file: &[u8]) -> (r: Vec<Vec<u8>>)
    ensures
        byte_views(r@) == lines_of(file@),
{
    let mut lines: Vec<Vec<u8>> = Vec::new();
    let mut rest: Vec<u8> = Vec::new();
    let mut i: usize = 0;
    assert(byte_views(lines@) == Seq::<Seq<u8>>::empty());
    while i < file.len()
        invariant
            i <= file.len(),
            (byte_views(lines@), rest@) == lines_and_rest(file@.take(i as int)),
        decreases file.len() - i,
    {
        let b: u8 = file[i];
        proof {
            assert(file@.take(i + 1).drop_last() == file@.take(i as int));
            assert(file@.take(i + 1).last() == b);
        }
        if b == NEWLINE {
            let ghost before = lines@;
            let line = rest;
            lines.push(line);
            assert(byte_views(lines@) == byte_views(before).push(line@));
            rest = Vec::new();
            assert(rest@ == Seq::<u8>::empty());
        } else {
            rest.push(b);
        }
        i += 1;
    }
    assert(file@.take(file@.len() as int) == file@);
    if rest.len() > 0 {
        let ghost before = lines@;
        lines.push(rest);
        assert(byte_views(lines@) == byte_views(before).push(rest@));
    }
    lines
}

// ---------------------------------------------------------------------------
// Reading
// ---------------------------------------------------------------------------

/// The records of the lines that are records, in order.
pub open spec fn readable(lines: Seq<Option<Record>>) -> Seq<Record>
    decreases lines.len(),
{
    if lines.len() == 0 {
        seq![]
    } else {
        match lines.last() {
            Some(record) => readable(lines.drop_last()).push(record),
            None => readable(lines.drop_last()),
        }
    }
}

/// The last `limit` of some records.
pub open spec fn newest(records: Seq<Record>, limit: nat) -> Seq<Record> {
    if records.len() > limit {
        records.skip(records.len() - limit)
    } else {
        records
    }
}

/// What is shown of a journal: the newest of the records that its lines hold.
pub open spec fn shown(lines: Seq<Option<Record>>, limit: nat) -> Seq<Record> {
    newest(readable(lines), limit)
}

/// The last `limit` records of a journal, oldest first, given what each of its lines holds. A line
/// that is not a record is skipped: the others are still evidence.
pub fn tail(lines: Vec<Option<Record>>, limit: usize) -> (r: Vec<Record>)
    ensures
        r@ == newest(readable(lines@), limit as nat),
        r@ == shown(lines@, limit as nat),
{
    let mut left: Vec<Option<Record>> = lines;
    let mut backwards: Vec<Record> = Vec::new();
    while left.len() > 0 && backwards.len() < limit
        invariant
            backwards.len() <= limit,
            readable(lines@) == readable(left@) + backwards@.reverse(),
        decreases left.len(),
    {
        let ghost before = left@;
        let ghost done = backwards@;
        let last: Option<Record> = match left.pop() {
            Some(line) => line,
            None => None,
        };
        assert(left@ == before.drop_last());
        if let Some(record) = last {
            backwards.push(record);
            proof {
                assert(before.last() == Some(record));
                assert(readable(before) == readable(left@).push(record));
                assert(backwards@.reverse() == seq![record] + done.reverse());
                assert(readable(left@).push(record) + done.reverse() == readable(left@) + (seq![
                    record,
                ] + done.reverse()));
            }
        }
    }
    let ghost kept = backwards@.reverse();
    proof {
        let all = readable(lines@);
        if backwards@.len() < limit {
            assert(left@.len() == 0);
            assert(all == kept);
        } else {
            assert(all.skip(all.len() - limit) == kept);
        }
    }
    let mut out: Vec<Record> = Vec::new();
    while backwards.len() > 0
        invariant
            kept == out@ + backwards@.reverse(),
        decreases backwards.len(),
    {
        let ghost before = backwards@;
        let ghost done = out@;
        match backwards.pop() {
            Some(record) => {
                out.push(record);
                proof {
                    assert(before == backwards@.push(record));
                    assert(before.reverse() == seq![record] + backwards@.reverse());
                    assert(done + (seq![record] + backwards@.reverse()) == done.push(record)
                        + backwards@.reverse());
                }
            },
            None => {},
        }
    }
    assert(out@ + backwards@.reverse() == out@);
    out
}

// ---------------------------------------------------------------------------
// Laws
// ---------------------------------------------------------------------------

proof fn readable_grows(lines: Seq<Option<Record>>, record: Record)
    ensures
        readable(lines.push(Some(record))) == readable(lines).push(record),
{
    assert(lines.push(Some(record)).drop_last() == lines);
}

/// A record that is appended is the last one that a read gives back, for any limit above zero,
/// whatever came before it.
pub proof fn append_then_tail(lines: Seq<Option<Record>>, record: Record, limit: nat)
    requires
        limit > 0,
    ensures
        newest(readable(lines.push(Some(record))), limit).last() == record,
{
    readable_grows(lines, record);
}

proof fn line_is_gathered(file: Seq<u8>, line: Seq<u8>)
    requires
        !line.contains(NEWLINE),
    ensures
        lines_and_rest(file + line) == (lines_and_rest(file).0, lines_and_rest(file).1 + line),
    decreases line.len(),
{
    if line.len() == 0 {
        assert(file + line == file);
        assert(lines_and_rest(file).1 + line == lines_and_rest(file).1);
    } else {
        let before = line.drop_last();
        assert(!before.contains(NEWLINE)) by {
            if before.contains(NEWLINE) {
                let k = choose|k: int| 0 <= k < before.len() && before[k] == NEWLINE;
                assert(line[k] == NEWLINE);
            }
        }
        line_is_gathered(file, before);
        assert((file + line).drop_last() == file + before);
        assert((file + line).last() == line.last());
        assert(line.contains(line.last()));
        assert((lines_and_rest(file).1 + before).push(line.last()) == lines_and_rest(file).1 + line);
    }
}

proof fn clean_files_have_no_rest(file: Seq<u8>)
    ensures
        ends_a_line(file) <==> lines_and_rest(file).1.len() == 0,
{
}

/// A line that is appended to a journal is the last of its lines, and every line before it stays as
/// it was: one that was torn is ended, not run into.
pub proof fn appended_lines_stand_alone(file: Seq<u8>, line: Seq<u8>)
    requires
        line.len() > 0,
        !line.contains(NEWLINE),
    ensures
        lines_of(file + addition(line, ends_a_line(file))) == lines_of(file).push(line),
        ends_a_line(file + addition(line, ends_a_line(file))),
{
    clean_files_have_no_rest(file);
    let (lines, rest) = lines_and_rest(file);
    let start = if ends_a_line(file) {
        file
    } else {
        file.push(NEWLINE)
    };
    if !ends_a_line(file) {
        assert(start.drop_last() == file);
    }
    assert(lines_and_rest(start).0 == lines_of(file));
    assert(lines_and_rest(start).1 == Seq::<u8>::empty());
    line_is_gathered(start, line);
    assert(Seq::<u8>::empty() + line == line);
    let whole = file + addition(line, ends_a_line(file));
    assert(whole == (start + line).push(NEWLINE));
    assert(whole.drop_last() == start + line);
}

/// What each line of a journal holds, given how a line is read.
pub open spec fn records_of(file: Seq<u8>, reading: spec_fn(Seq<u8>) -> Option<Record>) -> Seq<
    Option<Record>,
> {
    lines_of(file).map_values(reading)
}

/// A record once appended is read back, as the newest one, whatever the file held before, a torn
/// last line included; and nothing that could be read before is lost by it. `line` is any text
/// without a newline that reads as the record.
pub proof fn appended_records_are_read_back(
    file: Seq<u8>,
    line: Seq<u8>,
    record: Record,
    reading: spec_fn(Seq<u8>) -> Option<Record>,
    limit: nat,
)
    requires
        line.len() > 0,
        !line.contains(NEWLINE),
        reading(line) == Some(record),
        limit > 0,
    ensures
        ({
            let after = file + addition(line, ends_a_line(file));
            &&& readable(records_of(after, reading)) == readable(records_of(file, reading)).push(
                record,
            )
            &&& newest(readable(records_of(after, reading)), limit).last() == record
        }),
{
    appended_lines_stand_alone(file, line);
    let after = file + addition(line, ends_a_line(file));
    assert(records_of(after, reading) == records_of(file, reading).push(Some(record)));
    readable_grows(records_of(file, reading), record);
}

/// A line that is not a record changes nothing about what a read gives back.
pub proof fn unreadable_lines_are_skipped(lines: Seq<Option<Record>>, limit: nat)
    ensures
        newest(readable(lines.push(None)), limit) == newest(readable(lines), limit),
{
    assert(lines.push(None).drop_last() == lines);
}

/// The tail of a journal is its newest records: as many as were asked for, or all where there are no
/// more, with nothing left out among them and in the order in which they were written.
pub proof fn tails_are_the_newest(records: Seq<Record>, limit: nat)
    ensures
        newest(records, limit).len() == (if records.len() < limit {
            records.len()
        } else {
            limit
        }),
        forall|i: int|
            0 <= i < newest(records, limit).len() ==> #[trigger] newest(records, limit)[i]
                == records[records.len() - newest(records, limit).len() + i],
{
}

/// A journal in which every line is a record is read as those records, each once and in order.
pub proof fn readable_journals_are_read_whole(records: Seq<Record>)
    ensures
        readable(records.map_values(|r: Record| Some(r))) == records,
    decreases records.len(),
{
    let lines = records.map_values(|r: Record| Some(r));
    if records.len() > 0 {
        let before = records.drop_last();
        readable_journals_are_read_whole(before);
        assert(lines.drop_last() =~= before.map_values(|r: Record| Some(r)));
        assert(lines.last() == Some(records.last()));
        assert(before.push(records.last()) =~= records);
    } else {
        assert(lines =~= Seq::empty());
    }
}

/// A line of a journal ends at a line feed, byte 10, and nowhere else: what stands between two of them
/// is one line, whatever bytes it holds.
pub proof fn lines_end_at_line_feeds(first: Seq<u8>, second: Seq<u8>)
    requires
        !first.contains(10u8),
        !second.contains(10u8),
        second.len() > 0,
    ensures
        lines_of(first.push(10u8) + second) == seq![first, second],
        lines_of(first.push(10u8)) == seq![first],
{
    let empty = Seq::<u8>::empty();
    line_is_gathered(empty, first);
    assert(empty + first =~= first);
    assert(lines_and_rest(first).1 =~= first);
    assert(first.push(10u8).drop_last() =~= first);
    assert(lines_and_rest(first.push(10u8)).0 =~= seq![first]);
    line_is_gathered(first.push(10u8), second);
    assert(lines_and_rest(first.push(10u8)).1 + second =~= second);
    assert(seq![first].push(second) =~= seq![first, second]);
}

/// What is shown of a journal ends with what was written last, skips what cannot be read, and is no
/// longer than was asked for.
pub proof fn the_end_of_the_journal_is_shown(
    lines: Seq<Option<Record>>,
    record: Record,
    limit: nat,
)
    ensures
        shown(lines, limit).len() <= limit,
        shown(lines.push(None), limit) == shown(lines, limit),
        limit > 0 ==> shown(lines.push(Some(record)), limit).len() > 0 && shown(
            lines.push(Some(record)),
            limit,
        ).last() == record,
        limit > 0 ==> shown(lines.push(Some(record)), limit).drop_last() == shown(
            lines,
            (limit - 1) as nat,
        ),
{
    readable_grows(lines, record);
    assert(lines.push(None).drop_last() =~= lines);
    if limit > 0 {
        let all = readable(lines);
        assert(readable(lines.push(Some(record))) == all.push(record));
        assert(newest(all.push(record), limit).drop_last() =~= newest(all, (limit - 1) as nat));
    }
}

} // verus!
