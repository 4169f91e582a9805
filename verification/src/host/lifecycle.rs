//! Snapshot and restore, driven from the host over QMP.
//!
//! A snapshot writes the machine's memory and device state into the disk's own image, so the node
//! that holds the state is the disk's node. Saving and restoring run as jobs: the command returns at
//! once, and events report the job's progress. None of them carries the reason of a failure, so the
//! outcome is read from the list of jobs once a job has concluded.
use crate::host::supervisor;
use crate::host::vm::{Directories, VmConfig};
use crate::json;
use crate::text;
use vstd::prelude::*;
use vstd::string::*;

verus! {

/// The block node that the VM state goes into, and the node snapshotted.
pub const DISK_NODE: &'static str = "disk0";

/// How many seconds to wait for a snapshot job before giving up on it.
pub const SNAPSHOT_TIMEOUT: u64 = 600;

/// How many seconds a single read may wait for the next job event.
pub const JOB_READ_TIMEOUT: u64 = 60;

// ---------------------------------------------------------------------------
// Jobs
// ---------------------------------------------------------------------------

/// A number for a job: the process and a count within it. Jobs live for one invocation, so this
/// keeps repeated snapshots under one tag apart, and two invocations at the same time.
pub open spec fn sequence(process: nat, count: nat) -> nat {
    process * 0x1_0000 + count % 0x1_0000
}

/// A number for the job with the given count in the given process.
pub fn next_job_seq(process: u32, count: u64) -> (r: u64)
    ensures
        r == sequence(process as nat, count as nat),
{
    process as u64 * 0x1_0000 + count % 0x1_0000
}

/// An event that says that a job has concluded.
pub open spec fn is_conclusion(
    event: Option<Seq<char>>,
    id: Option<Seq<char>>,
    status: Option<Seq<char>>,
    job: Seq<char>,
) -> bool {
    &&& event == Some("JOB_STATUS_CHANGE"@)
    &&& id == Some(job)
    &&& status == Some("concluded"@)
}

/// Whether a text is there and is the one given.
fn is_text(found: &Option<String>, expected: &str) -> (r: bool)
    ensures
        r == (text::opt_view(*found) == Some(expected@)),
{
    match found {
        Some(s) => text::same(s.as_str(), expected),
        None => false,
    }
}

/// Whether an event with this name, job and status says that `job` has concluded.
pub fn conclusion(
    event: &Option<String>,
    id: &Option<String>,
    status: &Option<String>,
    job: &str,
) -> (r: bool)
    ensures
        r == is_conclusion(
            text::opt_view(*event),
            text::opt_view(*id),
            text::opt_view(*status),
            job@,
        ),
{
    is_text(event, "JOB_STATUS_CHANGE") && is_text(id, job) && is_text(status, "concluded")
}

/// Whether an event line says that `job` has concluded.
pub fn concludes(line: &str, job: &str) -> (r: bool)
    ensures
        r == is_conclusion(
            json::text_at(line@, "/event"@),
            json::text_at(line@, "/data/id"@),
            json::text_at(line@, "/data/status"@),
            job@,
        ),
{
    let event = json::read_text(line, "/event");
    let id = json::read_text(line, "/data/id");
    let status = json::read_text(line, "/data/status");
    conclusion(&event, &id, &status, job)
}

/// What a caller is told when a job did not conclude in time.
pub fn overdue(job: &str) -> (r: String)
    ensures
        r@ == "the snapshot job '"@ + job@ + "' did not conclude within 600s"@,
{
    text::cat3("the snapshot job '", job, "' did not conclude within 600s")
}

/// Whether a job may still be waited for after so many nanoseconds.
pub open spec fn is_in_time(elapsed: nat) -> bool {
    elapsed <= SNAPSHOT_TIMEOUT * 1_000_000_000
}

/// Whether a job may still be waited for after so many nanoseconds; what the caller is told
/// otherwise.
pub fn in_time(job: &str, elapsed: u128) -> (r: Result<(), String>)
    ensures
        r is Ok <==> elapsed <= SNAPSHOT_TIMEOUT * 1_000_000_000,
        r is Ok <==> is_in_time(elapsed as nat),
        r matches Err(e) ==> e@ == "the snapshot job '"@ + job@ + "' did not conclude within 600s"@,
{
    if elapsed > SNAPSHOT_TIMEOUT as u128 * 1_000_000_000 {
        Err(overdue(job))
    } else {
        Ok(())
    }
}

/// A job, as QEMU reports it.
#[derive(Debug, PartialEq, Eq)]
pub struct Job {
    /// Its id.
    pub id: Option<String>,
    /// What went wrong, where anything did.
    pub error: Option<String>,
}

/// What a job holds.
pub struct JobView {
    /// Its id.
    pub id: Option<Seq<char>>,
    /// What went wrong, where anything did.
    pub error: Option<Seq<char>>,
}

impl Job {
    /// What this job holds.
    pub open spec fn view(&self) -> JobView {
        JobView { id: text::opt_view(self.id), error: text::opt_view(self.error) }
    }
}

/// What each job of a list holds.
pub open spec fn job_views(jobs: Seq<Job>) -> Seq<JobView> {
    jobs.map_values(|j: Job| j@)
}

/// The first job with the given id.
pub open spec fn find_job(jobs: Seq<JobView>, id: Seq<char>) -> Option<JobView>
    decreases jobs.len(),
{
    if jobs.len() == 0 {
        None
    } else if jobs[0].id == Some(id) {
        Some(jobs[0])
    } else {
        find_job(jobs.skip(1), id)
    }
}

/// Why a job that has concluded did not succeed.
pub open spec fn job_fault(jobs: Seq<JobView>, id: Seq<char>) -> Option<Seq<char>> {
    match find_job(jobs, id) {
        None => Some("job '"@ + id + "' concluded but is not in query-jobs"@),
        Some(job) => match job.error {
            Some(e) => if e.len() > 0 {
                Some("snapshot job '"@ + id + "' failed: "@ + e)
            } else {
                None
            },
            None => None,
        },
    }
}

/// The job `i` of a reply to `query-jobs`.
pub open spec fn job_at(reply: Seq<char>, i: int) -> JobView {
    JobView {
        id: json::text_at(reply, supervisor::entry_pointer(i) + "/id"@),
        error: json::text_at(reply, supervisor::entry_pointer(i) + "/error"@),
    }
}

/// The jobs of a reply to `query-jobs`. A result that is no list has none.
pub open spec fn jobs_in(reply: Seq<char>) -> Seq<JobView> {
    match json::count_at(reply, "/return"@) {
        Some(n) => Seq::new(n as nat, |i: int| job_at(reply, i)),
        None => Seq::empty(),
    }
}

/// Read the jobs of a reply to `query-jobs`.
pub fn read_jobs(reply: &str) -> (r: Vec<Job>)
    ensures
        job_views(r@) == jobs_in(reply@),
{
    let mut out: Vec<Job> = Vec::new();
    let count = match json::read_count(reply, "/return") {
        Some(n) => n,
        None => {
            assert(job_views(out@) == jobs_in(reply@));
            return out;
        },
    };
    let ghost expected = jobs_in(reply@);
    let mut i: usize = 0;
    while i < count
        invariant
            i <= count,
            expected == jobs_in(reply@),
            json::count_at(reply@, "/return"@) == Some(count),
            job_views(out@) == expected.take(i as int),
        decreases count - i,
    {
        let number = text::to_decimal(i as u64);
        let entry = text::cat2("/return/", number.as_str());
        let id = json::read_text(reply, text::cat2(entry.as_str(), "/id").as_str());
        let error = json::read_text(reply, text::cat2(entry.as_str(), "/error").as_str());
        let job = Job { id, error };
        proof {
            assert(job@ == job_at(reply@, i as int));
            assert(job_views(out@.push(job)) == job_views(out@).push(job@));
            assert(expected.take(i + 1) == expected.take(i as int).push(expected[i as int]));
        }
        out.push(job);
        i += 1;
    }
    assert(expected.take(count as int) == expected);
    out
}

/// The outcome of a job that has concluded, from the jobs that QEMU reports.
pub fn outcome(jobs: &Vec<Job>, id: &str) -> (r: Result<(), String>)
    ensures
        match (r, job_fault(job_views(jobs@), id@)) {
            (Ok(()), None) => true,
            (Err(e), Some(why)) => e@ == why,
            _ => false,
        },
{
    let ghost all = job_views(jobs@);
    let mut i: usize = 0;
    assert(all.skip(0) == all);
    while i < jobs.len()
        invariant
            i <= jobs.len(),
            all == job_views(jobs@),
            find_job(all, id@) == find_job(all.skip(i as int), id@),
        decreases jobs.len() - i,
    {
        let job = &jobs[i];
        proof {
            assert(all.skip(i as int)[0] == job@);
            assert(all.skip(i as int).skip(1) == all.skip(i + 1));
        }
        if is_text(&job.id, id) {
            match &job.error {
                Some(e) => {
                    if text::to_chars(e.as_str()).len() > 0 {
                        return Err(text::cat4("snapshot job '", id, "' failed: ", e.as_str()));
                    }
                },
                None => {},
            }
            return Ok(());
        }
        i += 1;
    }
    Err(text::cat3("job '", id, "' concluded but is not in query-jobs"))
}

/// The outcome of a job that has concluded, from QEMU's reply to `query-jobs`.
///
/// That a job concluded says nothing of whether it succeeded.
pub fn await_job(reply: &str, id: &str) -> (r: Result<(), String>)
    ensures
        match (r, job_fault(jobs_in(reply@), id@)) {
            (Ok(()), None) => true,
            (Err(e), Some(why)) => e@ == why,
            _ => false,
        },
{
    let jobs = read_jobs(reply);
    outcome(&jobs, id)
}

// ---------------------------------------------------------------------------
// Tags
// ---------------------------------------------------------------------------

/// A character that a tag may hold.
pub open spec fn is_tag_char(c: char) -> bool {
    ('a' <= c && c <= 'z') || ('A' <= c && c <= 'Z') || ('0' <= c && c <= '9') || c == '-' || c
        == '_' || c == '.'
}

/// Why a tag is refused. It ends up in a monitor command line and in a snapshot's name.
pub open spec fn tag_fault(tag: Seq<char>) -> Option<Seq<char>> {
    if tag.len() == 0 {
        Some("a snapshot needs a name"@)
    } else if vstd::utf8::encode_utf8(tag).len() > 64 {
        Some("snapshot names are limited to 64 characters"@)
    } else if exists|i: int| 0 <= i < tag.len() && !is_tag_char(#[trigger] tag[i]) {
        Some(
            "snapshot names may contain letters, digits, dash, underscore and dot: "@
                + text::debug_text(tag),
        )
    } else {
        None
    }
}

/// Check a tag.
pub fn validate_tag(tag: &str) -> (r: Result<(), String>)
    ensures
        match (r, tag_fault(tag@)) {
            (Ok(()), None) => true,
            (Err(e), Some(why)) => e@ == why,
            _ => false,
        },
{
    let chars = text::to_chars(tag);
    if chars.len() == 0 {
        return Err(text::own("a snapshot needs a name"));
    }
    if tag.as_bytes().len() > 64 {
        return Err(text::own("snapshot names are limited to 64 characters"));
    }
    let mut i: usize = 0;
    while i < chars.len()
        invariant
            chars@ == tag@,
            chars@.len() > 0,
            vstd::utf8::encode_utf8(tag@).len() <= 64,
            i <= chars.len(),
            forall|k: int| 0 <= k < i ==> is_tag_char(#[trigger] tag@[k]),
        decreases chars.len() - i,
    {
        let c = chars[i];
        if !(('a' <= c && c <= 'z') || ('A' <= c && c <= 'Z') || ('0' <= c && c <= '9') || c == '-'
            || c == '_' || c == '.') {
            assert(!is_tag_char(tag@[i as int]));
            let shown = text::format_debug_text(tag);
            return Err(
                text::cat2(
                    "snapshot names may contain letters, digits, dash, underscore and dot: ",
                    shown.as_str(),
                ),
            );
        }
        i += 1;
    }
    Ok(())
}

// ---------------------------------------------------------------------------
// Commands
// ---------------------------------------------------------------------------

/// A command that runs as a job.
#[derive(Debug, PartialEq, Eq)]
pub struct JobRequest {
    /// The job's id, which no other job has.
    pub job_id: String,
    /// The command's arguments.
    pub arguments: String,
}

/// The id of a job that saves under a tag.
pub open spec fn save_id(tag: Seq<char>, number: nat) -> Seq<char> {
    "wvm-save-"@ + tag + "-"@ + text::decimal(number)
}

/// The id of a job that restores a tag.
pub open spec fn load_id(tag: Seq<char>, number: nat) -> Seq<char> {
    "wvm-load-"@ + tag + "-"@ + text::decimal(number)
}

/// The arguments of `snapshot-save` and of `snapshot-load`.
pub open spec fn snapshot_arguments(tag: Seq<char>, job: Seq<char>) -> Seq<char> {
    json::object4(
        json::member("devices"@, json::list(seq![json::quoted(DISK_NODE@)])),
        json::member("job-id"@, json::quoted(job)),
        json::member("tag"@, json::quoted(tag)),
        json::member("vmstate"@, json::quoted(DISK_NODE@)),
    )
}

/// Write the arguments of `snapshot-save` and of `snapshot-load`.
fn write_snapshot_arguments(tag: &str, job: &str) -> (r: String)
    ensures
        r@ == snapshot_arguments(tag@, job@),
{
    let node = json::quote(DISK_NODE);
    let id = json::quote(job);
    let name = json::quote(tag);
    let mut devices: Vec<String> = Vec::new();
    text::push_text(&mut devices, node.as_str());
    assert(text::views(devices@) == seq![json::quoted(DISK_NODE@)]);
    let list = json::write_list(&devices);
    let a = json::write_member("devices", list.as_str());
    let b = json::write_member("job-id", id.as_str());
    let c = json::write_member("tag", name.as_str());
    let d = json::write_member("vmstate", node.as_str());
    json::write_object4(a.as_str(), b.as_str(), c.as_str(), d.as_str())
}

/// The job and the arguments of a save under a tag, or why the tag is refused.
pub open spec fn save_request(tag: Seq<char>, number: nat) -> Result<
    (Seq<char>, Seq<char>),
    Seq<char>,
> {
    match tag_fault(tag) {
        None => Ok((save_id(tag, number), snapshot_arguments(tag, save_id(tag, number)))),
        Some(why) => Err(why),
    }
}

/// The `snapshot-save` that saves the machine state under a tag, as the job with the given number.
pub fn save(tag: &str, number: u64) -> (r: Result<JobRequest, String>)
    ensures
        match (r, tag_fault(tag@)) {
            (Ok(request), None) => request.job_id@ == save_id(tag@, number as nat)
                && request.arguments@ == snapshot_arguments(tag@, save_id(tag@, number as nat)),
            (Err(e), Some(why)) => e@ == why,
            _ => false,
        },
        match (r, save_request(tag@, number as nat)) {
            (Ok(request), Ok((job, arguments))) => request.job_id@ == job && request.arguments@
                == arguments,
            (Err(e), Err(why)) => e@ == why,
            _ => false,
        },
{
    match validate_tag(tag) {
        Err(e) => Err(e),
        Ok(()) => {
            let n = text::to_decimal(number);
            let job_id = text::cat4("wvm-save-", tag, "-", n.as_str());
            let arguments = write_snapshot_arguments(tag, job_id.as_str());
            Ok(JobRequest { job_id, arguments })
        },
    }
}

/// The job and the arguments of a restore of a tag, or why the tag is refused.
pub open spec fn restore_request(tag: Seq<char>, number: nat) -> Result<
    (Seq<char>, Seq<char>),
    Seq<char>,
> {
    match tag_fault(tag) {
        None => Ok((load_id(tag, number), snapshot_arguments(tag, load_id(tag, number)))),
        Some(why) => Err(why),
    }
}

/// The `snapshot-load` that restores the machine state of a tag, as the job with the given number.
pub fn restore(tag: &str, number: u64) -> (r: Result<JobRequest, String>)
    ensures
        match (r, tag_fault(tag@)) {
            (Ok(request), None) => request.job_id@ == load_id(tag@, number as nat)
                && request.arguments@ == snapshot_arguments(tag@, load_id(tag@, number as nat)),
            (Err(e), Some(why)) => e@ == why,
            _ => false,
        },
        match (r, restore_request(tag@, number as nat)) {
            (Ok(request), Ok((job, arguments))) => request.job_id@ == job && request.arguments@
                == arguments,
            (Err(e), Err(why)) => e@ == why,
            _ => false,
        },
{
    match validate_tag(tag) {
        Err(e) => Err(e),
        Ok(()) => {
            let n = text::to_decimal(number);
            let job_id = text::cat4("wvm-load-", tag, "-", n.as_str());
            let arguments = write_snapshot_arguments(tag, job_id.as_str());
            Ok(JobRequest { job_id, arguments })
        },
    }
}

/// The arguments of `blockdev-snapshot-delete-internal-sync`.
pub open spec fn delete_arguments(tag: Seq<char>) -> Seq<char> {
    json::object2(
        json::member("device"@, json::quoted(DISK_NODE@)),
        json::member("name"@, json::quoted(tag)),
    )
}

/// The arguments of a deletion of a tag, or why the tag is refused.
pub open spec fn delete_request(tag: Seq<char>) -> Result<Seq<char>, Seq<char>> {
    match tag_fault(tag) {
        None => Ok(delete_arguments(tag)),
        Some(why) => Err(why),
    }
}

/// The `blockdev-snapshot-delete-internal-sync` that deletes the snapshot of a tag. No job and no
/// events belong to it.
pub fn delete(tag: &str) -> (r: Result<String, String>)
    ensures
        match (r, tag_fault(tag@)) {
            (Ok(arguments), None) => arguments@ == delete_arguments(tag@),
            (Err(e), Some(why)) => e@ == why,
            _ => false,
        },
        match (r, delete_request(tag@)) {
            (Ok(arguments), Ok(expected)) => arguments@ == expected,
            (Err(e), Err(why)) => e@ == why,
            _ => false,
        },
{
    match validate_tag(tag) {
        Err(e) => Err(e),
        Ok(()) => {
            let node = json::quote(DISK_NODE);
            let name = json::quote(tag);
            let a = json::write_member("device", node.as_str());
            let b = json::write_member("name", name.as_str());
            Ok(json::write_object2(a.as_str(), b.as_str()))
        },
    }
}

/// The arguments that list the snapshots.
pub open spec fn list_request() -> Seq<char> {
    json::object1(json::member("command-line"@, json::quoted("info snapshots"@)))
}

/// The arguments of the `human-monitor-command` that lists the snapshots.
pub fn list() -> (r: String)
    ensures
        r@ == json::object1(json::member("command-line"@, json::quoted("info snapshots"@))),
        r@ == list_request(),
{
    let line = json::quote("info snapshots");
    let a = json::write_member("command-line", line.as_str());
    json::write_object1(a.as_str())
}

/// The table in a reply to the command that lists the snapshots.
pub fn listing(reply: &str) -> (r: String)
    ensures
        r@ == (match json::text_at(reply@, "/return"@) {
            Some(table) => table,
            None => ""@,
        }),
{
    match json::read_text(reply, "/return") {
        Some(table) => table,
        None => text::own(""),
    }
}

// ---------------------------------------------------------------------------
// The table
// ---------------------------------------------------------------------------

/// A snapshot on a disk.
#[derive(Debug, Clone, PartialEq, Eq)]
pub struct Snapshot {
    /// The id, which is a dash for an internal snapshot.
    pub id: String,
    /// The tag.
    pub tag: String,
    /// How large the machine state is.
    pub vm_size_bytes: u64,
}

/// A row of the table, as its first four fields.
#[derive(Debug, PartialEq, Eq)]
pub struct Row {
    /// The id.
    pub id: String,
    /// The tag.
    pub tag: String,
    /// The size, as a number of units.
    pub size: String,
    /// The unit of the size.
    pub unit: String,
}

/// What a row holds.
pub struct RowView {
    /// The id.
    pub id: Seq<char>,
    /// The tag.
    pub tag: Seq<char>,
    /// The size, as a number of units.
    pub size: Seq<char>,
    /// The unit of the size.
    pub unit: Seq<char>,
}

impl Row {
    /// What this row holds.
    pub open spec fn view(&self) -> RowView {
        RowView { id: self.id@, tag: self.tag@, size: self.size@, unit: self.unit@ }
    }
}

/// What each row of a list holds.
pub open spec fn row_views(rows: Seq<Row>) -> Seq<RowView> {
    rows.map_values(|r: Row| r@)
}

/// The row that a line shows. A blank line, the title, a line with too few fields and the line of
/// column names show none.
pub open spec fn row_in(line: Seq<char>) -> Option<RowView> {
    let shown = text::trimmed(line);
    let fields = text::words(shown);
    if shown.len() == 0 || text::starts_with(shown, "List of"@) || fields.len() < 4 || fields[2]
        == "VM_SIZE"@ {
        None
    } else {
        Some(RowView { id: fields[0], tag: fields[1], size: fields[2], unit: fields[3] })
    }
}

/// The rows that lines show, in order.
pub open spec fn rows_in(lines: Seq<Seq<char>>) -> Seq<RowView>
    decreases lines.len(),
{
    if lines.len() == 0 {
        Seq::empty()
    } else {
        let before = rows_in(lines.drop_last());
        match row_in(lines.last()) {
            Some(row) => before.push(row),
            None => before,
        }
    }
}

/// The row that a line shows.
fn read_row(line: &[char]) -> (r: Option<Row>)
    ensures
        match (r, row_in(line@)) {
            (Some(row), Some(expected)) => row@ == expected,
            (None, None) => true,
            _ => false,
        },
{
    let shown = text::trim(line);
    let title = text::to_chars("List of");
    let fields = text::split_words(&shown);
    assert(text::char_views(fields@).len() == fields@.len());
    if shown.len() == 0 || text::chars_start_with(&shown, &title) || fields.len() < 4 {
        return None;
    }
    let heading = text::to_chars("VM_SIZE");
    proof {
        let all = text::char_views(fields@);
        assert(all[0] == fields@[0]@ && all[1] == fields@[1]@);
        assert(all[2] == fields@[2]@ && all[3] == fields@[3]@);
    }
    if text::same_chars(&fields[2], &heading) {
        return None;
    }
    Some(
        Row {
            id: text::from_chars(&fields[0]),
            tag: text::from_chars(&fields[1]),
            size: text::from_chars(&fields[2]),
            unit: text::from_chars(&fields[3]),
        },
    )
}

/// The rows of the table that `info snapshots` prints. The id column is a dash, so a row is told by
/// its shape.
pub fn snapshot_rows(table: &str) -> (r: Vec<Row>)
    ensures
        row_views(r@) == rows_in(text::lines(table@)),
{
    let chars = text::to_chars(table);
    let lines = text::split_lines(&chars);
    let ghost all = text::lines(table@);
    let mut out: Vec<Row> = Vec::new();
    let mut i: usize = 0;
    assert(all.take(0) == Seq::<Seq<char>>::empty());
    assert(text::char_views(lines@).len() == lines@.len());
    while i < lines.len()
        invariant
            i <= lines.len(),
            all == text::lines(table@),
            text::char_views(lines@) == all,
            all.len() == lines@.len(),
            row_views(out@) == rows_in(all.take(i as int)),
        decreases lines.len() - i,
    {
        proof {
            assert(text::char_views(lines@)[i as int] == lines@[i as int]@);
            assert(all.take(i + 1).drop_last() == all.take(i as int));
            assert(all.take(i + 1).last() == lines@[i as int]@);
        }
        match read_row(&lines[i]) {
            Some(row) => {
                assert(row_views(out@.push(row)) == row_views(out@).push(row@));
                out.push(row);
            },
            None => {},
        }
        i += 1;
    }
    assert(all.take(lines@.len() as int) == all);
    out
}

/// How many bytes a unit of size stands for.
pub open spec fn unit_bytes(unit: Seq<char>) -> Option<nat> {
    if unit == "B"@ {
        Some(1)
    } else if unit == "KiB"@ {
        Some(1024)
    } else if unit == "MiB"@ {
        Some(1024 * 1024)
    } else if unit == "GiB"@ {
        Some(1024 * 1024 * 1024)
    } else if unit == "TiB"@ {
        Some(1024 * 1024 * 1024 * 1024)
    } else {
        None
    }
}

/// How many bytes a unit of size stands for. An unknown unit is an error rather than a guess.
pub fn size_unit(unit: &str) -> (r: Result<u64, String>)
    ensures
        match (r, unit_bytes(unit@)) {
            (Ok(bytes), Some(expected)) => bytes == expected,
            (Err(e), None) => e@ == "unknown size unit "@ + text::debug_text(unit@),
            _ => false,
        },
{
    if text::same(unit, "B") {
        Ok(1)
    } else if text::same(unit, "KiB") {
        Ok(1024)
    } else if text::same(unit, "MiB") {
        Ok(1_048_576)
    } else if text::same(unit, "GiB") {
        Ok(1_073_741_824)
    } else if text::same(unit, "TiB") {
        Ok(1_099_511_627_776)
    } else {
        let shown = text::format_debug_text(unit);
        Err(text::cat2("unknown size unit ", shown.as_str()))
    }
}

/// What a snapshot holds.
pub struct SnapshotView {
    /// The id.
    pub id: Seq<char>,
    /// The tag.
    pub tag: Seq<char>,
    /// How large the machine state is.
    pub vm_size_bytes: nat,
}

impl Snapshot {
    /// What this snapshot holds.
    pub open spec fn view(&self) -> SnapshotView {
        SnapshotView { id: self.id@, tag: self.tag@, vm_size_bytes: self.vm_size_bytes as nat }
    }
}

/// What each snapshot of a list holds.
pub open spec fn snapshot_views(snapshots: Seq<Snapshot>) -> Seq<SnapshotView> {
    snapshots.map_values(|s: Snapshot| s@)
}

/// The snapshots that rows show whose sizes are `sizes`. A row whose size is none shows no
/// snapshot.
pub open spec fn snapshots_in(rows: Seq<RowView>, sizes: Seq<Option<u64>>) -> Seq<SnapshotView>
    decreases rows.len(),
{
    if rows.len() == 0 || sizes.len() != rows.len() {
        Seq::empty()
    } else {
        let before = snapshots_in(rows.drop_last(), sizes.drop_last());
        match sizes.last() {
            Some(bytes) => before.push(
                SnapshotView {
                    id: rows.last().id,
                    tag: rows.last().tag,
                    vm_size_bytes: bytes as nat,
                },
            ),
            None => before,
        }
    }
}

/// The snapshots that rows show, where `sizes` has the size of each row in bytes for a row whose
/// size is one. That is the strongest signal that a row shows a snapshot.
pub fn parse_snapshot_table(rows: &Vec<Row>, sizes: &Vec<Option<u64>>) -> (r: Vec<Snapshot>)
    requires
        rows@.len() == sizes@.len(),
    ensures
        snapshot_views(r@) == snapshots_in(row_views(rows@), sizes@),
{
    let ghost all = row_views(rows@);
    let mut out: Vec<Snapshot> = Vec::new();
    let mut i: usize = 0;
    assert(all.take(0) == Seq::<RowView>::empty());
    assert(sizes@.take(0) == Seq::<Option<u64>>::empty());
    while i < rows.len()
        invariant
            i <= rows.len(),
            rows@.len() == sizes@.len(),
            all == row_views(rows@),
            snapshot_views(out@) == snapshots_in(all.take(i as int), sizes@.take(i as int)),
        decreases rows.len() - i,
    {
        proof {
            assert(all.take(i + 1).drop_last() == all.take(i as int));
            assert(sizes@.take(i + 1).drop_last() == sizes@.take(i as int));
            assert(all.take(i + 1).last() == rows@[i as int]@);
            assert(sizes@.take(i + 1).last() == sizes@[i as int]);
        }
        match sizes[i] {
            Some(bytes) => {
                let s = Snapshot {
                    id: rows[i].id.clone(),
                    tag: rows[i].tag.clone(),
                    vm_size_bytes: bytes,
                };
                assert(snapshot_views(out@.push(s)) == snapshot_views(out@).push(s@));
                out.push(s);
            },
            None => {},
        }
        i += 1;
    }
    assert(all.take(rows@.len() as int) == all);
    assert(sizes@.take(sizes@.len() as int) == sizes@);
    out
}

/// The first snapshot with the given tag.
pub open spec fn find_tag(snapshots: Seq<SnapshotView>, tag: Seq<char>) -> Option<SnapshotView>
    decreases snapshots.len(),
{
    if snapshots.len() == 0 {
        None
    } else if snapshots[0].tag == tag {
        Some(snapshots[0])
    } else {
        find_tag(snapshots.skip(1), tag)
    }
}

/// Confirm that a snapshot is on the disk. That the job reported success is another claim.
pub fn confirm(snapshots: &Vec<Snapshot>, tag: &str) -> (r: Result<Snapshot, String>)
    ensures
        match (r, find_tag(snapshot_views(snapshots@), tag@)) {
            (Ok(s), Some(expected)) => s@ == expected,
            (Err(e), None) => e@ == "snapshot-save reported success but '"@ + tag@
                + "' is not on the disk"@,
            _ => false,
        },
{
    let ghost all = snapshot_views(snapshots@);
    let mut i: usize = 0;
    assert(all.skip(0) == all);
    while i < snapshots.len()
        invariant
            i <= snapshots.len(),
            all == snapshot_views(snapshots@),
            find_tag(all, tag@) == find_tag(all.skip(i as int), tag@),
        decreases snapshots.len() - i,
    {
        let s = &snapshots[i];
        proof {
            assert(all.skip(i as int)[0] == s@);
            assert(all.skip(i as int).skip(1) == all.skip(i + 1));
        }
        if text::same(s.tag.as_str(), tag) {
            return Ok(
                Snapshot {
                    id: s.id.clone(),
                    tag: s.tag.clone(),
                    vm_size_bytes: s.vm_size_bytes,
                },
            );
        }
        i += 1;
    }
    Err(text::cat3("snapshot-save reported success but '", tag, "' is not on the disk"))
}

// ---------------------------------------------------------------------------
// Laws
// ---------------------------------------------------------------------------

/// Two jobs that save under one tag, or that restore one tag, have different ids as long as they
/// belong to different processes or to counts within a cycle of each other: QEMU refuses an id that
/// was used before.
pub proof fn job_ids_do_not_collide(tag: Seq<char>, p: nat, n: nat, q: nat, m: nat)
    requires
        p != q || n % 0x1_0000 != m % 0x1_0000,
    ensures
        save_id(tag, sequence(p, n)) != save_id(tag, sequence(q, m)),
        load_id(tag, sequence(p, n)) != load_id(tag, sequence(q, m)),
{
    let a = sequence(p, n);
    let b = sequence(q, m);
    assert(a != b);
    text::decimal_round_trip(a);
    text::decimal_round_trip(b);
    let save = "wvm-save-"@ + tag + "-"@;
    let load = "wvm-load-"@ + tag + "-"@;
    let k = save.len() as int;
    assert(save_id(tag, a).skip(k) == text::decimal(a));
    assert(save_id(tag, b).skip(k) == text::decimal(b));
    let j = load.len() as int;
    assert(load_id(tag, a).skip(j) == text::decimal(a));
    assert(load_id(tag, b).skip(j) == text::decimal(b));
}

/// A tag that is accepted holds no white space, no quotation mark and no backslash, so it can do no
/// more than name a snapshot in a monitor command line.
pub proof fn accepted_tags_only_name(tag: Seq<char>, i: int)
    requires
        tag_fault(tag) is None,
        0 <= i < tag.len(),
    ensures
        !text::is_space(tag[i]),
        tag[i] != '"',
        tag[i] != '\'',
        tag[i] != '\\',
{
    assert(is_tag_char(tag[i]));
}

/// Where the size of every row is one, every row shows a snapshot, with the row's id and tag and in
/// the order of the rows: a table that plainly has rows never comes out empty.
pub proof fn no_snapshot_is_passed_over(rows: Seq<RowView>, sizes: Seq<Option<u64>>)
    requires
        rows.len() == sizes.len(),
        forall|i: int| 0 <= i < sizes.len() ==> #[trigger] sizes[i] is Some,
    ensures
        snapshots_in(rows, sizes).len() == rows.len(),
        forall|i: int|
            0 <= i < rows.len() ==> {
                &&& (#[trigger] snapshots_in(rows, sizes)[i]).id == rows[i].id
                &&& snapshots_in(rows, sizes)[i].tag == rows[i].tag
                &&& Some(snapshots_in(rows, sizes)[i].vm_size_bytes) == Some(
                    sizes[i].unwrap() as nat,
                )
            },
    decreases rows.len(),
{
    if rows.len() > 0 {
        no_snapshot_is_passed_over(rows.drop_last(), sizes.drop_last());
    }
}

/// The node that snapshots name is one that QEMU is told of: the command line declares a node of
/// that name, and the machine's disk is on it.
pub proof fn snapshots_name_the_disk(config: VmConfig, dirs: Directories)
    ensures
        exists|i: int|
            0 <= i < config.args(dirs).len() && text::holds(
                #[trigger] config.args(dirs)[i],
                ",node-name="@ + DISK_NODE@ + ","@,
            ),
        exists|i: int|
            0 <= i < config.args(dirs).len() && text::starts_with(
                #[trigger] config.args(dirs)[i],
                "virtio-blk-pci,drive="@ + DISK_NODE@ + ","@,
            ),
{
    reveal_strlit("disk0");
    reveal_strlit(",");
    reveal_strlit(",node-name=");
    reveal_strlit("virtio-blk-pci,drive=");
    reveal_strlit("driver=qcow2,file=disk0.file,node-name=disk0,discard=unmap");
    reveal_strlit("virtio-blk-pci,drive=disk0,bootindex=1");
    let args = config.args(dirs);
    let disk = config.disk_args();
    let start = (config.machine_args() + config.firmware_args(dirs)).len() as int;
    let node = args[start + 3];
    let device = args[start + 5];
    assert(node == disk[3]);
    assert(device == disk[5]);
    let name = ",node-name="@ + DISK_NODE@ + ","@;
    let at: int = 28;
    assert(node.subrange(at, at + name.len()) == name);
    let drive = "virtio-blk-pci,drive="@ + DISK_NODE@ + ","@;
    assert(device.take(drive.len() as int) == drive);
}

/// The tags that are accepted are exactly the texts of 1 to 64 characters in which each is an ASCII
/// letter of either case, a decimal digit, a dash, an underscore or a dot.
pub proof fn plain_names_are_tags(tag: Seq<char>)
    ensures
        tag_fault(tag) is None <==> 0 < tag.len() <= 64 && forall|i: int|
            0 <= i < tag.len() ==> {
                ||| 'a' <= #[trigger] tag[i] && tag[i] <= 'z'
                ||| 'A' <= tag[i] && tag[i] <= 'Z'
                ||| '0' <= tag[i] && tag[i] <= '9'
                ||| tag[i] == '-'
                ||| tag[i] == '_'
                ||| tag[i] == '.'
            },
{
    if forall|i: int| 0 <= i < tag.len() ==> is_tag_char(#[trigger] tag[i]) {
        assert(vstd::utf8::is_ascii_chars(tag)) by {
            assert forall|i: int| 0 <= i < tag.len() implies '\0' <= #[trigger] tag[i] <= '\u{7f}' by {
                assert(is_tag_char(tag[i]));
            }
        }
        vstd::utf8::is_ascii_chars_encode_utf8(tag);
        assert(vstd::utf8::encode_utf8(tag).len() == tag.len());
    } else {
        let k = choose|i: int| 0 <= i < tag.len() && !is_tag_char(#[trigger] tag[i]);
        assert(!is_tag_char(tag[k]));
    }
}

/// An accepted tag can be written into a command's arguments as it is.
proof fn accepted_tags_are_plain(tag: Seq<char>)
    requires
        tag_fault(tag) is None,
    ensures
        forall|i: int|
            0 <= i < tag.len() ==> #[trigger] tag[i] != '"' && tag[i] != '\\' && tag[i] as int >= 32,
{
    assert forall|i: int| 0 <= i < tag.len() implies #[trigger] tag[i] != '"' && tag[i] != '\\'
        && tag[i] as int >= 32 by {
        assert(is_tag_char(tag[i]));
    }
}

/// The arguments of a save and of a restore under an accepted tag, letter for letter: the state goes
/// to and comes from the disk's node and no other, under the tag as it was given, and the job's id
/// says which of the two it is.
#[verifier::spinoff_prover]
pub proof fn snapshots_go_under_the_tag(tag: Seq<char>, number: nat)
    requires
        tag_fault(tag) is None,
    ensures
        save_id(tag, number) == "wvm-save-"@ + tag + "-"@ + text::decimal(number),
        load_id(tag, number) == "wvm-load-"@ + tag + "-"@ + text::decimal(number),
        save_id(tag, number) != load_id(tag, number),
        snapshot_arguments(tag, save_id(tag, number)) == "{\"devices\":[\"disk0\"],\"job-id\":\""@
            + save_id(tag, number) + "\",\"tag\":\""@ + tag + "\",\"vmstate\":\"disk0\"}"@,
        snapshot_arguments(tag, load_id(tag, number)) == "{\"devices\":[\"disk0\"],\"job-id\":\""@
            + load_id(tag, number) + "\",\"tag\":\""@ + tag + "\",\"vmstate\":\"disk0\"}"@,
{
    accepted_tags_are_plain(tag);
    text::numerals_read_back(number, number);
    reveal_strlit("wvm-save-");
    reveal_strlit("wvm-load-");
    reveal_strlit("-");
    assert(save_id(tag, number)[4] == 's');
    assert(load_id(tag, number)[4] == 'l');
    arguments_are_plain(tag, save_id(tag, number));
    arguments_are_plain(tag, load_id(tag, number));
}

#[verifier::spinoff_prover]
#[verifier::rlimit(30)]
proof fn arguments_are_plain(tag: Seq<char>, job: Seq<char>)
    requires
        forall|i: int|
            0 <= i < tag.len() ==> #[trigger] tag[i] != '"' && tag[i] != '\\' && tag[i] as int >= 32,
        forall|i: int|
            0 <= i < job.len() ==> #[trigger] job[i] != '"' && job[i] != '\\' && job[i] as int >= 32,
    ensures
        snapshot_arguments(tag, job) == "{\"devices\":[\"disk0\"],\"job-id\":\""@ + job
            + "\",\"tag\":\""@ + tag + "\",\"vmstate\":\"disk0\"}"@,
{
    reveal_strlit("disk0");
    reveal_strlit("{\"devices\":[\"disk0\"],\"job-id\":\"");
    reveal_strlit("\",\"vmstate\":\"disk0\"}");
    reveal_strlit("{\"devices\":[\"");
    reveal_strlit("\"],\"job-id\":\"");
    reveal_strlit("\",\"vmstate\":\"");
    reveal_strlit("\"}");
    supervisor::state_requests_read("disk0"@, job, tag);
    assert("{\"devices\":[\"disk0\"],\"job-id\":\""@ =~= "{\"devices\":[\""@ + "disk0"@
        + "\"],\"job-id\":\""@);
    assert("\",\"vmstate\":\"disk0\"}"@ =~= "\",\"vmstate\":\""@ + "disk0"@ + "\"}"@);
    assert("{\"devices\":[\""@ + "disk0"@ + "\"],\"job-id\":\""@ + job + "\",\"tag\":\""@ + tag
        + "\",\"vmstate\":\""@ + "disk0"@ + "\"}"@ =~= "{\"devices\":[\"disk0\"],\"job-id\":\""@ + job
        + "\",\"tag\":\""@ + tag + "\",\"vmstate\":\"disk0\"}"@);
}

/// The arguments that delete the snapshot of an accepted tag, letter for letter.
#[verifier::spinoff_prover]
pub proof fn deletions_name_the_tag(tag: Seq<char>)
    requires
        tag_fault(tag) is None,
    ensures
        delete_arguments(tag) == "{\"device\":\"disk0\",\"name\":\""@ + tag + "\"}"@,
{
    accepted_tags_are_plain(tag);
    reveal_strlit("disk0");
    reveal_strlit("device");
    reveal_strlit("name");
    reveal_strlit("{");
    reveal_strlit("}");
    reveal_strlit(",");
    reveal_strlit("{\"device\":\"disk0\",\"name\":\"");
    reveal_strlit("\"}");
    json::plain_texts_are_quoted_as_they_are(tag);
    json::plain_texts_are_quoted_as_they_are("disk0"@);
    json::plain_members_are_named("device"@, json::quoted("disk0"@));
    json::plain_members_are_named("name"@, json::quoted(tag));
    assert(delete_arguments(tag) =~= "{\"device\":\"disk0\",\"name\":\""@ + tag + "\"}"@);
}

/// An event ends the wait for at most one job: the one that it names, and only by saying that the
/// job's status is now that it has concluded.
pub proof fn conclusions_belong_to_one_job(
    event: Option<Seq<char>>,
    id: Option<Seq<char>>,
    status: Option<Seq<char>>,
    job: Seq<char>,
)
    ensures
        is_conclusion(event, id, status, job) ==> id == Some(job),
        is_conclusion(event, id, status, job) ==> forall|other: Seq<char>|
            other != job ==> !is_conclusion(event, id, status, other),
        is_conclusion(event, id, status, job) ==> status == Some("concluded"@) && event == Some(
            "JOB_STATUS_CHANGE"@,
        ),
        is_conclusion(Some("JOB_STATUS_CHANGE"@), Some(job), Some("concluded"@), job),
{
}

/// A job that has concluded is taken for a success exactly where the first job of its id in the list
/// is there and carries no error, or an empty one.
pub proof fn failed_jobs_are_never_taken_for_successes(jobs: Seq<JobView>, id: Seq<char>)
    ensures
        job_fault(jobs, id) is None <==> exists|i: int|
            0 <= i < jobs.len() && (#[trigger] jobs[i]).id == Some(id) && (forall|k: int|
                0 <= k < i ==> (#[trigger] jobs[k]).id != Some(id)) && match jobs[i].error {
                Some(e) => e.len() == 0,
                None => true,
            },
        forall|i: int|
            0 <= i < jobs.len() && (#[trigger] jobs[i]).id == Some(id) && (forall|k: int|
                0 <= k < i ==> (#[trigger] jobs[k]).id != Some(id)) && jobs[i].error is Some
                && jobs[i].error->Some_0.len() > 0 ==> job_fault(jobs, id) == Some(
                "snapshot job '"@ + id + "' failed: "@ + jobs[i].error->Some_0,
            ),
{
    jobs_are_found_by_id(jobs, id);
}

proof fn jobs_are_found_by_id(jobs: Seq<JobView>, id: Seq<char>)
    ensures
        find_job(jobs, id) is None ==> forall|i: int|
            0 <= i < jobs.len() ==> (#[trigger] jobs[i]).id != Some(id),
        find_job(jobs, id) is Some ==> exists|i: int|
            0 <= i < jobs.len() && find_job(jobs, id) == Some(#[trigger] jobs[i]) && jobs[i].id
                == Some(id) && forall|k: int| 0 <= k < i ==> (#[trigger] jobs[k]).id != Some(id),
    decreases jobs.len(),
{
    if jobs.len() > 0 {
        let rest = jobs.skip(1);
        jobs_are_found_by_id(rest, id);
        if jobs[0].id == Some(id) {
            assert(find_job(jobs, id) == Some(jobs[0]));
        } else if find_job(rest, id) is Some {
            let i = choose|i: int|
                0 <= i < rest.len() && find_job(rest, id) == Some(#[trigger] rest[i]) && rest[i].id
                    == Some(id) && forall|k: int| 0 <= k < i ==> (#[trigger] rest[k]).id != Some(id);
            assert(rest[i] == jobs[i + 1]);
            assert forall|k: int| 0 <= k < i + 1 implies (#[trigger] jobs[k]).id != Some(id) by {
                if k > 0 {
                    assert(rest[k - 1] == jobs[k]);
                }
            }
        } else {
            assert forall|i: int| 0 <= i < jobs.len() implies (#[trigger] jobs[i]).id != Some(id) by {
                if i > 0 {
                    assert(rest[i - 1] == jobs[i]);
                }
            }
        }
    }
}

/// Each unit of size is 1024 of the one before it, the first of them is the byte, and there is no
/// other.
pub proof fn units_grow_by_1024(unit: Seq<char>)
    ensures
        unit_bytes("B"@) == Some(1nat),
        unit_bytes("KiB"@) == Some(1024 * unit_bytes("B"@)->Some_0),
        unit_bytes("MiB"@) == Some(1024 * unit_bytes("KiB"@)->Some_0),
        unit_bytes("GiB"@) == Some(1024 * unit_bytes("MiB"@)->Some_0),
        unit_bytes("TiB"@) == Some(1024 * unit_bytes("GiB"@)->Some_0),
        unit_bytes(unit) is Some <==> unit == "B"@ || unit == "KiB"@ || unit == "MiB"@ || unit
            == "GiB"@ || unit == "TiB"@,
{
    reveal_strlit("B");
    reveal_strlit("KiB");
    reveal_strlit("MiB");
    reveal_strlit("GiB");
    reveal_strlit("TiB");
    assert("KiB"@[0] == 'K' && "MiB"@[0] == 'M' && "GiB"@[0] == 'G' && "TiB"@[0] == 'T');
}

/// A saved snapshot is confirmed exactly where one with its tag is on the disk, and the one handed
/// back is on the disk and has that tag.
pub proof fn only_snapshots_on_the_disk_are_confirmed(
    snapshots: Seq<SnapshotView>,
    tag: Seq<char>,
)
    ensures
        find_tag(snapshots, tag) is Some <==> exists|i: int|
            0 <= i < snapshots.len() && (#[trigger] snapshots[i]).tag == tag,
        find_tag(snapshots, tag) matches Some(s) ==> snapshots.contains(s) && s.tag == tag,
    decreases snapshots.len(),
{
    if snapshots.len() > 0 {
        let rest = snapshots.skip(1);
        only_snapshots_on_the_disk_are_confirmed(rest, tag);
        if snapshots[0].tag != tag {
            if exists|i: int| 0 <= i < rest.len() && (#[trigger] rest[i]).tag == tag {
                let i = choose|i: int| 0 <= i < rest.len() && (#[trigger] rest[i]).tag == tag;
                assert(snapshots[i + 1].tag == tag);
            }
            if exists|i: int| 0 <= i < snapshots.len() && (#[trigger] snapshots[i]).tag == tag {
                let i = choose|i: int|
                    0 <= i < snapshots.len() && (#[trigger] snapshots[i]).tag == tag;
                assert(rest[i - 1].tag == tag);
            }
            if let Some(s) = find_tag(rest, tag) {
                let i = choose|i: int| 0 <= i < rest.len() && rest[i] == s;
                assert(snapshots[i + 1] == s);
            }
        }
    }
}

/// Each row of the table shows a snapshot on its own account, wherever it stands: the snapshots of two
/// runs of rows are those of the first and then those of the second, a row with a size shows one with
/// that row's id, tag and size, and a row without a size shows none.
pub proof fn snapshots_come_from_sized_rows(
    first: Seq<RowView>,
    second: Seq<RowView>,
    sizes: Seq<Option<u64>>,
    more: Seq<Option<u64>>,
    row: RowView,
    bytes: u64,
)
    requires
        first.len() == sizes.len(),
        second.len() == more.len(),
    ensures
        snapshots_in(first + second, sizes + more) == snapshots_in(first, sizes) + snapshots_in(
            second,
            more,
        ),
        snapshots_in(seq![row], seq![None]).len() == 0,
        snapshots_in(seq![row], seq![Some(bytes)]).len() == 1,
        snapshots_in(seq![row], seq![Some(bytes)])[0].id == row.id,
        snapshots_in(seq![row], seq![Some(bytes)])[0].tag == row.tag,
        snapshots_in(seq![row], seq![Some(bytes)])[0].vm_size_bytes == bytes,
    decreases second.len(),
{
    assert(seq![row].drop_last() == Seq::<RowView>::empty());
    assert(snapshots_in(Seq::<RowView>::empty(), seq![None::<u64>].drop_last()).len() == 0);
    assert(snapshots_in(Seq::<RowView>::empty(), seq![Some(bytes)].drop_last()).len() == 0);
    if second.len() == 0 {
        assert(first + second == first);
        assert(sizes + more == sizes);
        assert(snapshots_in(first, sizes) + snapshots_in(second, more) == snapshots_in(first, sizes));
    } else {
        snapshots_come_from_sized_rows(
            first,
            second.drop_last(),
            sizes,
            more.drop_last(),
            row,
            bytes,
        );
        assert((first + second).drop_last() == first + second.drop_last());
        assert((sizes + more).drop_last() == sizes + more.drop_last());
        assert(snapshots_in(first + second, sizes + more) == snapshots_in(first, sizes)
            + snapshots_in(second, more));
    }
}

/// What a caller is told of a job that takes too long names the limit that was kept.
pub proof fn the_limit_told_is_the_limit_kept(elapsed: nat)
    ensures
        is_in_time(elapsed) <==> elapsed <= 600 * 1_000_000_000,
        "' did not conclude within 600s"@ == "' did not conclude within "@ + text::decimal(
            SNAPSHOT_TIMEOUT as nat,
        ) + "s"@,
        0 < JOB_READ_TIMEOUT <= SNAPSHOT_TIMEOUT,
{
    reveal_strlit("' did not conclude within 600s");
    reveal_strlit("' did not conclude within ");
    reveal_strlit("s");
    reveal_with_fuel(text::decimal, 4);
}

/// A line of the table shows the snapshot whose id, tag, size and unit are its first four words,
/// unless it is the title or the line of column names. A line with fewer words shows none, and what
/// follows the four makes no difference.
#[verifier::spinoff_prover]
pub proof fn rows_are_the_first_four_words(
    id: Seq<char>,
    tag: Seq<char>,
    size: Seq<char>,
    unit: Seq<char>,
    rest: Seq<char>,
)
    requires
        is_word(id),
        is_word(tag),
        is_word(size),
        is_word(unit),
        is_word(rest),
        id != "List"@,
        size != "VM_SIZE"@,
    ensures
        ({
            let space = seq![' '];
            let line = id + space + (tag + space + (size + space + (unit + space + rest)));
            row_in(line) matches Some(row) && row.id == id && row.tag == tag && row.size == size
                && row.unit == unit
        }),
        row_in(id + seq![' '] + (tag + seq![' '] + size)) is None,
        row_in(id + seq![' '] + (tag + seq![' '] + (size + seq![' '] + unit))) is Some,
        row_in(Seq::empty()) is None,
{
    reveal_strlit("List of");
    reveal_strlit("List");
    let space = seq![' '];
    let d = unit + space + rest;
    let c = size + space + d;
    let b = tag + space + c;
    let line = id + space + b;
    let short = id + space + (tag + space + size);
    text::words_are_read_from_the_front(id, ' ', b);
    text::words_are_read_from_the_front(tag, ' ', c);
    text::words_are_read_from_the_front(size, ' ', d);
    text::words_are_read_from_the_front(unit, ' ', rest);
    text::words_are_read_from_the_front(rest, ' ', rest);
    text::words_are_read_from_the_front(id, ' ', tag + space + size);
    text::words_are_read_from_the_front(tag, ' ', size);
    text::words_are_read_from_the_front(size, ' ', size);
    assert(line[0] == id[0] && line.last() == rest.last());
    assert(short[0] == id[0] && short.last() == size.last());
    assert(!text::is_space(line[0]) && !text::is_space(line.last()));
    assert(!text::is_space(short[0]) && !text::is_space(short.last()));
    text::trimmed_texts_stay(line);
    text::trimmed_texts_stay(short);
    let words = text::words(line);
    assert(words =~= seq![id, tag, size, unit, rest]);
    four_words_are_enough(id, tag, size, unit);
    assert(text::words(short) =~= seq![id, tag, size]);
    assert(!text::starts_with(line, "List of"@)) by {
        if text::starts_with(line, "List of"@) {
            let head = line.take(7);
            assert(head[0] == 'L' && head[1] == 'i' && head[2] == 's' && head[3] == 't' && head[4]
                == ' ');
            if id.len() < 4 {
                assert(line[id.len() as int] == ' ');
                assert(head[id.len() as int] == line[id.len() as int]);
            } else if id.len() > 4 {
                assert(line[4] == id[4]);
                assert(head[4] == line[4]);
                assert(!text::is_space(id[4]));
            } else {
                assert(id[0] == head[0] && id[1] == head[1] && id[2] == head[2] && id[3] == head[3]);
                assert(id =~= "List"@);
            }
        }
    }
    assert(text::words(text::trimmed(Seq::<char>::empty())).len() == 0);
}

proof fn four_words_are_enough(id: Seq<char>, tag: Seq<char>, size: Seq<char>, unit: Seq<char>)
    requires
        is_word(id),
        is_word(tag),
        is_word(size),
        is_word(unit),
        id != "List"@,
        size != "VM_SIZE"@,
    ensures
        row_in(id + seq![' '] + (tag + seq![' '] + (size + seq![' '] + unit))) is Some,
{
    reveal_strlit("List of");
    reveal_strlit("List");
    let space = seq![' '];
    let c = size + space + unit;
    let b = tag + space + c;
    let line = id + space + b;
    text::words_are_read_from_the_front(id, ' ', b);
    text::words_are_read_from_the_front(tag, ' ', c);
    text::words_are_read_from_the_front(size, ' ', unit);
    text::words_are_read_from_the_front(unit, ' ', unit);
    assert(line[0] == id[0] && line.last() == unit.last());
    assert(!text::is_space(line[0]) && !text::is_space(line.last()));
    text::trimmed_texts_stay(line);
    assert(text::words(line) =~= seq![id, tag, size, unit]);
    if text::starts_with(line, "List of"@) {
        let head = line.take(7);
        assert(head[0] == 'L' && head[1] == 'i' && head[2] == 's' && head[3] == 't' && head[4] == ' ');
        if id.len() < 4 {
            assert(line[id.len() as int] == ' ');
            assert(head[id.len() as int] == line[id.len() as int]);
        } else if id.len() > 4 {
            assert(line[4] == id[4]);
            assert(head[4] == line[4]);
            assert(!text::is_space(id[4]));
        } else {
            assert(id[0] == head[0] && id[1] == head[1] && id[2] == head[2] && id[3] == head[3]);
            assert(id =~= "List"@);
        }
    }
}

/// A word: not empty, and without white space.
pub open spec fn is_word(s: Seq<char>) -> bool {
    s.len() > 0 && forall|i: int| 0 <= i < s.len() ==> !text::is_space(#[trigger] s[i])
}

/// Each line of a table is read on its own account and in its place, and the title is no row.
pub proof fn tables_are_read_line_by_line(lines: Seq<Seq<char>>, line: Seq<char>)
    ensures
        row_in(line) matches Some(row) ==> rows_in(lines.push(line)) == rows_in(lines).push(row),
        row_in(line) is None ==> rows_in(lines.push(line)) == rows_in(lines),
        rows_in(Seq::empty()).len() == 0,
        text::starts_with(text::trimmed(line), "List of"@) ==> row_in(line) is None,
        text::words(text::trimmed(line)).len() >= 3 && text::words(text::trimmed(line))[2]
            == "VM_SIZE"@ ==> row_in(line) is None,
{
    assert(lines.push(line).drop_last() =~= lines);
}

/// What is read of a job, and from where.
pub proof fn jobs_are_read_where_they_stand(reply: Seq<char>, i: nat)
    ensures
        job_at(reply, i as int).id == json::text_at(
            reply,
            "/return/"@ + text::decimal(i) + "/id"@,
        ),
        job_at(reply, i as int).error == json::text_at(
            reply,
            "/return/"@ + text::decimal(i) + "/error"@,
        ),
        json::count_at(reply, "/return"@) matches Some(n) ==> jobs_in(reply).len() == n && (i < n
            ==> jobs_in(reply)[i as int] == job_at(reply, i as int)),
        json::count_at(reply, "/return"@) is None ==> jobs_in(reply).len() == 0,
{
}

/// The number of a job keeps the process and the count within it apart.
pub proof fn job_numbers_hold_process_and_count(process: nat, count: nat)
    ensures
        sequence(process, count) / 65536 == process,
        sequence(process, count) % 65536 == count % 65536,
{
}

/// A save, a restore and a deletion are made exactly of the tags that are accepted. A save is the job
/// of a save, and a restore that of a restore, both of the disk's node under the tag as it was given.
pub proof fn accepted_tags_are_carried_out(tag: Seq<char>, number: nat)
    ensures
        save_request(tag, number) is Ok <==> tag_fault(tag) is None,
        restore_request(tag, number) is Ok <==> tag_fault(tag) is None,
        delete_request(tag) is Ok <==> tag_fault(tag) is None,
        save_request(tag, number) matches Ok((job, arguments)) ==> job == "wvm-save-"@ + tag + "-"@
            + text::decimal(number) && arguments == "{\"devices\":[\"disk0\"],\"job-id\":\""@ + job
            + "\",\"tag\":\""@ + tag + "\",\"vmstate\":\"disk0\"}"@,
        restore_request(tag, number) matches Ok((job, arguments)) ==> job == "wvm-load-"@ + tag
            + "-"@ + text::decimal(number) && arguments
            == "{\"devices\":[\"disk0\"],\"job-id\":\""@ + job + "\",\"tag\":\""@ + tag
            + "\",\"vmstate\":\"disk0\"}"@,
        delete_request(tag) matches Ok(arguments) ==> arguments
            == "{\"device\":\"disk0\",\"name\":\""@ + tag + "\"}"@,
{
    if tag_fault(tag) is None {
        snapshots_go_under_the_tag(tag, number);
        deletions_name_the_tag(tag);
    }
}

/// The snapshots are listed by the monitor's own command, letter for letter.
pub proof fn listing_asks_the_monitor()
    ensures
        list_request() == "{\"command-line\":\"info snapshots\"}"@,
{
    reveal_strlit("{");
    reveal_strlit("}");
    reveal_strlit("command-line");
    reveal_strlit("info snapshots");
    reveal_strlit("{\"command-line\":\"info snapshots\"}");
    json::plain_texts_are_quoted_as_they_are("info snapshots"@);
    json::plain_members_are_named("command-line"@, json::quoted("info snapshots"@));
    assert(list_request() =~= "{\"command-line\":\"info snapshots\"}"@);
}

} // verus!
