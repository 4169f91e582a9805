//! File transfer, and the containment rules that go with it.
//!
//! * **Planning** decides whether a transfer is permissible and where it lands, without touching a
//!   file.
//! * **Execution** moves the bytes through a [`TransferIo`].
//!
//! The guest constrains the paths it will touch itself. The host path names a file on a filesystem
//! the guest has no view of, so it is recorded and not checked here.
use crate::guest::paths;
use crate::text;
use vstd::prelude::*;
use vstd::slice::*;
use vstd::string::*;

verus! {

/// Which way the bytes move.
#[derive(Debug, Clone, Copy, PartialEq, Eq, Structural)]
pub enum Direction {
    /// Host file to guest path.
    HostToGuest,
    /// Guest file to host path.
    GuestToHost,
}

impl Direction {
    /// The wire spelling of a direction.
    pub open spec fn name(self) -> Seq<char> {
        match self {
            Direction::HostToGuest => "host_to_guest"@,
            Direction::GuestToHost => "guest_to_host"@,
        }
    }

    /// The wire spelling, the same string the request used.
    pub fn to_string(&self) -> (r: String)
        ensures
            r@ == self.name(),
    {
        match self {
            Direction::HostToGuest => text::own("host_to_guest"),
            Direction::GuestToHost => text::own("guest_to_host"),
        }
    }
}

/// What the guest was asked to do, after planning.
#[derive(Debug, PartialEq, Eq)]
pub struct TransferPlan {
    pub direction: Direction,
    /// Guest-side path, in native separators.
    pub guest_path: String,
    /// Host-side path, as the host gave it.
    pub host_path: String,
    /// Whether existing files at the destination may be replaced.
    pub overwrite: bool,
}

impl TransferPlan {
    /// How the journal shows a plan.
    pub open spec fn line(self) -> Seq<char> {
        self.host_path@ + " "@ + (match self.direction {
            Direction::HostToGuest => "->"@,
            Direction::GuestToHost => "<-"@,
        }) + " "@ + self.guest_path@
    }

    /// The plan on one line, for the journal.
    pub fn to_string(&self) -> (r: String)
        ensures
            r@ == self.line(),
    {
        let arrow = match self.direction {
            Direction::HostToGuest => "->",
            Direction::GuestToHost => "<-",
        };
        text::cat5(self.host_path.as_str(), " ", arrow, " ", self.guest_path.as_str())
    }
}

/// Why a transfer is not planned, if it is not.
pub open spec fn plan_refusal(
    guest_root: Seq<char>,
    host_root: Seq<char>,
    guest_path: Seq<char>,
) -> Option<Seq<char>> {
    if text::is_blank(guest_root) {
        Some("refusing transfer: the grant declares no guest root"@)
    } else if text::is_blank(host_root) {
        Some("refusing transfer: the grant declares no host root"@)
    } else {
        paths::refusal(guest_root, guest_path)
    }
}

/// Plan a transfer, or refuse it. The guest path is contained against the guest root; the host path
/// is recorded as it came, and may be empty. A plan does not overwrite unless it is told to later.
pub fn plan(
    direction: Direction,
    guest_root: &str,
    host_root: &str,
    guest_path: &str,
    host_path: &str,
) -> (r: Result<TransferPlan, String>)
    ensures
        match (r, plan_refusal(guest_root@, host_root@, guest_path@)) {
            (Ok(p), None) => {
                &&& p.direction == direction
                &&& p.guest_path@ == text::replaced(guest_path@, '/', '\\')
                &&& p.host_path@ == host_path@
                &&& !p.overwrite
            },
            (Err(e), Some(why)) => e@ == why,
            _ => false,
        },
{
    if text::blank(guest_root) {
        return Err(text::own("refusing transfer: the grant declares no guest root"));
    }
    if text::blank(host_root) {
        return Err(text::own("refusing transfer: the grant declares no host root"));
    }
    match paths::resolve_within(guest_root, guest_path) {
        Err(e) => Err(e),
        Ok(resolved_guest) => Ok(
            TransferPlan {
                direction,
                guest_path: resolved_guest,
                host_path: text::own(host_path),
                overwrite: false,
            },
        ),
    }
}

// ---------------------------------------------------------------------------
// Moving bytes
// ---------------------------------------------------------------------------

/// Files by path.
pub type Files = Map<Seq<char>, Seq<u8>>;

/// One of the two sides of a transfer.
pub enum Side {
    Host,
    Guest,
}

/// One call of an operation: what it was asked, and what it answered.
pub enum Call {
    /// Whether a file is at a path.
    Exists { side: Side, path: Seq<char>, answer: Result<bool, Seq<char>> },
    /// The whole file at a path.
    Read { side: Side, path: Seq<char>, answer: Result<Seq<u8>, Seq<char>> },
    /// A whole file to a path.
    Write { side: Side, path: Seq<char>, data: Seq<u8>, answer: Result<(), Seq<char>> },
}

/// The bytes or the message of an answer.
pub open spec fn data_view(r: Result<Vec<u8>, String>) -> Result<Seq<u8>, Seq<char>> {
    match r {
        Ok(data) => Ok(data@),
        Err(e) => Err(e@),
    }
}

/// The value or the message of an answer.
pub open spec fn plain_view<T>(r: Result<T, String>) -> Result<T, Seq<char>> {
    match r {
        Ok(value) => Ok(value),
        Err(e) => Err(e@),
    }
}

/// Nothing but the record of calls changed, which has one more.
pub open spec fn only_called<I: TransferIo>(before: I, after: I, call: Call) -> bool {
    &&& after.calls() == before.calls().push(call)
    &&& after.host_files() == before.host_files()
    &&& after.guest_files() == before.guest_files()
    &&& after.reliable() == before.reliable()
}

/// Moves bytes. Implemented per platform.
///
/// The files on each side are what an implementation works on; `reliable` says that nothing but
/// those files decides how an operation ends, which holds of files kept in memory and not of a
/// disk. Every call leaves its mark in `calls`.
pub trait TransferIo: Sized {
    /// The files on the host side.
    spec fn host_files(&self) -> Files;

    /// The files on the guest side.
    spec fn guest_files(&self) -> Files;

    /// No operation fails for a reason that the files do not show.
    spec fn reliable(&self) -> bool;

    /// The calls made so far, in order.
    spec fn calls(&self) -> Seq<Call>;

    /// Read the whole host-side file.
    fn read_host(&mut self, path: &str) -> (r: Result<Vec<u8>, String>)
        ensures
            final(self).calls() == old(self).calls().push(
                (Call::Read { side: Side::Host, path: path@, answer: data_view(r) }),
            ),
            final(self).host_files() == old(self).host_files(),
            final(self).guest_files() == old(self).guest_files(),
            final(self).reliable() == old(self).reliable(),
            r matches Ok(data) ==> old(self).host_files().contains_key(path@) && data@
                == old(self).host_files()[path@],
            old(self).reliable() && old(self).host_files().contains_key(path@) ==> r is Ok,
    ;

    /// Write the whole host-side file.
    fn write_host(&mut self, path: &str, data: &[u8]) -> (r: Result<(), String>)
        ensures
            final(self).calls() == old(self).calls().push(
                (Call::Write { side: Side::Host, path: path@, data: data@, answer: plain_view(r) }),
            ),
            final(self).reliable() == old(self).reliable(),
            final(self).guest_files() == old(self).guest_files(),
            final(self).host_files().remove(path@) == old(self).host_files().remove(path@),
            r is Ok ==> final(self).host_files() == old(self).host_files().insert(path@, data@),
            old(self).reliable() ==> r is Ok,
    ;

    /// Read a guest-side file.
    fn read_guest(&mut self, path: &str) -> (r: Result<Vec<u8>, String>)
        ensures
            final(self).calls() == old(self).calls().push(
                (Call::Read { side: Side::Guest, path: path@, answer: data_view(r) }),
            ),
            final(self).host_files() == old(self).host_files(),
            final(self).guest_files() == old(self).guest_files(),
            final(self).reliable() == old(self).reliable(),
            r matches Ok(data) ==> old(self).guest_files().contains_key(path@) && data@
                == old(self).guest_files()[path@],
            old(self).reliable() && old(self).guest_files().contains_key(path@) ==> r is Ok,
    ;

    /// Write a guest-side file.
    fn write_guest(&mut self, path: &str, data: &[u8]) -> (r: Result<(), String>)
        ensures
            final(self).calls() == old(self).calls().push(
                (Call::Write { side: Side::Guest, path: path@, data: data@, answer: plain_view(r) }),
            ),
            final(self).reliable() == old(self).reliable(),
            final(self).host_files() == old(self).host_files(),
            final(self).guest_files().remove(path@) == old(self).guest_files().remove(path@),
            r is Ok ==> final(self).guest_files() == old(self).guest_files().insert(path@, data@),
            old(self).reliable() ==> r is Ok,
    ;

    /// Does a file exist at this guest path?
    fn guest_exists(&mut self, path: &str) -> (r: Result<bool, String>)
        ensures
            final(self).calls() == old(self).calls().push(
                (Call::Exists { side: Side::Guest, path: path@, answer: plain_view(r) }),
            ),
            final(self).host_files() == old(self).host_files(),
            final(self).guest_files() == old(self).guest_files(),
            final(self).reliable() == old(self).reliable(),
            r matches Ok(there) ==> there == old(self).guest_files().contains_key(path@),
            old(self).reliable() ==> r is Ok,
    ;

    /// Does a file exist at this host path?
    fn host_exists(&mut self, path: &str) -> (r: Result<bool, String>)
        ensures
            final(self).calls() == old(self).calls().push(
                (Call::Exists { side: Side::Host, path: path@, answer: plain_view(r) }),
            ),
            final(self).host_files() == old(self).host_files(),
            final(self).guest_files() == old(self).guest_files(),
            final(self).reliable() == old(self).reliable(),
            r matches Ok(there) ==> there == old(self).host_files().contains_key(path@),
            old(self).reliable() ==> r is Ok,
    ;
}

/// Why a transfer was refused, as a value rather than a string.
#[derive(Debug, PartialEq, Eq)]
pub enum Refusal {
    /// The destination exists and overwrite was not requested.
    WouldOverwrite { side: &'static str, path: String },
}

impl Refusal {
    /// The message that describes a refusal.
    pub open spec fn message(self) -> Seq<char> {
        match self {
            Refusal::WouldOverwrite { side, path } => {
                "refusing to overwrite an existing file on the "@ + side@ + " side: "@ + path@
            },
        }
    }

    /// Describes the refusal in words.
    pub fn to_string(&self) -> (r: String)
        ensures
            r@ == self.message(),
    {
        match self {
            Refusal::WouldOverwrite { side, path } => text::cat4(
                "refusing to overwrite an existing file on the ",
                side,
                " side: ",
                path.as_str(),
            ),
        }
    }
}

/// Why a transfer did not happen.
#[derive(Debug, PartialEq, Eq)]
pub enum TransferError {
    /// It was refused before anything was read or written.
    Refused(Refusal),
    /// Reading or writing failed.
    Failed(String),
}

impl TransferError {
    /// The message that describes the error.
    pub open spec fn message(self) -> Seq<char> {
        match self {
            TransferError::Refused(refusal) => refusal.message(),
            TransferError::Failed(e) => e@,
        }
    }

    /// Describes the error in words.
    pub fn to_string(&self) -> (r: String)
        ensures
            r@ == self.message(),
    {
        match self {
            TransferError::Refused(refusal) => refusal.to_string(),
            TransferError::Failed(e) => text::own(e.as_str()),
        }
    }

    /// The refusal, when that is what it is.
    pub fn refusal(&self) -> (r: Option<&Refusal>)
        ensures
            match self {
                TransferError::Refused(refusal) => r == Some(refusal),
                TransferError::Failed(_) => r is None,
            },
    {
        match self {
            TransferError::Refused(refusal) => Some(refusal),
            TransferError::Failed(_) => None,
        }
    }
}

impl TransferPlan {
    /// The side the bytes are read from, as files by path.
    pub open spec fn source_files<I: TransferIo>(self, io: I) -> Files {
        match self.direction {
            Direction::HostToGuest => io.host_files(),
            Direction::GuestToHost => io.guest_files(),
        }
    }

    /// The side the bytes are written to, as files by path.
    pub open spec fn target_files<I: TransferIo>(self, io: I) -> Files {
        match self.direction {
            Direction::HostToGuest => io.guest_files(),
            Direction::GuestToHost => io.host_files(),
        }
    }

    /// The path the bytes are read from.
    pub open spec fn source(self) -> Seq<char> {
        match self.direction {
            Direction::HostToGuest => self.host_path@,
            Direction::GuestToHost => self.guest_path@,
        }
    }

    /// The path the bytes are written to.
    pub open spec fn target(self) -> Seq<char> {
        match self.direction {
            Direction::HostToGuest => self.guest_path@,
            Direction::GuestToHost => self.host_path@,
        }
    }

    /// The name of the side that is written to.
    pub open spec fn target_side(self) -> Seq<char> {
        match self.direction {
            Direction::HostToGuest => "guest"@,
            Direction::GuestToHost => "host"@,
        }
    }

    /// The side that is read from.
    pub open spec fn source_at(self) -> Side {
        match self.direction {
            Direction::HostToGuest => Side::Host,
            Direction::GuestToHost => Side::Guest,
        }
    }

    /// The side that is written to.
    pub open spec fn target_at(self) -> Side {
        match self.direction {
            Direction::HostToGuest => Side::Guest,
            Direction::GuestToHost => Side::Host,
        }
    }

    /// The calls of a run of the plan, given what each would answer: whether the destination is
    /// taken, then one read, then one write of exactly what was read. The first that fails, and a
    /// destination that may not be replaced, ends it.
    pub open spec fn run(
        self,
        taken: Result<bool, Seq<char>>,
        read: Result<Seq<u8>, Seq<char>>,
        written: Result<(), Seq<char>>,
    ) -> Seq<Call> {
        let look = Call::Exists { side: self.target_at(), path: self.target(), answer: taken };
        let fetch = Call::Read { side: self.source_at(), path: self.source(), answer: read };
        if taken is Err || (taken == Ok::<bool, Seq<char>>(true) && !self.overwrite) {
            seq![look]
        } else {
            match read {
                Err(_) => seq![look, fetch],
                Ok(data) => seq![
                    look,
                    fetch,
                    Call::Write {
                        side: self.target_at(),
                        path: self.target(),
                        data,
                        answer: written,
                    },
                ],
            }
        }
    }

    /// How such a run ends: with the error of the call that failed, as it came, or with the refusal,
    /// or with the number of bytes.
    pub open spec fn ends(
        self,
        r: Result<u64, TransferError>,
        taken: Result<bool, Seq<char>>,
        read: Result<Seq<u8>, Seq<char>>,
        written: Result<(), Seq<char>>,
    ) -> bool {
        match taken {
            Err(why) => r matches Err(TransferError::Failed(e)) && e@ == why,
            Ok(there) => if there && !self.overwrite {
                r matches Err(TransferError::Refused(Refusal::WouldOverwrite { side, path }))
                    && side@ == self.target_side() && path@ == self.target()
            } else {
                match (read, written) {
                    (Err(why), _) => r matches Err(TransferError::Failed(e)) && e@ == why,
                    (Ok(_), Err(why)) => r matches Err(TransferError::Failed(e)) && e@ == why,
                    (Ok(data), Ok(())) => r matches Ok(n) && n == data.len(),
                }
            },
        }
    }

    /// The calls that were made are those of a run that ends so, and nothing is written unless all
    /// was read.
    pub open spec fn is_run<I: TransferIo>(
        self,
        before: I,
        after: I,
        r: Result<u64, TransferError>,
        taken: Result<bool, Seq<char>>,
        read: Result<Seq<u8>, Seq<char>>,
        written: Result<(), Seq<char>>,
    ) -> bool {
        &&& after.calls() == before.calls() + self.run(taken, read, written)
        &&& self.ends(r, taken, read, written)
        &&& self.run(taken, read, written).len() < 3 ==> untouched(before, after)
    }

    /// Something is at the destination and the plan does not say to replace it.
    pub open spec fn would_overwrite<I: TransferIo>(self, io: I) -> bool {
        self.target_files(io).contains_key(self.target()) && !self.overwrite
    }
}

/// Neither side's files changed.
pub open spec fn untouched<I: TransferIo>(before: I, after: I) -> bool {
    after.host_files() == before.host_files() && after.guest_files() == before.guest_files()
}

/// Execute a planned transfer against any implementation.
///
/// The overwrite check happens before any bytes are read, so a refusal leaves everything as it was.
pub fn execute<I: TransferIo>(io: &mut I, plan: &TransferPlan) -> (r: Result<u64, TransferError>)
    ensures
        match r {
            Ok(bytes) => {
                &&& !plan.would_overwrite(*old(io))
                &&& plan.source_files(*old(io)).contains_key(plan.source())
                &&& bytes == plan.source_files(*old(io))[plan.source()].len()
                &&& plan.source_files(*final(io)) == plan.source_files(*old(io))
                &&& plan.target_files(*final(io)) == plan.target_files(*old(io)).insert(
                    plan.target(),
                    plan.source_files(*old(io))[plan.source()],
                )
            },
            Err(TransferError::Refused(Refusal::WouldOverwrite { side, path })) => {
                &&& plan.would_overwrite(*old(io))
                &&& side@ == plan.target_side()
                &&& path@ == plan.target()
                &&& untouched(*old(io), *final(io))
            },
            Err(TransferError::Failed(_)) => {
                &&& plan.source_files(*final(io)) == plan.source_files(*old(io))
                &&& plan.target_files(*final(io)).remove(plan.target()) == plan.target_files(
                    *old(io),
                ).remove(plan.target())
            },
        },
        plan.would_overwrite(*old(io)) ==> r is Err && untouched(*old(io), *final(io)),
        !plan.source_files(*old(io)).contains_key(plan.source()) ==> r is Err && untouched(
            *old(io),
            *final(io),
        ),
        old(io).reliable() ==> {
            &&& plan.would_overwrite(*old(io)) <==> (r matches Err(TransferError::Refused(_)))
            &&& r is Ok <==> !plan.would_overwrite(*old(io)) && plan.source_files(
                *old(io),
            ).contains_key(plan.source())
        },
        final(io).reliable() == old(io).reliable(),
        exists|
            taken: Result<bool, Seq<char>>,
            read: Result<Seq<u8>, Seq<char>>,
            written: Result<(), Seq<char>>,
        | #[trigger]
            plan.is_run(*old(io), *final(io), r, taken, read, written),
{
    let ghost before = *io;
    let ghost nothing: Result<Seq<u8>, Seq<char>> = Ok(Seq::empty());
    let ghost none: Result<(), Seq<char>> = Ok(());
    let exists: bool = match look(io, plan) {
        Err(e) => {
            let r: Result<u64, TransferError> = Err(TransferError::Failed(e));
            proof {
                assert(before.calls() + plan.run(Err(e@), nothing, none) == io.calls());
                assert(plan.is_run(before, *io, r, Err(e@), nothing, none));
            }
            return r;
        },
        Ok(exists) => exists,
    };
    if exists && !plan.overwrite {
        let r: Result<u64, TransferError> = Err(TransferError::Refused(overwriting(plan)));
        proof {
            assert(before.calls() + plan.run(Ok(exists), nothing, none) == io.calls());
            assert(plan.is_run(before, *io, r, Ok(exists), nothing, none));
        }
        return r;
    }
    let data: Vec<u8> = match fetch(io, plan) {
        Err(e) => {
            let r: Result<u64, TransferError> = Err(TransferError::Failed(e));
            proof {
                assert(before.calls() + plan.run(Ok(exists), Err(e@), none) == io.calls());
                assert(plan.is_run(before, *io, r, Ok(exists), Err(e@), none));
            }
            return r;
        },
        Ok(data) => data,
    };
    let stored: Result<(), String> = store(io, plan, data.as_slice());
    let ghost read: Result<Seq<u8>, Seq<char>> = Ok(data@);
    assert(before.calls() + plan.run(Ok(exists), read, plain_view(stored)) == io.calls());
    match stored {
        Err(e) => {
            let r: Result<u64, TransferError> = Err(TransferError::Failed(e));
            proof {
                assert(plan.is_run(before, *io, r, Ok(exists), read, Err(e@)));
            }
            r
        },
        Ok(()) => {
            let r: Result<u64, TransferError> = Ok(data.len() as u64);
            proof {
                assert(plan.is_run(before, *io, r, Ok(exists), read, none));
            }
            r
        },
    }
}

/// Whether something is at the destination.
fn look<I: TransferIo>(io: &mut I, plan: &TransferPlan) -> (r: Result<bool, String>)
    ensures
        only_called(
            *old(io),
            *final(io),
            (Call::Exists { side: plan.target_at(), path: plan.target(), answer: plain_view(r) }),
        ),
        r matches Ok(there) ==> there == plan.target_files(*old(io)).contains_key(plan.target()),
        old(io).reliable() ==> r is Ok,
{
    match plan.direction {
        Direction::HostToGuest => io.guest_exists(plan.guest_path.as_str()),
        Direction::GuestToHost => io.host_exists(plan.host_path.as_str()),
    }
}

/// The refusal to replace what is at the destination.
fn overwriting(plan: &TransferPlan) -> (r: Refusal)
    ensures
        r matches Refusal::WouldOverwrite { side, path } && side@ == plan.target_side() && path@
            == plan.target(),
{
    match plan.direction {
        Direction::HostToGuest => Refusal::WouldOverwrite {
            side: "guest",
            path: plan.guest_path.clone(),
        },
        Direction::GuestToHost => Refusal::WouldOverwrite {
            side: "host",
            path: plan.host_path.clone(),
        },
    }
}

/// The whole file at the source.
fn fetch<I: TransferIo>(io: &mut I, plan: &TransferPlan) -> (r: Result<Vec<u8>, String>)
    ensures
        only_called(
            *old(io),
            *final(io),
            (Call::Read { side: plan.source_at(), path: plan.source(), answer: data_view(r) }),
        ),
        r matches Ok(data) ==> plan.source_files(*old(io)).contains_key(plan.source()) && data@
            == plan.source_files(*old(io))[plan.source()],
        old(io).reliable() && plan.source_files(*old(io)).contains_key(plan.source()) ==> r is Ok,
{
    match plan.direction {
        Direction::HostToGuest => io.read_host(plan.host_path.as_str()),
        Direction::GuestToHost => io.read_guest(plan.guest_path.as_str()),
    }
}

/// A whole file to the destination.
fn store<I: TransferIo>(io: &mut I, plan: &TransferPlan, data: &[u8]) -> (r: Result<(), String>)
    ensures
        final(io).calls() == old(io).calls().push(
            (Call::Write {
                side: plan.target_at(),
                path: plan.target(),
                data: data@,
                answer: plain_view(r),
            }),
        ),
        final(io).reliable() == old(io).reliable(),
        plan.source_files(*final(io)) == plan.source_files(*old(io)),
        plan.target_files(*final(io)).remove(plan.target()) == plan.target_files(*old(io)).remove(
            plan.target(),
        ),
        r is Ok ==> plan.target_files(*final(io)) == plan.target_files(*old(io)).insert(
            plan.target(),
            data@,
        ),
        old(io).reliable() ==> r is Ok,
{
    match plan.direction {
        Direction::HostToGuest => io.write_guest(plan.guest_path.as_str(), data),
        Direction::GuestToHost => io.write_host(plan.host_path.as_str(), data),
    }
}

// ---------------------------------------------------------------------------
// Files in memory
// ---------------------------------------------------------------------------

/// The files that a list of writes leaves: of two writes to one path the later one counts.
pub open spec fn files_of(writes: Seq<(String, Vec<u8>)>) -> Files
    decreases writes.len(),
{
    if writes.len() == 0 {
        Map::empty()
    } else {
        files_of(writes.drop_last()).insert(writes.last().0@, writes.last().1@)
    }
}

fn find(writes: &Vec<(String, Vec<u8>)>, path: &str) -> (r: Option<Vec<u8>>)
    ensures
        match r {
            Some(data) => files_of(writes@).contains_key(path@) && data@ == files_of(
                writes@,
            )[path@],
            None => !files_of(writes@).contains_key(path@),
        },
{
    let mut i: usize = writes.len();
    assert(writes@.take(writes@.len() as int) == writes@);
    while i > 0
        invariant
            i <= writes.len(),
            files_of(writes@).contains_key(path@) == files_of(writes@.take(i as int)).contains_key(
                path@,
            ),
            files_of(writes@).contains_key(path@) ==> files_of(writes@)[path@] == files_of(
                writes@.take(i as int),
            )[path@],
        decreases i,
    {
        let entry: &(String, Vec<u8>) = &writes[i - 1];
        proof {
            assert(writes@.take(i as int).drop_last() == writes@.take(i - 1));
            assert(writes@.take(i as int).last() == *entry);
        }
        if text::same(entry.0.as_str(), path) {
            return Some(slice_to_vec(entry.1.as_slice()));
        }
        i -= 1;
    }
    None
}

/// A [`TransferIo`] over files kept in memory, for dry runs.
pub struct MemoryIo {
    host: Vec<(String, Vec<u8>)>,
    guest: Vec<(String, Vec<u8>)>,
    made: Ghost<Seq<Call>>,
}

fn added(writes: &mut Vec<(String, Vec<u8>)>, path: &str, data: &[u8])
    ensures
        files_of(final(writes)@) == files_of(old(writes)@).insert(path@, data@),
{
    let entry: (String, Vec<u8>) = (text::own(path), slice_to_vec(data));
    let ghost before = writes@;
    writes.push(entry);
    assert(writes@.drop_last() == before);
}

impl MemoryIo {
    /// No file on either side.
    pub fn new() -> (r: MemoryIo)
        ensures
            r.host_files() == Map::<Seq<char>, Seq<u8>>::empty(),
            r.guest_files() == Map::<Seq<char>, Seq<u8>>::empty(),
    {
        MemoryIo { host: Vec::new(), guest: Vec::new(), made: Ghost(Seq::empty()) }
    }

    /// The same with one more host-side file.
    pub fn with_host_file(self, path: &str, data: &[u8]) -> (r: MemoryIo)
        ensures
            r.host_files() == self.host_files().insert(path@, data@),
            r.guest_files() == self.guest_files(),
    {
        let mut io = self;
        added(&mut io.host, path, data);
        io
    }

    /// The same with one more guest-side file.
    pub fn with_guest_file(self, path: &str, data: &[u8]) -> (r: MemoryIo)
        ensures
            r.guest_files() == self.guest_files().insert(path@, data@),
            r.host_files() == self.host_files(),
    {
        let mut io = self;
        added(&mut io.guest, path, data);
        io
    }

    /// Read back a guest-side file.
    pub fn guest_contents(&self, path: &str) -> (r: Option<Vec<u8>>)
        ensures
            match r {
                Some(data) => self.guest_files().contains_key(path@) && data@
                    == self.guest_files()[path@],
                None => !self.guest_files().contains_key(path@),
            },
    {
        find(&self.guest, path)
    }

    /// Read back a host-side file.
    pub fn host_contents(&self, path: &str) -> (r: Option<Vec<u8>>)
        ensures
            match r {
                Some(data) => self.host_files().contains_key(path@) && data@
                    == self.host_files()[path@],
                None => !self.host_files().contains_key(path@),
            },
    {
        find(&self.host, path)
    }
}

impl TransferIo for MemoryIo {
    closed spec fn host_files(&self) -> Files {
        files_of(self.host@)
    }

    closed spec fn guest_files(&self) -> Files {
        files_of(self.guest@)
    }

    open spec fn reliable(&self) -> bool {
        true
    }

    closed spec fn calls(&self) -> Seq<Call> {
        self.made@
    }

    fn read_host(&mut self, path: &str) -> (r: Result<Vec<u8>, String>)
        ensures
            r matches Err(e) ==> e@ == "no such host file: "@ + path@,
    {
        let r: Result<Vec<u8>, String> = match find(&self.host, path) {
            Some(data) => Ok(data),
            None => Err(text::cat2("no such host file: ", path)),
        };
        let ghost call = Call::Read { side: Side::Host, path: path@, answer: data_view(r) };
        self.made = Ghost(self.made@.push(call));
        r
    }

    fn write_host(&mut self, path: &str, data: &[u8]) -> (r: Result<(), String>) {
        added(&mut self.host, path, data);
        let r: Result<(), String> = Ok(());
        let ghost call = Call::Write {
            side: Side::Host,
            path: path@,
            data: data@,
            answer: plain_view(r),
        };
        self.made = Ghost(self.made@.push(call));
        assert(self.host_files().remove(path@) =~= old(self).host_files().remove(path@));
        r
    }

    fn read_guest(&mut self, path: &str) -> (r: Result<Vec<u8>, String>)
        ensures
            r matches Err(e) ==> e@ == "no such guest file: "@ + path@,
    {
        let r: Result<Vec<u8>, String> = match find(&self.guest, path) {
            Some(data) => Ok(data),
            None => Err(text::cat2("no such guest file: ", path)),
        };
        let ghost call = Call::Read { side: Side::Guest, path: path@, answer: data_view(r) };
        self.made = Ghost(self.made@.push(call));
        r
    }

    fn write_guest(&mut self, path: &str, data: &[u8]) -> (r: Result<(), String>) {
        added(&mut self.guest, path, data);
        let r: Result<(), String> = Ok(());
        let ghost call = Call::Write {
            side: Side::Guest,
            path: path@,
            data: data@,
            answer: plain_view(r),
        };
        self.made = Ghost(self.made@.push(call));
        assert(self.guest_files().remove(path@) =~= old(self).guest_files().remove(path@));
        r
    }

    fn guest_exists(&mut self, path: &str) -> (r: Result<bool, String>) {
        let r: Result<bool, String> = Ok(find(&self.guest, path).is_some());
        let ghost call = Call::Exists { side: Side::Guest, path: path@, answer: plain_view(r) };
        self.made = Ghost(self.made@.push(call));
        r
    }

    fn host_exists(&mut self, path: &str) -> (r: Result<bool, String>) {
        let r: Result<bool, String> = Ok(find(&self.host, path).is_some());
        let ghost call = Call::Exists { side: Side::Host, path: path@, answer: plain_view(r) };
        self.made = Ghost(self.made@.push(call));
        r
    }
}

/// A push reads the host's path on the host and writes the guest's path on the guest. A pull goes the
/// other way.
pub proof fn files_go_the_way_they_are_sent<I: TransferIo>(plan: TransferPlan, io: I)
    ensures
        plan.direction is HostToGuest ==> {
            &&& plan.source() == plan.host_path@
            &&& plan.target() == plan.guest_path@
            &&& plan.source_at() is Host
            &&& plan.target_at() is Guest
            &&& plan.target_side() == "guest"@
            &&& plan.source_files(io) == io.host_files()
            &&& plan.target_files(io) == io.guest_files()
            &&& plan.line() == plan.host_path@ + " "@ + "->"@ + " "@ + plan.guest_path@
        },
        plan.direction is GuestToHost ==> {
            &&& plan.source() == plan.guest_path@
            &&& plan.target() == plan.host_path@
            &&& plan.source_at() is Guest
            &&& plan.target_at() is Host
            &&& plan.target_side() == "host"@
            &&& plan.source_files(io) == io.guest_files()
            &&& plan.target_files(io) == io.host_files()
            &&& plan.line() == plan.host_path@ + " "@ + "<-"@ + " "@ + plan.guest_path@
        },
        plan.would_overwrite(io) <==> plan.target_files(io).contains_key(plan.target())
            && !plan.overwrite,
{
}

/// Nothing is written unless the target was looked at first and either was not there or may be
/// written over. What is written is what was read, to the target, and it is the last thing done.
pub proof fn writes_follow_a_look(
    plan: TransferPlan,
    taken: Result<bool, Seq<char>>,
    read: Result<Seq<u8>, Seq<char>>,
    written: Result<(), Seq<char>>,
)
    ensures
        ({
            let calls = plan.run(taken, read, written);
            &&& calls.len() >= 1
            &&& calls[0] matches Call::Exists { side, path, answer } && side == plan.target_at()
                && path == plan.target()
            &&& forall|i: int|
                0 <= i < calls.len() && #[trigger] calls[i] is Write ==> {
                    &&& i == 2
                    &&& taken is Ok
                    &&& taken->Ok_0 ==> plan.overwrite
                    &&& read is Ok
                    &&& calls[i] matches Call::Write { side, path, data, answer } && side
                        == plan.target_at() && path == plan.target() && data == read->Ok_0
                }
            &&& calls.len() == 3 <==> taken is Ok && (taken->Ok_0 ==> plan.overwrite) && read is Ok
            &&& calls.len() >= 2 ==> (calls[1] matches Call::Read { side, path, answer } && side
                == plan.source_at() && path == plan.source())
        }),
{
}

/// A transfer ends well exactly where the look, the read and the write did and nothing would have
/// been written over, and then with as many bytes as were read. It is refused exactly where something
/// would have been, and the refusal names the side and the path.
pub proof fn transfers_end_as_their_parts_did(
    plan: TransferPlan,
    r: Result<u64, TransferError>,
    taken: Result<bool, Seq<char>>,
    read: Result<Seq<u8>, Seq<char>>,
    written: Result<(), Seq<char>>,
)
    requires
        plan.ends(r, taken, read, written),
    ensures
        r is Ok <==> taken is Ok && (taken->Ok_0 ==> plan.overwrite) && read is Ok && written is Ok,
        r matches Ok(n) ==> n == read->Ok_0.len(),
        r matches Err(TransferError::Refused(Refusal::WouldOverwrite { side, path })) ==> {
            &&& taken == Ok::<bool, Seq<char>>(true)
            &&& !plan.overwrite
            &&& side@ == plan.target_side()
            &&& path@ == plan.target()
        },
        taken == Ok::<bool, Seq<char>>(true) && !plan.overwrite ==> r is Err
            && r->Err_0 is Refused,
{
}

/// A transfer is planned exactly where both sides have a root, and the path may be resolved below the
/// guest's.
pub proof fn plans_need_both_roots(
    guest_root: Seq<char>,
    host_root: Seq<char>,
    guest_path: Seq<char>,
)
    ensures
        plan_refusal(guest_root, host_root, guest_path) is None <==> {
            &&& !text::is_blank(guest_root)
            &&& !text::is_blank(host_root)
            &&& !text::is_blank(guest_path)
            &&& paths::within(guest_root, guest_path)
        },
        text::is_blank(guest_root) ==> plan_refusal(guest_root, host_root, guest_path) == Some(
            "refusing transfer: the grant declares no guest root"@,
        ),
        !text::is_blank(guest_root) && text::is_blank(host_root) ==> plan_refusal(
            guest_root,
            host_root,
            guest_path,
        ) == Some("refusing transfer: the grant declares no host root"@),
{
}

} // verus!
