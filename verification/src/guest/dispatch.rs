//! Request dispatch inside the guest.
//!
//! The guest is a dumb executor: it does what the request says and reports what happened. It does
//! not decide whether an action is allowed; the host already did that.
//!
//! A request is first turned into an [`Order`]: either a reply that needs nothing else, or a piece
//! of work for the platform. What the platform reports is then turned into a reply. An operation
//! that is not there says so, and is never reported as a success.
use crate::base64;
use crate::guest::capture;
use crate::guest::fsio;
use crate::guest::transfer;
use crate::guest::win32;
use crate::ipc;
use crate::ipc::{Payload, Request, Response};
use crate::text;
use vstd::prelude::*;
use vstd::string::*;

verus! {

/// A response is an error with this message.
pub open spec fn is_error(r: Response, message: Seq<char>) -> bool {
    r matches Response::Error { message: m } && m@ == message
}

fn error(message: String) -> (r: Response)
    ensures
        is_error(r, message@),
{
    Response::Error { message }
}

// ---------------------------------------------------------------------------
// Orders
// ---------------------------------------------------------------------------

/// What has to be done about a request.
#[derive(Debug)]
pub enum Order {
    /// Nothing but to send this reply.
    Reply(Response),
    /// Run a program and capture its output.
    Run { program: String, args: Vec<String>, cwd: Option<String>, timeout_ms: u64 },
    /// Capture the screen.
    Capture { monitor: u8 },
    /// Open a file for a transfer: the destination of a push, or the source of a pull.
    Open(transfer::TransferPlan),
    /// Write one chunk of the push in progress.
    WriteChunk { offset: u64, data: Vec<u8>, eof: bool },
    /// Read one chunk of the file being served.
    ReadChunk { offset: u64, length: u64 },
}

/// The description of the guest that a handshake and an inventory carry.
pub open spec fn description(windows: bool) -> Seq<char> {
    if windows {
        "Windows (wvm-guest 0.1.0)"@
    } else {
        "non-Windows host build (wvm-guest 0.1.0) — platform layer absent"@
    }
}

/// Describe the guest OS, as a build for Windows or for another system.
pub fn describe(windows: bool) -> (r: String)
    ensures
        r@ == description(windows),
{
    if windows {
        text::own("Windows (wvm-guest 0.1.0)")
    } else {
        text::own("non-Windows host build (wvm-guest 0.1.0) — platform layer absent")
    }
}

/// Describe the guest OS in a build without the platform layer.
pub fn guest_description() -> (r: String)
    ensures
        r@ == description(false),
{
    describe(false)
}

/// What a handshake with another protocol version is refused with.
pub open spec fn version_mismatch(version: u16) -> Seq<char> {
    "protocol mismatch: guest speaks "@ + text::decimal(ipc::PROTOCOL_VERSION as nat)
        + ", host speaks "@ + text::decimal(version as nat)
}

/// What an operation that this build does not have is answered with.
pub open spec fn missing(op: Seq<char>) -> Seq<char> {
    op + ": not implemented in this build"@
}

/// What a display request is answered with: the display belongs to the host.
pub open spec fn display_refusal(action: ipc::DisplayAction) -> Seq<char> {
    "display: the guest cannot see its own hypervisor; use 'wvm vm display "@ + action.name()
        + "' on the host"@
}

/// A reply is what a handshake at `version` gets.
pub open spec fn is_greeting(r: Response, version: u16, windows: bool) -> bool {
    if version != ipc::PROTOCOL_VERSION {
        is_error(r, version_mismatch(version))
    } else {
        r matches Response::Ready { protocol_version, guest } && protocol_version
            == ipc::PROTOCOL_VERSION && guest@ == description(windows)
    }
}

/// A reply is an inventory that claims nothing that was not looked up.
pub open spec fn is_bare_inventory(r: Response, windows: bool) -> bool {
    r matches Response::Success { payload: Payload::Inventory { os, drives, apps } } && os@
        == description(windows) && drives@.len() == 0 && apps@.len() == 0
}

/// The time a program gets when the caller does not say: the default.
pub open spec fn effective_timeout(timeout_ms: Option<u64>) -> u64 {
    match timeout_ms {
        Some(ms) => ms,
        None => win32::DEFAULT_TIMEOUT_MS,
    }
}

/// The host path of a transfer, empty where there is none.
pub open spec fn host_path_of(host_path: Option<String>) -> Seq<char> {
    match host_path {
        Some(p) => p@,
        None => Seq::empty(),
    }
}

/// An order is the right one for a request.
pub open spec fn is_order(o: Order, request: Request, roots: fsio::Roots, windows: bool) -> bool {
    match request {
        Request::Hello { protocol_version, client } => o matches Order::Reply(r) && is_greeting(
            r,
            protocol_version,
            windows,
        ),
        Request::Inspect => o matches Order::Reply(r) && is_bare_inventory(r, windows),
        Request::Exec { program, args, cwd, require_allowlist, timeout_ms } => o matches Order::Run {
            program: p,
            args: a,
            cwd: c,
            timeout_ms: t,
        } && p@ == program@ && text::views(a@) == text::views(args@) && text::opt_view(c)
            == text::opt_view(cwd) && t == effective_timeout(timeout_ms),
        Request::Capture { monitor } => o == (Order::Capture { monitor }),
        Request::Input { event } => o matches Order::Reply(r) && is_error(r, missing("input"@)),
        Request::Transfer { direction, host_path, guest_path, overwrite } => {
            match transfer::plan_refusal(roots.guest@, roots.host@, guest_path@) {
                Some(why) => o matches Order::Reply(r) && is_error(r, "transfer: "@ + why),
                None => o matches Order::Open(plan) && plan.direction == fsio::internal_direction(
                    direction,
                ) && plan.guest_path@ == text::replaced(guest_path@, '/', '\\')
                    && plan.host_path@ == host_path_of(host_path) && plan.overwrite == overwrite,
            }
        },
        Request::TransferChunk { offset, data_base64, eof } => {
            match base64::strictly_decoded(vstd::utf8::encode_utf8(data_base64@)) {
                Ok(bytes) => o matches Order::WriteChunk { offset: at, data, eof: last } && at
                    == offset && data@ == bytes && last == eof,
                Err(fault) => o matches Order::Reply(r) && is_error(
                    r,
                    "transfer_chunk: "@ + fault,
                ),
            }
        },
        Request::PullChunk { offset, length } => o == (Order::ReadChunk { offset, length }),
        Request::Lifecycle { action } => o matches Order::Reply(r) && is_error(
            r,
            missing("lifecycle"@),
        ),
        Request::Display { action } => o matches Order::Reply(r) && is_error(
            r,
            display_refusal(action),
        ),
    }
}

/// Turn a request into an order, for a guest with these staging roots.
pub fn order(request: &Request, roots: &fsio::Roots, windows: bool) -> (o: Order)
    ensures
        is_order(o, *request, *roots, windows),
{
    match request {
        Request::Hello { protocol_version, .. } => {
            if *protocol_version != ipc::PROTOCOL_VERSION {
                return Order::Reply(
                    error(
                        text::cat4(
                            "protocol mismatch: guest speaks ",
                            text::to_decimal(ipc::PROTOCOL_VERSION as u64).as_str(),
                            ", host speaks ",
                            text::to_decimal(*protocol_version as u64).as_str(),
                        ),
                    ),
                );
            }
            Order::Reply(
                Response::Ready {
                    protocol_version: ipc::PROTOCOL_VERSION,
                    guest: describe(windows),
                },
            )
        },
        Request::Inspect => Order::Reply(
            Response::Success {
                payload: Payload::Inventory {
                    os: describe(windows),
                    drives: Vec::new(),
                    apps: Vec::new(),
                },
            },
        ),
        Request::Exec { program, args, cwd, timeout_ms, .. } => {
            let timeout: u64 = match timeout_ms {
                Some(ms) => *ms,
                None => win32::DEFAULT_TIMEOUT_MS,
            };
            Order::Run {
                program: program.clone(),
                args: text::copy_strings(args),
                cwd: text::copy_opt(cwd),
                timeout_ms: timeout,
            }
        },
        Request::Capture { monitor } => Order::Capture { monitor: *monitor },
        Request::Input { .. } => Order::Reply(not_yet("input")),
        Request::Transfer { direction, host_path, guest_path, overwrite } => {
            let host: String = match host_path {
                Some(p) => p.clone(),
                None => String::new(),
            };
            match fsio::plan_from(direction, roots, guest_path.as_str(), host.as_str()) {
                Err(e) => Order::Reply(error(text::cat2("transfer: ", e.as_str()))),
                Ok(planned) => {
                    let mut plan = planned;
                    plan.overwrite = *overwrite;
                    Order::Open(plan)
                },
            }
        },
        Request::TransferChunk { offset, data_base64, eof } => {
            match base64::decode_strict(data_base64.as_str()) {
                Err(e) => Order::Reply(error(text::cat2("transfer_chunk: ", e.as_str()))),
                Ok(data) => Order::WriteChunk { offset: *offset, data, eof: *eof },
            }
        },
        Request::PullChunk { offset, length } => Order::ReadChunk {
            offset: *offset,
            length: *length,
        },
        Request::Lifecycle { .. } => Order::Reply(not_yet("lifecycle")),
        Request::Display { action } => Order::Reply(
            error(
                text::cat3(
                    "display: the guest cannot see its own hypervisor; use 'wvm vm display ",
                    action.to_string().as_str(),
                    "' on the host",
                ),
            ),
        ),
    }
}

/// An honest refusal for an operation that this build does not have.
fn not_yet(op: &str) -> (r: Response)
    ensures
        is_error(r, missing(op@)),
{
    error(text::cat2(op, ": not implemented in this build"))
}

// ---------------------------------------------------------------------------
// Replies
// ---------------------------------------------------------------------------

/// A reply is what a run that ended like this is answered with. A failure to launch is an error,
/// not a success with a code: "there is no such program" and "the program returned 1" differ.
pub open spec fn is_exec_reply(r: Response, result: Result<win32::Execution, String>) -> bool {
    match result {
        Err(e) => is_error(r, "exec: "@ + e@),
        Ok(execution) => r matches Response::Success {
            payload: Payload::ProcessOutput { outcome, code, stdout, stderr, elapsed_ms },
        } && stdout == execution.stdout && stderr == execution.stderr && elapsed_ms
            == execution.elapsed_ms && (match execution.outcome {
            win32::Outcome::Exited { code: c } => outcome@ == "exited"@ && code == c,
            win32::Outcome::TimedOut { .. } => outcome@ == "timed_out"@ && code == -1,
        }),
    }
}

/// The reply to a run.
pub fn exec_reply(result: Result<win32::Execution, String>) -> (r: Response)
    ensures
        is_exec_reply(r, result),
{
    match result {
        Err(e) => error(text::cat2("exec: ", e.as_str())),
        Ok(execution) => {
            let (outcome, code): (String, i32) = match execution.outcome {
                win32::Outcome::Exited { code } => (text::own("exited"), code),
                win32::Outcome::TimedOut { .. } => (text::own("timed_out"), -1),
            };
            Response::Success {
                payload: Payload::ProcessOutput {
                    outcome,
                    code,
                    stdout: execution.stdout,
                    stderr: execution.stderr,
                    elapsed_ms: execution.elapsed_ms,
                },
            }
        },
    }
}

/// A reply is what a capture that ended like this is answered with.
pub open spec fn is_capture_reply(r: Response, result: Result<capture::Frame, String>) -> bool {
    match result {
        Err(e) => is_error(r, "capture: "@ + e@),
        Ok(frame) => r matches Response::Success {
            payload: Payload::Frame { png_base64, width, height },
        } && png_base64@ == base64::encoding(frame.png@) && width == frame.width && height
            == frame.height,
    }
}

/// The reply to a capture.
pub fn capture_reply(result: Result<capture::Frame, String>) -> (r: Response)
    ensures
        is_capture_reply(r, result),
{
    match result {
        Err(e) => error(text::cat2("capture: ", e.as_str())),
        Ok(frame) => Response::Success {
            payload: Payload::Frame {
                png_base64: base64::encode(frame.png.as_slice()),
                width: frame.width,
                height: frame.height,
            },
        },
    }
}

/// A reply is what opening a transfer that came to this is answered with: the bytes in place for a
/// push, the size of the file for a pull.
pub open spec fn is_open_reply(
    r: Response,
    plan: transfer::TransferPlan,
    result: Result<u64, String>,
) -> bool {
    match result {
        Err(e) => is_error(r, "transfer: "@ + e@),
        Ok(bytes) => r matches Response::Success {
            payload: Payload::Transferred { bytes: n, direction, guest_path },
        } && n == bytes && direction@ == plan.direction.name() && guest_path@ == plan.guest_path@,
    }
}

/// The reply to the opening of a transfer.
pub fn open_reply(plan: &transfer::TransferPlan, result: Result<u64, String>) -> (r: Response)
    ensures
        is_open_reply(r, *plan, result),
{
    match result {
        Err(e) => error(text::cat2("transfer: ", e.as_str())),
        Ok(bytes) => Response::Success {
            payload: Payload::Transferred {
                bytes,
                direction: plan.direction.to_string(),
                guest_path: plan.guest_path.clone(),
            },
        },
    }
}

/// A reply says that a chunk was written, and how many bytes are in place.
pub open spec fn is_written(r: Response, offset: u64, bytes: u64, eof: bool, total: u64) -> bool {
    r == (Response::Success { payload: Payload::ChunkWritten { offset, bytes, total, eof } })
}

/// A reply carries a chunk that was read, of a file of `total` bytes.
pub open spec fn is_read(r: Response, offset: u64, data: Seq<u8>, eof: bool, total: u64) -> bool {
    r matches Response::Success {
        payload: Payload::ChunkRead { offset: at, data_base64, eof: last, total: size },
    } && at == offset && data_base64@ == base64::encoding(data) && last == eof && size == total
}

/// The reply to a chunk of `bytes` bytes at `offset`: the total in place, or why it was refused.
pub fn chunk_written_reply(offset: u64, bytes: u64, eof: bool, result: Result<u64, String>) -> (r:
    Response)
    ensures
        match result {
            Err(e) => is_error(r, "transfer_chunk: "@ + e@),
            Ok(total) => is_written(r, offset, bytes, eof, total),
        },
{
    match result {
        Err(e) => error(text::cat2("transfer_chunk: ", e.as_str())),
        Ok(total) => Response::Success {
            payload: Payload::ChunkWritten { offset, bytes, total, eof },
        },
    }
}

/// The reply to a request for a chunk at `offset`: its bytes, whether they reach the end and the
/// file's size, or why it was refused.
pub fn chunk_read_reply(offset: u64, result: Result<(Vec<u8>, bool, u64), String>) -> (r: Response)
    ensures
        match result {
            Err(e) => is_error(r, "pull_chunk: "@ + e@),
            Ok((data, eof, total)) => is_read(r, offset, data@, eof, total),
        },
{
    match result {
        Err(e) => error(text::cat2("pull_chunk: ", e.as_str())),
        Ok((data, eof, total)) => Response::Success {
            payload: Payload::ChunkRead {
                offset,
                data_base64: base64::encode(data.as_slice()),
                eof,
                total,
            },
        },
    }
}

/// What a transfer is refused with where there is no platform layer.
pub open spec fn transfer_absent() -> Seq<char> {
    "the filesystem layer is only present in a Windows build of wvm-guest; this binary was built for the host, where it exists to be type-checked and tested rather than run"@
}

fn transfer_unavailable() -> (r: String)
    ensures
        r@ == transfer_absent(),
{
    text::own(
        "the filesystem layer is only present in a Windows build of wvm-guest; this binary was built for the host, where it exists to be type-checked and tested rather than run",
    )
}

/// A response is the right one for a request, in a build without the platform layer: what needs the
/// platform is refused by name, and nothing that was not done is reported as done.
pub open spec fn is_answer(r: Response, request: Request, roots: fsio::Roots) -> bool {
    match request {
        Request::Hello { protocol_version, client } => is_greeting(r, protocol_version, false),
        Request::Inspect => is_bare_inventory(r, false),
        Request::Exec { .. } => is_error(r, "exec: "@ + win32::run_absent()),
        Request::Capture { .. } => is_error(r, "capture: "@ + capture::capture_absent()),
        Request::Input { .. } => is_error(r, missing("input"@)),
        Request::Transfer { direction, host_path, guest_path, overwrite } => is_error(
            r,
            "transfer: "@ + (match transfer::plan_refusal(roots.guest@, roots.host@, guest_path@) {
                Some(why) => why,
                None => transfer_absent(),
            }),
        ),
        Request::TransferChunk { offset, data_base64, eof } => is_error(
            r,
            "transfer_chunk: "@ + (match base64::strictly_decoded(
                vstd::utf8::encode_utf8(data_base64@),
            ) {
                Err(fault) => fault,
                Ok(_) => transfer_absent(),
            }),
        ),
        Request::PullChunk { .. } => is_error(r, "pull_chunk: "@ + transfer_absent()),
        Request::Lifecycle { .. } => is_error(r, missing("lifecycle"@)),
        Request::Display { action } => is_error(r, display_refusal(action)),
    }
}

/// Execute one request in a build without the platform layer.
pub fn handle(request: &Request, roots: &fsio::Roots) -> (r: Response)
    ensures
        is_answer(r, *request, *roots),
{
    match order(request, roots, false) {
        Order::Reply(reply) => reply,
        Order::Run { program, args, cwd, timeout_ms } => {
            let dir: Option<&str> = match &cwd {
                Some(d) => Some(d.as_str()),
                None => None,
            };
            exec_reply(win32::run(program.as_str(), args.as_slice(), dir, timeout_ms))
        },
        Order::Capture { monitor } => capture_reply(capture::capture(monitor)),
        Order::Open(plan) => open_reply(&plan, Err(transfer_unavailable())),
        Order::WriteChunk { offset, data, eof } => {
            chunk_written_reply(offset, data.len() as u64, eof, Err(transfer_unavailable()))
        },
        Order::ReadChunk { offset, .. } => chunk_read_reply(offset, Err(transfer_unavailable())),
    }
}

// ---------------------------------------------------------------------------
// Sessions
// ---------------------------------------------------------------------------

/// The answer to bytes that are not a request. A malformed request is answered, not ignored:
/// silence leaves the host waiting.
pub fn malformed_reply(error_text: &str) -> (r: Response)
    ensures
        is_error(r, "malformed request: "@ + error_text@),
{
    error(text::cat2("malformed request: ", error_text))
}

/// A request after which nothing more is answered: a greeting in another version.
pub open spec fn is_farewell(request: Request) -> bool {
    request matches Request::Hello { protocol_version, client } && protocol_version
        != ipc::PROTOCOL_VERSION
}

/// Whether a session is over once this request has been answered: a handshake at another protocol
/// version ends it.
pub fn ends_session(request: &Request) -> (r: bool)
    ensures
        r == (request matches Request::Hello { protocol_version, client } && protocol_version
            != ipc::PROTOCOL_VERSION),
        r == is_farewell(*request),
{
    match request {
        Request::Hello { protocol_version, .. } => *protocol_version != ipc::PROTOCOL_VERSION,
        _ => false,
    }
}

/// What is wrong with the fields of a request, if anything.
pub open spec fn fault(request: Request) -> Option<Seq<char>> {
    match request {
        Request::Exec { program, .. } => if text::is_blank(program@) {
            Some("exec: program must not be empty"@)
        } else {
            None
        },
        Request::Transfer { guest_path, .. } => if text::is_blank(guest_path@) {
            Some("transfer: guest_path must not be empty"@)
        } else {
            None
        },
        _ => None,
    }
}

/// Validate that a request is well-formed before dispatch.
pub fn validate(request: &Request) -> (r: Result<(), String>)
    ensures
        match (r, fault(*request)) {
            (Ok(()), None) => true,
            (Err(e), Some(why)) => e@ == why,
            _ => false,
        },
{
    match request {
        Request::Exec { program, .. } => if text::blank(program.as_str()) {
            Err(text::own("exec: program must not be empty"))
        } else {
            Ok(())
        },
        Request::Transfer { guest_path, .. } => if text::blank(guest_path.as_str()) {
            Err(text::own("transfer: guest_path must not be empty"))
        } else {
            Ok(())
        },
        _ => Ok(()),
    }
}

// ---------------------------------------------------------------------------
// Laws
// ---------------------------------------------------------------------------

/// Without the platform layer only a handshake and an inventory succeed: no operation that was not
/// done is reported as done.
pub proof fn nothing_undone_is_reported_done(request: Request, roots: fsio::Roots, r: Response)
    requires
        is_answer(r, request, roots),
        !(request is Hello),
        !(request is Inspect),
    ensures
        r is Error,
{
}

/// A transfer that is opened lies inside the guest's staging root; everything else is refused
/// before any file is touched.
pub proof fn opened_transfers_are_contained(
    o: Order,
    request: Request,
    roots: fsio::Roots,
    windows: bool,
)
    requires
        is_order(o, request, roots, windows),
        o is Open,
    ensures
        request matches Request::Transfer { direction, host_path, guest_path, overwrite }
            && crate::guest::paths::within(roots.guest@, guest_path@),
{
}

/// What is told of a program that ran: it is said to have exited exactly where it did so on its own,
/// and then with its own code. One that was stopped because its time was up is said to have timed
/// out, and its code is never that of a success. Its output and how long it took are told as they
/// were.
pub proof fn timeouts_are_never_told_as_exits(r: Response, execution: win32::Execution)
    requires
        is_exec_reply(r, Ok(execution)),
    ensures
        r matches Response::Success {
            payload: Payload::ProcessOutput { outcome, code, stdout, stderr, elapsed_ms },
        } && {
            &&& outcome@ == "exited"@ <==> execution.outcome is Exited
            &&& outcome@ == "timed_out"@ <==> execution.outcome is TimedOut
            &&& execution.outcome matches win32::Outcome::Exited { code: c } ==> code == c
            &&& execution.outcome is TimedOut ==> code != 0 && code == -1
            &&& stdout@ == execution.stdout@
            &&& stderr@ == execution.stderr@
            &&& elapsed_ms == execution.elapsed_ms
        },
{
    reveal_strlit("exited");
    reveal_strlit("timed_out");
    assert("exited"@.len() == 6 && "timed_out"@.len() == 9);
}

/// Two replies about programs are the same only where the programs ended alike: the reply about one
/// that was stopped is never the reply about one that exited, whatever its code, and two exits with
/// different codes have different replies.
pub proof fn endings_are_told_apart(
    r: Response,
    first: win32::Execution,
    second: win32::Execution,
)
    requires
        is_exec_reply(r, Ok(first)),
        is_exec_reply(r, Ok(second)),
    ensures
        first.outcome is TimedOut <==> second.outcome is TimedOut,
        first.outcome is Exited ==> first.outcome == second.outcome,
        first.stdout@ == second.stdout@,
        first.stderr@ == second.stderr@,
        first.elapsed_ms == second.elapsed_ms,
{
    timeouts_are_never_told_as_exits(r, first);
    timeouts_are_never_told_as_exits(r, second);
}

/// A program that could not be run at all is told as an error, which gives the reason, and never as a
/// result.
pub proof fn failures_to_run_are_errors(r: Response, e: String)
    requires
        is_exec_reply(r, Err(e)),
    ensures
        r matches Response::Error { message } && message@ == "exec: "@ + e@,
{
}

/// A program is run as it was asked for: itself, its arguments in order, the directory, and the time
/// that it was given. Only where no time was given is it ten minutes.
pub proof fn programs_run_as_asked(
    o: Order,
    request: Request,
    roots: fsio::Roots,
    windows: bool,
)
    requires
        is_order(o, request, roots, windows),
    ensures
        request matches Request::Exec { program, args, cwd, require_allowlist, timeout_ms } ==> (
        o matches Order::Run { program: p, args: a, cwd: c, timeout_ms: t } && {
            &&& p@ == program@
            &&& a@.len() == args@.len()
            &&& forall|i: int| 0 <= i < args@.len() ==> (#[trigger] a@[i])@ == args@[i]@
            &&& c is Some <==> cwd is Some
            &&& cwd matches Some(d) ==> c->Some_0@ == d@
            &&& timeout_ms matches Some(ms) ==> t == ms
            &&& timeout_ms is None ==> t == 10 * 60 * 1000
        }),
        o is Run ==> request is Exec,
{
    if let Request::Exec { program, args, cwd, require_allowlist, timeout_ms } = request {
        if let Order::Run { program: p, args: a, cwd: c, timeout_ms: t } = o {
            assert(text::views(a@).len() == text::views(args@).len());
            assert forall|i: int| 0 <= i < args@.len() implies (#[trigger] a@[i])@ == args@[i]@ by {
                assert(text::views(a@)[i] == text::views(args@)[i]);
            }
        }
    }
}

/// A session begins exactly where both sides speak the same version. Where they do not, the answer is
/// an error that names both.
pub proof fn sessions_need_one_version(
    o: Order,
    version: u16,
    client: String,
    roots: fsio::Roots,
    windows: bool,
)
    requires
        is_order(o, Request::Hello { protocol_version: version, client }, roots, windows),
    ensures
        o is Reply,
        o->Reply_0 is Ready <==> version == 1,
        version == 1 ==> (o->Reply_0 matches Response::Ready { protocol_version, guest }
            && protocol_version == version),
        version != 1 ==> (o->Reply_0 matches Response::Error { message } && message@
            == "protocol mismatch: guest speaks 1, host speaks "@ + text::decimal(version as nat)),
{
    reveal_strlit("protocol mismatch: guest speaks ");
    reveal_strlit(", host speaks ");
    reveal_strlit("protocol mismatch: guest speaks 1, host speaks ");
    assert(text::decimal(1) == seq!['1']);
    assert("protocol mismatch: guest speaks "@ + text::decimal(1) + ", host speaks "@
        =~= "protocol mismatch: guest speaks 1, host speaks "@);
}

/// What is asked of the screen, of a transfer and of its chunks is ordered as it was asked: the same
/// monitor, the same direction, the path under either separator, the same offsets, lengths and flags.
/// The bytes of a chunk are those that were written into the request.
pub proof fn transfers_are_ordered_as_asked(
    o: Order,
    request: Request,
    roots: fsio::Roots,
    windows: bool,
    data: Seq<u8>,
)
    requires
        is_order(o, request, roots, windows),
    ensures
        request matches Request::Capture { monitor } ==> (o matches Order::Capture { monitor: m }
            && m == monitor),
        request matches Request::PullChunk { offset, length } ==> (o matches Order::ReadChunk {
            offset: at,
            length: n,
        } && at == offset && n == length),
        request matches Request::TransferChunk { offset, data_base64, eof } ==> (data_base64@
            == base64::encoding(data) ==> (o matches Order::WriteChunk {
            offset: at,
            data: bytes,
            eof: last,
        } && at == offset && bytes@ == data && last == eof)),
        request matches Request::Transfer { direction, host_path, guest_path, overwrite } ==> (
        o matches Order::Open(plan) ==> {
            &&& plan.overwrite == overwrite
            &&& plan.direction is HostToGuest <==> direction is HostToGuest
            &&& plan.direction is GuestToHost <==> direction is GuestToHost
            &&& plan.guest_path@.len() == guest_path@.len()
            &&& forall|i: int|
                0 <= i < guest_path@.len() ==> #[trigger] plan.guest_path@[i] == (if guest_path@[i]
                    == '/' {
                    '\\'
                } else {
                    guest_path@[i]
                })
            &&& host_path matches Some(p) ==> plan.host_path@ == p@
            &&& host_path is None ==> plan.host_path@.len() == 0
        }),
        o is Open ==> request is Transfer,
        o is WriteChunk ==> request is TransferChunk,
        o is ReadChunk ==> request is PullChunk,
        o is Capture ==> request is Capture,
{
    base64::strict_round_trip(data);
}

/// The picture in a reply is the one that was captured: its text decodes to the very bytes, and its
/// size is the frame's.
pub proof fn captures_are_told_whole(r: Response, frame: capture::Frame)
    requires
        is_capture_reply(r, Ok(frame)),
    ensures
        r matches Response::Success { payload: Payload::Frame { png_base64, width, height } } && {
            &&& base64::strictly_decoded(vstd::utf8::encode_utf8(png_base64@)) == Ok::<
                Seq<u8>,
                Seq<char>,
            >(frame.png@)
            &&& width == frame.width
            &&& height == frame.height
        },
{
    base64::strict_round_trip(frame.png@);
}

/// What is told of a transfer and of its chunks is what was done: how many bytes, in which direction,
/// at which offset, and whether that was the last. The bytes of a chunk that was read decode from the
/// reply.
pub proof fn transfers_are_told_as_done(
    r: Response,
    plan: transfer::TransferPlan,
    offset: u64,
    bytes: u64,
    data: Seq<u8>,
    eof: bool,
    total: u64,
)
    ensures
        is_open_reply(r, plan, Ok(bytes)) ==> (r matches Response::Success {
            payload: Payload::Transferred { bytes: n, direction, guest_path },
        } && n == bytes && guest_path@ == plan.guest_path@ && (plan.direction is HostToGuest
            ==> direction@ == "host_to_guest"@) && (plan.direction is GuestToHost ==> direction@
            == "guest_to_host"@)),
        is_written(r, offset, bytes, eof, total) ==> (r matches Response::Success {
            payload: Payload::ChunkWritten { offset: at, bytes: n, total: size, eof: last },
        } && at == offset && n == bytes && size == total && last == eof),
        is_read(r, offset, data, eof, total) ==> (r matches Response::Success {
            payload: Payload::ChunkRead { offset: at, data_base64, eof: last, total: size },
        } && at == offset && base64::strictly_decoded(vstd::utf8::encode_utf8(data_base64@)) == Ok::<
            Seq<u8>,
            Seq<char>,
        >(data) && last == eof && size == total),
{
    base64::strict_round_trip(data);
}

/// A request is turned away before it is looked at exactly where it is to run a program, or to
/// transfer a file, whose name is nothing but white space.
pub proof fn only_nameless_requests_are_turned_away(request: Request)
    ensures
        fault(request) is Some <==> {
            ||| request matches Request::Exec { program, .. } && text::is_blank(program@)
            ||| request matches Request::Transfer { guest_path, .. } && text::is_blank(guest_path@)
        },
        request is Exec && fault(request) is Some ==> fault(request) == Some(
            "exec: program must not be empty"@,
        ),
        request is Transfer && fault(request) is Some ==> fault(request) == Some(
            "transfer: guest_path must not be empty"@,
        ),
{
}

/// What this service cannot do it says, in an error of its own: input and the machine's life, which
/// are the host's to do, and the display, which it cannot see.
pub proof fn what_is_not_the_guests_is_refused(
    o: Order,
    request: Request,
    roots: fsio::Roots,
    windows: bool,
)
    requires
        is_order(o, request, roots, windows),
        request is Input || request is Lifecycle || request is Display,
    ensures
        o matches Order::Reply(r) && r matches Response::Error { message } && {
            &&& request is Input ==> message@ == "input"@ + ": not implemented in this build"@
            &&& request is Lifecycle ==> message@ == "lifecycle"@
                + ": not implemented in this build"@
            &&& request matches Request::Display { action } ==> message@
                == "display: the guest cannot see its own hypervisor; use 'wvm vm display "@ + (
            match action {
                ipc::DisplayAction::Show => "show"@,
                ipc::DisplayAction::Hide => "hide"@,
                ipc::DisplayAction::Status => "status"@,
            }) + "' on the host"@
        },
{
}

/// A session ends after a greeting in another version, and after nothing else.
pub proof fn only_another_version_ends_a_session(request: Request)
    ensures
        is_farewell(request) <==> (request matches Request::Hello { protocol_version, client }
            && protocol_version != 1),
        !(request is Hello) ==> !is_farewell(request),
{
}

/// What the service says of itself: on which system it runs, and that elsewhere it has no platform to
/// work with. An inventory claims nothing that was not looked for.
pub proof fn the_service_says_where_it_runs(r: Response, windows: bool)
    ensures
        description(true) == "Windows (wvm-guest 0.1.0)"@,
        description(false) == "non-Windows host build (wvm-guest 0.1.0) — platform layer absent"@,
        is_bare_inventory(r, windows) ==> (r matches Response::Success {
            payload: Payload::Inventory { os, drives, apps },
        } && os@ == description(windows) && drives@.len() == 0 && apps@.len() == 0),
        is_greeting(r, 1, windows) ==> (r matches Response::Ready { protocol_version, guest }
            && protocol_version == 1 && guest@ == description(windows)),
{
}

/// An answer without a platform names the operation that was asked for, and the reason.
pub proof fn what_is_absent_is_named(r: Response, request: Request, roots: fsio::Roots)
    requires
        is_answer(r, request, roots),
    ensures
        request is Exec ==> (r matches Response::Error { message } && text::starts_with(
            message@,
            "exec: "@,
        )),
        request is Capture ==> (r matches Response::Error { message } && text::starts_with(
            message@,
            "capture: "@,
        )),
        request is Transfer ==> (r matches Response::Error { message } && text::starts_with(
            message@,
            "transfer: "@,
        )),
        request is TransferChunk ==> (r matches Response::Error { message } && text::starts_with(
            message@,
            "transfer_chunk: "@,
        )),
        request is PullChunk ==> (r matches Response::Error { message } && text::starts_with(
            message@,
            "pull_chunk: "@,
        )),
{
    if let Response::Error { message } = r {
        let m = message@;
        assert(request is Exec ==> m.take("exec: "@.len() as int) =~= "exec: "@);
        assert(request is Capture ==> m.take("capture: "@.len() as int) =~= "capture: "@);
        assert(request is Transfer ==> m.take("transfer: "@.len() as int) =~= "transfer: "@);
        assert(request is TransferChunk ==> m.take("transfer_chunk: "@.len() as int)
            =~= "transfer_chunk: "@);
        assert(request is PullChunk ==> m.take("pull_chunk: "@.len() as int) =~= "pull_chunk: "@);
    }
}

} // verus!
