//! The host's agent-facing control socket: the policy check, and what the journal records of it.
//!
//! A request is recorded before anything is done about it, a refusal is recorded with its reason
//! before it is sent, and the guest is not involved until policy has agreed.
use crate::host::journal::Event;
use crate::host::policy;
use crate::host::policy::{Allowlist, Denial};
use crate::host::vm;
use crate::host::vm::Directories;
use crate::ipc;
use crate::ipc::{DenialReason, Grant, Payload, Request, Response, Verb};
use crate::posix;
use crate::text;
use vstd::prelude::*;
use vstd::string::*;

verus! {

/// Where the control socket lives: beside the display sockets, so that one rule says who can reach
/// either.
pub open spec fn socket_path(dirs: Directories) -> Seq<char> {
    posix::joined(vm::sockets_path(dirs), "control.sock"@)
}

/// Where the control socket lives: in the user's runtime directory where there is one, otherwise
/// under the state directory.
pub fn default_socket_path(dirs: &Directories) -> (r: String)
    ensures
        r@ == socket_path(*dirs),
{
    posix::join(vm::sockets_dir(dirs).as_str(), "control.sock")
}

/// Server configuration.
#[derive(Debug)]
pub struct ServerConfig {
    pub socket_path: String,
    /// How a caller is identified and what it may do.
    pub grant: Grant,
    pub allowlist: Allowlist,
}

/// The scratch directory that a development configuration is confined to.
pub open spec fn scratch(dirs: Directories) -> Seq<char> {
    posix::joined(
        match dirs.home {
            Some(h) => h@,
            None => "/tmp"@,
        },
        ".local/share/wvm"@,
    )
}

impl ServerConfig {
    /// A development configuration: permissive verbs, but roots confined to a scratch directory.
    pub fn development(dirs: &Directories) -> (r: ServerConfig)
        ensures
            r.socket_path@ == posix::joined(
                posix::joined(dirs.runtime_base(), "wvm"@),
                "control.sock"@,
            ),
            r.grant.subject@ == "local-dev"@,
            r.grant.verbs@ == seq![
                Verb::Inspect,
                Verb::Exec,
                Verb::Capture,
                Verb::Input,
                Verb::Transfer,
                Verb::Lifecycle,
            ],
            text::views(r.grant.read_roots@) == seq![posix::joined(scratch(*dirs), "in"@)],
            text::views(r.grant.write_roots@) == seq![posix::joined(scratch(*dirs), "out"@)],
            r.grant.guest_root@ == "C:\\wvm"@,
            r.allowlist@ == seq![
                text::folded("c:\\windows\\system32\\cmd.exe"@),
                text::folded("c:\\windows\\system32\\windowspowershell\\v1.0\\powershell.exe"@),
                text::folded("c:\\windows\\system32\\notepad.exe"@),
            ],
    {
        let home: String = match &dirs.home {
            Some(h) => h.clone(),
            None => text::own("/tmp"),
        };
        let scratch_dir = posix::join(home.as_str(), ".local/share/wvm");
        let mut verbs: Vec<Verb> = Vec::new();
        verbs.push(Verb::Inspect);
        verbs.push(Verb::Exec);
        verbs.push(Verb::Capture);
        verbs.push(Verb::Input);
        verbs.push(Verb::Transfer);
        verbs.push(Verb::Lifecycle);
        let mut read_roots: Vec<String> = Vec::new();
        assert(text::views(read_roots@) == Seq::<Seq<char>>::empty());
        text::push_text(&mut read_roots, posix::join(scratch_dir.as_str(), "in").as_str());
        let mut write_roots: Vec<String> = Vec::new();
        assert(text::views(write_roots@) == Seq::<Seq<char>>::empty());
        text::push_text(&mut write_roots, posix::join(scratch_dir.as_str(), "out").as_str());
        ServerConfig {
            socket_path: default_socket_path(dirs),
            grant: Grant {
                subject: text::own("local-dev"),
                verbs,
                read_roots,
                write_roots,
                guest_root: text::own("C:\\wvm"),
            },
            allowlist: Allowlist::default_for_windows(),
        }
    }
}

// ---------------------------------------------------------------------------
// Names
// ---------------------------------------------------------------------------

/// The name of an operation, as the journal spells it.
pub open spec fn operation(request: Request) -> Seq<char> {
    match request {
        Request::Hello { .. } => "hello"@,
        Request::Inspect => "inspect"@,
        Request::Exec { .. } => "exec"@,
        Request::Capture { .. } => "capture"@,
        Request::Input { .. } => "input"@,
        Request::Transfer { .. } => "transfer"@,
        Request::TransferChunk { .. } => "transfer_chunk"@,
        Request::PullChunk { .. } => "pull_chunk"@,
        Request::Lifecycle { .. } => "lifecycle"@,
        Request::Display { .. } => "display"@,
    }
}

/// The name of the operation that a request asks for.
pub fn op_name(request: &Request) -> (r: &'static str)
    ensures
        r@ == operation(*request),
{
    match request {
        Request::Hello { .. } => "hello",
        Request::Inspect => "inspect",
        Request::Exec { .. } => "exec",
        Request::Capture { .. } => "capture",
        Request::Input { .. } => "input",
        Request::Transfer { .. } => "transfer",
        Request::TransferChunk { .. } => "transfer_chunk",
        Request::PullChunk { .. } => "pull_chunk",
        Request::Lifecycle { .. } => "lifecycle",
        Request::Display { .. } => "display",
    }
}

/// The name of a payload, as the journal spells it.
pub open spec fn payload_kind(payload: Payload) -> Seq<char> {
    match payload {
        Payload::Empty => "none"@,
        Payload::Inventory { .. } => "inventory"@,
        Payload::ProcessExited(_) => "process_exited"@,
        Payload::ProcessOutput { .. } => "process_output"@,
        Payload::Frame { .. } => "frame"@,
        Payload::Transferred { .. } => "transferred"@,
        Payload::ChunkWritten { .. } => "chunk_written"@,
        Payload::ChunkRead { .. } => "chunk_read"@,
        Payload::LifecycleDone { .. } => "lifecycle_done"@,
    }
}

/// The name of a payload.
pub fn payload_name(payload: &Payload) -> (r: &'static str)
    ensures
        r@ == payload_kind(*payload),
{
    match payload {
        Payload::Empty => "none",
        Payload::Inventory { .. } => "inventory",
        Payload::ProcessExited(_) => "process_exited",
        Payload::ProcessOutput { .. } => "process_output",
        Payload::Frame { .. } => "frame",
        Payload::Transferred { .. } => "transferred",
        Payload::ChunkWritten { .. } => "chunk_written",
        Payload::ChunkRead { .. } => "chunk_read",
        Payload::LifecycleDone { .. } => "lifecycle_done",
    }
}

/// A response in a few words, for the journal.
pub open spec fn summary(response: Response) -> Seq<char> {
    match response {
        Response::Ready { .. } => "ready"@,
        Response::Success { payload } => "ok: "@ + payload_kind(payload),
        Response::Error { message } => "error: "@ + message@,
    }
}

/// A response in a few words, for the journal.
pub fn describe(response: &Response) -> (r: String)
    ensures
        r@ == summary(*response),
{
    match response {
        Response::Ready { .. } => text::own("ready"),
        Response::Success { payload } => text::cat2("ok: ", payload_name(payload)),
        Response::Error { message } => text::cat2("error: ", message.as_str()),
    }
}

// ---------------------------------------------------------------------------
// Authorisation
// ---------------------------------------------------------------------------

/// Why a request is refused, if it is, with what the refusal names.
pub open spec fn refusal(grant: Grant, allowlist: Seq<Seq<char>>, request: Request) -> Option<
    (Verb, DenialReason, Seq<char>),
> {
    if !grant.allows(request.verb()) {
        Some((request.verb(), DenialReason::VerbNotGranted, operation(request)))
    } else {
        match request {
            Request::Exec { program, args, cwd, require_allowlist, timeout_ms } => {
                if !require_allowlist || allowlist.contains(text::folded(program@)) {
                    None
                } else {
                    Some((Verb::Exec, DenialReason::ProgramNotAllowlisted, program@))
                }
            },
            Request::Transfer { direction, host_path, guest_path, overwrite } => {
                match refused_host_path(grant, direction, host_path) {
                    Some(reason) => Some((Verb::Transfer, reason, host_path->Some_0@)),
                    None => match policy::guest_refusal(grant.guest_root@, guest_path@) {
                        Some(reason) => Some((Verb::Transfer, reason, guest_path@)),
                        None => None,
                    },
                }
            },
            _ => None,
        }
    }
}

/// Why the host path of a transfer is refused, if there is one and it is.
pub open spec fn refused_host_path(
    grant: Grant,
    direction: ipc::TransferDirection,
    host_path: Option<String>,
) -> Option<DenialReason> {
    match host_path {
        Some(path) => policy::host_refusal(grant, direction, path@),
        None => None,
    }
}

/// The capability check: the verb has to be granted, a program has to be on the allowlist where the
/// request asks for that, and both ends of a transfer have to be inside their roots.
pub fn authorise(grant: &Grant, allowlist: &Allowlist, request: &Request) -> (r: Result<(), Denial>)
    ensures
        match (r, refusal(*grant, allowlist@, *request)) {
            (Ok(()), None) => true,
            (Err(d), Some((verb, reason, detail))) => d.is(grant.subject@, verb, reason, detail),
            _ => false,
        },
{
    let verb = request.required_verb();
    if !grant.permits(verb) {
        return Err(
            policy::denial(
                grant.subject.as_str(),
                verb,
                DenialReason::VerbNotGranted,
                op_name(request),
            ),
        );
    }
    match request {
        Request::Exec { program, require_allowlist, .. } => {
            if *require_allowlist {
                policy::check_exec(grant, program.as_str(), allowlist)
            } else {
                Ok(())
            }
        },
        Request::Transfer { direction, host_path, guest_path, .. } => {
            if let Some(path) = host_path {
                if let Err(d) = policy::check_host_transfer(grant, *direction, path.as_str()) {
                    return Err(d);
                }
            }
            policy::check_guest_path(grant, guest_path.as_str())
        },
        _ => Ok(()),
    }
}

// ---------------------------------------------------------------------------
// Execution
// ---------------------------------------------------------------------------

/// A response is an error with this message.
pub open spec fn is_error(r: Response, message: Seq<char>) -> bool {
    r matches Response::Error { message: m } && m@ == message
}

/// What an operation that needs the guest is answered with while there is no channel to it.
pub open spec fn no_channel(op: Seq<char>) -> Seq<char> {
    op + ": no guest channel yet (M3 not started)"@
}

/// A response is the right one for an authorised request: the host describes itself honestly, and
/// fabricates nothing about the guest.
pub open spec fn is_result(r: Response, request: Request) -> bool {
    match request {
        Request::Hello { protocol_version, client } => if protocol_version
            != ipc::PROTOCOL_VERSION {
            is_error(
                r,
                "protocol mismatch: host speaks "@ + text::decimal(ipc::PROTOCOL_VERSION as nat)
                    + ", caller speaks "@ + text::decimal(protocol_version as nat),
            )
        } else {
            r matches Response::Ready { protocol_version: v, guest } && v == ipc::PROTOCOL_VERSION
                && guest@ == "no guest channel yet (M3 not started)"@
        },
        Request::Inspect => r matches Response::Success {
            payload: Payload::Inventory { os, drives, apps },
        } && os@ == "host (no guest channel yet)"@ && drives@.len() == 0 && apps@.len() == 0,
        _ => is_error(r, no_channel(operation(request))),
    }
}

/// Dispatch an authorised request.
pub fn execute(request: &Request) -> (r: Response)
    ensures
        is_result(r, *request),
{
    match request {
        Request::Hello { protocol_version, .. } => {
            if *protocol_version != ipc::PROTOCOL_VERSION {
                return Response::Error {
                    message: text::cat4(
                        "protocol mismatch: host speaks ",
                        text::to_decimal(ipc::PROTOCOL_VERSION as u64).as_str(),
                        ", caller speaks ",
                        text::to_decimal(*protocol_version as u64).as_str(),
                    ),
                };
            }
            Response::Ready {
                protocol_version: ipc::PROTOCOL_VERSION,
                guest: text::own("no guest channel yet (M3 not started)"),
            }
        },
        Request::Inspect => Response::Success {
            payload: Payload::Inventory {
                os: text::own("host (no guest channel yet)"),
                drives: Vec::new(),
                apps: Vec::new(),
            },
        },
        other => Response::Error {
            message: text::cat2(op_name(other), ": no guest channel yet (M3 not started)"),
        },
    }
}

// ---------------------------------------------------------------------------
// Serving
// ---------------------------------------------------------------------------

/// What serving one request comes to: the events to journal, in order and before anything is sent,
/// and then the reply.
#[derive(Debug)]
pub struct Served {
    pub events: Vec<Event>,
    pub reply: Response,
}

/// The event that records an attempt.
pub open spec fn is_attempt(event: Event, subject: Seq<char>, request: Request) -> bool {
    event matches Event::Request { subject: s, verb, op } && s@ == subject && verb@
        == request.verb().name() && op@ == operation(request)
}

/// The event that records a refusal.
pub open spec fn is_denial(event: Event, subject: Seq<char>, verb: Verb, reason: DenialReason) -> bool {
    event matches Event::Denied { subject: s, verb: v, reason: why } && s@ == subject && v@
        == verb.name() && why@ == reason.name()
}

/// The event that records a completed request. A handshake that was accepted counts as a success.
pub open spec fn is_completion(
    event: Event,
    subject: Seq<char>,
    request: Request,
    reply: Response,
) -> bool {
    event matches Event::Completed { subject: s, verb, ok, detail } && s@ == subject && verb@
        == request.verb().name() && ok == !(reply is Error) && detail@ == summary(reply)
}

/// Serving a request under a configuration comes to this: the attempt is recorded, then a refusal
/// with its reason, or the result of the request; a handshake that passed leaves no result behind.
pub open spec fn is_served(s: Served, config: ServerConfig, request: Request) -> bool {
    let subject = config.grant.subject@;
    &&& s.events@.len() >= 1
    &&& is_attempt(s.events@[0], subject, request)
    &&& match refusal(config.grant, config.allowlist@, request) {
        Some((verb, reason, detail)) => {
            &&& s.events@.len() == 2
            &&& is_denial(s.events@[1], subject, verb, reason)
            &&& is_error(
                s.reply,
                "denied ("@ + reason.name() + "): "@ + verb.name() + " is not permitted for "@
                    + subject,
            )
        },
        None => {
            &&& is_result(s.reply, request)
            &&& if request is Hello {
                s.events@.len() == 1
            } else {
                &&& s.events@.len() == 2
                &&& is_completion(s.events@[1], subject, request, s.reply)
            }
        },
    }
}

/// Serve one request of a caller.
pub fn handle(config: &ServerConfig, request: &Request) -> (s: Served)
    ensures
        is_served(s, *config, *request),
{
    let verb = request.required_verb();
    let mut events: Vec<Event> = Vec::new();
    events.push(
        Event::Request {
            subject: config.grant.subject.clone(),
            verb: text::own(verb.as_str()),
            op: text::own(op_name(request)),
        },
    );
    match authorise(&config.grant, &config.allowlist, request) {
        Ok(()) => {
            let reply = execute(request);
            let handshake: bool = match request {
                Request::Hello { .. } => true,
                _ => false,
            };
            if !handshake {
                let ok: bool = match &reply {
                    Response::Error { .. } => false,
                    _ => true,
                };
                events.push(
                    Event::Completed {
                        subject: config.grant.subject.clone(),
                        verb: text::own(verb.as_str()),
                        ok,
                        detail: describe(&reply),
                    },
                );
            }
            Served { events, reply }
        },
        Err(denial) => {
            events.push(
                Event::Denied {
                    subject: denial.subject.clone(),
                    verb: text::own(denial.verb.as_str()),
                    reason: text::own(denial.reason.as_str()),
                },
            );
            let reply = Response::Error {
                message: text::cat6(
                    "denied (",
                    denial.reason.as_str(),
                    "): ",
                    denial.verb.as_str(),
                    " is not permitted for ",
                    denial.subject.as_str(),
                ),
            };
            Served { events, reply }
        },
    }
}

/// What comes of a frame that is not a request: a record that it was refused, with the reason, and
/// an answer that names it.
pub open spec fn is_malformed(s: Served, config: ServerConfig, error_text: Seq<char>) -> bool {
    let why = "malformed request: "@ + error_text;
    &&& s.events@.len() == 1
    &&& s.events@[0] matches Event::Denied { subject, verb, reason } && subject@
        == config.grant.subject@ && verb@ == "unknown"@ && reason@ == why
    &&& is_error(s.reply, why)
}

/// Refuse a frame that is not a request. It is answered rather than dropped, and the session ends.
pub fn malformed(config: &ServerConfig, error_text: &str) -> (s: Served)
    ensures
        is_malformed(s, *config, error_text@),
{
    let why = text::cat2("malformed request: ", error_text);
    let mut events: Vec<Event> = Vec::new();
    events.push(
        Event::Denied {
            subject: config.grant.subject.clone(),
            verb: text::own("unknown"),
            reason: why.clone(),
        },
    );
    Served { events, reply: Response::Error { message: why } }
}

// ---------------------------------------------------------------------------
// The caller's side
// ---------------------------------------------------------------------------

/// The request that opens a session.
pub fn hello_request(client_name: &str) -> (r: Request)
    ensures
        r matches Request::Hello { protocol_version, client } && protocol_version
            == ipc::PROTOCOL_VERSION && client@ == client_name@,
{
    Request::Hello { protocol_version: ipc::PROTOCOL_VERSION, client: text::own(client_name) }
}

/// What a greeting comes to: what the guest says of itself, or why there is none.
pub open spec fn greeted(response: Response) -> Result<Seq<char>, Seq<char>> {
    match response {
        Response::Ready { protocol_version, guest } => Ok(guest@),
        Response::Success { .. } => Err("unexpected Ok to Hello"@),
        Response::Error { message } => Err("handshake refused: "@ + message@),
    }
}

/// The guest description that an accepted handshake carries, or why it was not accepted.
pub fn hello_result(response: Response) -> (r: Result<String, String>)
    ensures
        match response {
            Response::Ready { protocol_version, guest } => r == Ok::<String, String>(guest),
            Response::Success { .. } => r matches Err(e) && e@ == "unexpected Ok to Hello"@,
            Response::Error { message } => r matches Err(e) && e@ == "handshake refused: "@
                + message@,
        },
        match (r, greeted(response)) {
            (Ok(guest), Ok(said)) => guest@ == said,
            (Err(e), Err(why)) => e@ == why,
            _ => false,
        },
{
    match response {
        Response::Ready { guest, .. } => Ok(guest),
        Response::Success { .. } => Err(text::own("unexpected Ok to Hello")),
        Response::Error { message } => Err(text::cat2("handshake refused: ", message.as_str())),
    }
}

// ---------------------------------------------------------------------------
// Laws
// ---------------------------------------------------------------------------

/// Whatever policy refuses is journalled with its reason before the caller hears of it, and the
/// caller hears only of the refusal.
pub proof fn every_denial_is_journalled(s: Served, config: ServerConfig, request: Request)
    requires
        is_served(s, config, request),
        refusal(config.grant, config.allowlist@, request) is Some,
    ensures
        ({
            let (verb, reason, detail) = refusal(config.grant, config.allowlist@, request)->Some_0;
            is_denial(s.events@.last(), config.grant.subject@, verb, reason) && s.reply is Error
        }),
{
}

/// A verb outside the grant is refused whatever the request carries.
pub proof fn ungranted_verbs_are_refused(
    grant: Grant,
    allowlist: Seq<Seq<char>>,
    request: Request,
)
    requires
        !grant.allows(request.verb()),
    ensures
        refusal(grant, allowlist, request) == Some(
            (request.verb(), DenialReason::VerbNotGranted, operation(request)),
        ),
{
}

/// A request that was built under a grant passes that grant's verb check: authorisation repeats the check
/// made at construction, and never contradicts it.
pub proof fn construction_and_authorisation_agree(grant: Grant, kind: ipc::RequestKind)
    ensures
        grant.allows(kind.verb()) <==> grant.allows(kind.as_request().verb()),
{
    ipc::construction_keeps_the_verb(kind);
}

/// A handshake is never journalled as a result, so a session that only greets leaves no false
/// failure behind.
pub proof fn handshakes_leave_no_result(s: Served, config: ServerConfig, request: Request)
    requires
        is_served(s, config, request),
        request is Hello,
    ensures
        forall|i: int| 0 <= i < s.events@.len() ==> !((#[trigger] s.events@[i]) is Completed),
{
}

/// A request is let through exactly where its verb is among those granted and nothing else stands
/// against it: a program that has to be listed is, and a transfer stays inside the roots on both
/// sides.
pub proof fn requests_are_let_through_exactly_so(
    grant: Grant,
    allowlist: Seq<Seq<char>>,
    request: Request,
)
    ensures
        refusal(grant, allowlist, request) is None <==> {
            &&& exists|i: int|
                0 <= i < grant.verbs@.len() && #[trigger] grant.verbs@[i] == request.verb()
            &&& request matches Request::Exec { program, require_allowlist, .. } ==> (
            require_allowlist ==> allowlist.contains(text::folded(program@)))
            &&& request matches Request::Transfer { direction, host_path, guest_path, .. } ==> {
                &&& host_path is Some ==> policy::host_refusal(
                    grant,
                    direction,
                    host_path->Some_0@,
                ) is None
                &&& policy::guest_refusal(grant.guest_root@, guest_path@) is None
            }
        },
        forall|verb: Verb, reason: DenialReason, detail: Seq<char>|
            refusal(grant, allowlist, request) == Some((verb, reason, detail)) ==> verb
                == request.verb() && (reason == DenialReason::ProgramNotAllowlisted
                ==> request is Exec) && (reason == DenialReason::PathOutsideRoots || reason
                == DenialReason::NoTransferRoot ==> request is Transfer) && (reason
                == DenialReason::VerbNotGranted <==> !grant.allows(request.verb())),
{
}

/// What is refused is the program that is not listed, or the path that is outside, as it was asked
/// for.
pub proof fn refusals_name_what_was_refused(
    grant: Grant,
    allowlist: Seq<Seq<char>>,
    request: Request,
)
    requires
        grant.allows(request.verb()),
        refusal(grant, allowlist, request) is Some,
    ensures
        request matches Request::Exec { program, .. } ==> refusal(grant, allowlist, request)
            == Some((Verb::Exec, DenialReason::ProgramNotAllowlisted, program@)),
        request matches Request::Transfer { direction, host_path, guest_path, .. } ==> {
            let detail = refusal(grant, allowlist, request)->Some_0.2;
            detail == guest_path@ || (host_path is Some && detail == host_path->Some_0@)
        },
        request is Exec || request is Transfer,
{
}

/// What every request leaves behind. First comes the attempt, with who made it, the verb and the
/// operation. A request that was refused is then told and recorded as refused, with the reason; and
/// one that was carried out is recorded as it ended, as good exactly where no error was answered.
pub proof fn requests_are_recorded_as_they_went(s: Served, config: ServerConfig, request: Request)
    requires
        is_served(s, config, request),
    ensures
        s.events@.len() >= 1,
        s.events@[0] matches Event::Request { subject, verb, op } && subject@
            == config.grant.subject@ && verb@ == request.verb().name() && op@ == operation(request),
        refusal(config.grant, config.allowlist@, request) matches Some((verb, reason, detail)) ==> {
            &&& s.events@.len() == 2
            &&& s.events@[1] matches Event::Denied { subject, verb: v, reason: why } && subject@
                == config.grant.subject@ && v@ == verb.name() && why@ == reason.name()
            &&& s.reply matches Response::Error { message } && message@ == "denied ("@
                + reason.name() + "): "@ + verb.name() + " is not permitted for "@
                + config.grant.subject@
        },
        refusal(config.grant, config.allowlist@, request) is None && !(request is Hello) ==> {
            &&& s.events@.len() == 2
            &&& s.events@[1] matches Event::Completed { subject, verb, ok, detail } && {
                &&& subject@ == config.grant.subject@
                &&& verb@ == request.verb().name()
                &&& ok <==> !(s.reply is Error)
                &&& s.reply matches Response::Error { message } ==> detail@ == "error: "@ + message@
            }
        },
{
}

/// With no guest to hand a request to, only a greeting and a look are answered with anything but an
/// error, and a greeting only in the version that this side speaks.
pub proof fn nothing_is_claimed_without_a_guest(r: Response, request: Request)
    requires
        is_result(r, request),
    ensures
        !(r is Error) <==> request is Inspect || (request matches Request::Hello {
            protocol_version,
            client,
        } && protocol_version == 1),
        r is Ready <==> (request matches Request::Hello { protocol_version, client }
            && protocol_version == 1),
        !(request is Inspect) && !(request is Hello) ==> (r matches Response::Error { message }
            && message@ == operation(request) + ": no guest channel yet (M3 not started)"@),
        r matches Response::Success { payload } ==> (payload matches Payload::Inventory {
            os,
            drives,
            apps,
        } && drives@.len() == 0 && apps@.len() == 0),
{
}

/// How operations are called in the journal.
pub proof fn operations_are_called_so(request: Request)
    ensures
        request is Hello ==> operation(request) == "hello"@,
        request is Inspect ==> operation(request) == "inspect"@,
        request is Exec ==> operation(request) == "exec"@,
        request is Capture ==> operation(request) == "capture"@,
        request is Input ==> operation(request) == "input"@,
        request is Transfer ==> operation(request) == "transfer"@,
        request is TransferChunk ==> operation(request) == "transfer_chunk"@,
        request is PullChunk ==> operation(request) == "pull_chunk"@,
        request is Lifecycle ==> operation(request) == "lifecycle"@,
        request is Display ==> operation(request) == "display"@,
{
}

/// How replies are summed up in the journal: an error by its message, and a result by its kind, which
/// is called differently for every kind.
pub proof fn replies_are_summed_up_so(response: Response)
    ensures
        response is Ready ==> summary(response) == "ready"@,
        response matches Response::Error { message } ==> summary(response) == "error: "@ + message@,
        response matches Response::Success { payload } ==> summary(response) == "ok: "@ + (
        match payload {
            Payload::Empty => "none"@,
            Payload::Inventory { .. } => "inventory"@,
            Payload::ProcessExited(_) => "process_exited"@,
            Payload::ProcessOutput { .. } => "process_output"@,
            Payload::Frame { .. } => "frame"@,
            Payload::Transferred { .. } => "transferred"@,
            Payload::ChunkWritten { .. } => "chunk_written"@,
            Payload::ChunkRead { .. } => "chunk_read"@,
            Payload::LifecycleDone { .. } => "lifecycle_done"@,
        }),
{
}

/// A request that could not be read is answered with an error and recorded as refused, under no verb,
/// with the same words.
pub proof fn unreadable_requests_are_recorded(
    s: Served,
    config: ServerConfig,
    error_text: Seq<char>,
)
    requires
        is_malformed(s, config, error_text),
    ensures
        s.events@.len() == 1,
        s.events@[0] matches Event::Denied { subject, verb, reason } && subject@
            == config.grant.subject@ && verb@ == "unknown"@ && reason@ == "malformed request: "@
            + error_text,
        s.reply matches Response::Error { message } && message@ == "malformed request: "@
            + error_text,
{
}

/// The control socket is a file of the user's private directory.
pub proof fn the_control_socket_is_private(dirs: Directories)
    ensures
        socket_path(dirs) == vm::sockets_path(dirs) + "/control.sock"@,
{
    reveal_strlit("wvm");
    reveal_strlit("/");
    reveal_strlit("control.sock");
    reveal_strlit("/control.sock");
    let dir = vm::sockets_path(dirs);
    assert(dir.len() > 0 && dir.last() == 'm');
    assert(dir + "/"@ + "control.sock"@ =~= dir + "/control.sock"@);
}

/// A greeting has come to something only where it was answered as one. An error is told, and any
/// other result is no greeting.
pub proof fn greetings_are_answered_as_such(response: Response)
    ensures
        greeted(response) is Ok <==> response is Ready,
        response matches Response::Ready { protocol_version, guest } ==> greeted(response) == Ok::<
            Seq<char>,
            Seq<char>,
        >(guest@),
        response matches Response::Error { message } ==> greeted(response) == Err::<
            Seq<char>,
            Seq<char>,
        >("handshake refused: "@ + message@),
        response is Success ==> greeted(response) == Err::<Seq<char>, Seq<char>>(
            "unexpected Ok to Hello"@,
        ),
{
}

/// The directory for files on their way is in the user's home, or in the temporary directory where
/// there is none.
pub proof fn files_on_their_way_stay_at_home(dirs: Directories)
    ensures
        dirs.home matches Some(h) ==> (h@.len() > 0 && h@.last() != '/' ==> scratch(dirs) == h@
            + "/.local/share/wvm"@),
        dirs.home is None ==> scratch(dirs) == "/tmp/.local/share/wvm"@,
{
    reveal_strlit("/");
    reveal_strlit("/tmp");
    reveal_strlit(".local/share/wvm");
    reveal_strlit("/.local/share/wvm");
    reveal_strlit("/tmp/.local/share/wvm");
    if let Some(h) = dirs.home {
        assert(h@ + "/"@ + ".local/share/wvm"@ =~= h@ + "/.local/share/wvm"@);
    }
    assert("/tmp"@ + "/"@ + ".local/share/wvm"@ =~= "/tmp/.local/share/wvm"@);
}

} // verus!
