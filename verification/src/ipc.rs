//! The wire protocol that the host daemon and the Windows guest service share.
//!
//! * **Closed enums, not strings.** A verb is a variant. A caller cannot invent one.
//! * **Capability at construction time.** [`Request::new`] refuses to build a request that the
//!   caller's [`Grant`] does not permit.
//! * **Explicit framing.** See [`crate::framing`].
use crate::base64;
use crate::text;
use vstd::prelude::*;
use vstd::string::*;

verus! {

/// Protocol version. Bump on any breaking change to the types below.
pub const PROTOCOL_VERSION: u16 = 1;

// ---------------------------------------------------------------------------
// Capabilities
// ---------------------------------------------------------------------------

/// A verb a caller may be granted. Deliberately narrow and closed.
#[derive(Debug, Clone, Copy, PartialEq, Eq, PartialOrd, Ord, Hash, Structural)]
pub enum Verb {
    /// Read guest state: OS build, drives, installed applications.
    Inspect,
    /// Launch a process in the guest.
    Exec,
    /// Capture the guest framebuffer.
    Capture,
    /// Inject keyboard and mouse input.
    Input,
    /// Move files between host and guest, within declared roots.
    Transfer,
    /// Change VM lifecycle: start, suspend, snapshot, restore.
    Lifecycle,
    /// Put the VM's desktop on screen on demand, and take it away again.
    Display,
}

impl Verb {
    /// The name of a verb, as journals and messages spell it.
    pub open spec fn name(self) -> Seq<char> {
        match self {
            Verb::Inspect => "inspect"@,
            Verb::Exec => "exec"@,
            Verb::Capture => "capture"@,
            Verb::Input => "input"@,
            Verb::Transfer => "transfer"@,
            Verb::Lifecycle => "lifecycle"@,
            Verb::Display => "display"@,
        }
    }

    /// Human-readable name, used in journals and error messages.
    pub fn as_str(self) -> (r: &'static str)
        ensures
            r@ == self.name(),
    {
        match self {
            Verb::Inspect => "inspect",
            Verb::Exec => "exec",
            Verb::Capture => "capture",
            Verb::Input => "input",
            Verb::Transfer => "transfer",
            Verb::Lifecycle => "lifecycle",
            Verb::Display => "display",
        }
    }
}

/// What an authenticated caller is allowed to do. Held by the host, never sent to the guest.
#[derive(Debug, Clone, PartialEq, Eq)]
pub struct Grant {
    /// Caller identity, for the journal.
    pub subject: String,
    /// Permitted verbs.
    pub verbs: Vec<Verb>,
    /// Host paths the caller may read from. Empty means none.
    pub read_roots: Vec<String>,
    /// Host paths the caller may write to. Empty means none.
    pub write_roots: Vec<String>,
    /// Guest-side root that transfers are confined to.
    pub guest_root: String,
}

impl Grant {
    /// The grant lists the verb.
    pub open spec fn allows(self, verb: Verb) -> bool {
        self.verbs@.contains(verb)
    }

    /// A grant that permits nothing: no verb, no root.
    pub fn deny_all(subject: &str) -> (r: Grant)
        ensures
            r.subject@ == subject@,
            r.verbs@.len() == 0,
            r.read_roots@.len() == 0,
            r.write_roots@.len() == 0,
            r.guest_root@.len() == 0,
            forall|verb: Verb| !r.allows(verb),
    {
        Grant {
            subject: text::own(subject),
            verbs: Vec::new(),
            read_roots: Vec::new(),
            write_roots: Vec::new(),
            guest_root: String::new(),
        }
    }

    /// Whether the grant permits a verb.
    pub fn permits(&self, verb: Verb) -> (r: bool)
        ensures
            r == self.allows(verb),
    {
        let mut i: usize = 0;
        while i < self.verbs.len()
            invariant
                i <= self.verbs.len(),
                forall|k: int| 0 <= k < i ==> self.verbs@[k] != verb,
            decreases self.verbs.len() - i,
        {
            if self.verbs[i] == verb {
                return true;
            }
            i += 1;
        }
        false
    }
}

// ---------------------------------------------------------------------------
// Requests
// ---------------------------------------------------------------------------

/// A host to guest request.
#[derive(Debug, Clone, PartialEq, Eq)]
pub enum Request {
    /// Protocol and identity handshake. Always the first message on a connection.
    Hello {
        protocol_version: u16,
        /// Opaque client identifier, recorded by the guest for its own log.
        client: String,
    },
    /// Guest inventory. Exercises [`Verb::Inspect`].
    Inspect,
    /// Launch a process. Exercises [`Verb::Exec`].
    Exec {
        /// Absolute path to the executable inside the guest.
        program: String,
        args: Vec<String>,
        /// Working directory, or `None` for the guest's default.
        cwd: Option<String>,
        /// Whether `program` must appear in the host's allowlist before dispatch.
        require_allowlist: bool,
        /// How long the process may run before it is killed, in milliseconds. `None` means the
        /// guest's default of ten minutes.
        timeout_ms: Option<u64>,
    },
    /// Capture the guest framebuffer as PNG. Exercises [`Verb::Capture`].
    Capture { monitor: u8 },
    /// Inject input. Exercises [`Verb::Input`].
    Input { event: InputEvent },
    /// Move a file. Exercises [`Verb::Transfer`].
    Transfer {
        direction: TransferDirection,
        /// Path on the host side, or `None` when the host resolves it from its own roots.
        host_path: Option<String>,
        /// Path in the guest, relative to the grant's `guest_root`.
        guest_path: String,
        /// Whether an existing file at the destination may be replaced.
        overwrite: bool,
    },
    /// One chunk of a transfer's bytes. Each names the offset it belongs at, so that a chunk that
    /// is repeated, lost or out of place is noticed.
    TransferChunk {
        /// Byte offset this chunk begins at.
        offset: u64,
        /// The chunk's bytes, base64-encoded because JSON strings cannot carry arbitrary binary.
        data_base64: String,
        /// True on the last chunk.
        eof: bool,
    },
    /// Request one chunk of a file the guest is serving.
    PullChunk {
        /// Byte offset to read from.
        offset: u64,
        /// Maximum bytes wanted. The guest returns fewer at the end of the file, never more.
        length: u64,
    },
    /// VM lifecycle. Exercises [`Verb::Lifecycle`].
    Lifecycle { action: LifecycleAction },
    /// Put the desktop on screen, or take it away. Exercises [`Verb::Display`].
    Display { action: DisplayAction },
}

/// Input events, expressed as protocol data rather than synthetic window-system messages.
#[derive(Debug, Clone, PartialEq, Eq)]
pub enum InputEvent {
    KeyPress { scancode: u16, shift: bool, ctrl: bool, alt: bool },
    KeyRelease { scancode: u16, shift: bool, ctrl: bool, alt: bool },
    /// Type a literal string. The guest translates it to scancodes itself.
    Text { value: String },
    MouseMove { x: i32, y: i32 },
    MouseButton { button: MouseButton, down: bool },
}

/// A mouse button.
#[derive(Debug, Clone, Copy, PartialEq, Eq, Structural)]
pub enum MouseButton {
    Left,
    Right,
    Middle,
}

/// Which way a file travels.
#[derive(Debug, Clone, Copy, PartialEq, Eq, Structural)]
pub enum TransferDirection {
    HostToGuest,
    GuestToHost,
}

/// What to do with the VM as a whole.
#[derive(Debug, Clone, Copy, PartialEq, Eq, Structural)]
pub enum LifecycleAction {
    /// Return resources to the host without losing guest state.
    Suspend,
    Resume,
    Snapshot,
    Restore,
    Shutdown,
}

/// What to do with the VM's display. The guest cannot see its own hypervisor, so it answers this
/// with a refusal that names the command that works.
#[derive(Debug, Clone, Copy, PartialEq, Eq, Structural)]
pub enum DisplayAction {
    /// Attach a viewer window to the running VM.
    Show,
    /// Detach the viewer, returning to headless operation.
    Hide,
    /// Report whether a viewer is attached.
    Status,
}

impl DisplayAction {
    /// The wire spelling of an action.
    pub open spec fn name(self) -> Seq<char> {
        match self {
            DisplayAction::Show => "show"@,
            DisplayAction::Hide => "hide"@,
            DisplayAction::Status => "status"@,
        }
    }

    /// The wire spelling, so that a refusal and the request that caused it use the same word.
    pub fn to_string(&self) -> (r: String)
        ensures
            r@ == self.name(),
    {
        match self {
            DisplayAction::Show => text::own("show"),
            DisplayAction::Hide => text::own("hide"),
            DisplayAction::Status => text::own("status"),
        }
    }
}

impl LifecycleAction {
    /// The wire spelling of an action.
    pub open spec fn name(self) -> Seq<char> {
        match self {
            LifecycleAction::Suspend => "suspend"@,
            LifecycleAction::Resume => "resume"@,
            LifecycleAction::Snapshot => "snapshot"@,
            LifecycleAction::Restore => "restore"@,
            LifecycleAction::Shutdown => "shutdown"@,
        }
    }

    /// The wire spelling, so that an error message and the request that caused it use the same
    /// word.
    pub fn to_string(&self) -> (r: String)
        ensures
            r@ == self.name(),
    {
        match self {
            LifecycleAction::Suspend => text::own("suspend"),
            LifecycleAction::Resume => text::own("resume"),
            LifecycleAction::Snapshot => text::own("snapshot"),
            LifecycleAction::Restore => text::own("restore"),
            LifecycleAction::Shutdown => text::own("shutdown"),
        }
    }
}

impl Request {
    /// The verb that a request exercises. A handshake counts as inspection.
    pub open spec fn verb(self) -> Verb {
        match self {
            Request::Hello { .. } => Verb::Inspect,
            Request::Inspect => Verb::Inspect,
            Request::Exec { .. } => Verb::Exec,
            Request::Capture { .. } => Verb::Capture,
            Request::Input { .. } => Verb::Input,
            Request::Transfer { .. } => Verb::Transfer,
            Request::TransferChunk { .. } => Verb::Transfer,
            Request::PullChunk { .. } => Verb::Transfer,
            Request::Lifecycle { .. } => Verb::Lifecycle,
            Request::Display { .. } => Verb::Display,
        }
    }

    /// Construct a request, refusing anything the grant does not permit. This is the capability
    /// boundary.
    pub fn new(grant: &Grant, kind: RequestKind) -> (r: Result<Request, Denied>)
        ensures
            r is Ok <==> grant.allows(kind.verb()),
            r matches Ok(request) ==> request == kind.as_request(),
            r matches Err(denied) ==> denied == (Denied {
                subject: grant.subject,
                verb: kind.verb(),
                reason: DenialReason::VerbNotGranted,
            }),
    {
        let verb = kind.required_verb();
        if !grant.permits(verb) {
            return Err(
                Denied {
                    subject: grant.subject.clone(),
                    verb,
                    reason: DenialReason::VerbNotGranted,
                },
            );
        }
        Ok(kind.into_request())
    }

    /// The verb this request exercises. Used for journalling and for re-checks on the host.
    pub fn required_verb(&self) -> (r: Verb)
        ensures
            r == self.verb(),
    {
        match self {
            Request::Hello { .. } => Verb::Inspect,
            Request::Inspect => Verb::Inspect,
            Request::Exec { .. } => Verb::Exec,
            Request::Capture { .. } => Verb::Capture,
            Request::Input { .. } => Verb::Input,
            Request::Transfer { .. } => Verb::Transfer,
            Request::TransferChunk { .. } => Verb::Transfer,
            Request::PullChunk { .. } => Verb::Transfer,
            Request::Lifecycle { .. } => Verb::Lifecycle,
            Request::Display { .. } => Verb::Display,
        }
    }
}

/// Request payloads before capability checking.
#[derive(Debug, Clone, PartialEq, Eq)]
pub enum RequestKind {
    Hello { client: String },
    Inspect,
    Exec {
        program: String,
        args: Vec<String>,
        cwd: Option<String>,
        require_allowlist: bool,
        /// How long the process may run, or `None` for the guest's default.
        timeout_ms: Option<u64>,
    },
    Capture { monitor: u8 },
    Input { event: InputEvent },
    Transfer {
        direction: TransferDirection,
        host_path: Option<String>,
        guest_path: String,
        /// Whether an existing destination may be replaced.
        overwrite: bool,
    },
    Lifecycle { action: LifecycleAction },
    Display { action: DisplayAction },
}

impl RequestKind {
    /// The verb that a request of this kind exercises.
    pub open spec fn verb(self) -> Verb {
        match self {
            RequestKind::Hello { .. } => Verb::Inspect,
            RequestKind::Inspect => Verb::Inspect,
            RequestKind::Exec { .. } => Verb::Exec,
            RequestKind::Capture { .. } => Verb::Capture,
            RequestKind::Input { .. } => Verb::Input,
            RequestKind::Transfer { .. } => Verb::Transfer,
            RequestKind::Lifecycle { .. } => Verb::Lifecycle,
            RequestKind::Display { .. } => Verb::Display,
        }
    }

    /// The request of this kind: the same fields, and this protocol's version in a handshake.
    pub open spec fn as_request(self) -> Request {
        match self {
            RequestKind::Hello { client } => Request::Hello {
                protocol_version: PROTOCOL_VERSION,
                client,
            },
            RequestKind::Inspect => Request::Inspect,
            RequestKind::Exec { program, args, cwd, require_allowlist, timeout_ms } => Request::Exec {
                program,
                args,
                cwd,
                require_allowlist,
                timeout_ms,
            },
            RequestKind::Capture { monitor } => Request::Capture { monitor },
            RequestKind::Input { event } => Request::Input { event },
            RequestKind::Transfer { direction, host_path, guest_path, overwrite } => {
                Request::Transfer { direction, host_path, guest_path, overwrite }
            },
            RequestKind::Lifecycle { action } => Request::Lifecycle { action },
            RequestKind::Display { action } => Request::Display { action },
        }
    }

    /// The verb a request of this kind exercises.
    pub fn required_verb(&self) -> (r: Verb)
        ensures
            r == self.verb(),
    {
        match self {
            RequestKind::Hello { .. } => Verb::Inspect,
            RequestKind::Inspect => Verb::Inspect,
            RequestKind::Exec { .. } => Verb::Exec,
            RequestKind::Capture { .. } => Verb::Capture,
            RequestKind::Input { .. } => Verb::Input,
            RequestKind::Transfer { .. } => Verb::Transfer,
            RequestKind::Lifecycle { .. } => Verb::Lifecycle,
            RequestKind::Display { .. } => Verb::Display,
        }
    }

    /// The request of this kind.
    pub fn into_request(self) -> (r: Request)
        ensures
            r == self.as_request(),
    {
        match self {
            RequestKind::Hello { client } => Request::Hello {
                protocol_version: PROTOCOL_VERSION,
                client,
            },
            RequestKind::Inspect => Request::Inspect,
            RequestKind::Exec { program, args, cwd, require_allowlist, timeout_ms } => Request::Exec {
                program,
                args,
                cwd,
                require_allowlist,
                timeout_ms,
            },
            RequestKind::Capture { monitor } => Request::Capture { monitor },
            RequestKind::Input { event } => Request::Input { event },
            RequestKind::Transfer { direction, host_path, guest_path, overwrite } => {
                Request::Transfer { direction, host_path, guest_path, overwrite }
            },
            RequestKind::Lifecycle { action } => Request::Lifecycle { action },
            RequestKind::Display { action } => Request::Display { action },
        }
    }
}

/// A request exercises the verb that its kind was checked against, so the check at construction is
/// the check of what is sent.
pub proof fn construction_keeps_the_verb(kind: RequestKind)
    ensures
        kind.as_request().verb() == kind.verb(),
{
}

// ---------------------------------------------------------------------------
// Denials
// ---------------------------------------------------------------------------

/// Why a request was refused.
#[derive(Debug, Clone, Copy, PartialEq, Eq, Structural)]
pub enum DenialReason {
    /// The verb is not in the grant.
    VerbNotGranted,
    /// The path falls outside the declared roots.
    PathOutsideRoots,
    /// The program is not in the allowlist.
    ProgramNotAllowlisted,
    /// A transfer root was empty, so nothing can be transferred.
    NoTransferRoot,
}

impl DenialReason {
    /// The name of a reason, as messages and journals spell it.
    pub open spec fn name(self) -> Seq<char> {
        match self {
            DenialReason::VerbNotGranted => "VerbNotGranted"@,
            DenialReason::PathOutsideRoots => "PathOutsideRoots"@,
            DenialReason::ProgramNotAllowlisted => "ProgramNotAllowlisted"@,
            DenialReason::NoTransferRoot => "NoTransferRoot"@,
        }
    }

    /// The name of the reason.
    pub fn as_str(&self) -> (r: &'static str)
        ensures
            r@ == self.name(),
    {
        match self {
            DenialReason::VerbNotGranted => "VerbNotGranted",
            DenialReason::PathOutsideRoots => "PathOutsideRoots",
            DenialReason::ProgramNotAllowlisted => "ProgramNotAllowlisted",
            DenialReason::NoTransferRoot => "NoTransferRoot",
        }
    }
}

/// A refusal, recorded in the journal with the same weight as a success.
#[derive(Debug, Clone, PartialEq, Eq)]
pub struct Denied {
    pub subject: String,
    pub verb: Verb,
    pub reason: DenialReason,
}

impl Denied {
    /// The message that describes a refusal.
    pub open spec fn message(self) -> Seq<char> {
        "denied: subject="@ + self.subject@ + " verb="@ + self.verb.name() + " reason="@
            + self.reason.name()
    }

    /// Describes the refusal in words.
    pub fn to_string(&self) -> (r: String)
        ensures
            r@ == self.message(),
    {
        text::cat6(
            "denied: subject=",
            self.subject.as_str(),
            " verb=",
            self.verb.as_str(),
            " reason=",
            self.reason.as_str(),
        )
    }
}

// ---------------------------------------------------------------------------
// Responses
// ---------------------------------------------------------------------------

/// A guest to host response.
#[derive(Debug, Clone, PartialEq, Eq)]
pub enum Response {
    /// Handshake accepted.
    Ready {
        protocol_version: u16,
        /// Guest OS description, for the journal.
        guest: String,
    },
    /// The request was understood and completed.
    Success { payload: Payload },
    /// The request was refused, or the operation failed.
    Error { message: String },
}

/// Successful result bodies.
#[derive(Debug, Clone, PartialEq, Eq)]
pub enum Payload {
    /// Nothing to report beyond success.
    Empty,
    /// Guest inventory.
    Inventory { os: String, drives: Vec<Drive>, apps: Vec<AppEntry> },
    /// A finished process.
    ProcessExited(i32),
    /// A finished process, with what it printed.
    ProcessOutput {
        /// `exited` or `timed_out`.
        outcome: String,
        /// Exit status when `outcome` is `exited`; -1 when the process ended without one.
        code: i32,
        stdout: String,
        stderr: String,
        elapsed_ms: u64,
    },
    /// A captured frame, base64-encoded PNG. Size is bounded by the frame limit.
    Frame { png_base64: String, width: u32, height: u32 },
    /// Bytes moved by a transfer, with the direction and the destination they went to.
    Transferred {
        bytes: u64,
        /// `host_to_guest` or `guest_to_host`, echoing the request.
        direction: String,
        /// Where the bytes were written, as the guest resolved it.
        guest_path: String,
    },
    /// Acknowledgement of one transfer chunk. The host will not send the next chunk until it sees
    /// this.
    ChunkWritten {
        /// Echoed, so a reply can be matched to the chunk that caused it.
        offset: u64,
        /// Bytes in this chunk.
        bytes: u64,
        /// Total bytes written to the destination so far.
        total: u64,
        /// Echoed end-of-file flag.
        eof: bool,
    },
    /// One chunk of a file the guest served, plus enough to reconstruct the whole.
    ChunkRead {
        /// The offset this chunk begins at, echoed so a reply can be matched to its request.
        offset: u64,
        /// The chunk's bytes, base64-encoded.
        data_base64: String,
        /// True when this chunk reaches the end of the file.
        eof: bool,
        /// Total size of the file being served.
        total: u64,
    },
    /// Lifecycle acknowledgement.
    LifecycleDone { action: LifecycleAction },
}

/// A drive of the guest.
#[derive(Debug, Clone, PartialEq, Eq)]
pub struct Drive {
    pub letter: String,
    pub label: String,
    pub free_bytes: u64,
    pub total_bytes: u64,
}

/// An application installed in the guest.
#[derive(Debug, Clone, PartialEq, Eq)]
pub struct AppEntry {
    pub name: String,
    pub path: String,
}

// ---------------------------------------------------------------------------
// Base64 bodies
// ---------------------------------------------------------------------------

/// Standard base64 encoding, for building realistic message bodies.
pub fn base64_encode_for_test(data: &[u8]) -> (r: String)
    ensures
        r@ == base64::encoding(data@),
{
    base64::encode(data)
}

/// Standard base64 decoding, for payloads that arrive from a peer. Strict about the alphabet and
/// the padding: a byte dropped by a lenient skip would shift everything after it.
pub fn base64_decode(text: &str) -> (r: Result<Vec<u8>, String>)
    ensures
        match (r, base64::strictly_decoded(text.spec_bytes())) {
            (Ok(bytes), Ok(expected)) => bytes@ == expected,
            (Err(e), Err(fault)) => e@ == fault,
            _ => false,
        },
{
    base64::decode_strict(text)
}

// ---------------------------------------------------------------------------
// Laws
// ---------------------------------------------------------------------------

/// Which verb each request needs: the one it is named after, with the chunks of a transfer counted as
/// transfers, and a greeting as no more than a look.
pub proof fn each_request_needs_its_verb(request: Request)
    ensures
        request.verb() == Verb::Inspect <==> request is Hello || request is Inspect,
        request.verb() == Verb::Exec <==> request is Exec,
        request.verb() == Verb::Capture <==> request is Capture,
        request.verb() == Verb::Input <==> request is Input,
        request.verb() == Verb::Transfer <==> request is Transfer || request is TransferChunk
            || request is PullChunk,
        request.verb() == Verb::Lifecycle <==> request is Lifecycle,
        request.verb() == Verb::Display <==> request is Display,
{
}

/// A grant allows exactly the verbs that it lists.
pub proof fn grants_allow_what_they_list(grant: Grant, verb: Verb)
    ensures
        grant.allows(verb) <==> exists|i: int|
            0 <= i < grant.verbs@.len() && #[trigger] grant.verbs@[i] == verb,
{
}

/// How verbs, actions and reasons are spelled.
pub proof fn names_are_spelled_so()
    ensures
        Verb::Inspect.name() == "inspect"@,
        Verb::Exec.name() == "exec"@,
        Verb::Capture.name() == "capture"@,
        Verb::Input.name() == "input"@,
        Verb::Transfer.name() == "transfer"@,
        Verb::Lifecycle.name() == "lifecycle"@,
        Verb::Display.name() == "display"@,
        LifecycleAction::Suspend.name() == "suspend"@,
        LifecycleAction::Resume.name() == "resume"@,
        LifecycleAction::Snapshot.name() == "snapshot"@,
        LifecycleAction::Restore.name() == "restore"@,
        LifecycleAction::Shutdown.name() == "shutdown"@,
        DisplayAction::Show.name() == "show"@,
        DisplayAction::Hide.name() == "hide"@,
        DisplayAction::Status.name() == "status"@,
        DenialReason::VerbNotGranted.name() == "VerbNotGranted"@,
        DenialReason::PathOutsideRoots.name() == "PathOutsideRoots"@,
        DenialReason::ProgramNotAllowlisted.name() == "ProgramNotAllowlisted"@,
        DenialReason::NoTransferRoot.name() == "NoTransferRoot"@,
{
}

/// No two verbs share a name, no two actions do, and no two reasons do.
pub proof fn names_are_told_apart(
    a: Verb,
    b: Verb,
    c: LifecycleAction,
    d: LifecycleAction,
    e: DisplayAction,
    f: DisplayAction,
    g: DenialReason,
    h: DenialReason,
)
    ensures
        a.name() == b.name() ==> a == b,
        c.name() == d.name() ==> c == d,
        e.name() == f.name() ==> e == f,
        g.name() == h.name() ==> g == h,
{
    reveal_strlit("inspect");
    reveal_strlit("exec");
    reveal_strlit("capture");
    reveal_strlit("input");
    reveal_strlit("transfer");
    reveal_strlit("lifecycle");
    reveal_strlit("display");
    reveal_strlit("suspend");
    reveal_strlit("resume");
    reveal_strlit("snapshot");
    reveal_strlit("restore");
    reveal_strlit("shutdown");
    reveal_strlit("show");
    reveal_strlit("hide");
    reveal_strlit("status");
    reveal_strlit("VerbNotGranted");
    reveal_strlit("PathOutsideRoots");
    reveal_strlit("ProgramNotAllowlisted");
    reveal_strlit("NoTransferRoot");
    if a.name() == b.name() {
        assert(a.name()[0] == b.name()[0] && a.name()[2] == b.name()[2]);
    }
    if c.name() == d.name() {
        assert(c.name()[0] == d.name()[0] && c.name()[1] == d.name()[1] && c.name()[3]
            == d.name()[3]);
    }
    if e.name() == f.name() {
        assert(e.name()[0] == f.name()[0] && e.name()[1] == f.name()[1]);
    }
    if g.name() == h.name() {
        assert(g.name()[0] == h.name()[0] && g.name()[1] == h.name()[1]);
    }
}

/// A request that is made from its parts holds those parts, and a greeting holds the version that
/// this side speaks.
pub proof fn construction_keeps_the_parts(kind: RequestKind)
    ensures
        kind matches RequestKind::Hello { client } ==> kind.as_request() == (Request::Hello {
            protocol_version: 1,
            client,
        }),
        kind is Inspect ==> kind.as_request() is Inspect,
        kind matches RequestKind::Exec { program, args, cwd, require_allowlist, timeout_ms }
            ==> kind.as_request() == (Request::Exec {
            program,
            args,
            cwd,
            require_allowlist,
            timeout_ms,
        }),
        kind matches RequestKind::Capture { monitor } ==> kind.as_request() == (Request::Capture {
            monitor,
        }),
        kind matches RequestKind::Input { event } ==> kind.as_request() == (Request::Input {
            event,
        }),
        kind matches RequestKind::Transfer { direction, host_path, guest_path, overwrite }
            ==> kind.as_request() == (Request::Transfer {
            direction,
            host_path,
            guest_path,
            overwrite,
        }),
        kind matches RequestKind::Lifecycle { action } ==> kind.as_request() == (
        Request::Lifecycle { action }),
        kind matches RequestKind::Display { action } ==> kind.as_request() == (Request::Display {
            action,
        }),
{
}

/// A denial tells who was refused what, and why, in words that tell any two verbs and any two reasons
/// apart.
pub proof fn denials_say_who_what_and_why(denied: Denied)
    ensures
        denied.message() == "denied: subject="@ + denied.subject@ + " verb="@ + denied.verb.name()
            + " reason="@ + denied.reason.name(),
{
}

} // verus!
