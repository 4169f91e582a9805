//! Running programs in the guest: quoting, outcomes and the decisions round a process.
use crate::text;
use vstd::prelude::*;
use vstd::string::*;

verus! {

// ---------------------------------------------------------------------------
// Outcomes
// ---------------------------------------------------------------------------

/// How a captured process ended.
#[derive(Debug, Clone, Copy, PartialEq, Eq, Structural)]
pub enum Outcome {
    /// Exited on its own with a status code.
    Exited { code: i32 },
    /// Still running when the deadline passed, and was killed. Not the same as a failure: the
    /// program ran too long.
    TimedOut { killed_after_ms: u64 },
}

impl Outcome {
    /// A program that succeeded.
    pub open spec fn succeeded(self) -> bool {
        self == (Outcome::Exited { code: 0 })
    }

    /// Whether the process completed successfully.
    pub fn is_success(&self) -> (r: bool)
        ensures
            r == (*self == (Outcome::Exited { code: 0 })),
            r == self.succeeded(),
    {
        match self {
            Outcome::Exited { code } => *code == 0,
            Outcome::TimedOut { .. } => false,
        }
    }
}

/// The result of running a program.
#[derive(Debug)]
pub struct Execution {
    pub outcome: Outcome,
    /// Captured standard output, decoded lossily.
    pub stdout: String,
    pub stderr: String,
    /// Wall-clock duration, for the caller to reason about timeouts.
    pub elapsed_ms: u64,
}

/// Default timeout when the caller does not give one: ten minutes.
pub const DEFAULT_TIMEOUT_MS: u64 = 600_000;

/// What to do about a process that was just looked at.
#[derive(Debug, Clone, Copy, PartialEq, Eq, Structural)]
pub enum Poll {
    /// It ended with this code.
    Exited { code: i32 },
    /// It has run too long: kill it.
    Kill,
    /// Look again a little later.
    Wait,
}

/// What to do about a process: `status` is there once it has ended, and holds its exit code where it
/// has one. A process that has not ended is waited for until its time is up.
pub open spec fn polled(status: Option<Option<i32>>, elapsed_ms: u64, timeout_ms: u64) -> Poll {
    match status {
        Some(Some(code)) => Poll::Exited { code },
        Some(None) => Poll::Exited { code: (-1) as i32 },
        None => if elapsed_ms >= timeout_ms {
            Poll::Kill
        } else {
            Poll::Wait
        },
    }
}

/// Decide about a process: `status` is `None` while it runs, and holds the exit code, if it left
/// one, once it ended. A process that ended without a status counts as -1, never as success.
pub fn poll(status: Option<Option<i32>>, elapsed_ms: u64, timeout_ms: u64) -> (r: Poll)
    ensures
        r == polled(status, elapsed_ms, timeout_ms),
{
    match status {
        Some(Some(code)) => Poll::Exited { code },
        Some(None) => Poll::Exited { code: -1 },
        None => if elapsed_ms >= timeout_ms {
            Poll::Kill
        } else {
            Poll::Wait
        },
    }
}

/// What running a program is refused with where there is no platform layer.
pub open spec fn run_absent() -> Seq<char> {
    "the Win32 execution layer is only present in a Windows build of wvm-guest; this binary was built for the host, where it exists to be type-checked and tested rather than run"@
}

/// Run a program, in a build without the platform layer: refused, never a made-up result.
pub fn run(
    _program: &str,
    _args: &[String],
    _cwd: Option<&str>,
    _timeout_ms: u64,
) -> (r: Result<Execution, String>)
    ensures
        r matches Err(e) && e@ == run_absent(),
{
    Err(
        text::own(
            "the Win32 execution layer is only present in a Windows build of wvm-guest; this binary was built for the host, where it exists to be type-checked and tested rather than run",
        ),
    )
}

/// What a pipe held, as text.
pub open spec fn piped(pipe: Option<Seq<u8>>) -> Seq<char> {
    match pipe {
        None => Seq::empty(),
        Some(bytes) => text::lossy(bytes),
    }
}

/// The text of what came out of a captured pipe, decoded lossily: a stray byte is marked, not fatal.
/// No pipe gives no text.
pub fn read_pipe(pipe: Option<&[u8]>) -> (r: String)
    ensures
        match pipe {
            None => r@.len() == 0,
            Some(bytes) => r@ == text::lossy(bytes@) && (vstd::utf8::valid_utf8(bytes@) ==> r@
                == vstd::utf8::decode_utf8(bytes@)),
        },
        r@ == piped(
            match pipe {
                Some(bytes) => Some(bytes@),
                None => None,
            },
        ),
{
    match pipe {
        None => String::new(),
        Some(bytes) => text::from_utf8_lossy(bytes),
    }
}

// ---------------------------------------------------------------------------
// Quoting
// ---------------------------------------------------------------------------

/// `n` backslashes.
pub open spec fn slashes(n: nat) -> Seq<char> {
    Seq::new(n, |i: int| '\\')
}

/// Characters that make quoting necessary.
pub open spec fn is_special(c: char) -> bool {
    c == ' ' || c == '\t' || c == '"' || c == '\n' || c == '\u{0b}'
}

/// An argument that has to be quoted: an empty one, or one with a special character.
pub open spec fn needs_quoting(arg: Seq<char>) -> bool {
    arg.len() == 0 || exists|i: int| 0 <= i < arg.len() && is_special(#[trigger] arg[i])
}

/// The inside of a quoted argument, with `pending` backslashes read before it: backslashes before a
/// quote are doubled and the quote escaped, those before the closing quote are doubled, others stay.
pub open spec fn escaped(s: Seq<char>, pending: nat) -> Seq<char>
    decreases s.len(),
{
    if s.len() == 0 {
        slashes(pending * 2)
    } else if s[0] == '\\' {
        escaped(s.skip(1), pending + 1)
    } else if s[0] == '"' {
        slashes(pending * 2 + 1) + seq!['"'] + escaped(s.skip(1), 0)
    } else {
        slashes(pending) + seq![s[0]] + escaped(s.skip(1), 0)
    }
}

/// An argument as it stands on the command line.
pub open spec fn quoted(arg: Seq<char>) -> Seq<char> {
    if needs_quoting(arg) {
        seq!['"'] + escaped(arg, 0) + seq!['"']
    } else {
        arg
    }
}

fn push_slashes(out: &mut String, n: usize)
    ensures
        final(out)@ == old(out)@ + slashes(n as nat),
{
    let mut i: usize = 0;
    assert(out@ == old(out)@ + slashes(0));
    while i < n
        invariant
            i <= n,
            out@ == old(out)@ + slashes(i as nat),
        decreases n - i,
    {
        out.push('\\');
        assert(slashes(i as nat).push('\\') == slashes((i + 1) as nat));
        assert(out@ == old(out)@ + slashes((i + 1) as nat));
        i += 1;
    }
}

/// Quote a single argument for the Windows command line, so that it survives being read back.
pub fn quote_arg(arg: &str) -> (r: String)
    ensures
        r@ == quoted(arg@),
{
    let chars = text::to_chars(arg);
    let mut special: bool = chars.len() == 0;
    let mut k: usize = 0;
    while k < chars.len()
        invariant
            chars@ == arg@,
            k <= chars.len(),
            special == (chars.len() == 0 || exists|i: int|
                0 <= i < k && is_special(#[trigger] chars@[i])),
        decreases chars.len() - k,
    {
        let c: char = chars[k];
        if c == ' ' || c == '\t' || c == '"' || c == '\n' || c == '\u{0b}' {
            assert(is_special(chars@[k as int]));
            special = true;
        }
        k += 1;
    }
    if !special {
        return text::own(arg);
    }
    let mut out = String::new();
    out.push('"');
    let mut backslashes: usize = 0;
    let mut i: usize = 0;
    assert(chars@.skip(0) == chars@);
    assert(out@ == seq!['"']);
    while i < chars.len()
        invariant
            chars@ == arg@,
            i <= chars.len(),
            backslashes <= i,
            seq!['"'] + escaped(chars@, 0) == out@ + escaped(
                chars@.skip(i as int),
                backslashes as nat,
            ),
        decreases chars.len() - i,
    {
        let ch: char = chars[i];
        let ghost rest = chars@.skip(i as int);
        let ghost before = out@;
        assert(rest[0] == ch);
        assert(rest.skip(1) == chars@.skip(i + 1));
        if ch == '\\' {
            backslashes = backslashes + 1;
        } else if ch == '"' {
            push_slashes(&mut out, backslashes);
            push_slashes(&mut out, backslashes);
            out.push('\\');
            proof {
                let n = backslashes as nat;
                assert(slashes(n) + slashes(n) + seq!['\\'] == slashes(n * 2 + 1));
                assert(out@ == before + slashes(n * 2 + 1));
            }
            out.push('"');
            proof {
                let n = backslashes as nat;
                assert(out@ + escaped(rest.skip(1), 0) == before + (slashes(n * 2 + 1) + seq!['"']
                    + escaped(rest.skip(1), 0)));
            }
            backslashes = 0;
        } else {
            push_slashes(&mut out, backslashes);
            out.push(ch);
            proof {
                let n = backslashes as nat;
                assert(out@ + escaped(rest.skip(1), 0) == before + (slashes(n) + seq![ch] + escaped(
                    rest.skip(1),
                    0,
                )));
            }
            backslashes = 0;
        }
        i += 1;
    }
    let ghost before = out@;
    push_slashes(&mut out, backslashes);
    push_slashes(&mut out, backslashes);
    proof {
        let n = backslashes as nat;
        assert(slashes(n) + slashes(n) == slashes(n * 2));
        assert(out@ == before + slashes(n * 2));
    }
    out.push('"');
    assert(out@ == seq!['"'] + escaped(chars@, 0) + seq!['"']);
    out
}

/// A program and its arguments as one list.
pub open spec fn words(program: Seq<char>, args: Seq<Seq<char>>) -> Seq<Seq<char>> {
    seq![program] + args
}

/// The command line of a list of words: each quoted, with a space between each two.
pub open spec fn command_line(words: Seq<Seq<char>>) -> Seq<char> {
    text::joined(words.map_values(|w: Seq<char>| quoted(w)), " "@)
}

/// Build a full command line from a program and its arguments.
pub fn build_command_line(program: &str, args: &[String]) -> (r: String)
    ensures
        r@ == command_line(words(program@, text::views(args@))),
{
    let mut parts: Vec<String> = Vec::new();
    parts.push(quote_arg(program));
    let ghost all = words(program@, text::views(args@)).map_values(|w: Seq<char>| quoted(w));
    let mut i: usize = 0;
    assert(text::views(parts@) =~= all.take(1));
    while i < args.len()
        invariant
            i <= args.len(),
            all == words(program@, text::views(args@)).map_values(|w: Seq<char>| quoted(w)),
            text::views(parts@) == all.take(i + 1),
        decreases args.len() - i,
    {
        let part = quote_arg(args[i].as_str());
        proof {
            text::views_push(parts@, part);
            assert(all.take(i + 2) == all.take(i + 1).push(all[i + 1]));
            assert(all[i + 1] == quoted(args@[i as int]@));
        }
        parts.push(part);
        i += 1;
    }
    assert(all.take(all.len() as int) == all);
    text::join(parts.as_slice(), " ")
}

// ---------------------------------------------------------------------------
// Laws
// ---------------------------------------------------------------------------

/// How the C runtime reads one argument from the front of a command line: the argument, and what is
/// left. Backslashes are literal unless a quote follows; before a quote each two stand for one, and
/// an odd one makes the quote literal. A quote that is not literal opens or closes quoting, and a
/// space or tab outside quotes ends the argument.
pub open spec fn parsed_arg(s: Seq<char>, in_quotes: bool, pending: nat) -> (Seq<char>, Seq<char>)
    decreases s.len(),
{
    if s.len() == 0 {
        (slashes(pending), s)
    } else if s[0] == '\\' {
        parsed_arg(s.skip(1), in_quotes, pending + 1)
    } else if s[0] == '"' {
        if pending % 2 == 0 {
            let (tail, rest) = parsed_arg(s.skip(1), !in_quotes, 0);
            (slashes(pending / 2) + tail, rest)
        } else {
            let (tail, rest) = parsed_arg(s.skip(1), in_quotes, 0);
            (slashes(pending / 2) + seq!['"'] + tail, rest)
        }
    } else if !in_quotes && (s[0] == ' ' || s[0] == '\t') {
        (slashes(pending), s)
    } else {
        let (tail, rest) = parsed_arg(s.skip(1), in_quotes, 0);
        (slashes(pending) + seq![s[0]] + tail, rest)
    }
}

/// How the C runtime reads a whole command line: arguments, with spaces and tabs between them.
pub open spec fn parsed_line(s: Seq<char>) -> Seq<Seq<char>>
    decreases s.len(),
    via parsed_line_decreases
{
    if s.len() == 0 {
        seq![]
    } else if s[0] == ' ' || s[0] == '\t' {
        parsed_line(s.skip(1))
    } else {
        let (arg, rest) = parsed_arg(s, false, 0);
        seq![arg] + parsed_line(rest)
    }
}

#[via_fn]
proof fn parsed_line_decreases(s: Seq<char>) {
    if s.len() > 0 && !(s[0] == ' ' || s[0] == '\t') {
        parsed_arg_shrinks(s, false, 0);
        if s[0] == '\\' {
            parsed_arg_shrinks(s.skip(1), false, 1);
        } else if s[0] == '"' {
            parsed_arg_shrinks(s.skip(1), true, 0);
        } else {
            parsed_arg_shrinks(s.skip(1), false, 0);
        }
    }
}

proof fn parsed_arg_shrinks(s: Seq<char>, in_quotes: bool, pending: nat)
    ensures
        parsed_arg(s, in_quotes, pending).1.len() <= s.len(),
    decreases s.len(),
{
    if s.len() > 0 {
        if s[0] == '\\' {
            parsed_arg_shrinks(s.skip(1), in_quotes, pending + 1);
        } else {
            parsed_arg_shrinks(s.skip(1), !in_quotes, 0);
            parsed_arg_shrinks(s.skip(1), in_quotes, 0);
        }
    }
}

proof fn parsed_slashes(n: nat, t: Seq<char>, in_quotes: bool, pending: nat)
    ensures
        parsed_arg(slashes(n) + t, in_quotes, pending) == parsed_arg(t, in_quotes, pending + n),
    decreases n,
{
    if n > 0 {
        let s = slashes(n) + t;
        assert(s[0] == '\\');
        assert(s.skip(1) == slashes((n - 1) as nat) + t);
        parsed_slashes((n - 1) as nat, t, in_quotes, pending + 1);
    } else {
        assert(slashes(0) + t == t);
    }
}

/// The end of an argument: the end of the line, or a space.
pub open spec fn at_boundary(rest: Seq<char>) -> bool {
    rest.len() == 0 || rest[0] == ' '
}

proof fn parsed_escaped(a: Seq<char>, k: nat, rest: Seq<char>)
    requires
        at_boundary(rest),
    ensures
        parsed_arg(escaped(a, k) + seq!['"'] + rest, true, 0) == (slashes(k) + a, rest),
    decreases a.len(),
{
    let tail = seq!['"'] + rest;
    let whole = escaped(a, k) + seq!['"'] + rest;
    if a.len() == 0 {
        assert(whole == slashes(k * 2) + tail);
        parsed_slashes(k * 2, tail, true, 0);
        assert(tail.skip(1) == rest);
        assert(slashes(0) == Seq::<char>::empty());
        assert(slashes(k) + Seq::<char>::empty() == slashes(k) + a);
        assert(parsed_arg(rest, false, 0) == (Seq::<char>::empty(), rest));
    } else if a[0] == '\\' {
        parsed_escaped(a.skip(1), k + 1, rest);
        assert(slashes(k + 1) + a.skip(1) == slashes(k) + a);
    } else if a[0] == '"' {
        let inner = escaped(a.skip(1), 0) + seq!['"'] + rest;
        parsed_escaped(a.skip(1), 0, rest);
        assert(whole == slashes(k * 2 + 1) + (seq!['"'] + inner));
        parsed_slashes(k * 2 + 1, seq!['"'] + inner, true, 0);
        assert((seq!['"'] + inner).skip(1) == inner);
        assert(slashes(k) + seq!['"'] + (slashes(0) + a.skip(1)) == slashes(k) + a);
    } else {
        let inner = escaped(a.skip(1), 0) + seq!['"'] + rest;
        parsed_escaped(a.skip(1), 0, rest);
        assert(whole == slashes(k) + (seq![a[0]] + inner));
        parsed_slashes(k, seq![a[0]] + inner, true, 0);
        assert((seq![a[0]] + inner).skip(1) == inner);
        assert(slashes(k) + seq![a[0]] + (slashes(0) + a.skip(1)) == slashes(k) + a);
    }
}

proof fn parsed_plain(a: Seq<char>, k: nat, rest: Seq<char>)
    requires
        at_boundary(rest),
        forall|i: int| 0 <= i < a.len() ==> !is_special(#[trigger] a[i]),
    ensures
        parsed_arg(a + rest, false, k) == (slashes(k) + a, rest),
    decreases a.len(),
{
    if a.len() == 0 {
        assert(a + rest == rest);
        assert(slashes(k) + a == slashes(k));
    } else {
        let whole = a + rest;
        assert(!is_special(a[0]));
        assert(whole.skip(1) == a.skip(1) + rest);
        assert forall|i: int| 0 <= i < a.skip(1).len() implies !is_special(
            #[trigger] a.skip(1)[i],
        ) by {
            assert(!is_special(a[i + 1]));
        }
        if a[0] == '\\' {
            parsed_plain(a.skip(1), k + 1, rest);
            assert(slashes(k + 1) + a.skip(1) == slashes(k) + a);
        } else {
            parsed_plain(a.skip(1), 0, rest);
            assert(slashes(k) + seq![a[0]] + (slashes(0) + a.skip(1)) == slashes(k) + a);
        }
    }
}

/// A quoted argument is read back as exactly that argument, and reading stops behind it.
pub proof fn quoting_round_trip(arg: Seq<char>, rest: Seq<char>)
    requires
        at_boundary(rest),
    ensures
        parsed_arg(quoted(arg) + rest, false, 0) == (arg, rest),
        quoted(arg).len() > 0,
        quoted(arg)[0] != ' ' && quoted(arg)[0] != '\t',
{
    assert(slashes(0) + arg == arg);
    if needs_quoting(arg) {
        let inner = escaped(arg, 0) + seq!['"'] + rest;
        parsed_escaped(arg, 0, rest);
        assert(quoted(arg) + rest == seq!['"'] + inner);
        assert((seq!['"'] + inner).skip(1) == inner);
        assert(slashes(0) + arg == arg);
    } else {
        parsed_plain(arg, 0, rest);
        assert(!is_special(arg[0]));
    }
}

/// A command line is read back as exactly the program and the arguments it was built from.
pub proof fn command_line_round_trip(words: Seq<Seq<char>>)
    ensures
        parsed_line(command_line(words)) == words,
    decreases words.len(),
{
    reveal_strlit(" ");
    let q = words.map_values(|w: Seq<char>| quoted(w));
    let empty = Seq::<char>::empty();
    if words.len() == 0 {
        assert(words == Seq::<Seq<char>>::empty());
    } else {
        let more = words.skip(1);
        command_line_round_trip(more);
        assert(q.skip(1) == more.map_values(|w: Seq<char>| quoted(w)));
        let rest = if words.len() == 1 {
            empty
        } else {
            " "@ + command_line(more)
        };
        if words.len() == 1 {
            assert(command_line(words) == quoted(words[0]));
            assert(quoted(words[0]) + rest == quoted(words[0]));
            assert(more == Seq::<Seq<char>>::empty());
        } else {
            text::joined_from_front(q, " "@);
            assert(command_line(words) == quoted(words[0]) + rest);
            assert(rest.skip(1) == command_line(more));
            assert(rest[0] == ' ');
        }
        quoting_round_trip(words[0], rest);
        assert(parsed_line(rest) == more);
        assert((quoted(words[0]) + rest)[0] == quoted(words[0])[0]);
        assert(seq![words[0]] + more == words);
    }
}

/// A process is killed only while it has not ended and only once its time is up, and one that has
/// ended is never killed or waited for: it counts by its own code, however long it took. More time
/// never turns a wait into a kill.
pub proof fn processes_are_killed_only_when_time_is_up(
    status: Option<Option<i32>>,
    elapsed_ms: u64,
    timeout_ms: u64,
    longer_ms: u64,
    code: i32,
)
    ensures
        polled(status, elapsed_ms, timeout_ms) is Kill <==> status is None && elapsed_ms
            >= timeout_ms,
        polled(status, elapsed_ms, timeout_ms) is Wait <==> status is None && elapsed_ms
            < timeout_ms,
        polled(status, elapsed_ms, timeout_ms) is Exited <==> status is Some,
        polled(Some(Some(code)), elapsed_ms, timeout_ms) == (Poll::Exited { code }),
        polled(Some(None), elapsed_ms, timeout_ms) == (Poll::Exited { code: (-1) as i32 }),
        longer_ms >= timeout_ms && polled(status, elapsed_ms, timeout_ms) is Wait ==> polled(
            status,
            elapsed_ms,
            longer_ms,
        ) is Wait,
{
}

/// An argument is written as it is exactly where it is not empty and holds no space, tab, quotation
/// mark, newline or vertical tab. Any other is put between quotation marks.
pub proof fn plain_arguments_stand_as_they_are(arg: Seq<char>)
    ensures
        quoted(arg) == arg <==> arg.len() > 0 && forall|i: int|
            0 <= i < arg.len() ==> #[trigger] arg[i] != ' ' && arg[i] != '\t' && arg[i] != '"'
                && arg[i] != '\n' && arg[i] != '\u{0b}',
        quoted(arg) != arg ==> quoted(arg).len() >= arg.len() + 2 && quoted(arg)[0] == '"'
            && quoted(arg).last() == '"',
{
    if needs_quoting(arg) {
        escaping_shortens_nothing(arg, 0);
        assert(quoted(arg).len() >= arg.len() + 2);
        if arg.len() > 0 {
            let k = choose|i: int| 0 <= i < arg.len() && is_special(#[trigger] arg[i]);
            assert(is_special(arg[k]));
        }
    } else {
        assert forall|i: int| 0 <= i < arg.len() implies #[trigger] arg[i] != ' ' && arg[i] != '\t'
            && arg[i] != '"' && arg[i] != '\n' && arg[i] != '\u{0b}' by {
            assert(!is_special(arg[i]));
        }
    }
}

proof fn escaping_shortens_nothing(s: Seq<char>, pending: nat)
    ensures
        escaped(s, pending).len() >= s.len() + pending,
    decreases s.len(),
{
    if s.len() > 0 {
        if s[0] == '\\' {
            escaping_shortens_nothing(s.skip(1), pending + 1);
        } else {
            escaping_shortens_nothing(s.skip(1), 0);
        }
    }
}

/// A program succeeded exactly where it ended on its own with code zero: one that was stopped never
/// did, however long it ran.
pub proof fn stopped_programs_never_succeed(outcome: Outcome, code: i32, killed_after_ms: u64)
    ensures
        outcome.succeeded() ==> outcome is Exited,
        (Outcome::Exited { code }).succeeded() <==> code == 0,
        !(Outcome::TimedOut { killed_after_ms }).succeeded(),
{
}

/// What a program wrote is told whole, and a pipe that was not there as nothing.
pub proof fn pipes_are_read_whole(bytes: Seq<u8>)
    ensures
        piped(None).len() == 0,
        piped(Some(bytes)) == text::lossy(bytes),
{
}

} // verus!
