//! A per-request deadline, so no single request can hold the control channel forever.
//!
//! The deadline is a backstop for a request that never returns, not a performance limit. It frees
//! the channel; it does not stop the abandoned work.
use crate::ipc::Response;
use crate::text;
use vstd::prelude::*;
use vstd::string::*;

verus! {

/// How long a request may occupy the loop, in seconds: fifteen minutes, longer than any bounded
/// operation that the protocol permits.
pub const DEFAULT_REQUEST_DEADLINE: u64 = 900;

/// The deadline, in seconds, that an override asks for: the number it holds when that is one above
/// zero, the default otherwise.
pub open spec fn deadline_for(raw: Option<Seq<char>>) -> nat {
    match raw {
        None => DEFAULT_REQUEST_DEADLINE as nat,
        Some(t) => match text::numeral_up_to(text::trimmed(t), u64::MAX as nat) {
            Some(secs) => if secs == 0 {
                DEFAULT_REQUEST_DEADLINE as nat
            } else {
                secs
            },
            None => DEFAULT_REQUEST_DEADLINE as nat,
        },
    }
}

/// The deadline in force, in seconds, given the value of the override variable if it is set.
///
/// An override that is absent, unparseable or zero falls back to the default: a malformed value
/// cannot remove the backstop.
pub fn request_deadline(raw: Option<&str>) -> (secs: u64)
    ensures
        secs == deadline_for(
            match raw {
                Some(t) => Some(t@),
                None => None,
            },
        ),
        secs > 0,
{
    match raw {
        None => DEFAULT_REQUEST_DEADLINE,
        Some(t) => match text::parse_u64(&text::trim(&text::to_chars(t))) {
            Some(secs) => if secs == 0 {
                DEFAULT_REQUEST_DEADLINE
            } else {
                secs
            },
            None => DEFAULT_REQUEST_DEADLINE,
        },
    }
}

/// What the host is told of a request that did not finish in time. The work is not stopped, and the
/// reply says so.
pub fn overrun_reply(secs: u64) -> (r: Response)
    ensures
        r matches Response::Error { message } && message@ == "the request did not finish within "@
            + text::decimal(secs as nat) + "s; the work may still be running"@,
{
    let shown = text::to_decimal(secs);
    Response::Error {
        message: text::cat3(
            "the request did not finish within ",
            shown.as_str(),
            "s; the work may still be running",
        ),
    }
}

/// A deadline is always there. It is the number of seconds that was written, white space around it
/// left out, and fifteen minutes where none was written, or none that is a number other than zero.
pub proof fn deadlines_are_as_written(raw: Seq<char>, n: nat)
    ensures
        deadline_for(Some(raw)) > 0,
        deadline_for(None) == 15 * 60,
        0 < n <= u64::MAX && text::trimmed(raw) == text::decimal(n) ==> deadline_for(Some(raw))
            == n,
        text::numeral(text::trimmed(raw)) is None ==> deadline_for(Some(raw)) == 15 * 60,
        text::numeral(text::trimmed(raw)) == Some(0nat) ==> deadline_for(Some(raw)) == 15 * 60,
        text::numeral(text::trimmed(raw)) is Some && text::numeral(text::trimmed(raw))->Some_0
            > u64::MAX ==> deadline_for(Some(raw)) == 15 * 60,
{
    text::numerals_read_back(n, 0);
}

} // verus!
