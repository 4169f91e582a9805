//! The host's side of the guest control channel: one request, one reply.
//!
//! The port reached is the host side of a user-mode forward, which completes a handshake before
//! anything is delivered. So a connection is no evidence that the guest is up; only a reply is.
use crate::framing::FrameError;
use crate::ipc::{Request, Response, PROTOCOL_VERSION};
use crate::text;
use vstd::prelude::*;
use vstd::string::*;

verus! {

/// How many seconds to wait for the guest to reply. It bounds a guest that has stalled, not one that
/// is busy.
pub const REPLY_TIMEOUT: u64 = 120;

/// What a caller is told when the channel cannot be connected.
pub fn unconnected(addr: &str) -> (r: String)
    ensures
        r@ == "connecting to the guest control channel at "@ + addr@,
{
    text::cat2("connecting to the guest control channel at ", addr)
}

/// What a caller is told when the connection was accepted and no reply came.
pub fn unanswered(e: &FrameError) -> (r: String)
    ensures
        r@ == "the guest accepted the connection but did not answer: "@ + e.message()
            + ".\nThe connect succeeding is not evidence the guest is up — QEMU's user-mode networking completes the handshake on the host's behalf before attempting delivery (D-008).\nCheck the guest service is running, and that a harness is not holding the port."@,
{
    let why = e.to_string();
    text::cat3(
        "the guest accepted the connection but did not answer: ",
        why.as_str(),
        ".\nThe connect succeeding is not evidence the guest is up — QEMU's user-mode networking completes the handshake on the host's behalf before attempting delivery (D-008).\nCheck the guest service is running, and that a harness is not holding the port.",
    )
}

/// The request that asks whether the guest is there at all.
pub fn liveness_request() -> (r: Request)
    ensures
        r matches Request::Hello { protocol_version, client } && protocol_version
            == PROTOCOL_VERSION && client@ == "wvm-liveness"@,
{
    Request::Hello { protocol_version: PROTOCOL_VERSION, client: text::own("wvm-liveness") }
}

/// A reply that says that the guest is there.
pub open spec fn is_alive(reply: Response) -> bool {
    reply is Ready
}

/// Whether a reply to that request says that the guest is there.
pub fn answering(reply: &Response) -> (r: bool)
    ensures
        r == (reply is Ready),
        r == is_alive(*reply),
{
    match reply {
        Response::Ready { .. } => true,
        _ => false,
    }
}

/// What became of the guest after its state was saved or restored.
#[derive(Debug, Clone, Copy, PartialEq, Eq, Structural)]
pub enum Aftermath {
    /// It did not answer before either, so nothing is claimed of it.
    Unclaimed,
    /// It answers.
    Answering,
    /// It answers again after a freeze long enough to be mentioned.
    Thawed,
    /// It did not answer in the time allowed. It may have crashed.
    Silent,
}

/// How many nanoseconds a guest may take to answer after its state was saved or restored.
pub const ANSWER_DEADLINE: u128 = 240_000_000_000;

/// How many nanoseconds a freeze has to last to be mentioned.
pub const NOTABLE_FREEZE: u128 = 20_000_000_000;

/// What became of a guest that answered after `waited` nanoseconds, or not at all in that time.
///
/// A save freezes the guest while the state is written, so a guest that does not answer at once is
/// normal; and a guest that was silent before is no evidence of the save.
pub open spec fn became(was_answering: bool, waited: nat) -> Aftermath {
    if !was_answering {
        Aftermath::Unclaimed
    } else if waited >= ANSWER_DEADLINE {
        Aftermath::Silent
    } else if waited > NOTABLE_FREEZE {
        Aftermath::Thawed
    } else {
        Aftermath::Answering
    }
}

/// Whether a guest is asked again after so many nanoseconds.
pub open spec fn is_asked_again(was_answering: bool, waited: nat) -> bool {
    was_answering && waited < ANSWER_DEADLINE
}

/// Whether a guest is asked again after `waited` nanoseconds: one that answered before, while there
/// is time left.
pub fn asks_again(was_answering: bool, waited: u128) -> (r: bool)
    ensures
        r == (was_answering && waited < ANSWER_DEADLINE),
        r == is_asked_again(was_answering, waited as nat),
        !r ==> became(was_answering, waited as nat) is Unclaimed || became(
            was_answering,
            waited as nat,
        ) is Silent,
{
    was_answering && waited < ANSWER_DEADLINE
}

/// What became of a guest that answered after `waited` nanoseconds, or not at all in that time.
pub fn aftermath(was_answering: bool, waited: u128) -> (r: Aftermath)
    ensures
        r == became(was_answering, waited as nat),
{
    if !was_answering {
        Aftermath::Unclaimed
    } else if waited >= ANSWER_DEADLINE {
        Aftermath::Silent
    } else if waited > NOTABLE_FREEZE {
        Aftermath::Thawed
    } else {
        Aftermath::Answering
    }
}

/// What is said of a guest after a restore, by how long it took to answer: nothing is claimed of one
/// that was not answering before, one is silent after four minutes and not before, and a freeze is
/// worth telling of only where it lasted more than twenty seconds. A longer wait never makes it better.
pub proof fn silence_is_told_by_the_wait(was_answering: bool, waited: nat, longer: nat)
    ensures
        became(was_answering, waited) is Unclaimed <==> !was_answering,
        became(was_answering, waited) is Silent <==> was_answering && waited >= 240_000_000_000,
        became(was_answering, waited) is Thawed <==> was_answering && 20_000_000_000 < waited
            < 240_000_000_000,
        became(was_answering, waited) is Answering <==> was_answering && waited <= 20_000_000_000,
        waited <= longer && became(was_answering, waited) is Silent ==> became(
            was_answering,
            longer,
        ) is Silent,
        waited <= longer && became(was_answering, longer) is Answering ==> became(
            was_answering,
            waited,
        ) is Answering,
{
}

/// Only a greeting that is answered as one is evidence of a guest: neither an error nor any other
/// reply is. A guest that was answering is asked for four minutes, and one that was not is not asked.
pub proof fn only_a_greeting_is_evidence(reply: Response, was_answering: bool, waited: nat)
    ensures
        is_alive(reply) <==> reply is Ready,
        reply is Error || reply is Success ==> !is_alive(reply),
        is_asked_again(was_answering, waited) <==> was_answering && waited < 240_000_000_000,
        was_answering ==> (is_asked_again(was_answering, waited) <==> !(became(
            was_answering,
            waited,
        ) is Silent)),
{
}

/// A reply is waited for no longer than two minutes, and a guest after a restore for twice as long.
pub proof fn replies_are_waited_for_this_long()
    ensures
        REPLY_TIMEOUT == 2 * 60,
        ANSWER_DEADLINE == 2 * REPLY_TIMEOUT * 1_000_000_000,
{
}

} // verus!
