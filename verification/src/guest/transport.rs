//! The seam between the wire protocol and the byte channel underneath it.
use crate::framing;
use crate::framing::{Cursor, FrameError};
use crate::text;
use vstd::prelude::*;
use vstd::string::*;

verus! {

/// Anything that can carry length-prefixed frames.
pub trait Connection {
    /// Receive one frame's payload.
    fn recv(&mut self) -> Result<Vec<u8>, TransportError>;

    /// Send one frame.
    fn send(&mut self, payload: &[u8]) -> Result<(), TransportError>;
}

/// Default bind address for the guest control channel: every interface, because the host's forward
/// arrives as an inbound connection on the guest's own network.
pub fn default_bind() -> (r: String)
    ensures
        r@ == "0.0.0.0:48273"@,
{
    text::own("0.0.0.0:48273")
}

/// A channel failure, with framing failures kept apart.
#[derive(Debug)]
pub enum TransportError {
    Closed,
    Frame(FrameError),
    Io(String),
}

impl TransportError {
    /// The message that describes the error.
    pub open spec fn message(self) -> Seq<char> {
        match self {
            TransportError::Closed => "peer closed the connection"@,
            TransportError::Frame(e) => "framing: "@ + e.message(),
            TransportError::Io(e) => "io: "@ + e@,
        }
    }

    /// Describes the error in words.
    pub fn to_string(&self) -> (r: String)
        ensures
            r@ == self.message(),
    {
        match self {
            TransportError::Closed => text::own("peer closed the connection"),
            TransportError::Frame(e) => text::cat2("framing: ", e.to_string().as_str()),
            TransportError::Io(e) => text::cat2("io: ", e.as_str()),
        }
    }
}

/// Write one frame, then read one: the shape of a handshake.
pub fn round_trip(outgoing: &mut Vec<u8>, incoming: &mut Cursor, payload: &[u8]) -> (r: Result<
    Vec<u8>,
    FrameError,
>)
    requires
        old(incoming).wf(),
    ensures
        final(incoming).wf(),
        payload@.len() > framing::MAX_FRAME_LEN ==> {
            &&& r matches Err(e) && e == (FrameError::TooLarge {
                declared: if payload@.len() > u32::MAX {
                    u32::MAX
                } else {
                    payload@.len() as u32
                },
                max: framing::MAX_FRAME_LEN,
            })
            &&& final(outgoing)@ == old(outgoing)@
            &&& final(incoming).rest() == old(incoming).rest()
        },
        payload@.len() <= framing::MAX_FRAME_LEN ==> {
            &&& final(outgoing)@ == old(outgoing)@ + framing::frame(payload@)
            &&& match r {
                Ok(reply) => framing::outcome(old(incoming).rest())
                    matches framing::Outcome::Payload { payload: expected, consumed } && reply@
                    == expected && final(incoming).rest() == old(incoming).rest().skip(
                    consumed as int,
                ),
                Err(e) => {
                    &&& framing::reports(e, framing::outcome(old(incoming).rest()))
                    &&& final(incoming).rest() == old(incoming).rest().skip(
                        if e is TooLarge {
                            4
                        } else {
                            old(incoming).rest().len() as int
                        },
                    )
                },
            }
        },
{
    if let Err(e) = framing::write_frame(outgoing, payload) {
        return Err(e);
    }
    framing::read_frame(incoming)
}

/// The address behind the first `--bind` in a list of arguments: what follows it, if anything does.
pub open spec fn bind_argument(args: Seq<Seq<char>>) -> Option<Seq<char>>
    decreases args.len(),
{
    if args.len() == 0 {
        None
    } else if args[0] == "--bind"@ {
        if args.len() > 1 {
            Some(args[1])
        } else {
            None
        }
    } else {
        bind_argument(args.skip(1))
    }
}

/// The address that `--bind <addr>` names in a list of arguments.
pub fn parse_bind(args: &[String]) -> (r: Option<String>)
    ensures
        text::opt_view(r) == bind_argument(text::views(args@)),
{
    let ghost all = text::views(args@);
    let mut i: usize = 0;
    assert(all.skip(0) == all);
    while i < args.len()
        invariant
            i <= args.len(),
            all == text::views(args@),
            bind_argument(all) == bind_argument(all.skip(i as int)),
        decreases args.len() - i,
    {
        assert(all.skip(i as int)[0] == args@[i as int]@);
        assert(all.skip(i as int).skip(1) == all.skip(i + 1));
        if text::same(args[i].as_str(), "--bind") {
            if i + 1 < args.len() {
                assert(all.skip(i as int)[1] == args@[i + 1]@);
                return Some(args[i + 1].clone());
            }
            return None;
        }
        i += 1;
    }
    None
}

/// The address to listen on is what stands directly after the first `--bind`, whatever stands before
/// or after the two; and there is none where `--bind` is missing or stands last.
pub proof fn the_first_bind_counts(before: Seq<Seq<char>>, rest: Seq<Seq<char>>, addr: Seq<char>)
    requires
        !before.contains("--bind"@),
    ensures
        bind_argument(before + seq!["--bind"@, addr] + rest) == Some(addr),
        bind_argument(before + seq!["--bind"@]) is None,
        bind_argument(before) is None,
    decreases before.len(),
{
    let whole = before + seq!["--bind"@, addr] + rest;
    let short = before + seq!["--bind"@];
    if before.len() > 0 {
        assert(before[0] != "--bind"@) by {
            assert(before.contains(before[0]));
        }
        assert(!before.skip(1).contains("--bind"@)) by {
            if before.skip(1).contains("--bind"@) {
                let k = choose|k: int| 0 <= k < before.skip(1).len() && before.skip(1)[k] == "--bind"@;
                assert(before[k + 1] == "--bind"@);
            }
        }
        the_first_bind_counts(before.skip(1), rest, addr);
        assert(whole.skip(1) =~= before.skip(1) + seq!["--bind"@, addr] + rest);
        assert(short.skip(1) =~= before.skip(1) + seq!["--bind"@]);
    }
}

/// How failures of a connection are told.
pub proof fn failures_are_told_so(e: FrameError, why: String)
    ensures
        TransportError::Closed.message() == "peer closed the connection"@,
        TransportError::Frame(e).message() == "framing: "@ + e.message(),
        TransportError::Io(why).message() == "io: "@ + why@,
{
}

} // verus!
