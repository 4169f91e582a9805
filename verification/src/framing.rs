//! Length-prefixed framing for the control channel.
//!
//! A frame is a four-byte big-endian length followed by that many payload bytes. The length counts
//! the payload only. Anything longer than [`MAX_FRAME_LEN`] is refused before memory is reserved
//! for it.
//!
//! Nothing here touches a socket: [`FrameReader`] says how many bytes it can take next, and whoever
//! owns the transport hands it what arrived.
use crate::text;
use vstd::prelude::*;
use vstd::slice::*;

verus! {

/// Largest payload accepted, in bytes: 64 MiB.
pub const MAX_FRAME_LEN: u32 = 67_108_864;

/// Why a frame could not be read or written.
#[derive(Debug)]
pub enum FrameError {
    /// The peer closed the connection cleanly at a message boundary.
    Closed,
    /// The peer closed mid-message, or the payload was shorter than its header claimed.
    Truncated { expected: u32, got: usize },
    /// The header declared a payload larger than [`MAX_FRAME_LEN`].
    TooLarge { declared: u32, max: u32 },
    /// Underlying transport failure, as the transport words it.
    Io(String),
}

impl FrameError {
    /// The message that describes a frame error.
    pub open spec fn message(self) -> Seq<char> {
        match self {
            FrameError::Closed => "connection closed"@,
            FrameError::Truncated { expected, got } => "truncated frame: header said "@
                + text::decimal(expected as nat) + " bytes, read "@ + text::decimal(got as nat),
            FrameError::TooLarge { declared, max } => "frame too large: "@ + text::decimal(
                declared as nat,
            ) + " bytes exceeds maximum "@ + text::decimal(max as nat),
            FrameError::Io(e) => "io error: "@ + e@,
        }
    }

    /// Describes the error in words.
    pub fn to_string(&self) -> (r: String)
        ensures
            r@ == self.message(),
    {
        match self {
            FrameError::Closed => text::own("connection closed"),
            FrameError::Truncated { expected, got } => text::cat4(
                "truncated frame: header said ",
                text::to_decimal(*expected as u64).as_str(),
                " bytes, read ",
                text::to_decimal(*got as u64).as_str(),
            ),
            FrameError::TooLarge { declared, max } => text::cat4(
                "frame too large: ",
                text::to_decimal(*declared as u64).as_str(),
                " bytes exceeds maximum ",
                text::to_decimal(*max as u64).as_str(),
            ),
            FrameError::Io(e) => text::cat2("io error: ", e.as_str()),
        }
    }
}

// ---------------------------------------------------------------------------
// The format
// ---------------------------------------------------------------------------

/// A 32-bit number as four bytes, the most significant first.
pub open spec fn big_endian(n: u32) -> Seq<u8> {
    seq![
        (n / 0x100_0000) as u8,
        (n / 0x1_0000 % 256) as u8,
        (n / 256 % 256) as u8,
        (n % 256) as u8,
    ]
}

/// The number that four bytes stand for, the most significant first.
pub open spec fn from_big_endian(b: Seq<u8>) -> u32 {
    (b[0] * 0x100_0000 + b[1] * 0x1_0000 + b[2] * 256 + b[3]) as u32
}

/// The bytes of one frame.
pub open spec fn frame(payload: Seq<u8>) -> Seq<u8> {
    big_endian(payload.len() as u32) + payload
}

/// What reading one frame from a byte stream that then ends comes to.
pub enum Outcome {
    /// A payload, and how many bytes of the stream it took.
    Payload { payload: Seq<u8>, consumed: nat },
    /// The stream was empty.
    Closed,
    /// The stream ended early.
    Truncated { expected: u32, got: nat },
    /// The header declared too long a payload.
    TooLarge { declared: u32 },
}

/// The outcome of reading one frame from `stream`, which holds everything up to its end.
pub open spec fn outcome(stream: Seq<u8>) -> Outcome {
    if stream.len() == 0 {
        Outcome::Closed
    } else if stream.len() < 4 {
        Outcome::Truncated { expected: 4, got: stream.len() }
    } else {
        let declared = from_big_endian(stream);
        if declared > MAX_FRAME_LEN {
            Outcome::TooLarge { declared }
        } else if stream.len() < 4 + declared {
            Outcome::Truncated { expected: declared, got: (stream.len() - 4) as nat }
        } else {
            Outcome::Payload {
                payload: stream.subrange(4, 4 + declared),
                consumed: (4 + declared) as nat,
            }
        }
    }
}

/// A frame error says what the outcome was.
pub open spec fn reports(e: FrameError, o: Outcome) -> bool {
    match e {
        FrameError::Closed => o == Outcome::Closed,
        FrameError::Truncated { expected, got } => o == (Outcome::Truncated {
            expected,
            got: got as nat,
        }),
        FrameError::TooLarge { declared, max } => o == (Outcome::TooLarge { declared }) && max
            == MAX_FRAME_LEN,
        FrameError::Io(_) => false,
    }
}

// ---------------------------------------------------------------------------
// Writing
// ---------------------------------------------------------------------------

/// Whether a payload of so many bytes can be sent.
pub open spec fn can_be_sent(len: nat) -> bool {
    len <= MAX_FRAME_LEN
}

/// Append one length-prefixed message to `w`.
///
/// A payload over the limit is refused and nothing is written, so a caller that exceeds it cannot
/// leave the peer reading a header it will never satisfy.
pub fn write_frame(w: &mut Vec<u8>, payload: &[u8]) -> (r: Result<(), FrameError>)
    ensures
        payload@.len() <= MAX_FRAME_LEN <==> r is Ok,
        can_be_sent(payload@.len()) <==> r is Ok,
        r is Ok ==> final(w)@ == old(w)@ + frame(payload@),
        r is Err ==> final(w)@ == old(w)@,
        r matches Err(e) ==> e == (FrameError::TooLarge {
            declared: if payload@.len() > u32::MAX {
                u32::MAX
            } else {
                payload@.len() as u32
            },
            max: MAX_FRAME_LEN,
        }),
{
    let size: u64 = payload.len() as u64;
    if size > 0xffff_ffff {
        return Err(FrameError::TooLarge { declared: 0xffff_ffff, max: MAX_FRAME_LEN });
    }
    let len: u32 = size as u32;
    if len > MAX_FRAME_LEN {
        return Err(FrameError::TooLarge { declared: len, max: MAX_FRAME_LEN });
    }
    let ghost before = w@;
    w.push((len / 0x100_0000) as u8);
    w.push((len / 0x1_0000 % 256) as u8);
    w.push((len / 256 % 256) as u8);
    w.push((len % 256) as u8);
    assert(w@ == before + big_endian(len));
    w.extend_from_slice(payload);
    assert(w@ == before + frame(payload@));
    Ok(())
}

// ---------------------------------------------------------------------------
// Reading
// ---------------------------------------------------------------------------

/// A frame being read, piece by piece.
pub struct FrameReader {
    header: Vec<u8>,
    payload: Vec<u8>,
    declared: u32,
}

impl FrameReader {
    /// The bytes taken so far, header first.
    pub closed spec fn seen(self) -> Seq<u8> {
        self.header@ + self.payload@
    }

    /// The header is whole and within the limit before any payload byte is taken, and no more is
    /// taken than it declares.
    pub closed spec fn wf(self) -> bool {
        &&& self.header@.len() <= 4
        &&& self.header@.len() < 4 ==> self.payload@.len() == 0
        &&& self.header@.len() == 4 ==> {
            &&& self.declared == from_big_endian(self.header@)
            &&& self.declared <= MAX_FRAME_LEN
            &&& self.payload@.len() <= self.declared
        }
    }

    /// How many more bytes this frame takes, as far as what was seen shows: the rest of the header
    /// first, then the rest of the payload.
    pub open spec fn missing(self) -> nat {
        if self.seen().len() < 4 {
            (4 - self.seen().len()) as nat
        } else {
            (4 + from_big_endian(self.seen()) - self.seen().len()) as nat
        }
    }

    /// A reader that has seen nothing yet.
    pub fn new() -> (r: FrameReader)
        ensures
            r.wf(),
            r.seen() == Seq::<u8>::empty(),
    {
        let r = FrameReader { header: Vec::new(), payload: Vec::new(), declared: 0 };
        assert(r.seen() == Seq::<u8>::empty());
        r
    }

    /// The most bytes that the next read may bring; zero when the frame is complete.
    pub fn wanted(&self) -> (n: usize)
        requires
            self.wf(),
        ensures
            n == self.missing(),
            n == 0 ==> outcome(self.seen()) == (Outcome::Payload {
                payload: self.seen().skip(4),
                consumed: self.seen().len(),
            }),
    {
        let ghost seen = self.seen();
        if self.header.len() < 4 {
            4 - self.header.len()
        } else {
            assert(from_big_endian(seen) == from_big_endian(self.header@));
            assert(seen.subrange(4, seen.len() as int) == seen.skip(4));
            self.declared as usize - self.payload.len()
        }
    }

    /// Take bytes that arrived: at least one, and no more than are wanted. A header that declares
    /// too long a payload is refused as soon as it is whole.
    pub fn feed(&mut self, bytes: &[u8]) -> (r: Result<(), FrameError>)
        requires
            old(self).wf(),
            0 < bytes@.len() <= old(self).missing(),
        ensures
            match r {
                Ok(()) => {
                    &&& final(self).wf()
                    &&& final(self).seen() == old(self).seen() + bytes@
                },
                Err(e) => {
                    &&& (old(self).seen() + bytes@).len() == 4
                    &&& from_big_endian(old(self).seen() + bytes@) > MAX_FRAME_LEN
                    &&& reports(e, outcome(old(self).seen() + bytes@))
                },
            },
            r is Ok <==> !((old(self).seen() + bytes@).len() == 4 && from_big_endian(
                old(self).seen() + bytes@,
            ) > MAX_FRAME_LEN),
    {
        let ghost before = self.seen();
        if self.header.len() < 4 {
            assert(before == self.header@);
            self.header.extend_from_slice(bytes);
            assert(self.header@ == before + bytes@);
            assert(self.seen() == before + bytes@);
            if self.header.len() == 4 {
                let len: u32 = self.header[0] as u32 * 0x100_0000 + self.header[1] as u32 * 0x1_0000
                    + self.header[2] as u32 * 256 + self.header[3] as u32;
                if len > MAX_FRAME_LEN {
                    return Err(FrameError::TooLarge { declared: len, max: MAX_FRAME_LEN });
                }
                self.declared = len;
            }
        } else {
            assert(from_big_endian(before) == from_big_endian(self.header@));
            self.payload.extend_from_slice(bytes);
            assert(self.seen() == before + bytes@);
        }
        Ok(())
    }

    /// The stream ended before the frame was complete: a clean close when nothing of the frame had
    /// arrived, a truncation otherwise.
    pub fn ended(&self) -> (e: FrameError)
        requires
            self.wf(),
            self.missing() > 0,
        ensures
            reports(e, outcome(self.seen())),
    {
        assert(self.header@.len() == 4 ==> from_big_endian(self.seen()) == from_big_endian(
            self.header@,
        ));
        if self.header.len() == 0 {
            FrameError::Closed
        } else if self.header.len() < 4 {
            FrameError::Truncated { expected: 4, got: self.header.len() }
        } else {
            FrameError::Truncated { expected: self.declared, got: self.payload.len() }
        }
    }

    /// The payload of a complete frame.
    pub fn finish(self) -> (r: Vec<u8>)
        requires
            self.wf(),
            self.missing() == 0,
        ensures
            r@ == self.seen().skip(4),
            outcome(self.seen()) == (Outcome::Payload { payload: r@, consumed: self.seen().len() }),
    {
        let ghost seen = self.seen();
        assert(from_big_endian(seen) == from_big_endian(self.header@));
        assert(seen.subrange(4, seen.len() as int) == self.payload@);
        assert(seen.skip(4) == self.payload@);
        self.payload
    }

    /// What to put in a diagnostic log when a read fails part-way through a payload.
    pub fn failure_note(&self, error: &str) -> (r: Option<String>)
        requires
            self.wf(),
        ensures
            match r {
                None => self.seen().len() < 4,
                Some(t) => self.seen().len() >= 4 && t@ == "read failed after "@ + text::decimal(
                    (self.seen().len() - 4) as nat,
                ) + " of "@ + text::decimal(from_big_endian(self.seen()) as nat)
                    + " payload bytes: "@ + error@,
            },
    {
        if self.header.len() < 4 {
            return None;
        }
        assert(from_big_endian(self.seen()) == from_big_endian(self.header@));
        let got: u64 = self.payload.len() as u64;
        Some(
            text::cat6(
                "read failed after ",
                text::to_decimal(got).as_str(),
                " of ",
                text::to_decimal(self.declared as u64).as_str(),
                " payload bytes: ",
                error,
            ),
        )
    }
}

/// A byte stream held in memory, read from the front.
pub struct Cursor {
    bytes: Vec<u8>,
    position: usize,
}

impl Cursor {
    /// The position never passes the end.
    pub closed spec fn wf(self) -> bool {
        self.position <= self.bytes@.len()
    }

    /// The bytes not read yet.
    pub closed spec fn rest(self) -> Seq<u8> {
        self.bytes@.skip(self.position as int)
    }

    /// A stream over `bytes`, at its start.
    pub fn new(bytes: Vec<u8>) -> (r: Cursor)
        ensures
            r.wf(),
            r.rest() == bytes@,
    {
        let r = Cursor { bytes, position: 0 };
        assert(r.rest() == bytes@);
        r
    }

    /// Take up to `most` bytes from the front; fewer only where the stream ends.
    pub fn read(&mut self, most: usize) -> (r: Vec<u8>)
        requires
            old(self).wf(),
        ensures
            final(self).wf(),
            r@.len() == if most < old(self).rest().len() {
                most as nat
            } else {
                old(self).rest().len()
            },
            old(self).rest() == r@ + final(self).rest(),
    {
        let left: usize = self.bytes.len() - self.position;
        let n: usize = if most < left {
            most
        } else {
            left
        };
        let ghost before = self.rest();
        let r = slice_to_vec(slice_subrange(self.bytes.as_slice(), self.position, self.position + n));
        self.position = self.position + n;
        assert(before == r@ + self.rest());
        r
    }

    /// How many bytes are left.
    pub fn remaining(&self) -> (n: usize)
        requires
            self.wf(),
        ensures
            n == self.rest().len(),
    {
        self.bytes.len() - self.position
    }
}

/// Read one length-prefixed message from the front of a stream.
///
/// A clean end before the header is [`FrameError::Closed`]; an end partway through is
/// [`FrameError::Truncated`]. After a success the stream stands at the next frame.
pub fn read_frame(r: &mut Cursor) -> (result: Result<Vec<u8>, FrameError>)
    requires
        old(r).wf(),
    ensures
        final(r).wf(),
        match result {
            Ok(payload) => outcome(old(r).rest()) matches Outcome::Payload {
                payload: expected,
                consumed,
            } && payload@ == expected && final(r).rest() == old(r).rest().skip(consumed as int),
            Err(e) => {
                &&& reports(e, outcome(old(r).rest()))
                &&& final(r).rest() == old(r).rest().skip(
                    if e is TooLarge {
                        4
                    } else {
                        old(r).rest().len() as int
                    },
                )
            },
        },
{
    let ghost stream = r.rest();
    let ghost at = r.position as int;
    let mut reader = FrameReader::new();
    assert(stream.take(0) == reader.seen());
    loop
        invariant
            r.wf(),
            reader.wf(),
            r.bytes@ == old(r).bytes@,
            at == old(r).position,
            at <= r.position,
            stream == old(r).rest(),
            reader.seen() == stream.take(r.position - at),
            r.position - at <= stream.len(),
        decreases r.bytes@.len() - r.position,
    {
        let wanted: usize = reader.wanted();
        let left: usize = r.bytes.len() - r.position;
        let ghost seen = reader.seen();
        if wanted == 0 {
            proof {
                assert(from_big_endian(seen) == from_big_endian(stream));
                assert(seen.skip(4) == stream.subrange(4, seen.len() as int));
                assert(r.rest() == stream.skip(seen.len() as int));
            }
            return Ok(reader.finish());
        }
        if left == 0 {
            assert(seen == stream);
            assert(r.rest() == stream.skip(stream.len() as int));
            return Err(reader.ended());
        }
        let n: usize = if wanted < left {
            wanted
        } else {
            left
        };
        let piece = slice_subrange(r.bytes.as_slice(), r.position, r.position + n);
        proof {
            assert(seen + piece@ == stream.take(r.position + n - at));
        }
        let fed = reader.feed(piece);
        r.position = r.position + n;
        if let Err(e) = fed {
            assert(from_big_endian(seen + piece@) == from_big_endian(stream));
            assert(r.rest() == stream.skip(4));
            return Err(e);
        }
    }
}

// ---------------------------------------------------------------------------
// Laws
// ---------------------------------------------------------------------------

/// Four bytes written big-endian read back as the number they were written from.
pub proof fn big_endian_round_trip(n: u32, rest: Seq<u8>)
    ensures
        from_big_endian(big_endian(n) + rest) == n,
{
    let b = big_endian(n) + rest;
    assert(b[0] == big_endian(n)[0] && b[1] == big_endian(n)[1] && b[2] == big_endian(n)[2] && b[3]
        == big_endian(n)[3]);
}

/// Reading what was written gives the payload back and stops exactly behind its frame, whatever
/// follows it.
pub proof fn read_after_write(payload: Seq<u8>, rest: Seq<u8>)
    requires
        payload.len() <= MAX_FRAME_LEN,
    ensures
        outcome(frame(payload) + rest) == (Outcome::Payload {
            payload,
            consumed: frame(payload).len(),
        }),
        (frame(payload) + rest).skip(frame(payload).len() as int) == rest,
{
    let stream = frame(payload) + rest;
    big_endian_round_trip(payload.len() as u32, payload + rest);
    assert(stream == big_endian(payload.len() as u32) + (payload + rest));
    assert(stream.subrange(4, 4 + payload.len() as int) == payload);
    assert(stream.skip(frame(payload).len() as int) == rest);
}

/// The bytes of several frames, one after the other.
pub open spec fn frames(payloads: Seq<Seq<u8>>) -> Seq<u8>
    decreases payloads.len(),
{
    if payloads.len() == 0 {
        seq![]
    } else {
        frame(payloads[0]) + frames(payloads.skip(1))
    }
}

/// The payloads of the whole frames at the front of a stream.
pub open spec fn payloads_of(stream: Seq<u8>) -> Seq<Seq<u8>>
    decreases stream.len(),
{
    match outcome(stream) {
        Outcome::Payload { payload, consumed } => seq![payload] + payloads_of(
            stream.skip(consumed as int),
        ),
        _ => seq![],
    }
}

/// Frames written one after the other are read back one after the other: reading never loses its
/// place.
pub proof fn sequential_frames(payloads: Seq<Seq<u8>>)
    requires
        forall|i: int| 0 <= i < payloads.len() ==> (#[trigger] payloads[i]).len() <= MAX_FRAME_LEN,
    ensures
        payloads_of(frames(payloads)) == payloads,
    decreases payloads.len(),
{
    if payloads.len() > 0 {
        let first = payloads[0];
        let rest = payloads.skip(1);
        assert forall|i: int| 0 <= i < rest.len() implies (#[trigger] rest[i]).len()
            <= MAX_FRAME_LEN by {
            assert(rest[i] == payloads[i + 1]);
        }
        sequential_frames(rest);
        read_after_write(first, frames(rest));
        assert(seq![first] + rest == payloads);
    }
}

/// A frame is four bytes that give the length of the payload, the most significant first, and then the
/// payload as it is.
pub proof fn frames_begin_with_their_length(payload: Seq<u8>)
    requires
        payload.len() <= 64 * 1024 * 1024,
    ensures
        ({
            let f = frame(payload);
            &&& f.len() == 4 + payload.len()
            &&& f[0] * 0x100_0000 + f[1] * 0x1_0000 + f[2] * 0x100 + f[3] == payload.len()
            &&& f.skip(4) == payload
        }),
{
    let f = frame(payload);
    assert(f.skip(4) =~= payload);
    let n = payload.len() as u32;
    assert(f[0] == big_endian(n)[0] && f[1] == big_endian(n)[1] && f[2] == big_endian(n)[2] && f[3]
        == big_endian(n)[3]);
}

/// What a stream comes to, by its bytes alone: nothing is a closed connection; a length over 64 MiB is
/// refused before any of its payload is waited for; a stream that ends too early is cut short, and
/// says how much was there; and otherwise the payload is what the length covers, and no byte more.
pub proof fn streams_come_to_what_they_hold(stream: Seq<u8>)
    ensures
        outcome(stream) is Closed <==> stream.len() == 0,
        0 < stream.len() < 4 ==> outcome(stream) == (Outcome::Truncated {
            expected: 4,
            got: stream.len(),
        }),
        stream.len() >= 4 ==> ({
            let length = stream[0] * 0x100_0000 + stream[1] * 0x1_0000 + stream[2] * 0x100
                + stream[3];
            &&& length > 64 * 1024 * 1024 <==> outcome(stream) is TooLarge
            &&& length > 64 * 1024 * 1024 ==> outcome(stream) == (Outcome::TooLarge {
                declared: length as u32,
            })
            &&& length <= 64 * 1024 * 1024 && stream.len() < 4 + length ==> outcome(stream) == (
            Outcome::Truncated { expected: length as u32, got: (stream.len() - 4) as nat })
            &&& length <= 64 * 1024 * 1024 && stream.len() >= 4 + length ==> outcome(stream) == (
            Outcome::Payload {
                payload: stream.subrange(4, 4 + length),
                consumed: (4 + length) as nat,
            })
        }),
{
}

/// How failures are told.
pub proof fn failures_are_told_so(expected: u32, got: usize, declared: u32, max: u32)
    ensures
        FrameError::Closed.message() == "connection closed"@,
        (FrameError::Truncated { expected, got }).message() == "truncated frame: header said "@
            + text::decimal(expected as nat) + " bytes, read "@ + text::decimal(got as nat),
        (FrameError::TooLarge { declared, max }).message() == "frame too large: "@ + text::decimal(
            declared as nat,
        ) + " bytes exceeds maximum "@ + text::decimal(max as nat),
{
}

/// What is still missing of a frame: the rest of the four bytes of its length, and then the rest of
/// its payload.
pub proof fn what_is_missing_completes_the_frame(reader: FrameReader)
    ensures
        reader.seen().len() < 4 ==> reader.missing() + reader.seen().len() == 4,
        reader.wf() && reader.seen().len() >= 4 ==> reader.missing() + reader.seen().len() == 4
            + reader.seen()[0] * 0x100_0000 + reader.seen()[1] * 0x1_0000 + reader.seen()[2] * 0x100
            + reader.seen()[3],
{
    if reader.wf() && reader.seen().len() >= 4 {
        assert(reader.header@.len() == 4);
        assert(reader.seen()[0] == reader.header@[0] && reader.seen()[1] == reader.header@[1]
            && reader.seen()[2] == reader.header@[2] && reader.seen()[3] == reader.header@[3]);
        assert(from_big_endian(reader.seen()) == from_big_endian(reader.header@));
    }
}

/// A failure that is reported is the one that the stream came to, and names the limit of 64 MiB where
/// that was passed. A stream that holds a frame is never reported as a failure.
pub proof fn failures_report_what_happened(e: FrameError, stream: Seq<u8>)
    requires
        reports(e, outcome(stream)),
    ensures
        !(outcome(stream) is Payload),
        e is Closed <==> outcome(stream) is Closed,
        e is Truncated <==> outcome(stream) is Truncated,
        e is TooLarge <==> outcome(stream) is TooLarge,
        e matches FrameError::TooLarge { declared, max } ==> max == 64 * 1024 * 1024,
        e matches FrameError::Truncated { expected, got } ==> outcome(stream)->expected == expected
            && outcome(stream)->got == got,
{
}

/// A payload can be sent exactly where it is at most 64 MiB, which is what can be received.
pub proof fn what_is_sent_can_be_received(payload: Seq<u8>, rest: Seq<u8>)
    ensures
        can_be_sent(payload.len()) <==> payload.len() <= 64 * 1024 * 1024,
        can_be_sent(payload.len()) ==> (outcome(frame(payload) + rest) matches Outcome::Payload {
            payload: received,
            consumed,
        } && received == payload && consumed == 4 + payload.len()),
{
    if can_be_sent(payload.len()) {
        read_after_write(payload, rest);
    }
}

} // verus!
