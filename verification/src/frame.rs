//! Length-prefixed framing: every record on the wire is a four-byte unsigned
//! big-endian length followed by that many payload bytes.
//!
//! Reading is exact.  A stream that closes between two frames has ended in
//! good order; one that closes inside a prefix or inside a payload is
//! truncated.

use crate::error::SessionError;
use vstd::prelude::*;
use vstd::slice::*;

verus! {

/// The number of bytes of a length prefix.
pub const PREFIX_LEN: usize = 4;

/// The four big-endian bytes of `n`, for `n` below 2^32.
pub open spec fn be32(n: nat) -> Seq<u8>
    recommends
        n <= u32::MAX,
{
    seq![
        (n / 0x100_0000) as u8,
        (n / 0x1_0000 % 0x100) as u8,
        (n / 0x100 % 0x100) as u8,
        (n % 0x100) as u8,
    ]
}

/// The number that four big-endian bytes state.
pub open spec fn be32_value(b: Seq<u8>) -> nat
    recommends
        b.len() == 4,
{
    (b[0] as nat) * 0x100_0000 + (b[1] as nat) * 0x1_0000 + (b[2] as nat) * 0x100 + (b[3] as nat)
}

/// The frame of a payload: its length, then the payload itself.
pub open spec fn frame_of(payload: Seq<u8>) -> Seq<u8>
    recommends
        payload.len() <= u32::MAX,
{
    be32(payload.len()) + payload
}

/// The frames of several payloads, one after the other.
pub open spec fn frames_of(payloads: Seq<Seq<u8>>) -> Seq<u8>
    decreases payloads.len(),
{
    if payloads.len() == 0 {
        Seq::<u8>::empty()
    } else {
        frame_of(payloads[0]) + frames_of(payloads.drop_first())
    }
}

/// What the front of a closed stream holds.
pub enum FrameParse {
    /// Nothing: the stream ended between two frames.
    End,
    /// A part of a frame only.
    Truncated,
    /// A whole frame, and what follows it.
    Frame { payload: Seq<u8>, rest: Seq<u8> },
}

/// Reads one frame off the front of `stream`, where `stream` is all that
/// arrives before the peer closes.
pub open spec fn parse_frame(stream: Seq<u8>) -> FrameParse {
    if stream.len() == 0 {
        FrameParse::End
    } else if stream.len() < 4 {
        FrameParse::Truncated
    } else {
        let n = be32_value(stream.subrange(0, 4));
        if stream.len() - 4 < n {
            FrameParse::Truncated
        } else {
            FrameParse::Frame {
                payload: stream.subrange(4, 4 + n as int),
                rest: stream.subrange(4 + n as int, stream.len() as int),
            }
        }
    }
}

/// All that a closed stream held: the payloads of its whole frames in order,
/// and whether it ended between two frames.
pub struct StreamParse {
    pub payloads: Seq<Seq<u8>>,
    pub clean: bool,
}

/// Reads frame after frame off `stream` up to its end or to the first
/// truncated frame.
pub open spec fn parse_stream(stream: Seq<u8>) -> StreamParse
    decreases stream.len(),
{
    match parse_frame(stream) {
        FrameParse::End => StreamParse { payloads: Seq::empty(), clean: true },
        FrameParse::Truncated => StreamParse { payloads: Seq::empty(), clean: false },
        FrameParse::Frame { payload, rest } => {
            let tail = parse_stream(rest);
            StreamParse { payloads: seq![payload] + tail.payloads, clean: tail.clean }
        },
    }
}

/// What a read of the prefix came to, given the bytes that arrived before the
/// read was satisfied or the stream closed: no byte is the orderly end, one to
/// three bytes a truncated frame, four bytes the length of the payload.
pub open spec fn prefix_outcome(read: Seq<u8>) -> Result<Option<nat>, SessionError> {
    if read.len() == 0 {
        Ok(None)
    } else if read.len() < 4 {
        Err(SessionError::TruncatedFrame)
    } else if read.len() == 4 {
        Ok(Some(be32_value(read)))
    } else {
        Err(SessionError::UnexpectedEvent)
    }
}

/// What a read of a payload of `expected` bytes came to: all of them, or a
/// truncated frame.
pub open spec fn payload_outcome(expected: nat, read: Seq<u8>) -> Result<Seq<u8>, SessionError> {
    if read.len() < expected {
        Err(SessionError::TruncatedFrame)
    } else if read.len() == expected {
        Ok(read)
    } else {
        Err(SessionError::UnexpectedEvent)
    }
}

/// What a read of `count` bytes returns when `stream` is all that arrives
/// before the peer closes: the next `count` bytes, or all of the stream where
/// it holds fewer.
pub open spec fn exact_read(stream: Seq<u8>, count: nat) -> Seq<u8> {
    if count <= stream.len() {
        stream.subrange(0, count as int)
    } else {
        stream
    }
}

/// Two exact reads, of the prefix and then of the payload that it announces,
/// come to what `parse_frame` says of the stream.
pub proof fn lemma_exact_reads_parse_a_frame(stream: Seq<u8>)
    ensures
        match prefix_outcome(exact_read(stream, 4)) {
            Ok(None) => parse_frame(stream) == FrameParse::End,
            Ok(Some(n)) => match payload_outcome(n, exact_read(stream.skip(4), n)) {
                Ok(payload) => parse_frame(stream) == (FrameParse::Frame {
                    payload,
                    rest: stream.skip(4 + n as int),
                }),
                Err(e) => e == SessionError::TruncatedFrame && parse_frame(stream)
                    == FrameParse::Truncated,
            },
            Err(e) => e == SessionError::TruncatedFrame && parse_frame(stream)
                == FrameParse::Truncated,
        },
{
    if stream.len() >= 4 {
        let n = be32_value(stream.subrange(0, 4));
        let after = stream.skip(4);
        if n <= after.len() {
            assert(after.subrange(0, n as int) =~= stream.subrange(4, 4 + n as int));
        }
    }
}

/// The bytes of a prefix state the length that they were made from.
pub proof fn lemma_be32_round_trip(n: nat)
    requires
        n <= u32::MAX,
    ensures
        be32(n).len() == 4,
        be32_value(be32(n)) == n,
{
}

/// A frame followed by anything parses back into its payload and what
/// followed.
pub proof fn lemma_frame_round_trip(payload: Seq<u8>, rest: Seq<u8>)
    requires
        payload.len() <= u32::MAX,
    ensures
        parse_frame(frame_of(payload) + rest) == (FrameParse::Frame { payload, rest }),
{
    let stream = frame_of(payload) + rest;
    lemma_be32_round_trip(payload.len());
    assert(stream.subrange(4, 4 + payload.len() as int) =~= payload);
    assert(stream.subrange(4 + payload.len() as int, stream.len() as int) =~= rest);
}

/// A stream made of whole frames parses back into their payloads, in order,
/// and ends in good order.
pub proof fn lemma_stream_round_trip(payloads: Seq<Seq<u8>>)
    requires
        forall|i: int| 0 <= i < payloads.len() ==> (#[trigger] payloads[i]).len() <= u32::MAX,
    ensures
        parse_stream(frames_of(payloads)) == (StreamParse { payloads, clean: true }),
    decreases payloads.len(),
{
    if payloads.len() == 0 {
        assert(parse_stream(frames_of(payloads)).payloads =~= payloads);
    } else {
        let tail = payloads.drop_first();
        lemma_stream_round_trip(tail);
        lemma_frame_round_trip(payloads[0], frames_of(tail));
        assert(seq![payloads[0]] + tail =~= payloads);
    }
}

/// A stream that closes inside a prefix, or after a prefix and before the
/// last byte of the payload that the prefix announces, is truncated: it is
/// never taken for an orderly end.
pub proof fn lemma_truncation_detected(stream: Seq<u8>)
    requires
        stream.len() > 0,
        stream.len() < 4 || stream.len() < 4 + be32_value(stream.subrange(0, 4)),
    ensures
        parse_frame(stream) == FrameParse::Truncated,
        parse_stream(stream) == (StreamParse { payloads: Seq::empty(), clean: false }),
{
}

/// Cutting a frame short anywhere but at its very start leaves a truncated
/// stream.
pub proof fn lemma_cut_frame_is_truncated(payload: Seq<u8>, cut: int)
    requires
        payload.len() <= u32::MAX,
        0 < cut < frame_of(payload).len(),
    ensures
        parse_frame(frame_of(payload).subrange(0, cut)) == FrameParse::Truncated,
{
    lemma_be32_round_trip(payload.len());
}

/// The number that a four-byte prefix states.
pub fn prefix_value(prefix: &[u8]) -> (n: u32)
    requires
        prefix@.len() == 4,
    ensures
        n == be32_value(prefix@),
{
    let b0: u32 = prefix[0] as u32;
    let b1: u32 = prefix[1] as u32;
    let b2: u32 = prefix[2] as u32;
    let b3: u32 = prefix[3] as u32;
    b0 * 0x100_0000 + b1 * 0x1_0000 + b2 * 0x100 + b3
}

/// Puts `payload` into a frame.  A payload longer than a prefix can state has
/// no frame.
pub fn encode_frame(payload: &[u8]) -> (r: Result<Vec<u8>, SessionError>)
    ensures
        payload@.len() <= u32::MAX ==> r is Ok && r->Ok_0@ == frame_of(payload@),
        payload@.len() > u32::MAX ==> r == Err::<Vec<u8>, SessionError>(
            SessionError::FrameTooLarge,
        ),
{
    if payload.len() > u32::MAX as usize {
        return Err(SessionError::FrameTooLarge);
    }
    let n: u32 = payload.len() as u32;
    let mut frame: Vec<u8> = Vec::new();
    frame.push((n / 0x100_0000) as u8);
    frame.push((n / 0x1_0000 % 0x100) as u8);
    frame.push((n / 0x100 % 0x100) as u8);
    frame.push((n % 0x100) as u8);
    frame.extend_from_slice(payload);
    Ok(frame)
}

/// Judges what a read of the prefix returned: `Ok(None)` at the orderly end,
/// `Ok(Some(n))` for a prefix that announces `n` payload bytes.
pub fn read_prefix(read: &[u8]) -> (r: Result<Option<usize>, SessionError>)
    ensures
        match prefix_outcome(read@) {
            Ok(None) => r == Ok::<Option<usize>, SessionError>(None),
            Ok(Some(n)) => r == Ok::<Option<usize>, SessionError>(Some(n as usize)) && n
                <= u32::MAX,
            Err(e) => r == Err::<Option<usize>, SessionError>(e),
        },
{
    if read.len() == 0 {
        Ok(None)
    } else if read.len() < PREFIX_LEN {
        Err(SessionError::TruncatedFrame)
    } else if read.len() == PREFIX_LEN {
        Ok(Some(prefix_value(read) as usize))
    } else {
        Err(SessionError::UnexpectedEvent)
    }
}

/// Judges what a read of a payload of `expected` bytes returned.
pub fn read_payload(expected: usize, read: Vec<u8>) -> (r: Result<Vec<u8>, SessionError>)
    ensures
        match payload_outcome(expected as nat, read@) {
            Ok(p) => r is Ok && r->Ok_0@ == p,
            Err(e) => r == Err::<Vec<u8>, SessionError>(e),
        },
{
    if read.len() < expected {
        Err(SessionError::TruncatedFrame)
    } else if read.len() == expected {
        Ok(read)
    } else {
        Err(SessionError::UnexpectedEvent)
    }
}

/// One frame read off a buffer.
#[derive(Debug, Clone, PartialEq, Eq)]
pub enum FrameRead {
    /// The buffer is empty.
    End,
    /// A payload, and the number of bytes that prefix and payload took.
    Frame { payload: Vec<u8>, consumed: usize },
}

/// Reads one frame off the front of `stream`, which holds all that arrived
/// before the peer closed.
pub fn read_frame(stream: &[u8]) -> (r: Result<FrameRead, SessionError>)
    ensures
        match parse_frame(stream@) {
            FrameParse::End => r == Ok::<FrameRead, SessionError>(FrameRead::End),
            FrameParse::Truncated => r == Err::<FrameRead, SessionError>(
                SessionError::TruncatedFrame,
            ),
            FrameParse::Frame { payload, rest } => r matches Ok(
                FrameRead::Frame { payload: p, consumed },
            ) && p@ == payload && consumed == 4 + payload.len() && rest == stream@.subrange(
                consumed as int,
                stream@.len() as int,
            ),
        },
{
    if stream.len() == 0 {
        return Ok(FrameRead::End);
    }
    if stream.len() < PREFIX_LEN {
        return Err(SessionError::TruncatedFrame);
    }
    let n: usize = prefix_value(slice_subrange(stream, 0, PREFIX_LEN)) as usize;
    if stream.len() - PREFIX_LEN < n {
        return Err(SessionError::TruncatedFrame);
    }
    let payload = slice_to_vec(slice_subrange(stream, PREFIX_LEN, PREFIX_LEN + n));
    Ok(FrameRead::Frame { payload, consumed: PREFIX_LEN + n })
}

/// The byte sequences that a run of buffers holds, in the same order.
pub open spec fn payload_views(buffers: Seq<Vec<u8>>) -> Seq<Seq<u8>> {
    buffers.map_values(|b: Vec<u8>| b@)
}

/// Reads every frame of `stream`, which holds all that arrived before the
/// peer closed.  The payloads of the whole frames come back in order, also
/// when the stream is then found truncated.
pub fn read_frames(stream: &[u8]) -> (r: (Vec<Vec<u8>>, Result<(), SessionError>))
    ensures
        payload_views(r.0@) == parse_stream(stream@).payloads,
        parse_stream(stream@).clean ==> r.1 == Ok::<(), SessionError>(()),
        !parse_stream(stream@).clean ==> r.1 == Err::<(), SessionError>(
            SessionError::TruncatedFrame,
        ),
{
    let mut payloads: Vec<Vec<u8>> = Vec::new();
    let mut at: usize = 0;
    assert(stream@.subrange(0, stream@.len() as int) =~= stream@);
    assert(payload_views(payloads@) + parse_stream(stream@).payloads =~= parse_stream(
        stream@,
    ).payloads);
    loop
        invariant
            at <= stream@.len(),
            parse_stream(stream@).payloads == payload_views(payloads@) + parse_stream(
                stream@.subrange(at as int, stream@.len() as int),
            ).payloads,
            parse_stream(stream@).clean == parse_stream(
                stream@.subrange(at as int, stream@.len() as int),
            ).clean,
        decreases stream@.len() - at,
    {
        let ghost before = payload_views(payloads@);
        let ghost remaining = stream@.subrange(at as int, stream@.len() as int);
        match read_frame(slice_subrange(stream, at, stream.len())) {
            Ok(FrameRead::End) => {
                return (payloads, Ok(()));
            },
            Err(_) => {
                return (payloads, Err(SessionError::TruncatedFrame));
            },
            Ok(FrameRead::Frame { payload, consumed }) => {
                let ghost p = payload@;
                payloads.push(payload);
                at = at + consumed;
                proof {
                    let rest = stream@.subrange(at as int, stream@.len() as int);
                    assert(rest =~= remaining.subrange(consumed as int, remaining.len() as int));
                    assert(before + (seq![p] + parse_stream(rest).payloads) =~= (before + seq![p])
                        + parse_stream(rest).payloads);
                }
            },
        }
    }
}

} // verus!
