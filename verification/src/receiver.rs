//! The receiving side of a session as a state machine.
//!
//! The machine decides; its owner acts.  Each step takes the event that
//! answers the action last asked for and names the next action: read an exact
//! number of bytes, turn a payload into an envelope, fetch the key that the
//! envelope names, deliver the recovered text.  Frames are handled one at a
//! time, in the order in which they arrive.

use crate::cipher::{lemma_round_trip_text, opened_text, sealed, EncryptedMessage, EnvelopeView};
use crate::error::{EncryptedMessageError, SessionError};
use crate::frame::{
    be32_value, exact_read, frame_of, lemma_exact_reads_parse_a_frame, lemma_frame_round_trip,
    parse_frame, payload_outcome, prefix_outcome, read_payload, read_prefix, FrameParse,
    PREFIX_LEN,
};
use vstd::utf8::*;
use vstd::prelude::*;

verus! {

/// Where the receiver stands between two steps.
#[derive(Debug, Clone, PartialEq, Eq)]
pub enum ReceiverPhase {
    /// No connection yet.
    Listening,
    /// The four bytes of a length prefix are being read.
    ReadingPrefix,
    /// The payload that the prefix announced is being read.
    ReadingPayload(usize),
    /// The payload is being turned into an envelope.
    Decoding,
    /// The key that the envelope names is being fetched.
    KeyLookup(EncryptedMessage),
    /// The recovered text is being delivered.
    Delivering,
    /// The peer closed between two frames.
    Closed,
    /// The session was given up.
    Failed(SessionError),
}

pub enum ReceiverPhaseView {
    Listening,
    ReadingPrefix,
    ReadingPayload(usize),
    Decoding,
    KeyLookup(EnvelopeView),
    Delivering,
    Closed,
    Failed(SessionError),
}

impl View for ReceiverPhase {
    type V = ReceiverPhaseView;

    open spec fn view(&self) -> ReceiverPhaseView {
        match self {
            ReceiverPhase::Listening => ReceiverPhaseView::Listening,
            ReceiverPhase::ReadingPrefix => ReceiverPhaseView::ReadingPrefix,
            ReceiverPhase::ReadingPayload(n) => ReceiverPhaseView::ReadingPayload(*n),
            ReceiverPhase::Decoding => ReceiverPhaseView::Decoding,
            ReceiverPhase::KeyLookup(envelope) => ReceiverPhaseView::KeyLookup(envelope@),
            ReceiverPhase::Delivering => ReceiverPhaseView::Delivering,
            ReceiverPhase::Closed => ReceiverPhaseView::Closed,
            ReceiverPhase::Failed(e) => ReceiverPhaseView::Failed(*e),
        }
    }
}

/// What the owner reports back to the receiver.
#[derive(Debug, Clone, PartialEq, Eq)]
pub enum ReceiverEvent {
    /// A peer connected: receiving may begin.
    Start,
    /// The bytes that a read returned.  They are fewer than were asked for
    /// only when the peer closed before the read was satisfied.
    Bytes(Vec<u8>),
    /// The connection failed.
    TransportFailed,
    /// The envelope that the payload holds.
    Envelope(EncryptedMessage),
    /// The payload holds no envelope.
    EnvelopeInvalid,
    /// The key that was asked for.
    Key(Vec<u8>),
    /// The key manager could not resolve the identifier.
    KeyUnavailable,
    /// The text was delivered.
    Delivered,
    /// The text could not be delivered.
    SinkFailed,
}

pub enum ReceiverEventView {
    Start,
    Bytes(Seq<u8>),
    TransportFailed,
    Envelope(EnvelopeView),
    EnvelopeInvalid,
    Key(Seq<u8>),
    KeyUnavailable,
    Delivered,
    SinkFailed,
}

impl View for ReceiverEvent {
    type V = ReceiverEventView;

    open spec fn view(&self) -> ReceiverEventView {
        match self {
            ReceiverEvent::Start => ReceiverEventView::Start,
            ReceiverEvent::Bytes(bytes) => ReceiverEventView::Bytes(bytes@),
            ReceiverEvent::TransportFailed => ReceiverEventView::TransportFailed,
            ReceiverEvent::Envelope(envelope) => ReceiverEventView::Envelope(envelope@),
            ReceiverEvent::EnvelopeInvalid => ReceiverEventView::EnvelopeInvalid,
            ReceiverEvent::Key(bytes) => ReceiverEventView::Key(bytes@),
            ReceiverEvent::KeyUnavailable => ReceiverEventView::KeyUnavailable,
            ReceiverEvent::Delivered => ReceiverEventView::Delivered,
            ReceiverEvent::SinkFailed => ReceiverEventView::SinkFailed,
        }
    }
}

/// What the receiver asks its owner to do next.
#[derive(Debug, Clone, PartialEq, Eq)]
pub enum ReceiverAction {
    /// Read exactly `count` bytes, or as many as arrive before the peer
    /// closes.
    Read { count: usize },
    /// Turn this payload into an envelope.
    Decode(Vec<u8>),
    /// Fetch the key with this identifier from the key manager.
    FetchKey(String),
    /// Deliver this text to the sink.
    Deliver(String),
    /// Stop in good order: the peer closed between two frames.
    Close,
    /// Give the session up and report the error.
    Abort(SessionError),
}

pub enum ReceiverActionView {
    Read { count: usize },
    Decode(Seq<u8>),
    FetchKey(Seq<char>),
    Deliver(Seq<char>),
    Close,
    Abort(SessionError),
}

impl View for ReceiverAction {
    type V = ReceiverActionView;

    open spec fn view(&self) -> ReceiverActionView {
        match self {
            ReceiverAction::Read { count } => ReceiverActionView::Read { count: *count },
            ReceiverAction::Decode(payload) => ReceiverActionView::Decode(payload@),
            ReceiverAction::FetchKey(id) => ReceiverActionView::FetchKey(id@),
            ReceiverAction::Deliver(text) => ReceiverActionView::Deliver(text@),
            ReceiverAction::Close => ReceiverActionView::Close,
            ReceiverAction::Abort(e) => ReceiverActionView::Abort(*e),
        }
    }
}

/// The receiving side of one session.
#[derive(Debug, Clone, PartialEq, Eq)]
pub struct Receiver {
    phase: ReceiverPhase,
}

impl View for Receiver {
    type V = ReceiverPhaseView;

    closed spec fn view(&self) -> ReceiverPhaseView {
        self.phase@
    }
}

/// Giving up: the receiver fails for good and asks to abort with the same
/// error.
pub open spec fn receiver_fails(e: SessionError) -> (ReceiverPhaseView, ReceiverActionView) {
    (ReceiverPhaseView::Failed(e), ReceiverActionView::Abort(e))
}

/// One step of the receiver: the phase after `event`, and the action that it
/// asks for.
pub open spec fn receiver_step(phase: ReceiverPhaseView, event: ReceiverEventView) -> (
    ReceiverPhaseView,
    ReceiverActionView,
) {
    match (phase, event) {
        (ReceiverPhaseView::Closed, _) => (phase, ReceiverActionView::Close),
        (ReceiverPhaseView::Failed(e), _) => (phase, ReceiverActionView::Abort(e)),
        (ReceiverPhaseView::Listening, ReceiverEventView::Start) => (
            ReceiverPhaseView::ReadingPrefix,
            ReceiverActionView::Read { count: 4 },
        ),
        (ReceiverPhaseView::ReadingPrefix, ReceiverEventView::Bytes(read)) => match prefix_outcome(
            read,
        ) {
            Ok(None) => (ReceiverPhaseView::Closed, ReceiverActionView::Close),
            Ok(Some(n)) => (
                ReceiverPhaseView::ReadingPayload(n as usize),
                ReceiverActionView::Read { count: n as usize },
            ),
            Err(e) => receiver_fails(e),
        },
        (ReceiverPhaseView::ReadingPayload(n), ReceiverEventView::Bytes(read)) => match payload_outcome(
            n as nat,
            read,
        ) {
            Ok(payload) => (ReceiverPhaseView::Decoding, ReceiverActionView::Decode(payload)),
            Err(e) => receiver_fails(e),
        },
        (ReceiverPhaseView::ReadingPrefix, ReceiverEventView::TransportFailed) => receiver_fails(
            SessionError::Transport,
        ),
        (ReceiverPhaseView::ReadingPayload(_), ReceiverEventView::TransportFailed) => receiver_fails(
            SessionError::Transport,
        ),
        (ReceiverPhaseView::Decoding, ReceiverEventView::Envelope(envelope)) => (
            ReceiverPhaseView::KeyLookup(envelope),
            ReceiverActionView::FetchKey(envelope.key_id),
        ),
        (ReceiverPhaseView::Decoding, ReceiverEventView::EnvelopeInvalid) => receiver_fails(
            SessionError::MalformedEnvelope,
        ),
        (ReceiverPhaseView::KeyLookup(envelope), ReceiverEventView::Key(key)) => match opened_text(
            envelope,
            key,
        ) {
            Ok(text) => (ReceiverPhaseView::Delivering, ReceiverActionView::Deliver(text)),
            Err(e) => receiver_fails(SessionError::of_cipher(e)),
        },
        (ReceiverPhaseView::KeyLookup(_), ReceiverEventView::KeyUnavailable) => receiver_fails(
            SessionError::KeyNotFound,
        ),
        (ReceiverPhaseView::Delivering, ReceiverEventView::Delivered) => (
            ReceiverPhaseView::ReadingPrefix,
            ReceiverActionView::Read { count: 4 },
        ),
        (ReceiverPhaseView::Delivering, ReceiverEventView::SinkFailed) => receiver_fails(
            SessionError::Sink,
        ),
        _ => receiver_fails(SessionError::UnexpectedEvent),
    }
}

/// What the receiver asks for after the two reads of one frame, when
/// `stream` is all that arrives before the peer closes: the action that
/// follows the read of the prefix, or, where that action is another read,
/// the action that follows the read of the payload.
pub open spec fn after_frame_reads(stream: Seq<u8>) -> (ReceiverPhaseView, ReceiverActionView) {
    let first = receiver_step(
        ReceiverPhaseView::ReadingPrefix,
        ReceiverEventView::Bytes(exact_read(stream, 4)),
    );
    match first.1 {
        ReceiverActionView::Read { count } => receiver_step(
            first.0,
            ReceiverEventView::Bytes(exact_read(stream.skip(4), count as nat)),
        ),
        _ => first,
    }
}

/// The receiver reads frames as `parse_frame` does.  At the orderly end of
/// the stream it closes; on a truncated frame it aborts with
/// `TruncatedFrame`, never with a close; and a whole frame has its payload,
/// neither more nor less, handed on for decoding.
pub proof fn lemma_receiver_reads_frames(stream: Seq<u8>)
    ensures
        match parse_frame(stream) {
            FrameParse::End => after_frame_reads(stream) == (
                ReceiverPhaseView::Closed,
                ReceiverActionView::Close,
            ),
            FrameParse::Truncated => after_frame_reads(stream) == receiver_fails(
                SessionError::TruncatedFrame,
            ),
            FrameParse::Frame { payload, rest } => after_frame_reads(stream) == (
                ReceiverPhaseView::Decoding,
                ReceiverActionView::Decode(payload),
            ),
        },
{
    lemma_exact_reads_parse_a_frame(stream);
    if stream.len() >= 4 {
        assert(exact_read(stream, 4).len() == 4);
        let b = exact_read(stream, 4);
        assert(be32_value(b) <= u32::MAX);
    }
}

/// A framed payload that is followed by anything reaches the decoder as it
/// was framed.
pub proof fn lemma_receiver_unframes(payload: Seq<u8>, rest: Seq<u8>)
    requires
        payload.len() <= u32::MAX,
    ensures
        after_frame_reads(frame_of(payload) + rest) == (
            ReceiverPhaseView::Decoding,
            ReceiverActionView::Decode(payload),
        ),
{
    lemma_frame_round_trip(payload, rest);
    lemma_receiver_reads_frames(frame_of(payload) + rest);
}

/// End to end: a block of text that was sealed under a key of sufficient
/// length is delivered as that text by a receiver that is given the same key.
pub proof fn lemma_sealed_text_is_delivered(key_id: Seq<char>, key: Seq<u8>, plaintext: Seq<u8>)
    requires
        key.len() >= plaintext.len(),
        valid_utf8(plaintext),
    ensures
        sealed(key_id, key, plaintext) is Ok,
        receiver_step(
            ReceiverPhaseView::KeyLookup(sealed(key_id, key, plaintext)->Ok_0),
            ReceiverEventView::Key(key),
        ) == (
            ReceiverPhaseView::Delivering,
            ReceiverActionView::Deliver(decode_utf8(plaintext)),
        ),
        receiver_step(
            ReceiverPhaseView::Decoding,
            ReceiverEventView::Envelope(sealed(key_id, key, plaintext)->Ok_0),
        ).1 == ReceiverActionView::FetchKey(key_id),
{
    lemma_round_trip_text(key_id, key, plaintext);
}

/// A session that ended stays ended: once closed or failed, the receiver
/// answers every event with the same close or the same abort.
pub proof fn lemma_receiver_end_is_final(phase: ReceiverPhaseView, event: ReceiverEventView)
    requires
        phase is Closed || phase is Failed,
    ensures
        receiver_step(phase, event).0 == phase,
        phase is Closed ==> receiver_step(phase, event).1 == ReceiverActionView::Close,
        phase is Failed ==> receiver_step(phase, event).1 == ReceiverActionView::Abort(
            phase->Failed_0,
        ),
{
}

/// The envelope that a step takes in: what the decoder made of a payload.
pub open spec fn envelopes_taken_in(phase: ReceiverPhaseView, event: ReceiverEventView) -> Seq<
    EnvelopeView,
> {
    match (phase, event) {
        (ReceiverPhaseView::Decoding, ReceiverEventView::Envelope(envelope)) => seq![envelope],
        _ => Seq::empty(),
    }
}

/// The key that a step takes in: what the key manager gave for the envelope
/// in waiting.
pub open spec fn keys_given(phase: ReceiverPhaseView, event: ReceiverEventView) -> Seq<Seq<u8>> {
    match (phase, event) {
        (ReceiverPhaseView::KeyLookup(_), ReceiverEventView::Key(key)) => seq![key],
        _ => Seq::empty(),
    }
}

/// The envelope that a receiver holds while it waits for the key.
pub open spec fn envelope_in_waiting(phase: ReceiverPhaseView) -> Seq<EnvelopeView> {
    match phase {
        ReceiverPhaseView::KeyLookup(envelope) => seq![envelope],
        _ => Seq::empty(),
    }
}

/// A run of the receiver: where it stands after a sequence of events, the
/// actions that it asked for, and every envelope and every key that it ever
/// held, each in the order in which they came.
pub struct ReceiverTrace {
    pub phase: ReceiverPhaseView,
    pub actions: Seq<ReceiverActionView>,
    pub envelopes: Seq<EnvelopeView>,
    pub keys: Seq<Seq<u8>>,
}

/// The run of a receiver from `phase` over `events`.
pub open spec fn receiver_run(phase: ReceiverPhaseView, events: Seq<ReceiverEventView>) -> ReceiverTrace
    decreases events.len(),
{
    if events.len() == 0 {
        ReceiverTrace {
            phase,
            actions: Seq::empty(),
            envelopes: envelope_in_waiting(phase),
            keys: Seq::empty(),
        }
    } else {
        let before = receiver_run(phase, events.drop_last());
        let (next, action) = receiver_step(before.phase, events.last());
        ReceiverTrace {
            phase: next,
            actions: before.actions.push(action),
            envelopes: before.envelopes + envelopes_taken_in(before.phase, events.last()),
            keys: before.keys + keys_given(before.phase, events.last()),
        }
    }
}

/// The texts that `actions` deliver, in order.
pub open spec fn deliveries(actions: Seq<ReceiverActionView>) -> Seq<Seq<char>>
    decreases actions.len(),
{
    if actions.len() == 0 {
        Seq::empty()
    } else {
        let before = deliveries(actions.drop_last());
        match actions.last() {
            ReceiverActionView::Deliver(text) => before.push(text),
            _ => before,
        }
    }
}

/// What holds of every run.  The n-th delivery is the n-th envelope opened
/// under the n-th key.  An envelope or a key beyond the deliveries is there
/// only while the receiver waits for a key, or after it failed.
spec fn run_in_order(t: ReceiverTrace) -> bool {
    let done = deliveries(t.actions).len();
    &&& done <= t.keys.len() <= t.envelopes.len() <= done + 1
    &&& forall|i: int|
        0 <= i < done ==> opened_text(t.envelopes[i], t.keys[i]) == Ok::<
            Seq<char>,
            EncryptedMessageError,
        >(#[trigger] deliveries(t.actions)[i])
    &&& t.phase is KeyLookup ==> t.keys.len() == done && t.envelopes.len() == done + 1
        && t.envelopes.last() == t.phase->KeyLookup_0
    &&& !(t.phase is KeyLookup) && !(t.phase is Failed) ==> t.envelopes.len() == done
}

proof fn lemma_run_in_order(phase: ReceiverPhaseView, events: Seq<ReceiverEventView>)
    ensures
        run_in_order(receiver_run(phase, events)),
    decreases events.len(),
{
    let t = receiver_run(phase, events);
    if events.len() > 0 {
        let before = receiver_run(phase, events.drop_last());
        lemma_run_in_order(phase, events.drop_last());
        let action = receiver_step(before.phase, events.last()).1;
        let done = deliveries(before.actions).len() as int;
        assert(t.actions.drop_last() =~= before.actions);
        assert(t.actions.last() == action);
        assert forall|i: int| 0 <= i < done implies opened_text(t.envelopes[i], t.keys[i]) == Ok::<
            Seq<char>,
            EncryptedMessageError,
        >(#[trigger] deliveries(t.actions)[i]) by {
            assert(t.envelopes[i] == before.envelopes[i]);
            assert(t.keys[i] == before.keys[i]);
            assert(deliveries(t.actions)[i] == deliveries(before.actions)[i]);
        }
        if action is Deliver {
            assert(deliveries(t.actions)[done] == action->Deliver_0);
            assert(t.envelopes[done] == before.phase->KeyLookup_0);
        }
    }
}

/// Frames are served in the order in which they arrive, each under the key
/// that was fetched for it: the n-th text that a run delivers is the n-th
/// envelope that the receiver took in, opened under the n-th key that it was
/// given.
pub proof fn lemma_deliveries_in_order(
    phase: ReceiverPhaseView,
    events: Seq<ReceiverEventView>,
    n: int,
)
    requires
        0 <= n < deliveries(receiver_run(phase, events).actions).len(),
    ensures
        n < receiver_run(phase, events).envelopes.len(),
        n < receiver_run(phase, events).keys.len(),
        opened_text(receiver_run(phase, events).envelopes[n], receiver_run(phase, events).keys[n])
            == Ok::<Seq<char>, EncryptedMessageError>(
            deliveries(receiver_run(phase, events).actions)[n],
        ),
{
    lemma_run_in_order(phase, events);
}

impl Receiver {
    /// A receiver that waits for its connection.
    pub fn new() -> (r: Self)
        ensures
            r@ == ReceiverPhaseView::Listening,
    {
        Receiver { phase: ReceiverPhase::Listening }
    }

    /// Where the receiver stands.
    pub fn phase(&self) -> (p: &ReceiverPhase)
        ensures
            p@ == self@,
    {
        &self.phase
    }

    /// Takes one event and names the next action.
    pub fn step(self, event: ReceiverEvent) -> (r: (Receiver, ReceiverAction))
        ensures
            (r.0@, r.1@) == receiver_step(self@, event@),
    {
        let unexpected = SessionError::UnexpectedEvent;
        let (phase, action) = match self.phase {
            ReceiverPhase::Closed => (ReceiverPhase::Closed, ReceiverAction::Close),
            ReceiverPhase::Failed(e) => (ReceiverPhase::Failed(e), ReceiverAction::Abort(e)),
            ReceiverPhase::Listening => match event {
                ReceiverEvent::Start => (
                    ReceiverPhase::ReadingPrefix,
                    ReceiverAction::Read { count: PREFIX_LEN },
                ),
                _ => (ReceiverPhase::Failed(unexpected), ReceiverAction::Abort(unexpected)),
            },
            ReceiverPhase::ReadingPrefix => match event {
                ReceiverEvent::Bytes(read) => match read_prefix(read.as_slice()) {
                    Ok(None) => (ReceiverPhase::Closed, ReceiverAction::Close),
                    Ok(Some(n)) => (
                        ReceiverPhase::ReadingPayload(n),
                        ReceiverAction::Read { count: n },
                    ),
                    Err(e) => (ReceiverPhase::Failed(e), ReceiverAction::Abort(e)),
                },
                ReceiverEvent::TransportFailed => (
                    ReceiverPhase::Failed(SessionError::Transport),
                    ReceiverAction::Abort(SessionError::Transport),
                ),
                _ => (ReceiverPhase::Failed(unexpected), ReceiverAction::Abort(unexpected)),
            },
            ReceiverPhase::ReadingPayload(n) => match event {
                ReceiverEvent::Bytes(read) => match read_payload(n, read) {
                    Ok(payload) => (ReceiverPhase::Decoding, ReceiverAction::Decode(payload)),
                    Err(e) => (ReceiverPhase::Failed(e), ReceiverAction::Abort(e)),
                },
                ReceiverEvent::TransportFailed => (
                    ReceiverPhase::Failed(SessionError::Transport),
                    ReceiverAction::Abort(SessionError::Transport),
                ),
                _ => (ReceiverPhase::Failed(unexpected), ReceiverAction::Abort(unexpected)),
            },
            ReceiverPhase::Decoding => match event {
                ReceiverEvent::Envelope(envelope) => {
                    let id = envelope.key_id.clone();
                    (ReceiverPhase::KeyLookup(envelope), ReceiverAction::FetchKey(id))
                },
                ReceiverEvent::EnvelopeInvalid => (
                    ReceiverPhase::Failed(SessionError::MalformedEnvelope),
                    ReceiverAction::Abort(SessionError::MalformedEnvelope),
                ),
                _ => (ReceiverPhase::Failed(unexpected), ReceiverAction::Abort(unexpected)),
            },
            ReceiverPhase::KeyLookup(envelope) => match event {
                ReceiverEvent::Key(key) => match envelope.decrypt(key.as_slice()) {
                    Ok(text) => (ReceiverPhase::Delivering, ReceiverAction::Deliver(text)),
                    Err(e) => {
                        let e = SessionError::from_cipher(e);
                        (ReceiverPhase::Failed(e), ReceiverAction::Abort(e))
                    },
                },
                ReceiverEvent::KeyUnavailable => (
                    ReceiverPhase::Failed(SessionError::KeyNotFound),
                    ReceiverAction::Abort(SessionError::KeyNotFound),
                ),
                _ => (ReceiverPhase::Failed(unexpected), ReceiverAction::Abort(unexpected)),
            },
            ReceiverPhase::Delivering => match event {
                ReceiverEvent::Delivered => (
                    ReceiverPhase::ReadingPrefix,
                    ReceiverAction::Read { count: PREFIX_LEN },
                ),
                ReceiverEvent::SinkFailed => (
                    ReceiverPhase::Failed(SessionError::Sink),
                    ReceiverAction::Abort(SessionError::Sink),
                ),
                _ => (ReceiverPhase::Failed(unexpected), ReceiverAction::Abort(unexpected)),
            },
        };
        (Receiver { phase }, action)
    }
}

} // verus!
