//! The sending side of a session as a state machine.
//!
//! The machine decides; its owner acts.  Each step takes the event that
//! answers the action last asked for and names the next action: read a block
//! of plaintext, fetch a batch of keys, put an envelope into bytes, write a
//! frame.  One block is under way at any time, and blocks leave in the order
//! in which they were read.

use crate::cipher::{sealed, EncryptedMessage, EnvelopeView};
use crate::config::ChannelConfig;
use crate::error::{EncryptedMessageError, SessionError};
use crate::frame::{encode_frame, frame_of};
use crate::key::{key_ids, key_views, KeyDemand, KeyMaterial, KeyMaterialView, KeyQueue};
use std::collections::VecDeque;
use vstd::prelude::*;

verus! {

/// Where the sender stands between two steps.
#[derive(Debug, Clone, PartialEq, Eq)]
pub enum SenderPhase {
    /// Not started.
    Idle,
    /// A block of plaintext is being read.
    ReadingChunk,
    /// The block waits for a batch of keys.
    Keying(Vec<u8>),
    /// The sealed envelope is being put into bytes.
    Framing,
    /// The frame is being written.
    Sending,
    /// The source is exhausted and all of it was sent.
    Done,
    /// The session was given up.
    Failed(SessionError),
}

pub enum SenderPhaseView {
    Idle,
    ReadingChunk,
    Keying(Seq<u8>),
    Framing,
    Sending,
    Done,
    Failed(SessionError),
}

impl View for SenderPhase {
    type V = SenderPhaseView;

    open spec fn view(&self) -> SenderPhaseView {
        match self {
            SenderPhase::Idle => SenderPhaseView::Idle,
            SenderPhase::ReadingChunk => SenderPhaseView::ReadingChunk,
            SenderPhase::Keying(chunk) => SenderPhaseView::Keying(chunk@),
            SenderPhase::Framing => SenderPhaseView::Framing,
            SenderPhase::Sending => SenderPhaseView::Sending,
            SenderPhase::Done => SenderPhaseView::Done,
            SenderPhase::Failed(e) => SenderPhaseView::Failed(*e),
        }
    }
}

/// What the owner reports back to the sender.
#[derive(Debug, Clone, PartialEq, Eq)]
pub enum SenderEvent {
    /// The connection stands: sending may begin.
    Start,
    /// The bytes of one block read from the source; none at its end.
    Chunk(Vec<u8>),
    /// The source could not be read.
    SourceFailed,
    /// The batch that the key manager returned, in its order.
    Keys(VecDeque<KeyMaterial>),
    /// The key manager could not be asked.
    SupplierFailed,
    /// The bytes of the envelope last handed out.
    Encoded(Vec<u8>),
    /// The envelope could not be put into bytes.
    EncodeFailed,
    /// The frame was written in full.
    Sent,
    /// The frame could not be written.
    TransportFailed,
}

pub enum SenderEventView {
    Start,
    Chunk(Seq<u8>),
    SourceFailed,
    Keys(Seq<KeyMaterialView>),
    SupplierFailed,
    Encoded(Seq<u8>),
    EncodeFailed,
    Sent,
    TransportFailed,
}

impl View for SenderEvent {
    type V = SenderEventView;

    open spec fn view(&self) -> SenderEventView {
        match self {
            SenderEvent::Start => SenderEventView::Start,
            SenderEvent::Chunk(bytes) => SenderEventView::Chunk(bytes@),
            SenderEvent::SourceFailed => SenderEventView::SourceFailed,
            SenderEvent::Keys(batch) => SenderEventView::Keys(key_views(batch@)),
            SenderEvent::SupplierFailed => SenderEventView::SupplierFailed,
            SenderEvent::Encoded(bytes) => SenderEventView::Encoded(bytes@),
            SenderEvent::EncodeFailed => SenderEventView::EncodeFailed,
            SenderEvent::Sent => SenderEventView::Sent,
            SenderEvent::TransportFailed => SenderEventView::TransportFailed,
        }
    }
}

/// What the sender asks its owner to do next.
#[derive(Debug, Clone, PartialEq, Eq)]
pub enum SenderAction {
    /// Read the next block of at most `size` bytes from the source.
    ReadChunk { size: usize },
    /// Ask the key manager for `count` keys of `bits_per_key` bits.
    FetchKeys { count: usize, bits_per_key: usize },
    /// Put this envelope into bytes.
    Encode(EncryptedMessage),
    /// Write these bytes, a whole frame, to the connection.
    Send(Vec<u8>),
    /// Close in good order: everything was sent.
    Finish,
    /// Give the session up and report the error.
    Abort(SessionError),
}

pub enum SenderActionView {
    ReadChunk { size: usize },
    FetchKeys { count: usize, bits_per_key: usize },
    Encode(EnvelopeView),
    Send(Seq<u8>),
    Finish,
    Abort(SessionError),
}

impl View for SenderAction {
    type V = SenderActionView;

    open spec fn view(&self) -> SenderActionView {
        match self {
            SenderAction::ReadChunk { size } => SenderActionView::ReadChunk { size: *size },
            SenderAction::FetchKeys { count, bits_per_key } => SenderActionView::FetchKeys {
                count: *count,
                bits_per_key: *bits_per_key,
            },
            SenderAction::Encode(envelope) => SenderActionView::Encode(envelope@),
            SenderAction::Send(frame) => SenderActionView::Send(frame@),
            SenderAction::Finish => SenderActionView::Finish,
            SenderAction::Abort(e) => SenderActionView::Abort(*e),
        }
    }
}

/// What a sender is: its three parameters, the keys it has buffered, and
/// where it stands.
pub struct SenderView {
    pub chunk_size: usize,
    pub batch_size: usize,
    pub bits_per_key: usize,
    pub queue: Seq<KeyMaterialView>,
    pub phase: SenderPhaseView,
}

/// The parameters that a sender keeps for the whole session.
#[derive(Debug, Clone, Copy, PartialEq, Eq)]
struct SenderParams {
    chunk_size: usize,
    batch_size: usize,
    bits_per_key: usize,
}

/// The sending side of one session.
#[derive(Debug, Clone, PartialEq, Eq)]
pub struct Sender {
    params: SenderParams,
    queue: KeyQueue,
    phase: SenderPhase,
}

impl View for Sender {
    type V = SenderView;

    closed spec fn view(&self) -> SenderView {
        SenderView {
            chunk_size: self.params.chunk_size,
            batch_size: self.params.batch_size,
            bits_per_key: self.params.bits_per_key,
            queue: self.queue@,
            phase: self.phase@,
        }
    }
}

/// The sender `s` in another phase.
pub open spec fn sender_in(s: SenderView, phase: SenderPhaseView) -> SenderView {
    SenderView { phase, ..s }
}

/// Giving up: the sender fails for good and asks to abort with the same error.
pub open spec fn sender_fails(s: SenderView, e: SessionError) -> (SenderView, SenderActionView) {
    (sender_in(s, SenderPhaseView::Failed(e)), SenderActionView::Abort(e))
}

/// Sealing `chunk` with the oldest of `keys`, which are all the keys at hand.
/// The key leaves the queue whether or not it was long enough.  With no key
/// at hand the session fails with `NoKeyAvailable`.
pub open spec fn sender_seals(s: SenderView, keys: Seq<KeyMaterialView>, chunk: Seq<u8>) -> (
    SenderView,
    SenderActionView,
) {
    if keys.len() == 0 {
        sender_fails(s, SessionError::NoKeyAvailable)
    } else {
        let rest = SenderView { queue: keys.drop_first(), ..s };
        match sealed(keys[0].id, keys[0].bytes, chunk) {
            Ok(envelope) => (
                sender_in(rest, SenderPhaseView::Framing),
                SenderActionView::Encode(envelope),
            ),
            Err(e) => sender_fails(rest, SessionError::of_cipher(e)),
        }
    }
}

/// One step of the sender: the state after `event`, and the action that it
/// asks for.
pub open spec fn sender_step(s: SenderView, event: SenderEventView) -> (
    SenderView,
    SenderActionView,
) {
    match (s.phase, event) {
        (SenderPhaseView::Done, _) => (s, SenderActionView::Finish),
        (SenderPhaseView::Failed(e), _) => (s, SenderActionView::Abort(e)),
        (SenderPhaseView::Idle, SenderEventView::Start) => (
            sender_in(s, SenderPhaseView::ReadingChunk),
            SenderActionView::ReadChunk { size: s.chunk_size },
        ),
        (SenderPhaseView::ReadingChunk, SenderEventView::Chunk(chunk)) => if chunk.len() == 0 {
            (sender_in(s, SenderPhaseView::Done), SenderActionView::Finish)
        } else if s.queue.len() == 0 {
            (
                sender_in(s, SenderPhaseView::Keying(chunk)),
                SenderActionView::FetchKeys { count: s.batch_size, bits_per_key: s.bits_per_key },
            )
        } else {
            sender_seals(s, s.queue, chunk)
        },
        (SenderPhaseView::ReadingChunk, SenderEventView::SourceFailed) => sender_fails(
            s,
            SessionError::Source,
        ),
        (SenderPhaseView::Keying(chunk), SenderEventView::Keys(batch)) => sender_seals(
            s,
            s.queue + batch,
            chunk,
        ),
        (SenderPhaseView::Keying(_), SenderEventView::SupplierFailed) => sender_fails(
            s,
            SessionError::Supplier,
        ),
        (SenderPhaseView::Framing, SenderEventView::Encoded(bytes)) => if bytes.len()
            <= u32::MAX {
            (sender_in(s, SenderPhaseView::Sending), SenderActionView::Send(frame_of(bytes)))
        } else {
            sender_fails(s, SessionError::FrameTooLarge)
        },
        (SenderPhaseView::Framing, SenderEventView::EncodeFailed) => sender_fails(
            s,
            SessionError::MalformedEnvelope,
        ),
        (SenderPhaseView::Sending, SenderEventView::Sent) => (
            sender_in(s, SenderPhaseView::ReadingChunk),
            SenderActionView::ReadChunk { size: s.chunk_size },
        ),
        (SenderPhaseView::Sending, SenderEventView::TransportFailed) => sender_fails(
            s,
            SessionError::Transport,
        ),
        _ => sender_fails(s, SessionError::UnexpectedEvent),
    }
}

/// Keys are fetched only when they are needed and none is at hand: a step
/// asks for a batch only on reading a block that is not empty while the queue
/// is empty, and it asks for the configured batch and leaves the queue as it
/// was.
pub proof fn lemma_fetch_only_when_needed(s: SenderView, event: SenderEventView)
    requires
        sender_step(s, event).1 is FetchKeys,
    ensures
        s.phase is ReadingChunk,
        event is Chunk,
        event->Chunk_0.len() > 0,
        s.queue.len() == 0,
        sender_step(s, event).0.queue == s.queue,
        sender_step(s, event).1 == (SenderActionView::FetchKeys {
            count: s.batch_size,
            bits_per_key: s.bits_per_key,
        }),
{
}

/// A session that ended stays ended: once done or failed, the sender answers
/// every event with the same finish or the same abort, and touches no key.
pub proof fn lemma_sender_end_is_final(s: SenderView, event: SenderEventView)
    requires
        s.phase is Done || s.phase is Failed,
    ensures
        sender_step(s, event).0 == s,
        s.phase is Done ==> sender_step(s, event).1 == SenderActionView::Finish,
        s.phase is Failed ==> sender_step(s, event).1 == SenderActionView::Abort(
            s.phase->Failed_0,
        ),
{
}

/// What leaves for the wire is a frame: every `Send` carries the length
/// prefix and then the bytes of the envelope, as they were handed in.
pub proof fn lemma_sent_bytes_are_a_frame(s: SenderView, event: SenderEventView)
    requires
        sender_step(s, event).1 is Send,
    ensures
        s.phase is Framing,
        event is Encoded,
        event->Encoded_0.len() <= u32::MAX,
        sender_step(s, event).1->Send_0 == frame_of(event->Encoded_0),
{
}

/// The keys that a step takes in: the batch, when the sender waits for one.
pub open spec fn keys_taken_in(s: SenderView, event: SenderEventView) -> Seq<KeyMaterialView> {
    match (s.phase, event) {
        (SenderPhaseView::Keying(_), SenderEventView::Keys(batch)) => batch,
        _ => Seq::empty(),
    }
}

/// The block that a step takes in: what was read, when the sender waits for
/// a block and the source has not ended.
pub open spec fn blocks_taken_in(s: SenderView, event: SenderEventView) -> Seq<Seq<u8>> {
    match (s.phase, event) {
        (SenderPhaseView::ReadingChunk, SenderEventView::Chunk(chunk)) => if chunk.len() > 0 {
            seq![chunk]
        } else {
            Seq::empty()
        },
        _ => Seq::empty(),
    }
}

/// The block that a sender holds while it waits for keys.
pub open spec fn block_in_waiting(s: SenderView) -> Seq<Seq<u8>> {
    match s.phase {
        SenderPhaseView::Keying(chunk) => seq![chunk],
        _ => Seq::empty(),
    }
}

/// A run of the sender: where it stands after a sequence of events, the
/// actions that it asked for, and every key and every block that it ever
/// held, each in the order in which they came.
pub struct SenderTrace {
    pub state: SenderView,
    pub actions: Seq<SenderActionView>,
    pub supplied: Seq<KeyMaterialView>,
    pub blocks: Seq<Seq<u8>>,
}

/// The run of a sender from state `s` over `events`.
pub open spec fn sender_run(s: SenderView, events: Seq<SenderEventView>) -> SenderTrace
    decreases events.len(),
{
    if events.len() == 0 {
        SenderTrace {
            state: s,
            actions: Seq::empty(),
            supplied: s.queue,
            blocks: block_in_waiting(s),
        }
    } else {
        let before = sender_run(s, events.drop_last());
        let (state, action) = sender_step(before.state, events.last());
        SenderTrace {
            state,
            actions: before.actions.push(action),
            supplied: before.supplied + keys_taken_in(before.state, events.last()),
            blocks: before.blocks + blocks_taken_in(before.state, events.last()),
        }
    }
}

/// The envelopes among `actions`, in order.
pub open spec fn envelopes(actions: Seq<SenderActionView>) -> Seq<EnvelopeView>
    decreases actions.len(),
{
    if actions.len() == 0 {
        Seq::empty()
    } else {
        let before = envelopes(actions.drop_last());
        match actions.last() {
            SenderActionView::Encode(envelope) => before.push(envelope),
            _ => before,
        }
    }
}

/// The key identifiers that the envelopes among `actions` bear, in order.
pub open spec fn keys_used(actions: Seq<SenderActionView>) -> Seq<Seq<char>> {
    envelopes(actions).map_values(|e: EnvelopeView| e.key_id)
}

/// What holds of every run.  The queue is what is left of the supply after
/// `spent` keys.  The n-th envelope seals the n-th block under the n-th key.
/// A block or a key beyond the envelopes is there only while the sender
/// waits for keys, or after it failed.
spec fn run_in_order(t: SenderTrace, spent: int) -> bool {
    let sent = envelopes(t.actions).len();
    &&& sent <= spent <= t.supplied.len()
    &&& t.state.queue == t.supplied.subrange(spent, t.supplied.len() as int)
    &&& sent <= t.blocks.len() <= sent + 1
    &&& forall|i: int|
        0 <= i < sent ==> sealed(t.supplied[i].id, t.supplied[i].bytes, t.blocks[i]) == Ok::<
            EnvelopeView,
            EncryptedMessageError,
        >(#[trigger] envelopes(t.actions)[i])
    &&& t.state.phase is Keying ==> t.blocks.len() == sent + 1 && t.blocks.last()
        == t.state.phase->Keying_0 && spent == sent
    &&& !(t.state.phase is Keying) && !(t.state.phase is Failed) ==> t.blocks.len() == sent
        && spent == sent
    &&& spent <= sent + 1
}

proof fn lemma_run_in_order(s: SenderView, events: Seq<SenderEventView>) -> (spent: int)
    ensures
        run_in_order(sender_run(s, events), spent),
    decreases events.len(),
{
    let t = sender_run(s, events);
    if events.len() == 0 {
        assert(t.state.queue =~= t.supplied.subrange(0, t.supplied.len() as int));
        0
    } else {
        let before = sender_run(s, events.drop_last());
        let spent = lemma_run_in_order(s, events.drop_last());
        let event = events.last();
        let action = sender_step(before.state, event).1;
        let sent = envelopes(before.actions).len() as int;
        assert(t.actions.drop_last() =~= before.actions);
        assert(t.actions.last() == action);
        let at_hand = before.state.queue + keys_taken_in(before.state, event);
        assert(at_hand =~= t.supplied.subrange(spent, t.supplied.len() as int));
        assert forall|i: int| 0 <= i < sent implies sealed(
            t.supplied[i].id,
            t.supplied[i].bytes,
            t.blocks[i],
        ) == Ok::<EnvelopeView, EncryptedMessageError>(#[trigger] envelopes(t.actions)[i]) by {
            assert(t.supplied[i] == before.supplied[i]);
            assert(t.blocks[i] == before.blocks[i]);
            assert(envelopes(t.actions)[i] == envelopes(before.actions)[i]);
        }
        if t.state.queue == at_hand {
            assert(!(action is Encode));
            spent
        } else {
            assert(at_hand.len() > 0);
            assert(t.state.queue == at_hand.drop_first());
            assert(at_hand.drop_first() =~= t.supplied.subrange(
                spent + 1,
                t.supplied.len() as int,
            ));
            assert(spent == sent);
            assert(at_hand[0] == t.supplied[sent]);
            assert(t.blocks.len() == sent + 1);
            if action is Encode {
                assert(envelopes(t.actions)[sent] == action->Encode_0);
            }
            spent + 1
        }
    }
}

/// Blocks leave in the order in which they were read, each under a key of
/// its own: the n-th envelope of a run seals the n-th block that the sender
/// took in under the n-th key that it took in.
pub proof fn lemma_blocks_sealed_in_order(s: SenderView, events: Seq<SenderEventView>, n: int)
    requires
        0 <= n < envelopes(sender_run(s, events).actions).len(),
    ensures
        n < sender_run(s, events).supplied.len(),
        n < sender_run(s, events).blocks.len(),
        sealed(
            sender_run(s, events).supplied[n].id,
            sender_run(s, events).supplied[n].bytes,
            sender_run(s, events).blocks[n],
        ) == Ok::<EnvelopeView, EncryptedMessageError>(
            envelopes(sender_run(s, events).actions)[n],
        ),
{
    let spent = lemma_run_in_order(s, events);
}

/// Keys are used in the order in which they came, and each at most once: the
/// envelopes of a run bear, in order, the identifiers of the first keys that
/// the sender held, and no key that an envelope used is still in the queue.
pub proof fn lemma_keys_used_in_supply_order(s: SenderView, events: Seq<SenderEventView>)
    ensures
        ({
            let t = sender_run(s, events);
            let used = keys_used(t.actions);
            &&& used.len() <= t.supplied.len()
            &&& used == key_ids(t.supplied).subrange(0, used.len() as int)
            &&& exists|spent: int|
                used.len() <= spent <= t.supplied.len() && t.state.queue == t.supplied.subrange(
                    spent,
                    t.supplied.len() as int,
                )
        }),
{
    let t = sender_run(s, events);
    let spent = lemma_run_in_order(s, events);
    let used = keys_used(t.actions);
    assert forall|i: int| 0 <= i < used.len() implies used[i] == key_ids(t.supplied)[i] by {
        let e = envelopes(t.actions)[i];
        assert(sealed(t.supplied[i].id, t.supplied[i].bytes, t.blocks[i]) == Ok::<
            EnvelopeView,
            EncryptedMessageError,
        >(e));
    }
    assert(used =~= key_ids(t.supplied).subrange(0, used.len() as int));
}

/// No reuse: as long as the key manager never hands out one identifier
/// twice, no two envelopes of a run bear the same key identifier.
pub proof fn lemma_no_key_used_twice(s: SenderView, events: Seq<SenderEventView>)
    requires
        key_ids(sender_run(s, events).supplied).no_duplicates(),
    ensures
        keys_used(sender_run(s, events).actions).no_duplicates(),
{
    lemma_keys_used_in_supply_order(s, events);
}

impl Sender {
    /// A sender that has not started and holds no key.  It reads blocks of
    /// the key size and asks for keys as the configuration says.
    pub fn new(config: &ChannelConfig) -> (s: Self)
        requires
            config.wf(),
        ensures
            s@ == (SenderView {
                chunk_size: config.key_size_bytes,
                batch_size: config.keys_per_request,
                bits_per_key: (config.key_size_bytes * 8) as usize,
                queue: Seq::empty(),
                phase: SenderPhaseView::Idle,
            }),
    {
        Sender {
            params: SenderParams {
                chunk_size: config.key_size_bytes,
                batch_size: config.keys_per_request,
                bits_per_key: config.key_size_bits(),
            },
            queue: KeyQueue::new(),
            phase: SenderPhase::Idle,
        }
    }

    /// Where the sender stands.
    pub fn phase(&self) -> (p: &SenderPhase)
        ensures
            p@ == self@.phase,
    {
        &self.phase
    }

    /// How many keys the sender has buffered.
    pub fn buffered_keys(&self) -> (n: usize)
        ensures
            n == self@.queue.len(),
    {
        self.queue.len()
    }

    /// Seals `chunk` under `key`, which has just left the queue.
    fn seal(params: SenderParams, queue: KeyQueue, key: KeyMaterial, chunk: Vec<u8>) -> (r: (
        Sender,
        SenderAction,
    ))
        ensures
            (r.0@, r.1@) == sender_seals(
                (Sender { params, queue, phase: SenderPhase::Idle })@,
                seq![key@] + queue@,
                chunk@,
            ),
    {
        assert((seq![key@] + queue@).drop_first() =~= queue@);
        match EncryptedMessage::new(key.id, key.bytes, chunk) {
            Ok(envelope) => (
                Sender { params, queue, phase: SenderPhase::Framing },
                SenderAction::Encode(envelope),
            ),
            Err(e) => {
                let e = SessionError::from_cipher(e);
                (Sender { params, queue, phase: SenderPhase::Failed(e) }, SenderAction::Abort(e))
            },
        }
    }

    /// Takes one event and names the next action.
    pub fn step(self, event: SenderEvent) -> (r: (Sender, SenderAction))
        ensures
            (r.0@, r.1@) == sender_step(self@, event@),
    {
        let Sender { params, queue, phase } = self;
        let mut queue = queue;
        let unexpected = SessionError::UnexpectedEvent;
        let (phase, action) = match phase {
            SenderPhase::Done => (SenderPhase::Done, SenderAction::Finish),
            SenderPhase::Failed(e) => (SenderPhase::Failed(e), SenderAction::Abort(e)),
            SenderPhase::Idle => match event {
                SenderEvent::Start => (
                    SenderPhase::ReadingChunk,
                    SenderAction::ReadChunk { size: params.chunk_size },
                ),
                _ => (SenderPhase::Failed(unexpected), SenderAction::Abort(unexpected)),
            },
            SenderPhase::ReadingChunk => match event {
                SenderEvent::Chunk(chunk) => {
                    if chunk.len() == 0 {
                        (SenderPhase::Done, SenderAction::Finish)
                    } else {
                        match queue.pop_one(params.batch_size, params.bits_per_key) {
                            KeyDemand::Fetch { count, bits_per_key } => (
                                SenderPhase::Keying(chunk),
                                SenderAction::FetchKeys { count, bits_per_key },
                            ),
                            KeyDemand::Ready(key) => {
                                assert(seq![key@] + queue@ =~= self@.queue);
                                return Self::seal(params, queue, key, chunk);
                            },
                        }
                    }
                },
                SenderEvent::SourceFailed => (
                    SenderPhase::Failed(SessionError::Source),
                    SenderAction::Abort(SessionError::Source),
                ),
                _ => (SenderPhase::Failed(unexpected), SenderAction::Abort(unexpected)),
            },
            SenderPhase::Keying(chunk) => match event {
                SenderEvent::Keys(batch) => {
                    let ghost all = self@.queue + key_views(batch@);
                    match queue.pop_refilled(batch) {
                        Err(e) => (SenderPhase::Failed(e), SenderAction::Abort(e)),
                        Ok(key) => {
                            assert(seq![key@] + queue@ =~= all);
                            return Self::seal(params, queue, key, chunk);
                        },
                    }
                },
                SenderEvent::SupplierFailed => (
                    SenderPhase::Failed(SessionError::Supplier),
                    SenderAction::Abort(SessionError::Supplier),
                ),
                _ => (SenderPhase::Failed(unexpected), SenderAction::Abort(unexpected)),
            },
            SenderPhase::Framing => match event {
                SenderEvent::Encoded(bytes) => match encode_frame(bytes.as_slice()) {
                    Ok(frame) => (SenderPhase::Sending, SenderAction::Send(frame)),
                    Err(e) => (SenderPhase::Failed(e), SenderAction::Abort(e)),
                },
                SenderEvent::EncodeFailed => (
                    SenderPhase::Failed(SessionError::MalformedEnvelope),
                    SenderAction::Abort(SessionError::MalformedEnvelope),
                ),
                _ => (SenderPhase::Failed(unexpected), SenderAction::Abort(unexpected)),
            },
            SenderPhase::Sending => match event {
                SenderEvent::Sent => (
                    SenderPhase::ReadingChunk,
                    SenderAction::ReadChunk { size: params.chunk_size },
                ),
                SenderEvent::TransportFailed => (
                    SenderPhase::Failed(SessionError::Transport),
                    SenderAction::Abort(SessionError::Transport),
                ),
                _ => (SenderPhase::Failed(unexpected), SenderAction::Abort(unexpected)),
            },
        };
        (Sender { params, queue, phase }, action)
    }
}

} // verus!
