//! Key material and the queue that hands it out, first come, first served.

use crate::error::SessionError;
use std::collections::VecDeque;
use vstd::prelude::*;

verus! {

/// What key material is: an identifier and the raw key bytes.
pub struct KeyMaterialView {
    pub id: Seq<char>,
    pub bytes: Seq<u8>,
}

/// One key as the key manager hands it out.  It is meant for one message and
/// is given up by value to the call that uses it.
#[derive(Debug, Clone, PartialEq, Eq)]
pub struct KeyMaterial {
    pub id: String,
    pub bytes: Vec<u8>,
}

impl View for KeyMaterial {
    type V = KeyMaterialView;

    open spec fn view(&self) -> KeyMaterialView {
        KeyMaterialView { id: self.id@, bytes: self.bytes@ }
    }
}

/// The views of a run of keys, in the same order.
pub open spec fn key_views(keys: Seq<KeyMaterial>) -> Seq<KeyMaterialView> {
    keys.map_values(|k: KeyMaterial| k@)
}

/// The identifiers of a run of keys, in the same order.
pub open spec fn key_ids(keys: Seq<KeyMaterialView>) -> Seq<Seq<char>> {
    keys.map_values(|k: KeyMaterialView| k.id)
}

/// What a request for one key comes to.
#[derive(Debug, Clone, PartialEq, Eq)]
pub enum KeyDemand {
    /// A buffered key, now out of the queue.
    Ready(KeyMaterial),
    /// Nothing is buffered: a batch has to be fetched first.
    Fetch { count: usize, bits_per_key: usize },
}

/// The keys that wait for use, oldest first.
#[derive(Debug, Clone, PartialEq, Eq)]
pub struct KeyQueue {
    keys: VecDeque<KeyMaterial>,
}

impl View for KeyQueue {
    type V = Seq<KeyMaterialView>;

    closed spec fn view(&self) -> Seq<KeyMaterialView> {
        key_views(self.keys@)
    }
}

impl KeyQueue {
    /// A queue that holds nothing.
    pub fn new() -> (q: Self)
        ensures
            q@ == Seq::<KeyMaterialView>::empty(),
    {
        KeyQueue { keys: VecDeque::new() }
    }

    /// How many keys are buffered.
    pub fn len(&self) -> (n: usize)
        ensures
            n == self@.len(),
    {
        self.keys.len()
    }

    /// Whether nothing is buffered.
    pub fn is_empty(&self) -> (b: bool)
        ensures
            b == (self@.len() == 0),
    {
        self.keys.len() == 0
    }

    /// Asks for one key.  While keys are buffered the oldest one leaves the
    /// queue and nothing is fetched.  An empty queue stays as it is and the
    /// answer names the batch to fetch: `batch_size` keys of `bits_per_key`
    /// bits.
    pub fn pop_one(&mut self, batch_size: usize, bits_per_key: usize) -> (r: KeyDemand)
        ensures
            old(self)@.len() > 0 ==> (r matches KeyDemand::Ready(k) && k@ == old(self)@[0]
                && final(self)@ == old(self)@.drop_first()),
            old(self)@.len() == 0 ==> r == (KeyDemand::Fetch {
                count: batch_size,
                bits_per_key,
            }) && final(self)@ == old(self)@,
    {
        match self.keys.pop_front() {
            Some(k) => KeyDemand::Ready(k),
            None => KeyDemand::Fetch { count: batch_size, bits_per_key },
        }
    }

    /// Takes in a fetched batch behind what is buffered, in the order in which
    /// it came, and hands out the oldest key.  Fails with `NoKeyAvailable`
    /// when there is no key at all: the batch is empty and so was the queue.
    pub fn pop_refilled(&mut self, batch: VecDeque<KeyMaterial>) -> (r: Result<
        KeyMaterial,
        SessionError,
    >)
        ensures
            old(self)@.len() + batch@.len() == 0 ==> r == Err::<KeyMaterial, SessionError>(
                SessionError::NoKeyAvailable,
            ) && final(self)@ == old(self)@,
            old(self)@.len() + batch@.len() > 0 ==> r is Ok && r->Ok_0@ == (old(self)@ + key_views(
                batch@,
            ))[0] && final(self)@ == (old(self)@ + key_views(batch@)).drop_first(),
    {
        let mut batch = batch;
        self.keys.append(&mut batch);
        match self.keys.pop_front() {
            Some(k) => Ok(k),
            None => Err(SessionError::NoKeyAvailable),
        }
    }
}

} // verus!
