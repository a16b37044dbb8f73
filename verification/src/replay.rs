//! The record of a session: its seed and every action that was handled, each
//! with the time since the one before.

use crate::action::Action;
use vstd::prelude::*;

verus! {

/// A record as a mathematical value.
pub struct Record {
    /// The seed of the session.
    pub seed: Seq<u8>,
    /// The actions in the order in which they were handled, each with the
    /// milliseconds that passed since the one before.
    pub actions: Seq<(Action, u64)>,
}

impl Record {
    /// The record with one more action at its end.
    pub open spec fn added(self, action: Action, elapsed: u64) -> Record {
        Record { actions: self.actions.push((action, elapsed)), ..self }
    }
}

/// The record of a session. Entries are only ever added at the end.
pub struct ReplayData {
    seed: [u8; 32],
    actions: Vec<(Action, u64)>,
}

impl View for ReplayData {
    type V = Record;

    closed spec fn view(&self) -> Record {
        Record { seed: self.seed@, actions: self.actions@ }
    }
}

impl ReplayData {
    /// An empty record of a session seeded with `seed`.
    pub fn new(seed: &[u8; 32]) -> (data: ReplayData)
        ensures
            data@ == (Record { seed: seed@, actions: Seq::empty() }),
    {
        ReplayData { seed: *seed, actions: Vec::new() }
    }

    /// Adds `action`, handled `elapsed` milliseconds after the one before.
    pub fn add(&mut self, action: Action, elapsed: u64)
        ensures
            final(self)@ == old(self)@.added(action, elapsed),
    {
        self.actions.push((action, elapsed));
    }

    /// The seed of the session.
    pub fn seed(&self) -> (seed: [u8; 32])
        ensures
            seed@ == self@.seed,
    {
        self.seed
    }

    /// The number of actions recorded.
    pub fn len(&self) -> (len: usize)
        ensures
            len == self@.actions.len(),
    {
        self.actions.len()
    }

    /// Entry number `i`: the action and the milliseconds since the one before.
    pub fn get(&self, i: usize) -> (entry: Option<(Action, u64)>)
        ensures
            i < self@.actions.len() ==> entry == Some(self@.actions[i as int]),
            i >= self@.actions.len() ==> entry.is_none(),
    {
        if i < self.actions.len() {
            Some(self.actions[i])
        } else {
            None
        }
    }
}

} // verus!
