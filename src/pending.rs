//! Which free-text reply each chat is expected to send next.
use vstd::prelude::*;
use crate::entry::GlucoseTag;
use std::collections::HashMap;

verus! {

broadcast use vstd::std_specs::hash::group_hash_axioms;

/// What a bare reply from a chat will be read as.
#[derive(Clone, Copy, Debug, PartialEq, Eq, Structural)]
pub enum PendingEntry {
    /// A glucose payload with this tag.
    Glucose(GlucoseTag),
    /// A weight in kilograms.
    Weight,
}

/// One pending entry at most per chat.
pub struct PendingState {
    entries: HashMap<i64, PendingEntry>,
}

impl View for PendingState {
    type V = Map<i64, PendingEntry>;

    closed spec fn view(&self) -> Map<i64, PendingEntry> {
        self.entries@
    }
}

impl PendingState {
    /// No chat has a pending entry.
    pub fn new() -> (r: PendingState)
        ensures
            r@ == Map::<i64, PendingEntry>::empty(),
    {
        PendingState { entries: HashMap::new() }
    }

    /// The entry that `chat` is expected to send, if any.
    pub fn get(&self, chat: i64) -> (r: Option<PendingEntry>)
        ensures
            r == (if self@.contains_key(chat) {
                Some(self@[chat])
            } else {
                None
            }),
    {
        match self.entries.get(&chat) {
            Some(e) => Some(*e),
            None => None,
        }
    }

    /// Expects `entry` from `chat` next, replacing what it was expected to send.
    pub fn set(&mut self, chat: i64, entry: PendingEntry)
        ensures
            final(self)@ == old(self)@.insert(chat, entry),
    {
        self.entries.insert(chat, entry);
    }

    /// Expects nothing in particular from `chat`.
    pub fn clear(&mut self, chat: i64)
        ensures
            final(self)@ == old(self)@.remove(chat),
    {
        self.entries.remove(&chat);
    }
}

} // verus!
