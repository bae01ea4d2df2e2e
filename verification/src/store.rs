//! The persistent state store: the one record a widget keeps across frames,
//! keyed by widget identity.

use std::collections::HashMap;

use vstd::prelude::*;

verus! {

broadcast use vstd::std_specs::hash::group_hash_axioms;

/// What a text-edit widget remembers between frames: its cursor, as a
/// character offset.  Absent means "no cursor yet": on focus it defaults to
/// the end of the text.
#[derive(Clone, Copy, Debug, PartialEq, Eq)]
pub struct State {
    /// Character based, not bytes.
    pub cursor: Option<usize>,
}

impl Default for State {
    /// The state of a widget that was never rendered: no cursor yet.
    fn default() -> (r: State)
        ensures
            r.cursor == Option::<usize>::None,
    {
        State { cursor: None }
    }
}

/// Persistent widget state by widget identity.  A missing entry reads as
/// the default state, so a widget needs no ceremony on its first frame.
pub struct StateStore {
    map: HashMap<u64, State>,
}

impl StateStore {
    /// The state the store yields for `id`: the entry, or the default.
    pub closed spec fn spec_get(&self, id: u64) -> State {
        if self.map@.contains_key(id) {
            self.map@[id]
        } else {
            State { cursor: Option::None }
        }
    }

    /// Whether an entry was ever written for `id`.
    pub closed spec fn contains(&self, id: u64) -> bool {
        self.map@.contains_key(id)
    }

    /// An empty store: every widget reads its default state.
    pub fn new() -> (r: StateStore)
        ensures
            forall|id: u64| (#[trigger] r.spec_get(id)).cursor == Option::<usize>::None,
            forall|id: u64| !(#[trigger] r.contains(id)),
    {
        StateStore { map: HashMap::new() }
    }

    /// Read the state of widget `id`.
    pub fn get(&self, id: u64) -> (r: State)
        ensures
            r == self.spec_get(id),
    {
        match self.map.get(&id) {
            Some(state) => *state,
            None => State { cursor: None },
        }
    }

    /// Write the state of widget `id` back, leaving every other entry alone.
    pub fn insert(&mut self, id: u64, state: State)
        ensures
            final(self).spec_get(id) == state,
            final(self).contains(id),
            forall|other: u64|
                other != id ==> #[trigger] final(self).spec_get(other) == old(self).spec_get(other),
            forall|other: u64|
                other != id ==> #[trigger] final(self).contains(other) == old(self).contains(other),
    {
        self.map.insert(id, state);
    }
}

} // verus!
