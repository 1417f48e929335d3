//! The storage that the session reads and writes through its save and load
//! requests: saved states with their checksums, keyed by frame number.

use vstd::prelude::*;
use std::collections::HashMap;
use crate::state::{State, StateView};

verus! {

/// One saved state and the checksum taken when it was saved.
#[derive(Debug)]
pub struct SavedState {
    pub state: State,
    pub checksum: u64,
}

/// Saved states by frame number.
pub struct SaveStore {
    pub slots: HashMap<i32, SavedState>,
}

impl View for SaveStore {
    type V = Map<i32, (StateView, u64)>;

    open spec fn view(&self) -> Map<i32, (StateView, u64)> {
        Map::new(
            |frame: i32| self.slots@.contains_key(frame),
            |frame: i32| (self.slots@[frame].state@, self.slots@[frame].checksum),
        )
    }
}

/// Every saved state is well formed and is a state of `num_players` players.
pub open spec fn store_fits(store: Map<i32, (StateView, u64)>, num_players: usize) -> bool {
    forall|frame: i32| #[trigger]
        store.contains_key(frame) ==> store[frame].0.wf() && store[frame].0.num_players
            == num_players
}

impl SaveStore {
    /// An empty store.
    pub fn new() -> (store: SaveStore)
        ensures
            store@ == Map::<i32, (StateView, u64)>::empty(),
    {
        let store = SaveStore { slots: HashMap::new() };
        proof {
            assert(store@ =~= Map::<i32, (StateView, u64)>::empty());
        }
        store
    }

    /// Whether a state is saved under `frame`.
    pub fn contains(&self, frame: i32) -> (found: bool)
        ensures
            found == self@.contains_key(frame),
    {
        proof {
            broadcast use vstd::std_specs::hash::group_hash_axioms;

        }
        self.slots.contains_key(&frame)
    }

    /// Saves `state` with `checksum` under `frame`, in place of what was
    /// saved there before.
    pub fn put(&mut self, frame: i32, state: State, checksum: u64)
        ensures
            final(self)@ == old(self)@.insert(frame, (state@, checksum)),
    {
        proof {
            broadcast use vstd::std_specs::hash::group_hash_axioms;

        }
        self.slots.insert(frame, SavedState { state, checksum });
        proof {
            assert(self@ =~= old(self)@.insert(frame, (state@, checksum)));
        }
    }

    /// A copy of the state saved under `frame` with its checksum, if any.
    pub fn get(&self, frame: i32) -> (found: Option<(State, u64)>)
        ensures
            found.is_some() == self@.contains_key(frame),
            found matches Some(entry) ==> entry.0@ == self@[frame].0 && entry.1 == self@[frame].1,
    {
        proof {
            broadcast use vstd::std_specs::hash::group_hash_axioms;

        }
        match self.slots.get(&frame) {
            Some(saved) => Some((saved.state.duplicate(), saved.checksum)),
            None => None,
        }
    }
}

} // verus!
