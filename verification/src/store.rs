//! The trusted store, read by the scheduler: a lookup from height to a
//! previously accepted trusted state.
//!
//! The scheduler only reads the store; persisting newly verified states is
//! the outer application's policy. A hit short-circuits verification, which
//! is sound only when the store's contents are themselves products of prior
//! successful verifications (or a genesis anchor).

use vstd::prelude::*;

use crate::types::Height;
use crate::types::TrustedState;

verus! {

/// The first state in `states` whose header height is `height`, if any.
pub open spec fn store_lookup(states: Seq<TrustedState>, height: Height) -> Option<TrustedState>
    decreases states.len(),
{
    if states.len() == 0 {
        None
    } else if states[0].header.height == height {
        Some(states[0])
    } else {
        store_lookup(states.drop_first(), height)
    }
}

/// A state found by `store_lookup` carries the height it was looked up at.
pub proof fn lemma_store_lookup_height(states: Seq<TrustedState>, height: Height)
    ensures
        store_lookup(states, height) matches Some(state) ==> state.header.height == height,
    decreases states.len(),
{
    if states.len() > 0 && states[0].header.height != height {
        lemma_store_lookup_height(states.drop_first(), height);
    }
}

/// An in-memory reader over the trusted states the application has persisted.
pub struct TrustedStore {
    states: Vec<TrustedState>,
}

impl View for TrustedStore {
    type V = Seq<TrustedState>;

    closed spec fn view(&self) -> Seq<TrustedState> {
        self.states@
    }
}

impl TrustedStore {
    /// An empty store.
    pub fn new() -> (store: TrustedStore)
        ensures
            store@ == Seq::<TrustedState>::empty(),
    {
        TrustedStore { states: Vec::new() }
    }

    /// Record one more trusted state. States recorded earlier win lookups at
    /// the same height.
    pub fn insert(&mut self, state: TrustedState)
        ensures
            final(self)@ == old(self)@.push(state),
    {
        self.states.push(state);
    }

    /// Look a height up; the result, if any, is the first recorded state at
    /// that height.
    pub fn get(&self, height: Height) -> (r: Option<TrustedState>)
        ensures
            r == store_lookup(self@, height),
    {
        let n = self.states.len();
        let mut i: usize = 0;
        proof {
            assert(self@.subrange(0, n as int) =~= self@);
        }
        while i < n
            invariant
                i <= n,
                n == self.states.len(),
                store_lookup(self@, height) == store_lookup(
                    self@.subrange(i as int, n as int),
                    height,
                ),
            decreases n - i,
        {
            let candidate = self.states[i];
            proof {
                assert(self@.subrange(i as int, n as int)[0] == self@[i as int]);
                assert(self@.subrange(i as int, n as int).drop_first() =~= self@.subrange(
                    i as int + 1,
                    n as int,
                ));
            }
            if candidate.header.height == height {
                return Some(candidate);
            }
            i = i + 1;
        }
        proof {
            assert(self@.subrange(n as int, n as int) =~= Seq::<TrustedState>::empty());
        }
        None
    }
}

} // verus!
