//! The store of a session: the categories that were loaded and the round
//! that is being played.

use crate::cards::copy_names;
use crate::round::{RoundState, RoundView};
use vstd::prelude::*;

verus! {

/// Owns the collection of categories and the state of the one round in play.
/// The round it holds always keeps the invariant of a round. The store has
/// one owner at a time: where requests and a ticking thread share it, they
/// hold it behind a lock, and change the round by `replace_round_state`.
pub struct SessionStore {
    categories: Vec<String>,
    round_state: RoundState,
}

impl SessionStore {
    #[verifier::type_invariant]
    spec fn sound(&self) -> bool {
        self.round_state@.wf()
    }

    /// The categories loaded so far, in the order they came.
    pub closed spec fn collection(&self) -> Seq<Seq<char>> {
        self.categories.deep_view()
    }

    /// The round in play.
    pub closed spec fn round(&self) -> RoundView {
        self.round_state@
    }

    /// A store without categories, with an empty round.
    pub fn new() -> (store: SessionStore)
        ensures
            store.collection() == Seq::<Seq<char>>::empty(),
            store.round() == RoundView::empty(),
    {
        let store = SessionStore { categories: Vec::new(), round_state: RoundState::empty() };
        store
    }

    /// Adds `new_items` behind the categories that are there.
    pub fn append_collection(&mut self, new_items: Vec<String>)
        ensures
            final(self).collection() == old(self).collection() + new_items.deep_view(),
            final(self).round() == old(self).round(),
    {
        proof {
            use_type_invariant(&*self);
        }
        let mut taken = SessionStore::new();
        core::mem::swap(self, &mut taken);
        let SessionStore { mut categories, round_state } = taken;
        let mut new_items = new_items;
        categories.append(&mut new_items);
        *self = SessionStore { categories, round_state };
    }

    /// A copy of the categories loaded so far.
    pub fn read_collection(&self) -> (snapshot: Vec<String>)
        ensures
            snapshot.deep_view() == self.collection(),
    {
        copy_names(&self.categories)
    }

    /// A copy of the round in play.
    pub fn read_round_state(&self) -> (snapshot: RoundState)
        ensures
            snapshot@ == self.round(),
            snapshot@.wf(),
    {
        proof {
            use_type_invariant(self);
        }
        self.round_state.snapshot()
    }

    /// Puts in place of the round what `change` makes of it, if that keeps
    /// the invariant of a round; what does not is thrown away, and the round
    /// stays. Tells whether the round was replaced.
    pub fn replace_round_state<F: FnOnce(RoundState) -> RoundState>(&mut self, change: F) -> (replaced:
        bool)
        requires
            forall|given: RoundState|
                given@ == old(self).round() ==> #[trigger] change.requires((given,)),
        ensures
            final(self).collection() == old(self).collection(),
            replaced ==> final(self).round().wf(),
            !replaced ==> final(self).round() == old(self).round(),
            exists|given: RoundState, made: RoundState|
                {
                    &&& given@ == old(self).round()
                    &&& #[trigger] change.ensures((given,), made)
                    &&& replaced == made@.wf()
                    &&& replaced ==> final(self).round() == made@
                },
    {
        proof {
            use_type_invariant(&*self);
        }
        let given = self.round_state.snapshot();
        let made = change(given);
        if made.is_well_formed() {
            self.round_state = made;
            true
        } else {
            false
        }
    }

    /// Clears the round.
    pub fn reset_round_state(&mut self)
        ensures
            final(self).collection() == old(self).collection(),
            final(self).round() == RoundView::empty(),
    {
        self.round_state = RoundState::empty();
    }
}

} // verus!
