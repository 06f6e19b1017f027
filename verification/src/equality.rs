use crate::models::Deck;
use vstd::prelude::*;
use vstd::std_specs::cmp::PartialEqSpecImpl;

verus! {

impl PartialEq for Deck {
    /// Two decks are equal when they hold the same cards in the same order.
    fn eq(&self, other: &Deck) -> (same: bool) {
        let n: usize = self.cards.len();
        if n != other.cards.len() {
            return false;
        }
        let mut i: usize = 0;
        while i < n
            invariant
                n == self.cards@.len(),
                n == other.cards@.len(),
                i <= n,
                forall|j: int| 0 <= j < i ==> self.cards@[j] == other.cards@[j],
            decreases n - i,
        {
            if !(self.cards[i] == other.cards[i]) {
                return false;
            }
            i = i + 1;
        }
        proof {
            assert(self@ =~= other@);
        }
        true
    }
}

impl PartialEqSpecImpl for Deck {
    open spec fn obeys_eq_spec() -> bool {
        true
    }

    open spec fn eq_spec(&self, other: &Deck) -> bool {
        self@ == other@
    }
}

} // verus!
