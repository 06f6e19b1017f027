use crate::models::{Alice, Bob, Card, Deck};
use vstd::prelude::*;

verus! {

/// Always `true`.
pub fn dummy_util() -> (yes: bool)
    ensures
        yes,
{
    true
}

/// The place a party marks in a deck of `len` cards: the first card for yes,
/// the first card of the second half for no.
pub open spec fn mark(len: nat, secret: bool) -> int {
    if secret {
        0
    } else {
        len as int / 2
    }
}

/// `cards` with the cards at `a` and `b` exchanged.
pub open spec fn exchanged(cards: Seq<Card>, a: int, b: int) -> Seq<Card>
    recommends
        0 <= a < cards.len(),
        0 <= b < cards.len(),
{
    cards.update(a, cards[b]).update(b, cards[a])
}

/// Exchanges the two cards that Alice and Bob mark, and says whether both of
/// them are Queens.
pub fn find_match(deck: &mut Deck, alice: Alice, bob: Bob) -> (found: bool)
    requires
        old(deck)@.len() > 0,
    ensures
        final(deck)@ == exchanged(
            old(deck)@,
            mark(old(deck)@.len(), alice.secret),
            mark(old(deck)@.len(), bob.secret),
        ),
        found == (old(deck)@[mark(old(deck)@.len(), alice.secret)] == Card::Queen
            && old(deck)@[mark(old(deck)@.len(), bob.secret)] == Card::Queen),
{
    let half_size: usize = deck.cards.len() / 2;
    let alice_mark: usize = if alice.secret {
        0
    } else {
        half_size
    };
    let bob_mark: usize = if bob.secret {
        0
    } else {
        half_size
    };
    let at_alice: Card = deck.cards[alice_mark];
    let at_bob: Card = deck.cards[bob_mark];
    deck.cards.set(alice_mark, at_bob);
    deck.cards.set(bob_mark, at_alice);
    let alice_found: bool = deck.cards[alice_mark] == Card::Queen;
    let bob_found: bool = deck.cards[bob_mark] == Card::Queen;
    alice_found && bob_found
}

} // verus!
