use crate::laws::{lemma_rotated_keeps_cards, lemma_step_round};
use vstd::prelude::*;

verus! {

/// One of the two cards the protocol is played with.
#[derive(Clone, Copy, Debug, PartialEq, Eq, Structural)]
pub enum Card {
    Queen,
    King,
}

/// An ordered run of cards. Position carries meaning: the protocol's whole
/// state is which card lies where.
#[derive(Debug)]
pub struct Deck {
    pub cards: Vec<Card>,
}

impl Default for Deck {
    /// The deck without cards.
    fn default() -> (deck: Deck)
        ensures
            deck@ == Seq::<Card>::empty(),
    {
        Deck { cards: Vec::new() }
    }
}

impl Clone for Deck {
    /// A second deck with the same cards in the same order.
    fn clone(&self) -> (copy: Deck)
        ensures
            copy@ == self@,
    {
        Deck { cards: self.cards.clone() }
    }
}

impl View for Deck {
    type V = Seq<Card>;

    /// The cards, first card first.
    open spec fn view(&self) -> Seq<Card> {
        self.cards@
    }
}

/// `left`, then one King that parts the two sides, then `right`.
pub open spec fn joined_cards(left: Seq<Card>, right: Seq<Card>) -> Seq<Card> {
    left.push(Card::King) + right
}

/// `cards` turned to the left by `shift` places: the card that lay at
/// `shift` modulo the length now lies first, and the circular order is kept.
/// A deck without cards stays as it is.
pub open spec fn rotated(cards: Seq<Card>, shift: nat) -> Seq<Card> {
    if cards.len() == 0 {
        cards
    } else {
        Seq::new(cards.len(), |i: int| cards[(i + shift) % cards.len() as int])
    }
}

/// The two cards by which Alice states her answer.
pub open spec fn alice_cards(secret: bool) -> Seq<Card> {
    if secret {
        seq![Card::Queen, Card::King]
    } else {
        seq![Card::King, Card::Queen]
    }
}

/// The two cards by which Bob states his answer: Alice's, the other way round.
pub open spec fn bob_cards(secret: bool) -> Seq<Card> {
    if secret {
        seq![Card::King, Card::Queen]
    } else {
        seq![Card::Queen, Card::King]
    }
}

/// Whether the three cards at `start`, `start + 1` and `start + 2` are all
/// Kings, where the position after the last card is the first card again.
pub open spec fn kings_from(cards: Seq<Card>, start: int) -> bool
    recommends
        cards.len() > 0,
        0 <= start,
{
    &&& cards[start % cards.len() as int] == Card::King
    &&& cards[(start + 1) % cards.len() as int] == Card::King
    &&& cards[(start + 2) % cards.len() as int] == Card::King
}

/// Whether three Kings lie next to each other somewhere round the deck.
pub open spec fn three_kings_in_a_row(cards: Seq<Card>) -> bool {
    exists|start: int| 0 <= start < cards.len() && #[trigger] kings_from(cards, start)
}

/// Putting two decks together round a King.
pub trait JoinTrait: View<V = Seq<Card>> {
    /// A new deck: the cards of `self`, one King, the cards of `other`.
    /// Neither deck is changed.
    fn join(&self, other: &Deck) -> (joined: Deck)
        ensures
            joined@ == joined_cards(self@, other@),
            joined@.len() == self@.len() + other@.len() + 1,
    ;
}

/// Turning a deck in place.
pub trait CyclicShiftTrait: View<V = Seq<Card>> {
    /// Turns the deck to the left by `shift` places. Any `shift` is taken:
    /// it counts modulo the number of cards.
    fn cyclic_shift(&mut self, shift: usize)
        ensures
            final(self)@ == rotated(old(self)@, shift as nat),
            final(self)@.len() == old(self)@.len(),
            final(self)@.to_multiset() == old(self)@.to_multiset(),
    ;
}

/// Reading a deck of five cards as the protocol's public answer.
pub trait DecodeTrait: View<V = Seq<Card>> {
    /// `true` exactly when three Kings lie next to each other, the last card
    /// counting as the neighbour of the first.
    fn decode(&self) -> (matched: bool)
        requires
            self@.len() == 5,
        ensures
            matched == three_kings_in_a_row(self@),
    ;
}

/// Stating a private answer in two cards.
pub trait EncodeTrait {
    /// The two cards that stand for this party's answer.
    spec fn encoding(&self) -> Seq<Card>;

    /// A new deck of exactly those two cards.
    fn encode(&self) -> (deck: Deck)
        ensures
            deck@ == self.encoding(),
            deck@.len() == 2,
    ;
}

/// The party that lays Queen, King for yes.
#[derive(Debug, PartialEq, Eq, Structural)]
pub struct Alice {
    pub secret: bool,
}

/// The party that lays King, Queen for yes.
#[derive(Debug, PartialEq, Eq, Structural)]
pub struct Bob {
    pub secret: bool,
}

impl Default for Alice {
    /// Alice answering no.
    fn default() -> (alice: Alice)
        ensures
            !alice.secret,
    {
        Alice { secret: false }
    }
}

impl Default for Bob {
    /// Bob answering no.
    fn default() -> (bob: Bob)
        ensures
            !bob.secret,
    {
        Bob { secret: false }
    }
}

impl EncodeTrait for Alice {
    open spec fn encoding(&self) -> Seq<Card> {
        alice_cards(self.secret)
    }

    fn encode(&self) -> (deck: Deck) {
        if self.secret {
            Deck { cards: vec![Card::Queen, Card::King] }
        } else {
            Deck { cards: vec![Card::King, Card::Queen] }
        }
    }
}

impl EncodeTrait for Bob {
    open spec fn encoding(&self) -> Seq<Card> {
        bob_cards(self.secret)
    }

    fn encode(&self) -> (deck: Deck) {
        if self.secret {
            Deck { cards: vec![Card::King, Card::Queen] }
        } else {
            Deck { cards: vec![Card::Queen, Card::King] }
        }
    }
}

impl JoinTrait for Deck {
    fn join(&self, other: &Deck) -> (joined: Deck) {
        let mut cards: Vec<Card> = Vec::new();
        let mut i: usize = 0;
        while i < self.cards.len()
            invariant
                i <= self.cards@.len(),
                cards@ == self.cards@.subrange(0, i as int),
            decreases self.cards@.len() - i,
        {
            cards.push(self.cards[i]);
            i = i + 1;
        }
        cards.push(Card::King);
        let mut k: usize = 0;
        while k < other.cards.len()
            invariant
                k <= other.cards@.len(),
                cards@ == self.cards@.push(Card::King) + other.cards@.subrange(0, k as int),
            decreases other.cards@.len() - k,
        {
            cards.push(other.cards[k]);
            k = k + 1;
        }
        Deck { cards }
    }
}

impl CyclicShiftTrait for Deck {
    fn cyclic_shift(&mut self, shift: usize) {
        let n: usize = self.cards.len();
        if n == 0 {
            return;
        }
        let k: usize = shift % n;
        let mut turned: Vec<Card> = Vec::new();
        let mut i: usize = 0;
        while i < n
            invariant
                self.cards@ == old(self).cards@,
                n == self.cards@.len(),
                k == shift % n,
                i <= n,
                turned@.len() == i,
                forall|j: int| 0 <= j < i ==> turned@[j] == self.cards@[(j + shift) % n as int],
            decreases n - i,
        {
            let from: usize = if i < n - k {
                i + k
            } else {
                i - (n - k)
            };
            proof {
                lemma_step_round(i as int, shift as int, n as int);
            }
            turned.push(self.cards[from]);
            i = i + 1;
        }
        proof {
            assert(turned@ =~= rotated(self.cards@, shift as nat));
            lemma_rotated_keeps_cards(self.cards@, shift as nat);
        }
        self.cards = turned;
    }
}

impl DecodeTrait for Deck {
    fn decode(&self) -> (matched: bool) {
        let n: usize = self.cards.len();
        let mut run: usize = 0;
        let mut i: usize = 0;
        while i < n + 2
            invariant
                n == 5,
                self.cards@.len() == 5,
                i <= 7,
                run <= 2,
                run <= i,
                run >= 1 ==> self.cards@[(i - 1) % 5] == Card::King,
                run >= 2 ==> self.cards@[(i - 2) % 5] == Card::King,
                run < i ==> self.cards@[(i - run - 1) % 5] != Card::King,
                forall|start: int|
                    0 <= start && start + 3 <= i ==> !#[trigger] kings_from(self.cards@, start),
            decreases 7 - i,
        {
            if self.cards[i % n] == Card::King {
                run = run + 1;
            } else {
                run = 0;
            }
            if run == 3 {
                assert(kings_from(self.cards@, i - 2));
                assert(i - 2 < 5);
                return true;
            }
            i = i + 1;
        }
        false
    }
}

} // verus!
