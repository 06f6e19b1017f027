use crate::models::{
    alice_cards, bob_cards, joined_cards, kings_from, rotated, three_kings_in_a_row, Card,
};
use vstd::arithmetic::div_mod::{
    lemma_add_mod_noop, lemma_add_mod_noop_right, lemma_fundamental_div_mod_converse,
    lemma_small_mod,
};
use vstd::prelude::*;
use vstd::seq_lib::lemma_seq_union_to_multiset_commutative;

verus! {

/// Counting `step` places on from position `at` round a circle of `len`
/// places, where `step` is any number and `at` a position: the place reached
/// is `at + step % len`, less `len` if that runs past the end.
pub proof fn lemma_step_round(at: int, step: int, len: int)
    requires
        0 <= at < len,
        0 <= step,
    ensures
        (at + step) % len == if at + step % len < len {
            at + step % len
        } else {
            at + step % len - len
        },
{
    let short = step % len;
    lemma_add_mod_noop_right(at, step, len);
    if at + short < len {
        lemma_small_mod((at + short) as nat, len as nat);
    } else {
        lemma_fundamental_div_mod_converse(at + short, len, 1, at + short - len);
    }
}

/// Only `shift` modulo the number of cards counts.
pub proof fn lemma_rotated_reduces(cards: Seq<Card>, shift: nat)
    ensures
        rotated(cards, shift) == rotated(cards, shift % cards.len()),
{
    if cards.len() > 0 {
        let len = cards.len() as int;
        let short = shift % cards.len();
        assert forall|i: int| 0 <= i < len implies rotated(cards, shift)[i] == rotated(
            cards,
            short,
        )[i] by {
            lemma_step_round(i, shift as int, len);
            lemma_step_round(i, short as int, len);
            lemma_small_mod(short, cards.len());
        }
        assert(rotated(cards, shift) =~= rotated(cards, short));
    }
}

/// A rotation cuts the deck at `shift` modulo its length and swaps the two
/// parts.
pub proof fn lemma_rotated_splits(cards: Seq<Card>, shift: nat)
    requires
        cards.len() > 0,
    ensures
        rotated(cards, shift) == cards.subrange((shift % cards.len()) as int, cards.len() as int)
            + cards.subrange(0, (shift % cards.len()) as int),
{
    let len = cards.len() as int;
    let cut = (shift % cards.len()) as int;
    let swapped = cards.subrange(cut, len) + cards.subrange(0, cut);
    assert forall|i: int| 0 <= i < len implies rotated(cards, shift)[i] == swapped[i] by {
        lemma_step_round(i, shift as int, len);
    }
    assert(rotated(cards, shift) =~= swapped);
}

/// A rotation keeps the number of cards and how many of each kind there are:
/// it changes their order only.
pub proof fn lemma_rotated_keeps_cards(cards: Seq<Card>, shift: nat)
    ensures
        rotated(cards, shift).len() == cards.len(),
        rotated(cards, shift).to_multiset() == cards.to_multiset(),
{
    if cards.len() > 0 {
        let len = cards.len() as int;
        let cut = (shift % cards.len()) as int;
        let head = cards.subrange(0, cut);
        let tail = cards.subrange(cut, len);
        lemma_rotated_splits(cards, shift);
        lemma_seq_union_to_multiset_commutative(tail, head);
        assert(head + tail =~= cards);
    }
}

/// Two rotations one after the other are one rotation by the sum of the two
/// shifts, and so by that sum modulo the number of cards.
pub proof fn lemma_rotated_twice(cards: Seq<Card>, first: nat, second: nat)
    ensures
        rotated(rotated(cards, first), second) == rotated(cards, first + second),
        rotated(rotated(cards, first), second) == rotated(
            cards,
            (first + second) % cards.len(),
        ),
{
    if cards.len() > 0 {
        let len = cards.len() as int;
        let once = rotated(cards, first);
        assert forall|i: int| 0 <= i < len implies rotated(once, second)[i] == rotated(
            cards,
            first + second,
        )[i] by {
            let mid = (i + second) % len;
            lemma_step_round(i, second as int, len);
            lemma_add_mod_noop(i + second, first as int, len);
            lemma_small_mod(mid as nat, len as nat);
            lemma_add_mod_noop(mid, first as int, len);
        }
        assert(rotated(once, second) =~= rotated(cards, first + second));
        lemma_rotated_reduces(cards, first + second);
    }
}

/// The order in which two parties rotate the deck does not matter.
pub proof fn lemma_rotated_commutes(cards: Seq<Card>, first: nat, second: nat)
    ensures
        rotated(rotated(cards, first), second) == rotated(rotated(cards, second), first),
{
    lemma_rotated_twice(cards, first, second);
    lemma_rotated_twice(cards, second, first);
}

/// Two shifts whose sum is a multiple of the number of cards leave the deck
/// as it was. A deck without cards is left as it was by any shifts.
pub proof fn lemma_rotated_full_turn(cards: Seq<Card>, first: nat, second: nat)
    requires
        cards.len() > 0 ==> (first + second) % cards.len() == 0,
    ensures
        rotated(rotated(cards, first), second) == cards,
{
    lemma_rotated_twice(cards, first, second);
    if cards.len() > 0 {
        let len = cards.len() as int;
        assert forall|i: int| 0 <= i < len implies rotated(cards, 0)[i] == cards[i] by {
            lemma_small_mod(i as nat, len as nat);
        }
        assert(rotated(cards, 0) =~= cards);
    }
}

/// Alice's cards for an answer are Bob's cards for the opposite answer.
pub proof fn lemma_encodings_mirror(secret: bool)
    ensures
        alice_cards(secret) == bob_cards(!secret),
        alice_cards(secret).len() == 2,
        alice_cards(secret) != alice_cards(!secret),
{
    assert(alice_cards(secret)[0] != alice_cards(!secret)[0]);
}

/// A deck made by joining has one card more than its two sides together, in
/// the place between them.
pub proof fn lemma_joined_length(left: Seq<Card>, right: Seq<Card>)
    ensures
        joined_cards(left, right).len() == left.len() + right.len() + 1,
        joined_cards(left, right)[left.len() as int] == Card::King,
{
}

/// In a deck of five, the three cards from `start` on in the rotated deck are
/// the three cards from `start + shift`, counted round the deck, in the
/// deck as it was.
pub proof fn lemma_rotation_moves_window(cards: Seq<Card>, shift: nat, start: int)
    requires
        cards.len() == 5,
        0 <= start < 5,
    ensures
        kings_from(rotated(cards, shift), start) == kings_from(cards, (start + shift) % 5),
{
    let turned = rotated(cards, shift);
    let moved = (start + shift) % 5;
    assert(turned[start % 5] == cards[moved % 5]) by {
        assert((start % 5 + shift) % 5 == moved % 5);
    }
    assert(turned[(start + 1) % 5] == cards[(moved + 1) % 5]) by {
        assert(((start + 1) % 5 + shift) % 5 == (moved + 1) % 5);
    }
    assert(turned[(start + 2) % 5] == cards[(moved + 2) % 5]) by {
        assert(((start + 2) % 5 + shift) % 5 == (moved + 2) % 5);
    }
}

/// Whether three Kings lie in a row round a deck of five does not depend on
/// where the deck is cut: rotating it changes nothing.
pub proof fn lemma_rotation_keeps_answer(cards: Seq<Card>, shift: nat)
    requires
        cards.len() == 5,
    ensures
        three_kings_in_a_row(rotated(cards, shift)) == three_kings_in_a_row(cards),
{
    let turned = rotated(cards, shift);
    if three_kings_in_a_row(turned) {
        let start = choose|start: int| 0 <= start < 5 && #[trigger] kings_from(turned, start);
        lemma_rotation_moves_window(cards, shift, start);
        assert(kings_from(cards, (start + shift) % 5));
    }
    if three_kings_in_a_row(cards) {
        let start = choose|start: int| 0 <= start < 5 && #[trigger] kings_from(cards, start);
        let back = (start + 5 - shift % 5) % 5;
        assert((back + shift) % 5 == start);
        lemma_rotation_moves_window(cards, shift, back);
        assert(kings_from(turned, back));
    }
}

/// What the protocol is for: whatever the two parties' shifts, the deck made
/// from their cards shows three Kings in a row exactly when both said yes.
pub proof fn lemma_protocol_answer(alice: bool, bob: bool, first: nat, second: nat)
    ensures
        three_kings_in_a_row(
            rotated(rotated(joined_cards(alice_cards(alice), bob_cards(bob)), first), second),
        ) == (alice && bob),
{
    let deck = joined_cards(alice_cards(alice), bob_cards(bob));
    assert(deck.len() == 5);
    lemma_rotated_keeps_cards(deck, first);
    lemma_rotation_keeps_answer(deck, first);
    lemma_rotation_keeps_answer(rotated(deck, first), second);
    if alice && bob {
        assert(kings_from(deck, 1));
    } else {
        let queen = if alice {
            0int
        } else {
            1int
        };
        let other_queen = if bob {
            4int
        } else {
            3int
        };
        assert(deck[queen] == Card::Queen && deck[other_queen] == Card::Queen);
        assert forall|start: int| 0 <= start < 5 implies !#[trigger] kings_from(deck, start) by {
            assert(start % 5 == queen || (start + 1) % 5 == queen || (start + 2) % 5 == queen
                || start % 5 == other_queen || (start + 1) % 5 == other_queen || (start + 2) % 5
                == other_queen);
        }
    }
}

} // verus!
