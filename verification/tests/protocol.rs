use five_card_trick::models::{
    Alice, Bob, Card, CyclicShiftTrait, DecodeTrait, Deck, EncodeTrait, JoinTrait,
};

fn play(alice: bool, bob: bool, first: usize, second: usize) -> bool {
    let mut deck = Alice { secret: alice }
        .encode()
        .join(&Bob { secret: bob }.encode());
    deck.cyclic_shift(first);
    deck.cyclic_shift(second);
    deck.decode()
}

#[test]
fn both_yes_joins_to_three_kings_in_the_middle() {
    let joined = Alice { secret: true }
        .encode()
        .join(&Bob { secret: true }.encode());
    assert_eq!(
        joined.cards,
        vec![
            Card::Queen,
            Card::King,
            Card::King,
            Card::King,
            Card::Queen
        ]
    );
    assert_eq!(joined.decode(), true);
}

#[test]
fn shifts_that_sum_to_a_full_turn_change_nothing() {
    let joined = Alice { secret: true }
        .encode()
        .join(&Bob { secret: true }.encode());
    for (first, second) in [(0usize, 0usize), (1, 4), (2, 3), (3, 2), (4, 1), (5, 5), (7, 13)] {
        let mut deck = joined.clone();
        deck.cyclic_shift(first);
        deck.cyclic_shift(second);
        assert_eq!(deck, joined);
        assert_eq!(deck.decode(), true);
    }
}

#[test]
fn yes_and_no_joins_to_parted_kings() {
    let joined = Alice { secret: true }
        .encode()
        .join(&Bob { secret: false }.encode());
    assert_eq!(
        joined.cards,
        vec![
            Card::Queen,
            Card::King,
            Card::King,
            Card::Queen,
            Card::King
        ]
    );
    assert_eq!(joined.decode(), false);
    for shift in 0..5usize {
        let mut deck = joined.clone();
        deck.cyclic_shift(shift);
        assert_eq!(deck.decode(), false);
    }
}

#[test]
fn the_answer_is_yes_only_when_both_say_yes() {
    for alice in [true, false] {
        for bob in [true, false] {
            for first in 0..11usize {
                for second in 0..11usize {
                    assert_eq!(play(alice, bob, first, second), alice && bob);
                }
            }
        }
    }
}

#[test]
fn every_joined_deck_has_five_cards() {
    for alice in [true, false] {
        for bob in [true, false] {
            let joined: Deck = Alice { secret: alice }
                .encode()
                .join(&Bob { secret: bob }.encode());
            assert_eq!(joined.cards.len(), 5);
            assert_eq!(joined.cards[2], Card::King);
        }
    }
}
