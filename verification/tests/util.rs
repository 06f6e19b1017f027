use five_card_trick::models::{Alice, Bob, Card, Deck};
use five_card_trick::util::{dummy_util, find_match};

#[test]
fn dummy_util_test() {
    assert!(dummy_util());
}

#[test]
fn test_find_match() {
    let mut deck = Deck {
        cards: vec![Card::Queen, Card::King],
    };

    let alice = Alice { secret: true }; // Alice wants to date
    let bob = Bob { secret: true }; // Bob wants to date

    // Both want to date, should return true
    assert_eq!(find_match(&mut deck, alice, bob), true);

    let alice = Alice { secret: false }; // Alice doesn't want to date
    let bob = Bob { secret: true }; // Bob wants to date

    // Mismatch, should return false
    assert_eq!(find_match(&mut deck, alice, bob), false);

    let alice = Alice { secret: true }; // Alice wants to date
    let bob = Bob { secret: false }; // Bob doesn't want to date

    // Mismatch, should return false
    assert_eq!(find_match(&mut deck, alice, bob), false);

    let alice = Alice { secret: false }; // Alice doesn't want to date
    let bob = Bob { secret: false }; // Bob doesn't want to date

    // Both don't want to date, should return false
    assert_eq!(find_match(&mut deck, alice, bob), false);
}

#[test]
fn find_match_exchanges_the_marked_cards() {
    let mut deck = Deck {
        cards: vec![Card::Queen, Card::Queen, Card::King, Card::Queen],
    };
    let found = find_match(&mut deck, Alice { secret: true }, Bob { secret: false });
    assert_eq!(found, false);
    assert_eq!(
        deck.cards,
        vec![Card::King, Card::Queen, Card::Queen, Card::Queen]
    );

    let found = find_match(&mut deck, Alice { secret: false }, Bob { secret: false });
    assert_eq!(found, true);
    assert_eq!(
        deck.cards,
        vec![Card::King, Card::Queen, Card::Queen, Card::Queen]
    );
}

#[test]
fn find_match_on_one_card() {
    let mut deck = Deck {
        cards: vec![Card::Queen],
    };
    assert_eq!(
        find_match(&mut deck, Alice { secret: false }, Bob { secret: true }),
        true
    );
    assert_eq!(deck.cards, vec![Card::Queen]);
}
