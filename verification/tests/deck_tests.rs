use std::collections::VecDeque;

use rummy313::card::{Card, CardVariant};
use rummy313::deck::CardCollection;

fn variant_counts(deck: &CardCollection) -> [usize; 53] {
    let mut counts = [0usize; 53];
    for i in 0..deck.len() {
        counts[deck.variant_at(i).ordinal() as usize] += 1;
    }
    counts
}

fn deque_counts(cards: &VecDeque<Card>) -> [usize; 53] {
    let mut counts = [0usize; 53];
    for card in cards.iter() {
        counts[card.variant().ordinal() as usize] += 1;
    }
    counts
}

fn standard_deque() -> VecDeque<Card> {
    let mut cards = VecDeque::new();
    for i in 0..53u8 {
        cards.push_back(Card::from(CardVariant::from_ordinal(i)));
    }
    cards
}

#[test]
fn standard_deck_is_canonical() {
    let deck = CardCollection::new_standard_deck_with_jokers();
    assert_eq!(deck.len(), 53);
    for i in 0..53usize {
        assert_eq!(deck.variant_at(i), CardVariant::from_ordinal(i as u8));
    }
    let counts = variant_counts(&deck);
    for i in 0..53usize {
        assert_eq!(counts[i], 1);
    }
}

#[test]
fn double_deck_is_two_standard_decks() {
    let deck = CardCollection::new_double_deck_with_jokers();
    assert_eq!(deck.len(), 106);
    for i in 0..106usize {
        assert_eq!(deck.variant_at(i), CardVariant::from_ordinal((i % 53) as u8));
    }
    let counts = variant_counts(&deck);
    for i in 0..53usize {
        assert_eq!(counts[i], 2);
    }
}

#[test]
fn collection_new_keeps_order() {
    let cards = vec![
        Card::from(CardVariant::Joker),
        Card::from(CardVariant::TwoClub),
        Card::from(CardVariant::KingSpade),
    ];
    let deck = CardCollection::new(cards);
    assert_eq!(deck.len(), 3);
    assert_eq!(deck.variant_at(0), CardVariant::Joker);
    assert_eq!(deck.variant_at(1), CardVariant::TwoClub);
    assert_eq!(deck.variant_at(2), CardVariant::KingSpade);
}

#[test]
fn take_card_off_top_front_first() {
    let mut deck = CardCollection::new_standard_deck_with_jokers();
    let first = deck.take_card_off_top().unwrap();
    assert_eq!(first.variant(), CardVariant::OneClub);
    assert_eq!(deck.len(), 52);
    let second = deck.take_card_off_top().unwrap();
    assert_eq!(second.variant(), CardVariant::OneDiamond);
}

#[test]
fn take_card_off_top_empty_deck() {
    let mut deck = CardCollection::new(Vec::new());
    assert!(deck.take_card_off_top().is_none());
    assert_eq!(deck.len(), 0);
}

#[test]
fn chunk_shuffle_preserves_length_and_multiset() {
    let cards = standard_deque();
    let before = deque_counts(&cards);
    let out = CardCollection::chunk_shuffle(cards);
    assert_eq!(out.len(), 53);
    assert_eq!(deque_counts(&out), before);
}

#[test]
fn zipper_shuffle_preserves_length_and_multiset() {
    let cards = standard_deque();
    let before = deque_counts(&cards);
    let out = CardCollection::zipper_shuffle(cards);
    assert_eq!(out.len(), 53);
    assert_eq!(deque_counts(&out), before);
}

#[test]
fn chunk_shuffle_of_a_short_input_is_one_run() {
    // Four cards always fit in the first run of four to eight, which is
    // appended whole at the back, so the order is kept.
    let mut cards = VecDeque::new();
    for i in 0..4u8 {
        cards.push_back(Card::from(CardVariant::from_ordinal(i)));
    }
    let out = CardCollection::chunk_shuffle(cards);
    assert_eq!(out.len(), 4);
    for i in 0..4usize {
        assert_eq!(out[i].variant(), CardVariant::from_ordinal(i as u8));
    }
}

#[test]
fn zipper_shuffle_starts_with_the_midpoint_card() {
    let out = CardCollection::zipper_shuffle(standard_deque());
    assert_eq!(out[0].variant(), CardVariant::from_ordinal(26));
}

#[test]
fn zipper_shuffle_of_two_cards_swaps_them() {
    // The halves are one card each and drawing starts on the second
    // half, so the order is always reversed.
    let mut cards = VecDeque::new();
    cards.push_back(Card::from(CardVariant::OneClub));
    cards.push_back(Card::from(CardVariant::Joker));
    let out = CardCollection::zipper_shuffle(cards);
    assert_eq!(out.len(), 2);
    assert_eq!(out[0].variant(), CardVariant::Joker);
    assert_eq!(out[1].variant(), CardVariant::OneClub);
}

#[test]
fn zipper_shuffle_on_tiny_inputs() {
    let out = CardCollection::zipper_shuffle(VecDeque::new());
    assert_eq!(out.len(), 0);
    let mut one = VecDeque::new();
    one.push_back(Card::from(CardVariant::Joker));
    let out = CardCollection::zipper_shuffle(one);
    assert_eq!(out.len(), 1);
    assert_eq!(out[0].variant(), CardVariant::Joker);
}

#[test]
fn shuffle_preserves_length_and_multiset() {
    let mut deck = CardCollection::new_double_deck_with_jokers();
    let before = variant_counts(&deck);
    deck.shuffle();
    assert_eq!(deck.len(), 106);
    assert_eq!(variant_counts(&deck), before);
}
