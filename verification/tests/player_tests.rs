use rummy313::card::{Card, CardVariant};
use rummy313::deck::CardCollection;
use rummy313::player::{Player, PlayerQueue};

#[test]
fn new_player_has_empty_hand() {
    let player = Player::new(3);
    assert_eq!(player.uid, 3);
    assert_eq!(player.hand_len(), 0);
}

#[test]
fn add_card_appends_to_back() {
    let mut player = Player::new(0);
    player.add_card_to_hand(Card::from(CardVariant::TwoClub));
    player.add_card_to_hand(Card::from(CardVariant::Joker));
    assert_eq!(player.hand_len(), 2);
    assert_eq!(player.hand_variant_at(0), CardVariant::TwoClub);
    assert_eq!(player.hand_variant_at(1), CardVariant::Joker);
}

#[test]
fn remove_from_hand_valid_index() {
    let mut player = Player::new(0);
    player.add_card_to_hand(Card::from(CardVariant::TwoClub));
    player.add_card_to_hand(Card::from(CardVariant::FiveHeart));
    player.add_card_to_hand(Card::from(CardVariant::Joker));
    let removed = player.remove_from_hand(1).unwrap();
    assert_eq!(removed.variant(), CardVariant::FiveHeart);
    assert_eq!(player.hand_len(), 2);
    assert_eq!(player.hand_variant_at(0), CardVariant::TwoClub);
    assert_eq!(player.hand_variant_at(1), CardVariant::Joker);
}

#[test]
fn remove_from_hand_out_of_range_leaves_hand_untouched() {
    let mut player = Player::new(0);
    player.add_card_to_hand(Card::from(CardVariant::TwoClub));
    assert!(player.remove_from_hand(1).is_none());
    assert!(player.remove_from_hand(100).is_none());
    assert_eq!(player.hand_len(), 1);
    assert_eq!(player.hand_variant_at(0), CardVariant::TwoClub);
}

#[test]
fn queue_new_rotates_to_starting_player() {
    let queue = PlayerQueue::new(4, 2);
    assert_eq!(queue.len(), 4);
    assert_eq!(queue.at(0), 2);
    assert_eq!(queue.at(1), 3);
    assert_eq!(queue.at(2), 0);
    assert_eq!(queue.at(3), 1);
}

#[test]
fn queue_new_holds_each_player_once() {
    for n in 1..=6u8 {
        for start in 0..n {
            let queue = PlayerQueue::new(n, start);
            assert_eq!(queue.len(), n as usize);
            assert_eq!(queue.at(0), start);
            let mut seen = [0usize; 6];
            for i in 0..n as usize {
                seen[queue.at(i) as usize] += 1;
            }
            for p in 0..n as usize {
                assert_eq!(seen[p], 1);
            }
        }
    }
}

#[test]
fn cycle_moves_front_to_back() {
    let mut queue = PlayerQueue::new(3, 0);
    queue.cycle();
    assert_eq!(queue.at(0), 1);
    assert_eq!(queue.at(1), 2);
    assert_eq!(queue.at(2), 0);
}

#[test]
fn cycling_full_length_restores_order() {
    for n in 1..=6u8 {
        let mut queue = PlayerQueue::new(n, 0);
        let before: Vec<u8> = (0..n as usize).map(|i| queue.at(i)).collect();
        for _ in 0..n {
            queue.cycle();
        }
        let after: Vec<u8> = (0..n as usize).map(|i| queue.at(i)).collect();
        assert_eq!(before, after);
    }
}

#[test]
fn cycle_to_player_puts_player_in_front() {
    let mut queue = PlayerQueue::new(4, 0);
    queue.cycle_to_player(3);
    assert_eq!(queue.at(0), 3);
    assert_eq!(queue.at(1), 0);
    assert_eq!(queue.at(2), 1);
    assert_eq!(queue.at(3), 2);
}

#[test]
fn deal_cards_round_robin() {
    let mut deck = CardCollection::new_standard_deck_with_jokers();
    let mut players = vec![Player::new(0), Player::new(1)];
    let order = PlayerQueue::new(2, 0);
    let dealt = deck.deal_cards(3, &mut players, &order);
    assert!(dealt.is_ok());
    assert_eq!(deck.len(), 53 - 6);
    assert_eq!(players[0].hand_len(), 3);
    assert_eq!(players[1].hand_len(), 3);
    assert_eq!(players[0].hand_variant_at(0), CardVariant::OneClub);
    assert_eq!(players[0].hand_variant_at(1), CardVariant::OneHeart);
    assert_eq!(players[0].hand_variant_at(2), CardVariant::TwoClub);
    assert_eq!(players[1].hand_variant_at(0), CardVariant::OneDiamond);
    assert_eq!(players[1].hand_variant_at(1), CardVariant::OneSpade);
    assert_eq!(players[1].hand_variant_at(2), CardVariant::TwoDiamond);
    assert_eq!(deck.variant_at(0), CardVariant::TwoHeart);
}

#[test]
fn deal_cards_insufficient_deck_changes_nothing() {
    let mut deck = CardCollection::new(vec![
        Card::from(CardVariant::OneClub),
        Card::from(CardVariant::OneDiamond),
        Card::from(CardVariant::OneHeart),
    ]);
    let mut players = vec![Player::new(0), Player::new(1)];
    let order = PlayerQueue::new(2, 0);
    let dealt = deck.deal_cards(2, &mut players, &order);
    assert_eq!(dealt, Err(rummy313::GameError::NotEnoughCards));
    assert_eq!(deck.len(), 3);
    assert_eq!(players[0].hand_len(), 0);
    assert_eq!(players[1].hand_len(), 0);
}
