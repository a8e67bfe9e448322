use rummy313::card::CardVariant;
use rummy313::deck::CardCollection;
use rummy313::game::Game;
use rummy313::GameError;

#[test]
fn player_count_must_be_two_to_four() {
    assert!(matches!(Game::new(0), Err(GameError::InvalidPlayerCount)));
    assert!(matches!(Game::new(1), Err(GameError::InvalidPlayerCount)));
    assert!(matches!(Game::new(5), Err(GameError::InvalidPlayerCount)));
    assert!(Game::new(2).is_ok());
    assert!(Game::new(3).is_ok());
    assert!(Game::new(4).is_ok());
}

#[test]
fn deck_size_follows_player_count() {
    assert_eq!(Game::new(2).unwrap().deck.len(), 53);
    assert_eq!(Game::new(3).unwrap().deck.len(), 106);
    assert_eq!(Game::new(4).unwrap().deck.len(), 106);
}

#[test]
fn unshuffled_deal_hands_out_the_front_of_the_deck() {
    let mut game = Game::new(2).unwrap();
    game.deal_initial().unwrap();
    // Round-robin over the turn order: player 0 takes the cards at the
    // even positions of the first eight, player 1 those at the odd ones.
    assert_eq!(game.players[0].hand_len(), 4);
    assert_eq!(game.players[0].hand_variant_at(0), CardVariant::OneClub);
    assert_eq!(game.players[0].hand_variant_at(1), CardVariant::OneHeart);
    assert_eq!(game.players[0].hand_variant_at(2), CardVariant::TwoClub);
    assert_eq!(game.players[0].hand_variant_at(3), CardVariant::TwoHeart);
    assert_eq!(game.players[1].hand_len(), 4);
    assert_eq!(game.players[1].hand_variant_at(0), CardVariant::OneDiamond);
    assert_eq!(game.players[1].hand_variant_at(1), CardVariant::OneSpade);
    assert_eq!(game.players[1].hand_variant_at(2), CardVariant::TwoDiamond);
    assert_eq!(game.players[1].hand_variant_at(3), CardVariant::TwoSpade);
    // The pile seed is the next card off the deck.
    assert_eq!(game.pile.len(), 1);
    assert_eq!(game.pile[0].variant(), CardVariant::ThreeClub);
    assert_eq!(game.deck.len(), 53 - 9);
    assert_eq!(game.deck.variant_at(0), CardVariant::ThreeDiamond);
}

#[test]
fn deal_initial_without_enough_cards_fails() {
    let mut game = Game::new(2).unwrap();
    game.deck = CardCollection::new(Vec::new());
    assert_eq!(game.deal_initial(), Err(GameError::NotEnoughCards));
    assert_eq!(game.players[0].hand_len(), 0);
    assert_eq!(game.players[1].hand_len(), 0);
    assert_eq!(game.pile.len(), 0);
}

#[test]
fn pickup_from_pile_moves_top_of_pile_to_hand() {
    let mut game = Game::new(2).unwrap();
    game.deal_initial().unwrap();
    assert_eq!(game.current_player(), 0);
    game.pickup_from_pile().unwrap();
    assert_eq!(game.players[0].hand_len(), 5);
    assert_eq!(game.players[0].hand_variant_at(4), CardVariant::ThreeClub);
    assert_eq!(game.pile.len(), 0);
}

#[test]
fn pickup_from_empty_pile_fails() {
    let mut game = Game::new(2).unwrap();
    assert_eq!(game.pickup_from_pile(), Err(GameError::EmptyPile));
    assert_eq!(game.players[0].hand_len(), 0);
}

#[test]
fn pickup_from_deck_moves_top_of_deck_to_hand() {
    let mut game = Game::new(2).unwrap();
    game.deal_initial().unwrap();
    game.pickup_from_deck().unwrap();
    assert_eq!(game.players[0].hand_len(), 5);
    assert_eq!(game.players[0].hand_variant_at(4), CardVariant::ThreeDiamond);
    assert_eq!(game.deck.len(), 53 - 10);
    assert_eq!(game.pile.len(), 1);
}

#[test]
fn pickup_from_empty_deck_fails() {
    let mut game = Game::new(2).unwrap();
    game.deck = CardCollection::new(Vec::new());
    assert_eq!(game.pickup_from_deck(), Err(GameError::EmptyDeck));
    assert_eq!(game.players[0].hand_len(), 0);
}

#[test]
fn discard_moves_card_to_top_of_pile() {
    let mut game = Game::new(2).unwrap();
    game.deal_initial().unwrap();
    // Player 0's hand: OneClub, OneHeart, TwoClub, TwoHeart.
    game.discard(1).unwrap();
    assert_eq!(game.players[0].hand_len(), 3);
    assert_eq!(game.players[0].hand_variant_at(0), CardVariant::OneClub);
    assert_eq!(game.players[0].hand_variant_at(1), CardVariant::TwoClub);
    assert_eq!(game.players[0].hand_variant_at(2), CardVariant::TwoHeart);
    assert_eq!(game.pile.len(), 2);
    assert_eq!(game.pile[0].variant(), CardVariant::OneHeart);
    assert_eq!(game.pile[1].variant(), CardVariant::ThreeClub);
}

#[test]
fn discard_index_at_hand_size_is_rejected() {
    let mut game = Game::new(2).unwrap();
    game.deal_initial().unwrap();
    assert_eq!(game.players[0].hand_len(), 4);
    assert_eq!(game.discard(4), Err(GameError::InvalidDiscardIndex));
    assert_eq!(game.players[0].hand_len(), 4);
    assert_eq!(game.pile.len(), 1);
    assert!(game.discard(3).is_ok());
}

#[test]
fn advance_turn_rotates_players() {
    let mut game = Game::new(2).unwrap();
    assert_eq!(game.current_player(), 0);
    game.advance_turn();
    assert_eq!(game.current_player(), 1);
    game.advance_turn();
    assert_eq!(game.current_player(), 0);
}

#[test]
fn full_turn_from_pile_keeps_hand_and_pile_sizes() {
    let mut game = Game::new(2).unwrap();
    game.shuffle_deck();
    game.deal_initial().unwrap();
    let hand_before = game.players[0].hand_len();
    let pile_before = game.pile.len();
    game.pickup_from_pile().unwrap();
    game.discard(0).unwrap();
    assert_eq!(game.players[0].hand_len(), hand_before);
    assert_eq!(game.pile.len(), pile_before);
}

#[test]
fn full_turn_from_deck_grows_pile_by_one() {
    let mut game = Game::new(3).unwrap();
    game.shuffle_deck();
    game.deal_initial().unwrap();
    let hand_before = game.players[0].hand_len();
    let pile_before = game.pile.len();
    let deck_before = game.deck.len();
    game.pickup_from_deck().unwrap();
    game.discard(2).unwrap();
    assert_eq!(game.players[0].hand_len(), hand_before);
    assert_eq!(game.pile.len(), pile_before + 1);
    assert_eq!(game.deck.len(), deck_before - 1);
}
