use rummy313::card::{Card, CardVariant, Rank, Suit, Type};

#[test]
fn values_of_sample_variants() {
    assert_eq!(CardVariant::OneClub.get_value(), 1);
    assert_eq!(CardVariant::OneSpade.get_value(), 1);
    assert_eq!(CardVariant::SevenHeart.get_value(), 7);
    assert_eq!(CardVariant::QueenHeart.get_value(), 12);
    assert_eq!(CardVariant::KingSpade.get_value(), 13);
    assert_eq!(CardVariant::Joker.get_value(), 0);
}

#[test]
fn every_variant_has_a_value_between_zero_and_thirteen() {
    for i in 0..53u8 {
        let v = CardVariant::from_ordinal(i);
        let value = v.get_value();
        assert!(value <= 13);
        if i == 52 {
            assert_eq!(value, 0);
        } else {
            assert_eq!(value as u8, i / 4 + 1);
        }
    }
}

#[test]
fn ranks_of_sample_variants() {
    assert_eq!(CardVariant::Joker.get_rank(), None);
    assert_eq!(CardVariant::FiveDiamond.get_rank(), Some(Rank::Five));
    assert_eq!(CardVariant::OneClub.get_rank(), Some(Rank::One));
    assert_eq!(CardVariant::KingHeart.get_rank(), Some(Rank::King));
}

#[test]
fn suits_of_sample_variants() {
    assert_eq!(CardVariant::Joker.get_suit(), None);
    assert_eq!(CardVariant::FiveDiamond.get_suit(), Some(Suit::Diamond));
    assert_eq!(CardVariant::TenClub.get_suit(), Some(Suit::Club));
    assert_eq!(CardVariant::TwoHeart.get_suit(), Some(Suit::Heart));
    assert_eq!(CardVariant::JackSpade.get_suit(), Some(Suit::Spade));
}

#[test]
fn card_from_normal_variant() {
    let card = Card::from(CardVariant::TwoHeart);
    assert_eq!(card.variant(), CardVariant::TwoHeart);
    assert!(!card.wildcard());
    assert_eq!(card.kind(), Type::Normal { rank: Rank::Two, suit: Suit::Heart });
}

#[test]
fn card_from_joker_is_wildcard() {
    let card = Card::from(CardVariant::Joker);
    assert_eq!(card.variant(), CardVariant::Joker);
    assert!(card.wildcard());
    assert_eq!(card.kind(), Type::Joker);
}

#[test]
fn ordinal_round_trips() {
    for i in 0..53u8 {
        let v = CardVariant::from_ordinal(i);
        assert_eq!(v.ordinal(), i);
    }
    assert_eq!(CardVariant::from_ordinal(0), CardVariant::OneClub);
    assert_eq!(CardVariant::from_ordinal(1), CardVariant::OneDiamond);
    assert_eq!(CardVariant::from_ordinal(51), CardVariant::KingSpade);
    assert_eq!(CardVariant::from_ordinal(52), CardVariant::Joker);
}
