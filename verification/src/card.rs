//! The card model: a closed enumeration of the 53 card identities
//! (13 ranks x 4 suits, plus one joker) with their derived attributes.

use vstd::prelude::*;

verus! {

/// One specific card identity. The declaration order is the canonical
/// enumeration order: ordinal `4 * (value - 1) + suit` for the normal
/// cards, with the joker last at ordinal 52.
#[derive(Debug, Clone, Copy, PartialEq, Eq, Structural)]
pub enum CardVariant {
    OneClub,
    OneDiamond,
    OneHeart,
    OneSpade,
    TwoClub,
    TwoDiamond,
    TwoHeart,
    TwoSpade,
    ThreeClub,
    ThreeDiamond,
    ThreeHeart,
    ThreeSpade,
    FourClub,
    FourDiamond,
    FourHeart,
    FourSpade,
    FiveClub,
    FiveDiamond,
    FiveHeart,
    FiveSpade,
    SixClub,
    SixDiamond,
    SixHeart,
    SixSpade,
    SevenClub,
    SevenDiamond,
    SevenHeart,
    SevenSpade,
    EightClub,
    EightDiamond,
    EightHeart,
    EightSpade,
    NineClub,
    NineDiamond,
    NineHeart,
    NineSpade,
    TenClub,
    TenDiamond,
    TenHeart,
    TenSpade,
    JackClub,
    JackDiamond,
    JackHeart,
    JackSpade,
    QueenClub,
    QueenDiamond,
    QueenHeart,
    QueenSpade,
    KingClub,
    KingDiamond,
    KingHeart,
    KingSpade,
    Joker,
}

/// One of the thirteen ranks of a normal card.
#[derive(Debug, Clone, Copy, PartialEq, Eq, Structural)]
pub enum Rank {
    One,
    Two,
    Three,
    Four,
    Five,
    Six,
    Seven,
    Eight,
    Nine,
    Ten,
    Jack,
    Queen,
    King,
}

/// One of the four french suits.
#[derive(Debug, Clone, Copy, PartialEq, Eq, Structural)]
pub enum Suit {
    Club,
    Diamond,
    Heart,
    Spade,
}

/// The shape of a card: a normal ranked and suited card, or the joker.
#[derive(Debug, Clone, Copy, PartialEq, Eq, Structural)]
pub enum Type {
    Normal { rank: Rank, suit: Suit },
    Joker,
}

/// The numeric value of a card variant: 1 to 13 for normal cards,
/// 0 for the joker.
pub open spec fn spec_value(v: CardVariant) -> int {
    match v {
        CardVariant::Joker => 0,
        CardVariant::OneClub | CardVariant::OneDiamond | CardVariant::OneHeart
            | CardVariant::OneSpade => 1,
        CardVariant::TwoClub | CardVariant::TwoDiamond | CardVariant::TwoHeart
            | CardVariant::TwoSpade => 2,
        CardVariant::ThreeClub | CardVariant::ThreeDiamond | CardVariant::ThreeHeart
            | CardVariant::ThreeSpade => 3,
        CardVariant::FourClub | CardVariant::FourDiamond | CardVariant::FourHeart
            | CardVariant::FourSpade => 4,
        CardVariant::FiveClub | CardVariant::FiveDiamond | CardVariant::FiveHeart
            | CardVariant::FiveSpade => 5,
        CardVariant::SixClub | CardVariant::SixDiamond | CardVariant::SixHeart
            | CardVariant::SixSpade => 6,
        CardVariant::SevenClub | CardVariant::SevenDiamond | CardVariant::SevenHeart
            | CardVariant::SevenSpade => 7,
        CardVariant::EightClub | CardVariant::EightDiamond | CardVariant::EightHeart
            | CardVariant::EightSpade => 8,
        CardVariant::NineClub | CardVariant::NineDiamond | CardVariant::NineHeart
            | CardVariant::NineSpade => 9,
        CardVariant::TenClub | CardVariant::TenDiamond | CardVariant::TenHeart
            | CardVariant::TenSpade => 10,
        CardVariant::JackClub | CardVariant::JackDiamond | CardVariant::JackHeart
            | CardVariant::JackSpade => 11,
        CardVariant::QueenClub | CardVariant::QueenDiamond | CardVariant::QueenHeart
            | CardVariant::QueenSpade => 12,
        CardVariant::KingClub | CardVariant::KingDiamond | CardVariant::KingHeart
            | CardVariant::KingSpade => 13,
    }
}

/// The index of a suit in the canonical suit order.
pub open spec fn spec_suit_number(s: Suit) -> int {
    match s {
        Suit::Club => 0,
        Suit::Diamond => 1,
        Suit::Heart => 2,
        Suit::Spade => 3,
    }
}

/// The rank of a card variant: absent only for the joker. A normal card's
/// rank number equals its value.
pub open spec fn spec_rank(v: CardVariant) -> Option<Rank> {
    match v {
        CardVariant::Joker => Option::None,
        CardVariant::OneClub | CardVariant::OneDiamond | CardVariant::OneHeart
            | CardVariant::OneSpade => Option::Some(Rank::One),
        CardVariant::TwoClub | CardVariant::TwoDiamond | CardVariant::TwoHeart
            | CardVariant::TwoSpade => Option::Some(Rank::Two),
        CardVariant::ThreeClub | CardVariant::ThreeDiamond | CardVariant::ThreeHeart
            | CardVariant::ThreeSpade => Option::Some(Rank::Three),
        CardVariant::FourClub | CardVariant::FourDiamond | CardVariant::FourHeart
            | CardVariant::FourSpade => Option::Some(Rank::Four),
        CardVariant::FiveClub | CardVariant::FiveDiamond | CardVariant::FiveHeart
            | CardVariant::FiveSpade => Option::Some(Rank::Five),
        CardVariant::SixClub | CardVariant::SixDiamond | CardVariant::SixHeart
            | CardVariant::SixSpade => Option::Some(Rank::Six),
        CardVariant::SevenClub | CardVariant::SevenDiamond | CardVariant::SevenHeart
            | CardVariant::SevenSpade => Option::Some(Rank::Seven),
        CardVariant::EightClub | CardVariant::EightDiamond | CardVariant::EightHeart
            | CardVariant::EightSpade => Option::Some(Rank::Eight),
        CardVariant::NineClub | CardVariant::NineDiamond | CardVariant::NineHeart
            | CardVariant::NineSpade => Option::Some(Rank::Nine),
        CardVariant::TenClub | CardVariant::TenDiamond | CardVariant::TenHeart
            | CardVariant::TenSpade => Option::Some(Rank::Ten),
        CardVariant::JackClub | CardVariant::JackDiamond | CardVariant::JackHeart
            | CardVariant::JackSpade => Option::Some(Rank::Jack),
        CardVariant::QueenClub | CardVariant::QueenDiamond | CardVariant::QueenHeart
            | CardVariant::QueenSpade => Option::Some(Rank::Queen),
        CardVariant::KingClub | CardVariant::KingDiamond | CardVariant::KingHeart
            | CardVariant::KingSpade => Option::Some(Rank::King),
    }
}

/// The suit of a card variant: absent only for the joker.
pub open spec fn spec_suit(v: CardVariant) -> Option<Suit> {
    match v {
        CardVariant::Joker => Option::None,
        CardVariant::OneClub | CardVariant::TwoClub | CardVariant::ThreeClub
            | CardVariant::FourClub | CardVariant::FiveClub | CardVariant::SixClub
            | CardVariant::SevenClub | CardVariant::EightClub | CardVariant::NineClub
            | CardVariant::TenClub | CardVariant::JackClub | CardVariant::QueenClub
            | CardVariant::KingClub => Option::Some(Suit::Club),
        CardVariant::OneDiamond | CardVariant::TwoDiamond | CardVariant::ThreeDiamond
            | CardVariant::FourDiamond | CardVariant::FiveDiamond | CardVariant::SixDiamond
            | CardVariant::SevenDiamond | CardVariant::EightDiamond | CardVariant::NineDiamond
            | CardVariant::TenDiamond | CardVariant::JackDiamond | CardVariant::QueenDiamond
            | CardVariant::KingDiamond => Option::Some(Suit::Diamond),
        CardVariant::OneHeart | CardVariant::TwoHeart | CardVariant::ThreeHeart
            | CardVariant::FourHeart | CardVariant::FiveHeart | CardVariant::SixHeart
            | CardVariant::SevenHeart | CardVariant::EightHeart | CardVariant::NineHeart
            | CardVariant::TenHeart | CardVariant::JackHeart | CardVariant::QueenHeart
            | CardVariant::KingHeart => Option::Some(Suit::Heart),
        CardVariant::OneSpade | CardVariant::TwoSpade | CardVariant::ThreeSpade
            | CardVariant::FourSpade | CardVariant::FiveSpade | CardVariant::SixSpade
            | CardVariant::SevenSpade | CardVariant::EightSpade | CardVariant::NineSpade
            | CardVariant::TenSpade | CardVariant::JackSpade | CardVariant::QueenSpade
            | CardVariant::KingSpade => Option::Some(Suit::Spade),
    }
}

/// The position of a variant in the canonical enumeration order:
/// `4 * (value - 1) + suit` for normal cards, 52 for the joker.
pub open spec fn spec_ordinal(v: CardVariant) -> int {
    match v {
        CardVariant::Joker => 52,
        _ => 4 * (spec_value(v) - 1) + spec_suit_number(spec_suit(v).unwrap()),
    }
}

/// The variant standing at a given position of the canonical enumeration
/// order: the inverse of `spec_ordinal` on `0..53`.
pub open spec fn spec_variant_of_ordinal(i: int) -> CardVariant
    recommends
        0 <= i < 53,
{
    if i == 0 {
        CardVariant::OneClub
    } else if i == 1 {
        CardVariant::OneDiamond
    } else if i == 2 {
        CardVariant::OneHeart
    } else if i == 3 {
        CardVariant::OneSpade
    } else if i == 4 {
        CardVariant::TwoClub
    } else if i == 5 {
        CardVariant::TwoDiamond
    } else if i == 6 {
        CardVariant::TwoHeart
    } else if i == 7 {
        CardVariant::TwoSpade
    } else if i == 8 {
        CardVariant::ThreeClub
    } else if i == 9 {
        CardVariant::ThreeDiamond
    } else if i == 10 {
        CardVariant::ThreeHeart
    } else if i == 11 {
        CardVariant::ThreeSpade
    } else if i == 12 {
        CardVariant::FourClub
    } else if i == 13 {
        CardVariant::FourDiamond
    } else if i == 14 {
        CardVariant::FourHeart
    } else if i == 15 {
        CardVariant::FourSpade
    } else if i == 16 {
        CardVariant::FiveClub
    } else if i == 17 {
        CardVariant::FiveDiamond
    } else if i == 18 {
        CardVariant::FiveHeart
    } else if i == 19 {
        CardVariant::FiveSpade
    } else if i == 20 {
        CardVariant::SixClub
    } else if i == 21 {
        CardVariant::SixDiamond
    } else if i == 22 {
        CardVariant::SixHeart
    } else if i == 23 {
        CardVariant::SixSpade
    } else if i == 24 {
        CardVariant::SevenClub
    } else if i == 25 {
        CardVariant::SevenDiamond
    } else if i == 26 {
        CardVariant::SevenHeart
    } else if i == 27 {
        CardVariant::SevenSpade
    } else if i == 28 {
        CardVariant::EightClub
    } else if i == 29 {
        CardVariant::EightDiamond
    } else if i == 30 {
        CardVariant::EightHeart
    } else if i == 31 {
        CardVariant::EightSpade
    } else if i == 32 {
        CardVariant::NineClub
    } else if i == 33 {
        CardVariant::NineDiamond
    } else if i == 34 {
        CardVariant::NineHeart
    } else if i == 35 {
        CardVariant::NineSpade
    } else if i == 36 {
        CardVariant::TenClub
    } else if i == 37 {
        CardVariant::TenDiamond
    } else if i == 38 {
        CardVariant::TenHeart
    } else if i == 39 {
        CardVariant::TenSpade
    } else if i == 40 {
        CardVariant::JackClub
    } else if i == 41 {
        CardVariant::JackDiamond
    } else if i == 42 {
        CardVariant::JackHeart
    } else if i == 43 {
        CardVariant::JackSpade
    } else if i == 44 {
        CardVariant::QueenClub
    } else if i == 45 {
        CardVariant::QueenDiamond
    } else if i == 46 {
        CardVariant::QueenHeart
    } else if i == 47 {
        CardVariant::QueenSpade
    } else if i == 48 {
        CardVariant::KingClub
    } else if i == 49 {
        CardVariant::KingDiamond
    } else if i == 50 {
        CardVariant::KingHeart
    } else if i == 51 {
        CardVariant::KingSpade
    } else {
        CardVariant::Joker
    }
}

impl CardVariant {
    /// The numeric value of this variant: 1 to 13 by rank for normal
    /// cards, 0 for the joker.
    pub fn get_value(&self) -> (r: u8)
        ensures
            r as int == spec_value(*self),
    {
        match self {
            Self::Joker => 0,
            Self::OneClub | Self::OneDiamond | Self::OneHeart | Self::OneSpade => 1,
            Self::TwoClub | Self::TwoDiamond | Self::TwoHeart | Self::TwoSpade => 2,
            Self::ThreeClub | Self::ThreeDiamond | Self::ThreeHeart | Self::ThreeSpade => 3,
            Self::FourClub | Self::FourDiamond | Self::FourHeart | Self::FourSpade => 4,
            Self::FiveClub | Self::FiveDiamond | Self::FiveHeart | Self::FiveSpade => 5,
            Self::SixClub | Self::SixDiamond | Self::SixHeart | Self::SixSpade => 6,
            Self::SevenClub | Self::SevenDiamond | Self::SevenHeart | Self::SevenSpade => 7,
            Self::EightClub | Self::EightDiamond | Self::EightHeart | Self::EightSpade => 8,
            Self::NineClub | Self::NineDiamond | Self::NineHeart | Self::NineSpade => 9,
            Self::TenClub | Self::TenDiamond | Self::TenHeart | Self::TenSpade => 10,
            Self::JackClub | Self::JackDiamond | Self::JackHeart | Self::JackSpade => 11,
            Self::QueenClub | Self::QueenDiamond | Self::QueenHeart | Self::QueenSpade => 12,
            Self::KingClub | Self::KingDiamond | Self::KingHeart | Self::KingSpade => 13,
        }
    }

    /// The rank of this variant, or `None` for the joker.
    pub fn get_rank(&self) -> (r: Option<Rank>)
        ensures
            r == spec_rank(*self),
    {
        match self {
            Self::Joker => None,
            Self::OneClub | Self::OneDiamond | Self::OneHeart | Self::OneSpade => Some(Rank::One),
            Self::TwoClub | Self::TwoDiamond | Self::TwoHeart | Self::TwoSpade => Some(Rank::Two),
            Self::ThreeClub | Self::ThreeDiamond | Self::ThreeHeart | Self::ThreeSpade => Some(
                Rank::Three,
            ),
            Self::FourClub | Self::FourDiamond | Self::FourHeart | Self::FourSpade => Some(
                Rank::Four,
            ),
            Self::FiveClub | Self::FiveDiamond | Self::FiveHeart | Self::FiveSpade => Some(
                Rank::Five,
            ),
            Self::SixClub | Self::SixDiamond | Self::SixHeart | Self::SixSpade => Some(Rank::Six),
            Self::SevenClub | Self::SevenDiamond | Self::SevenHeart | Self::SevenSpade => Some(
                Rank::Seven,
            ),
            Self::EightClub | Self::EightDiamond | Self::EightHeart | Self::EightSpade => Some(
                Rank::Eight,
            ),
            Self::NineClub | Self::NineDiamond | Self::NineHeart | Self::NineSpade => Some(
                Rank::Nine,
            ),
            Self::TenClub | Self::TenDiamond | Self::TenHeart | Self::TenSpade => Some(Rank::Ten),
            Self::JackClub | Self::JackDiamond | Self::JackHeart | Self::JackSpade => Some(
                Rank::Jack,
            ),
            Self::QueenClub | Self::QueenDiamond | Self::QueenHeart | Self::QueenSpade => Some(
                Rank::Queen,
            ),
            Self::KingClub | Self::KingDiamond | Self::KingHeart | Self::KingSpade => Some(
                Rank::King,
            ),
        }
    }

    /// The suit of this variant, or `None` for the joker.
    pub fn get_suit(&self) -> (r: Option<Suit>)
        ensures
            r == spec_suit(*self),
    {
        match self {
            Self::Joker => None,
            Self::OneClub | Self::TwoClub | Self::ThreeClub | Self::FourClub | Self::FiveClub
                | Self::SixClub | Self::SevenClub | Self::EightClub | Self::NineClub
                | Self::TenClub | Self::JackClub | Self::QueenClub | Self::KingClub => Some(
                Suit::Club,
            ),
            Self::OneDiamond | Self::TwoDiamond | Self::ThreeDiamond | Self::FourDiamond
                | Self::FiveDiamond | Self::SixDiamond | Self::SevenDiamond | Self::EightDiamond
                | Self::NineDiamond | Self::TenDiamond | Self::JackDiamond | Self::QueenDiamond
                | Self::KingDiamond => Some(Suit::Diamond),
            Self::OneHeart | Self::TwoHeart | Self::ThreeHeart | Self::FourHeart
                | Self::FiveHeart | Self::SixHeart | Self::SevenHeart | Self::EightHeart
                | Self::NineHeart | Self::TenHeart | Self::JackHeart | Self::QueenHeart
                | Self::KingHeart => Some(Suit::Heart),
            Self::OneSpade | Self::TwoSpade | Self::ThreeSpade | Self::FourSpade
                | Self::FiveSpade | Self::SixSpade | Self::SevenSpade | Self::EightSpade
                | Self::NineSpade | Self::TenSpade | Self::JackSpade | Self::QueenSpade
                | Self::KingSpade => Some(Suit::Spade),
        }
    }

    /// The position of this variant in the canonical enumeration order.
    pub fn ordinal(&self) -> (r: u8)
        ensures
            r as int == spec_ordinal(*self),
    {
        match self {
            Self::Joker => 52,
            _ => {
                let value = self.get_value();
                let suit_number: u8 = match self.get_suit() {
                    Some(Suit::Club) => 0,
                    Some(Suit::Diamond) => 1,
                    Some(Suit::Heart) => 2,
                    Some(Suit::Spade) => 3,
                    None => {
                        proof {
                            assert(false);
                        }
                        0
                    },
                };
                4 * (value - 1) + suit_number
            },
        }
    }

    /// The variant at a given position of the canonical enumeration order.
    pub fn from_ordinal(i: u8) -> (r: CardVariant)
        requires
            i < 53,
        ensures
            r == spec_variant_of_ordinal(i as int),
            spec_ordinal(r) == i as int,
    {
        let v = match i {
            0 => Self::OneClub,
            1 => Self::OneDiamond,
            2 => Self::OneHeart,
            3 => Self::OneSpade,
            4 => Self::TwoClub,
            5 => Self::TwoDiamond,
            6 => Self::TwoHeart,
            7 => Self::TwoSpade,
            8 => Self::ThreeClub,
            9 => Self::ThreeDiamond,
            10 => Self::ThreeHeart,
            11 => Self::ThreeSpade,
            12 => Self::FourClub,
            13 => Self::FourDiamond,
            14 => Self::FourHeart,
            15 => Self::FourSpade,
            16 => Self::FiveClub,
            17 => Self::FiveDiamond,
            18 => Self::FiveHeart,
            19 => Self::FiveSpade,
            20 => Self::SixClub,
            21 => Self::SixDiamond,
            22 => Self::SixHeart,
            23 => Self::SixSpade,
            24 => Self::SevenClub,
            25 => Self::SevenDiamond,
            26 => Self::SevenHeart,
            27 => Self::SevenSpade,
            28 => Self::EightClub,
            29 => Self::EightDiamond,
            30 => Self::EightHeart,
            31 => Self::EightSpade,
            32 => Self::NineClub,
            33 => Self::NineDiamond,
            34 => Self::NineHeart,
            35 => Self::NineSpade,
            36 => Self::TenClub,
            37 => Self::TenDiamond,
            38 => Self::TenHeart,
            39 => Self::TenSpade,
            40 => Self::JackClub,
            41 => Self::JackDiamond,
            42 => Self::JackHeart,
            43 => Self::JackSpade,
            44 => Self::QueenClub,
            45 => Self::QueenDiamond,
            46 => Self::QueenHeart,
            47 => Self::QueenSpade,
            48 => Self::KingClub,
            49 => Self::KingDiamond,
            50 => Self::KingHeart,
            51 => Self::KingSpade,
            _ => Self::Joker,
        };
        v
    }
}

/// The card wrapping a given variant, with its derived shape and
/// wildcard flag.
pub open spec fn spec_card(v: CardVariant) -> Card {
    Card {
        card: v,
        kind: match spec_rank(v) {
            Option::Some(r) => match spec_suit(v) {
                Option::Some(s) => Type::Normal { rank: r, suit: s },
                Option::None => Type::Joker,
            },
            Option::None => Type::Joker,
        },
        is_wildcard: v is Joker,
    }
}

/// A card: a variant together with its shape and wildcard flag, both
/// derived once at construction and never mutated.
#[derive(Debug)]
pub struct Card {
    pub card: CardVariant,
    pub kind: Type,
    pub is_wildcard: bool,
}

impl Card {
    /// The derived fields agree with the wrapped variant.
    pub open spec fn wf(self) -> bool {
        self == spec_card(self.card)
    }

    /// The variant this card wraps.
    pub fn variant(&self) -> (r: CardVariant)
        ensures
            r == self.card,
    {
        self.card
    }

    /// The shape of this card.
    pub fn kind(&self) -> (r: Type)
        ensures
            r == self.kind,
    {
        self.kind
    }

    /// Whether this card is a wildcard; true only for the joker.
    pub fn wildcard(&self) -> (r: bool)
        ensures
            r == self.is_wildcard,
    {
        self.is_wildcard
    }
}

/// Every card the library builds carries derived fields consistent with
/// its wrapped variant: the shape and the wildcard flag are a function
/// of the variant alone, fixed at construction.
pub proof fn lemma_card_invariant(v: CardVariant)
    ensures
        spec_card(v).wf(),
        spec_card(v).card == v,
        spec_card(v).is_wildcard <==> v is Joker,
{
}

impl From<CardVariant> for Card {
    /// Builds the card for a variant, deriving its shape and wildcard flag.
    fn from(value: CardVariant) -> (r: Self) {
        let (kind, is_wildcard): (Type, bool) = match value {
            CardVariant::Joker => (Type::Joker, true),
            _ => (
                Type::Normal { rank: value.get_rank().unwrap(), suit: value.get_suit().unwrap() },
                false,
            ),
        };
        Self { card: value, kind, is_wildcard }
    }
}

impl vstd::std_specs::convert::FromSpecImpl<CardVariant> for Card {
    open spec fn obeys_from_spec() -> bool {
        true
    }

    open spec fn from_spec(v: CardVariant) -> Card {
        spec_card(v)
    }
}

} // verus!
