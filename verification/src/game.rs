//! The game state and the turn logic: setup, the initial deal, the
//! pickup/discard steps of a turn, and turn advance.

use vstd::prelude::*;

use crate::card::Card;
use crate::deck::{canonical_deck, dealt_to, is_shuffled_times, CardCollection};
use crate::player::{rotate_once, Player, PlayerQueue};
use crate::GameError;
use std::collections::VecDeque;

verus! {

broadcast use vstd::std_specs::vecdeque::group_vec_dequeue_axioms;

/// The whole state of one game: the draw deck, the discard pile (front
/// card on top), the players indexed by their identifiers, and the turn
/// order.
#[derive(Debug)]
pub struct Game {
    pub deck: CardCollection,
    pub pile: VecDeque<Card>,
    pub players: Vec<Player>,
    pub queue: PlayerQueue,
}

impl Game {
    /// The structural invariant: player `i` sits at index `i`, and the
    /// turn queue is a permutation of the player identifiers.
    pub open spec fn wf(self) -> bool {
        &&& 1 <= self.players@.len() <= 256
        &&& self.queue.queue@.len() == self.players@.len()
        &&& self.queue.queue@.no_duplicates()
        &&& forall|j: int|
            0 <= j < self.queue.queue@.len() ==> (#[trigger] self.queue.queue@[j] as int)
                < self.players@.len()
        &&& forall|i: int|
            0 <= i < self.players@.len() ==> (#[trigger] self.players@[i].uid as int) == i
    }

    /// The index of the player whose turn is active.
    pub open spec fn spec_current(self) -> int {
        self.queue.queue@[0] as int
    }

    /// Sets up a game: one player per identifier `0 .. player_count` with
    /// an empty hand, the turn queue starting at player 0, an empty
    /// discard pile, and an unshuffled deck — the standard deck for two
    /// players, the double deck for three or four. Fails exactly when
    /// the player count lies outside two to four.
    pub fn new(player_count: u8) -> (r: Result<Game, GameError>)
        ensures
            match r {
                Ok(g) => {
                    &&& 2 <= player_count <= 4
                    &&& g.wf()
                    &&& g.players@.len() == player_count
                    &&& forall|i: int|
                        0 <= i < player_count ==> (#[trigger] g.players@[i].hand@)
                            == Seq::<Card>::empty()
                    &&& forall|i: int|
                        0 <= i < player_count ==> (#[trigger] g.queue.queue@[i] as int) == i
                    &&& g.pile@ == Seq::<Card>::empty()
                    &&& (player_count == 2 ==> g.deck@ == canonical_deck())
                    &&& (player_count >= 3 ==> g.deck@ == canonical_deck() + canonical_deck())
                },
                Err(e) => {
                    &&& e == GameError::InvalidPlayerCount
                    &&& (player_count < 2 || player_count > 4)
                },
            },
    {
        if player_count < 2 || player_count > 4 {
            return Err(GameError::InvalidPlayerCount);
        }
        let mut players: Vec<Player> = Vec::new();
        let mut i: u8 = 0;
        while i < player_count
            invariant
                i <= player_count,
                players@.len() == i,
                forall|j: int| 0 <= j < i ==> (#[trigger] players@[j].uid as int) == j,
                forall|j: int| 0 <= j < i ==> (#[trigger] players@[j].hand@) == Seq::<Card>::empty(),
            decreases player_count - i,
        {
            players.push(Player::new(i));
            i = i + 1;
        }
        let queue = PlayerQueue::new(player_count, 0);
        let deck = if player_count == 2 {
            CardCollection::new_standard_deck_with_jokers()
        } else {
            CardCollection::new_double_deck_with_jokers()
        };
        let game = Game { deck, pile: VecDeque::new(), players, queue };
        proof {
            assert forall|i: int| 0 <= i < player_count implies (#[trigger] game.queue.queue@[i]
                as int) == i by {
                assert(game.queue.queue@[i] as int == crate::player::spec_turn_order(
                    0,
                    i,
                    player_count as int,
                ));
            }
            assert(game.queue.queue@.no_duplicates());
        }
        Ok(game)
    }

    /// Shuffles the draw deck in place: the new order is reachable from
    /// the old one by ten chunk-then-zipper passes, so the deck keeps
    /// exactly its multiset of cards; every other part of the state is
    /// untouched.
    pub fn shuffle_deck(&mut self)
        ensures
            final(self).deck@.len() == old(self).deck@.len(),
            final(self).deck@.to_multiset() == old(self).deck@.to_multiset(),
            is_shuffled_times(final(self).deck@, old(self).deck@, 10),
            final(self).pile == old(self).pile,
            final(self).players == old(self).players,
            final(self).queue == old(self).queue,
    {
        self.deck.shuffle();
    }

    /// Deals four cards to every player in turn order, then seeds the
    /// discard pile with the next card off the deck. Fails, changing
    /// nothing, exactly when the deck holds fewer cards than that needs.
    pub fn deal_initial(&mut self) -> (r: Result<(), GameError>)
        requires
            old(self).wf(),
        ensures
            final(self).wf(),
            final(self).queue == old(self).queue,
            final(self).players@.len() == old(self).players@.len(),
            match r {
                Ok(()) => {
                    &&& old(self).deck@.len() >= 4 * old(self).players@.len() + 1
                    &&& final(self).deck@ == old(self).deck@.skip(
                        4 * old(self).players@.len() as int + 1,
                    )
                    &&& final(self).pile@ == seq![
                        old(self).deck@[4 * old(self).players@.len() as int],
                    ] + old(self).pile@
                    &&& forall|t: int|
                        0 <= t < old(self).queue.queue@.len() ==> final(self).players@[
                            #[trigger] old(self).queue.queue@[t] as int
                        ].hand@ == old(self).players@[old(self).queue.queue@[t] as int].hand@
                            + dealt_to(
                            old(self).deck@,
                            t,
                            old(self).players@.len() as int,
                            4,
                        )
                },
                Err(e) => {
                    &&& e == GameError::NotEnoughCards
                    &&& old(self).deck@.len() < 4 * old(self).players@.len() + 1
                    &&& *final(self) == *old(self)
                },
            },
    {
        let n = self.players.len();
        if self.deck.len() < 4 * n + 1 {
            return Err(GameError::NotEnoughCards);
        }
        let r = self.deck.deal_cards(4, &mut self.players, &self.queue);
        match r {
            Ok(()) => {},
            Err(_) => {
                proof {
                    assert(false);
                }
                return Err(GameError::NotEnoughCards);
            },
        }
        let card = match self.deck.take_card_off_top() {
            Some(card) => card,
            None => {
                proof {
                    assert(false);
                }
                return Err(GameError::NotEnoughCards);
            },
        };
        self.pile.push_front(card);
        proof {
            assert(self.deck@ =~= old(self).deck@.skip(4 * old(self).players@.len() as int + 1));
        }
        Ok(())
    }

    /// The identifier of the player whose turn is active.
    pub fn current_player(&self) -> (r: u8)
        requires
            self.wf(),
        ensures
            r as int == self.spec_current(),
    {
        self.queue.front()
    }

    /// The active player takes the top card of the discard pile into
    /// their hand. Fails, changing nothing, exactly when the pile is
    /// empty.
    pub fn pickup_from_pile(&mut self) -> (r: Result<(), GameError>)
        requires
            old(self).wf(),
        ensures
            final(self).wf(),
            final(self).deck == old(self).deck,
            final(self).queue == old(self).queue,
            final(self).players@.len() == old(self).players@.len(),
            match r {
                Ok(()) => {
                    &&& old(self).pile@.len() > 0
                    &&& final(self).pile@ == old(self).pile@.drop_first()
                    &&& final(self).players@[old(self).spec_current()].hand@ == old(
                        self,
                    ).players@[old(self).spec_current()].hand@.push(old(self).pile@[0])
                    &&& forall|u: int|
                        0 <= u < old(self).players@.len() && u != old(self).spec_current()
                            ==> final(self).players@[u] == old(self).players@[u]
                },
                Err(e) => {
                    &&& e == GameError::EmptyPile
                    &&& old(self).pile@.len() == 0
                    &&& *final(self) == *old(self)
                },
            },
    {
        if self.pile.len() == 0 {
            return Err(GameError::EmptyPile);
        }
        let card = self.pile.pop_front().unwrap();
        let uid = self.queue.front();
        self.players[uid as usize].add_card_to_hand(card);
        proof {
            assert(self.pile@ =~= old(self).pile@.drop_first());
        }
        Ok(())
    }

    /// The active player draws the top card of the deck into their hand.
    /// Fails, changing nothing, exactly when the deck is empty; the
    /// caller may then pick up from the pile or end the game instead.
    pub fn pickup_from_deck(&mut self) -> (r: Result<(), GameError>)
        requires
            old(self).wf(),
        ensures
            final(self).wf(),
            final(self).pile == old(self).pile,
            final(self).queue == old(self).queue,
            final(self).players@.len() == old(self).players@.len(),
            match r {
                Ok(()) => {
                    &&& old(self).deck@.len() > 0
                    &&& final(self).deck@ == old(self).deck@.drop_first()
                    &&& final(self).players@[old(self).spec_current()].hand@ == old(
                        self,
                    ).players@[old(self).spec_current()].hand@.push(old(self).deck@[0])
                    &&& forall|u: int|
                        0 <= u < old(self).players@.len() && u != old(self).spec_current()
                            ==> final(self).players@[u] == old(self).players@[u]
                },
                Err(e) => {
                    &&& e == GameError::EmptyDeck
                    &&& old(self).deck@.len() == 0
                    &&& *final(self) == *old(self)
                },
            },
    {
        if self.deck.len() == 0 {
            return Err(GameError::EmptyDeck);
        }
        let card = match self.deck.take_card_off_top() {
            Some(card) => card,
            None => {
                proof {
                    assert(false);
                }
                return Err(GameError::EmptyDeck);
            },
        };
        let uid = self.queue.front();
        self.players[uid as usize].add_card_to_hand(card);
        proof {
            assert(self.deck@ =~= old(self).deck@.drop_first());
        }
        Ok(())
    }

    /// The active player removes the card at the given position of their
    /// hand and lays it on top of the discard pile. Fails, changing
    /// nothing, exactly when the index is not below the hand's size.
    pub fn discard(&mut self, index: usize) -> (r: Result<(), GameError>)
        requires
            old(self).wf(),
        ensures
            final(self).wf(),
            final(self).deck == old(self).deck,
            final(self).queue == old(self).queue,
            final(self).players@.len() == old(self).players@.len(),
            match r {
                Ok(()) => {
                    &&& index < old(self).players@[old(self).spec_current()].hand@.len()
                    &&& final(self).players@[old(self).spec_current()].hand@ == old(
                        self,
                    ).players@[old(self).spec_current()].hand@.remove(index as int)
                    &&& final(self).pile@ == seq![
                        old(self).players@[old(self).spec_current()].hand@[index as int],
                    ] + old(self).pile@
                    &&& forall|u: int|
                        0 <= u < old(self).players@.len() && u != old(self).spec_current()
                            ==> final(self).players@[u] == old(self).players@[u]
                },
                Err(e) => {
                    &&& e == GameError::InvalidDiscardIndex
                    &&& index >= old(self).players@[old(self).spec_current()].hand@.len()
                    &&& *final(self) == *old(self)
                },
            },
    {
        let uid = self.queue.front();
        if index >= self.players[uid as usize].hand_len() {
            return Err(GameError::InvalidDiscardIndex);
        }
        let card = match self.players[uid as usize].remove_from_hand(index) {
            Some(card) => card,
            None => {
                proof {
                    assert(false);
                }
                return Err(GameError::InvalidDiscardIndex);
            },
        };
        self.pile.push_front(card);
        Ok(())
    }

    /// Ends the active player's turn: the front of the turn queue moves
    /// to the back.
    pub fn advance_turn(&mut self)
        requires
            old(self).wf(),
        ensures
            final(self).wf(),
            final(self).deck == old(self).deck,
            final(self).pile == old(self).pile,
            final(self).players == old(self).players,
            final(self).queue.queue@ == rotate_once(old(self).queue.queue@),
    {
        self.queue.cycle();
        proof {
            let q0 = old(self).queue.queue@;
            let q1 = final(self).queue.queue@;
            assert forall|j: int| 0 <= j < q1.len() implies (#[trigger] q1[j] as int)
                < final(self).players@.len() by {
                if j < q1.len() - 1 {
                    assert(q1[j] == q0[j + 1]);
                } else {
                    assert(q1[j] == q0[0]);
                }
            }
            assert forall|i: int, j: int|
                0 <= i < q1.len() && 0 <= j < q1.len() && i != j implies q1[i] != q1[j] by {
                let i0 = if i < q1.len() - 1 {
                    i + 1
                } else {
                    0
                };
                let j0 = if j < q1.len() - 1 {
                    j + 1
                } else {
                    0
                };
                assert(q1[i] == q0[i0]);
                assert(q1[j] == q0[j0]);
            }
            assert(q1.no_duplicates());
        }
    }
}

/// A full turn — one pickup, then one discard at a position of the grown
/// hand — leaves the hand's size unchanged; the pile's size is unchanged
/// when the pickup came from the pile, and grows by one when it came
/// from the deck.
pub proof fn lemma_turn_net_zero(
    hand: Seq<Card>,
    pile: Seq<Card>,
    deck: Seq<Card>,
    from_pile: bool,
    index: int,
)
    requires
        from_pile ==> pile.len() > 0,
        !from_pile ==> deck.len() > 0,
        0 <= index < hand.len() + 1,
    ensures
        ({
            let picked = if from_pile {
                pile[0]
            } else {
                deck[0]
            };
            let pile_after_pickup = if from_pile {
                pile.drop_first()
            } else {
                pile
            };
            let hand_after_pickup = hand.push(picked);
            let hand_after_discard = hand_after_pickup.remove(index);
            let pile_after_discard = seq![hand_after_pickup[index]] + pile_after_pickup;
            &&& hand_after_discard.len() == hand.len()
            &&& (from_pile ==> pile_after_discard.len() == pile.len())
            &&& (!from_pile ==> pile_after_discard.len() == pile.len() + 1)
        }),
{
}

} // verus!
