//! Players with their hands, and the rotating turn queue.

use vstd::prelude::*;

use crate::card::{Card, CardVariant};
use std::collections::VecDeque;

verus! {

broadcast use vstd::std_specs::vecdeque::group_vec_dequeue_axioms;

/// A player: a unique small-integer identifier and an owned, ordered
/// hand of cards. The hand grows at the back on pickup and shrinks by
/// index on discard.
#[derive(Debug)]
pub struct Player {
    pub uid: u8,
    pub hand: VecDeque<Card>,
}

impl Player {
    /// A new player with the given identifier and an empty hand.
    pub fn new(uid: u8) -> (r: Self)
        ensures
            r.uid == uid,
            r.hand@ == Seq::<Card>::empty(),
    {
        Self { uid, hand: Default::default() }
    }

    /// Appends a card to the back of the hand.
    pub fn add_card_to_hand(&mut self, card: Card)
        ensures
            final(self).uid == old(self).uid,
            final(self).hand@ == old(self).hand@.push(card),
    {
        self.hand.push_back(card);
    }

    /// Removes and returns the card at the given 0-based position,
    /// shifting the cards after it; returns `None`, and leaves the hand
    /// untouched, exactly when the index is out of range.
    pub fn remove_from_hand(&mut self, index: usize) -> (r: Option<Card>)
        ensures
            match r {
                Some(c) => {
                    &&& index < old(self).hand@.len()
                    &&& c == old(self).hand@[index as int]
                    &&& final(self).hand@ == old(self).hand@.remove(index as int)
                },
                None => {
                    &&& index >= old(self).hand@.len()
                    &&& final(self).hand@ == old(self).hand@
                },
            },
            final(self).uid == old(self).uid,
    {
        self.hand.remove(index)
    }

    /// How many cards the hand holds.
    pub fn hand_len(&self) -> (r: usize)
        ensures
            r == self.hand@.len(),
    {
        self.hand.len()
    }

    /// The variant of the card at the given position of the hand.
    pub fn hand_variant_at(&self, index: usize) -> (r: CardVariant)
        requires
            index < self.hand@.len(),
        ensures
            r == self.hand@[index as int].card,
    {
        self.hand[index].variant()
    }
}

/// One front-to-back rotation of a turn order.
pub open spec fn rotate_once(s: Seq<u8>) -> Seq<u8>
    recommends
        s.len() > 0,
{
    s.subrange(1, s.len() as int).push(s[0])
}

/// A turn order after a given number of front-to-back rotations.
pub open spec fn rotate_times(s: Seq<u8>, k: int) -> Seq<u8>
    decreases k,
{
    if k <= 0 {
        s
    } else {
        rotate_once(rotate_times(s, k - 1))
    }
}

/// The identifier at position `i` of a queue of `n` players that starts
/// with player `start`: the identifiers in increasing order from `start`,
/// wrapping around past `n - 1`.
pub open spec fn spec_turn_order(start: int, i: int, n: int) -> int
    recommends
        0 <= start < n,
        0 <= i < n,
{
    if start + i < n {
        start + i
    } else {
        start + i - n
    }
}

/// The position of the first occurrence of `x` in `s`.
pub open spec fn first_index_of(s: Seq<u8>, x: u8) -> int
    recommends
        s.contains(x),
    decreases s.len(),
{
    if s.len() == 0 {
        0
    } else if s[0] == x {
        0
    } else {
        1 + first_index_of(s.drop_first(), x)
    }
}

/// `first_index_of` names a real occurrence, and the first one.
pub proof fn lemma_first_index_of(s: Seq<u8>, x: u8)
    requires
        s.contains(x),
    ensures
        0 <= first_index_of(s, x) < s.len(),
        s[first_index_of(s, x)] == x,
        forall|i: int| 0 <= i < first_index_of(s, x) ==> s[i] != x,
    decreases s.len(),
{
    if s.len() > 0 && s[0] != x {
        let j = choose|j: int| 0 <= j < s.len() && s[j] == x;
        assert(s.drop_first()[j - 1] == x);
        lemma_first_index_of(s.drop_first(), x);
        assert forall|i: int| 0 <= i < first_index_of(s, x) implies s[i] != x by {
            if i > 0 {
                assert(s.drop_first()[i - 1] != x);
            }
        }
    }
}

/// After `k` rotations, a queue reads as its last `len - k` entries
/// followed by its first `k`.
pub proof fn lemma_rotate_times_shift(s: Seq<u8>, k: int)
    requires
        0 <= k <= s.len(),
    ensures
        rotate_times(s, k) == s.skip(k) + s.take(k),
    decreases k,
{
    if k == 0 {
        assert(rotate_times(s, 0) =~= s.skip(0) + s.take(0));
    } else {
        lemma_rotate_times_shift(s, k - 1);
        assert(rotate_once(s.skip(k - 1) + s.take(k - 1)) =~= s.skip(k) + s.take(k));
    }
}

/// Cycling a turn queue as many times as it has entries returns it to
/// its original order.
pub proof fn lemma_cycle_full_rotation(s: Seq<u8>)
    ensures
        rotate_times(s, s.len() as int) == s,
{
    lemma_rotate_times_shift(s, s.len() as int);
    assert(s.skip(s.len() as int) + s.take(s.len() as int) =~= s);
}

/// A freshly built turn queue of `n` players is a permutation: it holds
/// each identifier below `n` exactly once, with the starting player in
/// front.
pub proof fn lemma_new_queue_permutation(q: Seq<u8>, n: int, start: int)
    requires
        0 <= start < n <= 256,
        q.len() == n,
        forall|i: int| 0 <= i < n ==> #[trigger] q[i] as int == spec_turn_order(start, i, n),
    ensures
        q[0] as int == start,
        q.no_duplicates(),
        forall|p: u8| (p as int) < n ==> q.contains(p),
        forall|p: u8| (p as int) < n ==> q.to_multiset().count(p) == 1,
{
    broadcast use vstd::seq_lib::group_to_multiset_ensures;

    assert forall|i: int, j: int|
        0 <= i < q.len() && 0 <= j < q.len() && i != j implies q[i] != q[j] by {
        assert(q[i] as int == spec_turn_order(start, i, n));
        assert(q[j] as int == spec_turn_order(start, j, n));
    }
    assert(q.no_duplicates());
    assert forall|p: u8| (p as int) < n implies q.contains(p) by {
        let i: int = if p as int >= start {
            p as int - start
        } else {
            p as int - start + n
        };
        assert(q[i] == p);
    }
    q.lemma_multiset_has_no_duplicates();
    assert forall|p: u8| (p as int) < n implies q.to_multiset().count(p) == 1 by {
        assert(q.contains(p));
        assert(q.to_multiset().count(p) > 0);
        assert(q.to_multiset().contains(p));
    }
}

/// The rotating turn order: a queue of player identifiers whose front is
/// the player whose turn is active.
#[derive(Debug)]
pub struct PlayerQueue {
    pub queue: VecDeque<u8>,
}

impl PlayerQueue {
    /// Builds the queue `0 .. player_count`, then rotates front-to-back
    /// until `starting_player` stands at the front.
    pub fn new(player_count: u8, starting_player: u8) -> (r: Self)
        requires
            starting_player < player_count,
        ensures
            r.queue@.len() == player_count,
            forall|i: int|
                0 <= i < player_count ==> #[trigger] r.queue@[i] as int == spec_turn_order(
                    starting_player as int,
                    i,
                    player_count as int,
                ),
    {
        let mut queue: VecDeque<u8> = VecDeque::new();
        let mut i: u8 = 0;
        while i < player_count
            invariant
                i <= player_count,
                queue@.len() == i,
                forall|j: int| 0 <= j < i ==> #[trigger] queue@[j] as int == j,
            decreases player_count - i,
        {
            queue.push_back(i);
            i = i + 1;
        }
        let mut t = Self { queue };
        proof {
            assert(t.queue@[starting_player as int] == starting_player);
            assert(t.queue@.contains(starting_player));
            lemma_first_index_of(t.queue@, starting_player);
            assert(first_index_of(t.queue@, starting_player) == starting_player as int) by {
                let f = first_index_of(t.queue@, starting_player);
                assert(t.queue@[f] as int == f);
            }
        }
        let ghost orig = t.queue@;
        t.cycle_to_player(starting_player);
        proof {
            lemma_rotate_times_shift(orig, starting_player as int);
            assert forall|i: int|
                0 <= i < player_count implies #[trigger] t.queue@[i] as int == spec_turn_order(
                starting_player as int,
                i,
                player_count as int,
            ) by {
                if i < player_count - starting_player {
                    assert(t.queue@[i] == orig.skip(starting_player as int)[i]);
                } else {
                    assert(t.queue@[i] == orig.take(starting_player as int)[i - (player_count
                        - starting_player)]);
                }
            }
        }
        t
    }

    /// Moves the front identifier to the back: the sole turn-advance
    /// primitive.
    pub fn cycle(&mut self)
        requires
            old(self).queue@.len() > 0,
        ensures
            final(self).queue@ == rotate_once(old(self).queue@),
    {
        let t = self.queue.pop_front().unwrap();
        self.queue.push_back(t);
    }

    /// Rotates front-to-back until the given player stands at the front;
    /// the queue must contain that player.
    pub fn cycle_to_player(&mut self, player: u8)
        requires
            old(self).queue@.contains(player),
        ensures
            final(self).queue@ == rotate_times(
                old(self).queue@,
                first_index_of(old(self).queue@, player),
            ),
            final(self).queue@.len() == old(self).queue@.len(),
            final(self).queue@[0] == player,
    {
        let ghost orig = self.queue@;
        let ghost f = first_index_of(orig, player);
        proof {
            lemma_first_index_of(orig, player);
            assert(orig =~= orig.skip(0) + orig.take(0));
        }
        let ghost mut k: int = 0;
        while self.queue[0] != player
            invariant
                orig.contains(player),
                f == first_index_of(orig, player),
                0 <= f < orig.len(),
                orig[f] == player,
                forall|i: int| 0 <= i < f ==> orig[i] != player,
                0 <= k <= f,
                self.queue@ == rotate_times(orig, k),
                self.queue@ == orig.skip(k) + orig.take(k),
            decreases f - k,
        {
            proof {
                assert(self.queue@[0] == orig[k]);
                assert(k < f);
            }
            self.cycle();
            proof {
                assert(self.queue@ == rotate_times(orig, k + 1));
                assert(rotate_once(orig.skip(k) + orig.take(k)) =~= orig.skip(k + 1) + orig.take(
                    k + 1,
                ));
                k = k + 1;
            }
        }
        proof {
            assert(self.queue@[0] == orig[k]);
            assert(k == f);
        }
    }

    /// How many players the queue holds.
    pub fn len(&self) -> (r: usize)
        ensures
            r == self.queue@.len(),
    {
        self.queue.len()
    }

    /// The identifier of the player whose turn is active.
    pub fn front(&self) -> (r: u8)
        requires
            self.queue@.len() > 0,
        ensures
            r == self.queue@[0],
    {
        self.queue[0]
    }

    /// The identifier at the given position of the turn order.
    pub fn at(&self, i: usize) -> (r: u8)
        requires
            i < self.queue@.len(),
        ensures
            r == self.queue@[i as int],
    {
        self.queue[i]
    }
}

} // verus!
