//! The deck: an ordered, double-ended sequence of owned cards, with the
//! canonical builders, the two shuffle passes, drawing and dealing.

use vstd::prelude::*;

use crate::card::{spec_card, spec_ordinal, spec_variant_of_ordinal, Card, CardVariant};
use crate::player::{Player, PlayerQueue};
use crate::rng::random_in_range;
use crate::GameError;
use std::collections::VecDeque;
use vstd::multiset::Multiset;

verus! {

broadcast use vstd::std_specs::vecdeque::group_vec_dequeue_axioms,
    vstd::seq_lib::group_to_multiset_ensures,
    vstd::multiset::group_multiset_axioms;

/// The single standard deck in canonical enumeration order: the 52
/// normal cards by ordinal, then the joker.
pub open spec fn canonical_deck() -> Seq<Card> {
    Seq::new(53, |i: int| spec_card(spec_variant_of_ordinal(i)))
}

/// The cards that a full deal hands to the player at position `pos` of a
/// turn order of `stride` players: one card per round, taken at the
/// positions `pos`, `stride + pos`, `2 * stride + pos`, ... of the deck.
pub open spec fn dealt_to(deck: Seq<Card>, pos: int, stride: int, rounds: int) -> Seq<Card>
    recommends
        0 <= pos < stride,
        rounds * stride <= deck.len(),
{
    Seq::new(rounds as nat, |r: int| deck[r * stride + pos])
}

/// Every run length a chunk-shuffle pass may draw lies between four and
/// eight.
pub open spec fn valid_chunk_runs(runs: Seq<int>) -> bool {
    forall|i: int| 0 <= i < runs.len() ==> 4 <= #[trigger] runs[i] <= 8
}

/// What one chunk-shuffle pass builds from `input` under the drawn run
/// lengths `runs`: each run pulls up to its length off the front of the
/// remaining input, in order, and lands whole at the back of the output,
/// or card by card at its front — hence reversed — when leaning left;
/// the end flips after every run.
pub open spec fn chunk_pass(
    input: Seq<Card>,
    runs: Seq<int>,
    leaning_left: bool,
    acc: Seq<Card>,
) -> Seq<Card>
    decreases runs.len(),
{
    if runs.len() == 0 || input.len() == 0 {
        acc
    } else {
        let n = if runs[0] <= input.len() {
            runs[0]
        } else {
            input.len() as int
        };
        let acc2 = if leaning_left {
            input.take(n).reverse() + acc
        } else {
            acc + input.take(n)
        };
        chunk_pass(input.skip(n), runs.drop_first(), !leaning_left, acc2)
    }
}

/// `out` is a possible result of one chunk-shuffle pass over `input`:
/// the composition of a front-to-back run decomposition of `input`, the
/// runs of four to eight cards (the last possibly cut short by the end
/// of the input), appended to alternating ends starting at the back.
pub open spec fn is_chunk_shuffle_of(out: Seq<Card>, input: Seq<Card>) -> bool {
    exists|runs: Seq<int>|
        #![auto]
        valid_chunk_runs(runs) && out == chunk_pass(input, runs, false, Seq::empty())
}

/// Every run length a zipper-shuffle pass may draw lies between one and
/// three.
pub open spec fn valid_zipper_runs(runs: Seq<int>) -> bool {
    forall|i: int| 0 <= i < runs.len() ==> 1 <= #[trigger] runs[i] <= 3
}

/// What one zipper-shuffle pass builds from the two halves `a` and `b`
/// under the drawn run lengths `runs`: each run moves up to its length
/// off the front of the active half to the back of the output, and the
/// active half flips after every run; a run on an exhausted half moves
/// nothing. The pass ends when both halves are empty.
pub open spec fn zipper_pass(
    a: Seq<Card>,
    b: Seq<Card>,
    leaning_left: bool,
    runs: Seq<int>,
    acc: Seq<Card>,
) -> Seq<Card>
    decreases runs.len(),
{
    if runs.len() == 0 || (a.len() == 0 && b.len() == 0) {
        acc
    } else if leaning_left {
        let n = if runs[0] <= a.len() {
            runs[0]
        } else {
            a.len() as int
        };
        zipper_pass(a.skip(n), b, false, runs.drop_first(), acc + a.take(n))
    } else {
        let n = if runs[0] <= b.len() {
            runs[0]
        } else {
            b.len() as int
        };
        zipper_pass(a, b.skip(n), true, runs.drop_first(), acc + b.take(n))
    }
}

/// `out` is a possible result of one zipper-shuffle pass over `input`:
/// an interleaving of the input's two halves, each kept in its original
/// relative order, in runs of one to three cards drawn alternately
/// starting with the second half.
pub open spec fn is_zipper_shuffle_of(out: Seq<Card>, input: Seq<Card>) -> bool {
    exists|runs: Seq<int>|
        #![auto]
        valid_zipper_runs(runs) && out == zipper_pass(
            input.take(input.len() as int / 2),
            input.skip(input.len() as int / 2),
            false,
            runs,
            Seq::empty(),
        )
}

/// `out` is a possible result of one full shuffle pass over `input`: a
/// chunk-shuffle pass followed by a zipper-shuffle pass.
pub open spec fn is_shuffle_pass_of(out: Seq<Card>, input: Seq<Card>) -> bool {
    exists|mid: Seq<Card>|
        #![auto]
        is_chunk_shuffle_of(mid, input) && is_zipper_shuffle_of(out, mid)
}

/// `out` is a possible result of the given number of full shuffle
/// passes over `input`.
pub open spec fn is_shuffled_times(out: Seq<Card>, input: Seq<Card>, passes: int) -> bool
    decreases passes,
{
    if passes <= 0 {
        out == input
    } else {
        exists|mid: Seq<Card>|
            #![auto]
            is_shuffled_times(mid, input, passes - 1) && is_shuffle_pass_of(out, mid)
    }
}

/// The canonical enumeration is its own inverse pair: the variant at a
/// position has that position as its ordinal, and every variant stands
/// at its own ordinal.
pub proof fn lemma_ordinal_roundtrip()
    ensures
        forall|i: int| 0 <= i < 53 ==> spec_ordinal(#[trigger] spec_variant_of_ordinal(i)) == i,
        forall|v: CardVariant| 0 <= #[trigger] spec_ordinal(v) < 53,
        forall|v: CardVariant| spec_variant_of_ordinal(#[trigger] spec_ordinal(v)) == v,
{
}

/// The deck builders hand out each card identity exactly once per
/// standard deck included: once in the standard build, twice in the
/// double build.
pub proof fn lemma_deck_build_counts(v: CardVariant)
    ensures
        canonical_deck().to_multiset().count(spec_card(v)) == 1,
        (canonical_deck() + canonical_deck()).to_multiset().count(spec_card(v)) == 2,
{
    let d = canonical_deck();
    lemma_ordinal_roundtrip();
    assert forall|i: int, j: int|
        0 <= i < d.len() && 0 <= j < d.len() && i != j implies d[i] != d[j] by {
        assert(d[i].card == spec_variant_of_ordinal(i));
        assert(d[j].card == spec_variant_of_ordinal(j));
        assert(spec_ordinal(spec_variant_of_ordinal(i)) == i);
        assert(spec_ordinal(spec_variant_of_ordinal(j)) == j);
    }
    assert(d.no_duplicates());
    let idx = spec_ordinal(v);
    assert(d[idx] == spec_card(v));
    assert(d.contains(spec_card(v)));
    d.lemma_multiset_has_no_duplicates();
    assert(d.to_multiset().count(spec_card(v)) > 0);
    assert(d.to_multiset().contains(spec_card(v)));
    vstd::seq_lib::lemma_multiset_commutative(d, d);
    assert((d + d).to_multiset().count(spec_card(v)) == 2);
}

/// The draw pile: cards not yet dealt or discarded, front card on top.
#[derive(Debug)]
pub struct CardCollection {
    pub cards: VecDeque<Card>,
}

impl View for CardCollection {
    type V = Seq<Card>;

    open spec fn view(&self) -> Seq<Card> {
        self.cards@
    }
}

impl CardCollection {
    /// The 53-card standard deck (one joker), in canonical enumeration
    /// order.
    pub fn new_standard_deck_with_jokers() -> (r: Self)
        ensures
            r@ == canonical_deck(),
    {
        let mut cards: VecDeque<Card> = VecDeque::new();
        let mut i: u8 = 0;
        while i < 53
            invariant
                i <= 53,
                cards@.len() == i,
                forall|j: int| 0 <= j < i ==> cards@[j] == canonical_deck()[j],
            decreases 53 - i,
        {
            cards.push_back(Card::from(CardVariant::from_ordinal(i)));
            i = i + 1;
        }
        proof {
            assert(cards@ =~= canonical_deck());
        }
        Self { cards }
    }

    /// The 106-card double deck: two standard decks concatenated, used
    /// for three- and four-player games.
    pub fn new_double_deck_with_jokers() -> (r: Self)
        ensures
            r@ == canonical_deck() + canonical_deck(),
    {
        let mut first = Self::new_standard_deck_with_jokers();
        let mut second = Self::new_standard_deck_with_jokers();
        first.cards.append(&mut second.cards);
        Self { cards: first.cards }
    }

    /// A deck holding exactly the given cards, front of the deck first.
    pub fn new(cards: Vec<Card>) -> (r: CardCollection)
        ensures
            r@ == cards@,
    {
        let ghost orig = cards@;
        let mut rest = cards;
        let mut deque: VecDeque<Card> = VecDeque::new();
        while rest.len() > 0
            invariant
                rest@ + deque@ == orig,
            decreases rest@.len(),
        {
            let c = rest.pop().unwrap();
            deque.push_front(c);
            proof {
                assert(rest@ + deque@ =~= orig);
            }
        }
        proof {
            assert(deque@ =~= orig);
        }
        Self { cards: deque }
    }

    /// Removes and returns the front (top) card, or `None`, exactly when
    /// the deck is empty.
    pub fn take_card_off_top(&mut self) -> (r: Option<Card>)
        ensures
            match r {
                Some(c) => {
                    &&& old(self)@.len() > 0
                    &&& c == old(self)@[0]
                    &&& final(self)@ == old(self)@.subrange(1, old(self)@.len() as int)
                },
                None => {
                    &&& old(self)@.len() == 0
                    &&& final(self)@ == old(self)@
                },
            },
    {
        self.cards.pop_front()
    }

    /// How many cards are left in the deck.
    pub fn len(&self) -> (r: usize)
        ensures
            r == self@.len(),
    {
        self.cards.len()
    }

    /// The variant of the card at the given position, front first.
    pub fn variant_at(&self, i: usize) -> (r: CardVariant)
        requires
            i < self@.len(),
        ensures
            r == self@[i as int].card,
    {
        self.cards[i].variant()
    }

    /// One chunk-shuffle pass: repeatedly pulls a run of four to eight
    /// cards off the front of the input, in order, and appends the run
    /// to the front or the back of the output, flipping ends after every
    /// run; a partial final run is still appended. The result is exactly
    /// such a run composition of the input for some sequence of drawn
    /// run lengths, so the pass reorders the cards and neither adds nor
    /// drops any.
    pub fn chunk_shuffle(cards: VecDeque<Card>) -> (out: VecDeque<Card>)
        ensures
            out@.len() == cards@.len(),
            out@.to_multiset() == cards@.to_multiset(),
            is_chunk_shuffle_of(out@, cards@),
    {
        let ghost orig = cards@;
        let mut remaining = cards;
        let mut leaning_left: bool = false;
        let mut final_deck: VecDeque<Card> = VecDeque::new();
        let ghost mut runs: Seq<int> = Seq::empty();
        proof {
            assert forall|rs: Seq<int>|
                #[trigger] chunk_pass(remaining@, rs, leaning_left, final_deck@) == chunk_pass(
                orig,
                runs + rs,
                false,
                Seq::empty(),
            ) by {
                assert(runs + rs =~= rs);
            }
        }
        while remaining.len() > 0
            invariant
                final_deck@.len() + remaining@.len() == orig.len(),
                final_deck@.to_multiset().add(remaining@.to_multiset()) == orig.to_multiset(),
                valid_chunk_runs(runs),
                forall|rs: Seq<int>|
                    #[trigger] chunk_pass(remaining@, rs, leaning_left, final_deck@) == chunk_pass(
                        orig,
                        runs + rs,
                        false,
                        Seq::empty(),
                    ),
            decreases remaining@.len(),
        {
            let ghost rem0 = remaining@;
            let ghost out0 = final_deck@;
            let ghost lean0 = leaning_left;
            let random: u8 = random_in_range(4, 8);
            let take_n = if (random as usize) <= remaining.len() {
                random as usize
            } else {
                remaining.len()
            };
            let mut i: usize = 0;
            while i < take_n
                invariant
                    i <= take_n,
                    4 <= random <= 8,
                    0 < rem0.len(),
                    take_n as int == (if random as int <= rem0.len() {
                        random as int
                    } else {
                        rem0.len() as int
                    }),
                    leaning_left == lean0,
                    remaining@ == rem0.skip(i as int),
                    final_deck@ == (if lean0 {
                        rem0.take(i as int).reverse() + out0
                    } else {
                        out0 + rem0.take(i as int)
                    }),
                    out0.len() + rem0.len() == orig.len(),
                    out0.to_multiset().add(rem0.to_multiset()) == orig.to_multiset(),
                    valid_chunk_runs(runs),
                    forall|rs: Seq<int>|
                        #[trigger] chunk_pass(rem0, rs, lean0, out0) == chunk_pass(
                            orig,
                            runs + rs,
                            false,
                            Seq::empty(),
                        ),
                decreases take_n - i,
            {
                let card = remaining.pop_front().unwrap();
                if leaning_left {
                    final_deck.push_front(card);
                } else {
                    final_deck.push_back(card);
                }
                proof {
                    assert(remaining@ =~= rem0.skip(i as int + 1));
                    if lean0 {
                        assert(rem0.take(i as int + 1).reverse() + out0 =~= seq![rem0[i as int]]
                            + (rem0.take(i as int).reverse() + out0));
                    } else {
                        assert(out0 + rem0.take(i as int + 1) =~= (out0 + rem0.take(
                            i as int,
                        )).push(rem0[i as int]));
                    }
                }
                i = i + 1;
            }
            proof {
                let n = take_n as int;
                let chunk = rem0.take(n);
                assert(rem0 =~= chunk + rem0.skip(n));
                vstd::seq_lib::lemma_multiset_commutative(chunk, rem0.skip(n));
                if lean0 {
                    chunk.lemma_reverse_to_multiset();
                    vstd::seq_lib::lemma_multiset_commutative(chunk.reverse(), out0);
                } else {
                    vstd::seq_lib::lemma_multiset_commutative(out0, chunk);
                }
                assert(final_deck@.to_multiset().add(remaining@.to_multiset())
                    =~= orig.to_multiset());
                let rold = runs;
                let lean1 = !lean0;
                runs = runs.push(random as int);
                assert forall|rs: Seq<int>|
                    #[trigger] chunk_pass(remaining@, rs, lean1, final_deck@) == chunk_pass(
                    orig,
                    runs + rs,
                    false,
                    Seq::empty(),
                ) by {
                    let rrs = seq![random as int] + rs;
                    assert(runs + rs =~= rold + rrs);
                    assert(chunk_pass(rem0, rrs, lean0, out0) == chunk_pass(
                        orig,
                        rold + rrs,
                        false,
                        Seq::empty(),
                    ));
                    assert(rrs[0] == random as int);
                    assert(rrs.drop_first() =~= rs);
                    assert(chunk_pass(rem0, rrs, lean0, out0) == chunk_pass(
                        remaining@,
                        rs,
                        lean1,
                        final_deck@,
                    ));
                }
            }
            leaning_left = !leaning_left;
        }
        proof {
            assert(remaining@.to_multiset() =~= Multiset::<Card>::empty());
            assert(final_deck@.to_multiset() =~= orig.to_multiset());
            assert(chunk_pass(remaining@, Seq::<int>::empty(), leaning_left, final_deck@)
                == chunk_pass(orig, runs + Seq::<int>::empty(), false, Seq::empty()));
            assert(runs + Seq::<int>::empty() =~= runs);
            assert(final_deck@ == chunk_pass(orig, runs, false, Seq::empty()));
            assert(is_chunk_shuffle_of(final_deck@, orig));
        }
        final_deck
    }

    /// One zipper-shuffle pass: splits the input at its midpoint and
    /// interleaves runs of one to three cards drawn alternately from the
    /// two halves, starting with the second, onto the back of the
    /// output; a side that runs out is marked empty and the other side
    /// continues. The result is exactly such an interleaving of the two
    /// halves for some sequence of drawn run lengths — each half keeps
    /// its relative order, and the input's midpoint card comes out
    /// first — so the pass reorders the cards and neither adds nor
    /// drops any.
    pub fn zipper_shuffle(cards: VecDeque<Card>) -> (out: VecDeque<Card>)
        ensures
            out@.len() == cards@.len(),
            out@.to_multiset() == cards@.to_multiset(),
            is_zipper_shuffle_of(out@, cards@),
            cards@.len() > 0 ==> out@[0] == cards@[cards@.len() as int / 2],
    {
        let ghost orig = cards@;
        let mut a = cards;
        let half = a.len() / 2;
        let mut b = a.split_off(half);
        let ghost a_init = a@;
        let ghost b_init = b@;
        proof {
            assert(a@ + b@ =~= orig);
            vstd::seq_lib::lemma_multiset_commutative(a@, b@);
            assert(a_init =~= orig.take(orig.len() as int / 2));
            assert(b_init =~= orig.skip(orig.len() as int / 2));
        }
        let mut leaning_left: bool = false;
        let mut left_empty: bool = false;
        let mut right_empty: bool = false;
        let mut final_deck: VecDeque<Card> = VecDeque::new();
        let ghost mut runs: Seq<int> = Seq::empty();
        proof {
            assert forall|rs: Seq<int>|
                #[trigger] zipper_pass(a@, b@, leaning_left, rs, final_deck@) == zipper_pass(
                a_init,
                b_init,
                false,
                runs + rs,
                Seq::empty(),
            ) by {
                assert(runs + rs =~= rs);
            }
        }
        while !(left_empty && right_empty)
            invariant
                final_deck@.len() + a@.len() + b@.len() == orig.len(),
                final_deck@.to_multiset().add(a@.to_multiset()).add(b@.to_multiset())
                    == orig.to_multiset(),
                left_empty ==> a@.len() == 0,
                right_empty ==> b@.len() == 0,
                valid_zipper_runs(runs),
                forall|rs: Seq<int>|
                    #[trigger] zipper_pass(a@, b@, leaning_left, rs, final_deck@) == zipper_pass(
                        a_init,
                        b_init,
                        false,
                        runs + rs,
                        Seq::empty(),
                    ),
                a_init == orig.take(orig.len() as int / 2),
                b_init == orig.skip(orig.len() as int / 2),
                orig.len() > 0 && final_deck@.len() == 0 ==> a@ == a_init && b@ == b_init
                    && !leaning_left,
                final_deck@.len() > 0 ==> final_deck@[0] == b_init[0],
            decreases
                    a@.len() + b@.len() + (if left_empty {
                        0int
                    } else {
                        1int
                    }) + (if right_empty {
                        0int
                    } else {
                        1int
                    }),
                    (if (leaning_left && left_empty) || (!leaning_left && right_empty) {
                        1int
                    } else {
                        0int
                    }),
        {
            let ghost a0 = a@;
            let ghost b0 = b@;
            let ghost out0 = final_deck@;
            let ghost lean0 = leaning_left;
            let ghost le0 = left_empty;
            let ghost re0 = right_empty;
            let random: u8 = random_in_range(1, 3);
            let active_len = if leaning_left {
                a.len()
            } else {
                b.len()
            };
            let take_n = if (random as usize) <= active_len {
                random as usize
            } else {
                active_len
            };
            let mut i: usize = 0;
            while i < take_n
                invariant
                    i <= take_n,
                    1 <= random <= 3,
                    leaning_left == lean0,
                    left_empty == le0,
                    right_empty == re0,
                    take_n as int == (if random as int <= (if lean0 {
                        a0.len() as int
                    } else {
                        b0.len() as int
                    }) {
                        random as int
                    } else {
                        (if lean0 {
                            a0.len() as int
                        } else {
                            b0.len() as int
                        })
                    }),
                    lean0 ==> a@ == a0.skip(i as int) && b@ == b0,
                    !lean0 ==> b@ == b0.skip(i as int) && a@ == a0,
                    final_deck@ == out0 + (if lean0 {
                        a0.take(i as int)
                    } else {
                        b0.take(i as int)
                    }),
                decreases take_n - i,
            {
                let card = if leaning_left {
                    a.pop_front().unwrap()
                } else {
                    b.pop_front().unwrap()
                };
                final_deck.push_back(card);
                proof {
                    if lean0 {
                        assert(a@ =~= a0.skip(i as int + 1));
                        assert(out0 + a0.take(i as int + 1) =~= (out0 + a0.take(i as int)).push(
                            a0[i as int],
                        ));
                    } else {
                        assert(b@ =~= b0.skip(i as int + 1));
                        assert(out0 + b0.take(i as int + 1) =~= (out0 + b0.take(i as int)).push(
                            b0[i as int],
                        ));
                    }
                }
                i = i + 1;
            }
            let exhausted = take_n < (random as usize);
            if exhausted {
                if leaning_left {
                    left_empty = true;
                } else {
                    right_empty = true;
                }
            }
            proof {
                let n = take_n as int;
                let active0 = if lean0 {
                    a0
                } else {
                    b0
                };
                assert(active0 =~= active0.take(n) + active0.skip(n));
                vstd::seq_lib::lemma_multiset_commutative(active0.take(n), active0.skip(n));
                vstd::seq_lib::lemma_multiset_commutative(out0, active0.take(n));
                assert(final_deck@.to_multiset().add(a@.to_multiset()).add(b@.to_multiset())
                    =~= orig.to_multiset());
                let rold = runs;
                let lean1 = !lean0;
                runs = runs.push(random as int);
                assert forall|rs: Seq<int>|
                    #[trigger] zipper_pass(a@, b@, lean1, rs, final_deck@) == zipper_pass(
                    a_init,
                    b_init,
                    false,
                    runs + rs,
                    Seq::empty(),
                ) by {
                    let rrs = seq![random as int] + rs;
                    assert(runs + rs =~= rold + rrs);
                    assert(zipper_pass(a0, b0, lean0, rrs, out0) == zipper_pass(
                        a_init,
                        b_init,
                        false,
                        rold + rrs,
                        Seq::empty(),
                    ));
                    assert(rrs[0] == random as int);
                    assert(rrs.drop_first() =~= rs);
                    if a0.len() == 0 && b0.len() == 0 {
                        assert(zipper_pass(a0, b0, lean0, rrs, out0) == out0);
                        assert(a@.len() == 0 && b@.len() == 0 && final_deck@ == out0);
                        assert(zipper_pass(a@, b@, lean1, rs, final_deck@) == final_deck@);
                    } else if lean0 {
                        assert(a@ == a0.skip(n));
                        assert(final_deck@ == out0 + a0.take(n));
                        assert(zipper_pass(a0, b0, lean0, rrs, out0) == zipper_pass(
                            a@,
                            b@,
                            lean1,
                            rs,
                            final_deck@,
                        ));
                    } else {
                        assert(b@ == b0.skip(n));
                        assert(final_deck@ == out0 + b0.take(n));
                        assert(zipper_pass(a0, b0, lean0, rrs, out0) == zipper_pass(
                            a@,
                            b@,
                            lean1,
                            rs,
                            final_deck@,
                        ));
                    }
                }
                if orig.len() > 0 && out0.len() == 0 {
                    assert(b_init.len() > 0);
                    assert(take_n >= 1);
                    assert(final_deck@[0] == b_init[0]);
                }
            }
            leaning_left = !leaning_left;
        }
        proof {
            assert(a@.to_multiset() =~= Multiset::<Card>::empty());
            assert(b@.to_multiset() =~= Multiset::<Card>::empty());
            assert(final_deck@.to_multiset() =~= orig.to_multiset());
            assert(zipper_pass(a@, b@, leaning_left, Seq::<int>::empty(), final_deck@)
                == zipper_pass(a_init, b_init, false, runs + Seq::<int>::empty(), Seq::empty()));
            assert(runs + Seq::<int>::empty() =~= runs);
            assert(final_deck@ == zipper_pass(a_init, b_init, false, runs, Seq::empty()));
            assert(is_zipper_shuffle_of(final_deck@, orig));
            if orig.len() > 0 {
                assert(final_deck@[0] == b_init[0]);
                assert(b_init[0] == orig[orig.len() as int / 2]);
            }
        }
        final_deck
    }

    /// Deals `count_for_each` rounds: in each round every player of the
    /// turn order, front first, receives the card off the top of the
    /// deck. Fails, changing nothing, exactly when the deck holds fewer
    /// cards than the deal needs.
    pub fn deal_cards(
        &mut self,
        count_for_each: u8,
        players: &mut Vec<Player>,
        order: &PlayerQueue,
    ) -> (r: Result<(), GameError>)
        requires
            order.queue@.no_duplicates(),
            forall|j: int|
                0 <= j < order.queue@.len() ==> (#[trigger] order.queue@[j] as int) < old(
                    players,
                )@.len(),
        ensures
            final(players)@.len() == old(players)@.len(),
            match r {
                Ok(()) => {
                    &&& old(self)@.len() >= count_for_each as int * order.queue@.len()
                    &&& final(self)@ == old(self)@.skip(
                        count_for_each as int * order.queue@.len() as int,
                    )
                    &&& forall|t: int|
                        0 <= t < order.queue@.len() ==> final(players)@[#[trigger] order.queue@[t]
                            as int].hand@ == old(players)@[order.queue@[t] as int].hand@
                            + dealt_to(
                            old(self)@,
                            t,
                            order.queue@.len() as int,
                            count_for_each as int,
                        )
                    &&& forall|u: int|
                        0 <= u < old(players)@.len() && !order.queue@.contains(u as u8)
                            ==> final(players)@[u] == old(players)@[u]
                    &&& forall|u: int|
                        0 <= u < old(players)@.len() ==> #[trigger] final(players)@[u].uid == old(
                            players,
                        )@[u].uid
                },
                Err(e) => {
                    &&& e == GameError::NotEnoughCards
                    &&& old(self)@.len() < count_for_each as int * order.queue@.len()
                    &&& final(self)@ == old(self)@
                    &&& final(players)@ == old(players)@
                },
            },
    {
        let p = order.len();
        let deck_len = self.cards.len();
        let total = match (count_for_each as usize).checked_mul(p) {
            Some(t) => t,
            None => {
                return Err(GameError::NotEnoughCards);
            },
        };
        if deck_len < total {
            return Err(GameError::NotEnoughCards);
        }
        let ghost deck0 = self@;
        let ghost players0 = players@;
        let mut round: u8 = 0;
        while round < count_for_each
            invariant
                p == order.queue@.len(),
                order.queue@.no_duplicates(),
                forall|j: int|
                    0 <= j < order.queue@.len() ==> (#[trigger] order.queue@[j] as int)
                        < players0.len(),
                players@.len() == players0.len(),
                round <= count_for_each,
                deck0.len() >= count_for_each as int * p as int,
                self@ == deck0.skip(round as int * p as int),
                forall|t: int|
                    0 <= t < p ==> players@[#[trigger] order.queue@[t] as int].hand@
                        == players0[order.queue@[t] as int].hand@ + dealt_to(
                        deck0,
                        t,
                        p as int,
                        round as int,
                    ),
                forall|u: int|
                    0 <= u < players0.len() && !order.queue@.contains(u as u8) ==> players@[u]
                        == players0[u],
                forall|u: int|
                    0 <= u < players0.len() ==> #[trigger] players@[u].uid == players0[u].uid,
            decreases count_for_each - round,
        {
            let mut j: usize = 0;
            proof {
                assert(round as int * p as int + p as int == (round + 1) as int * p as int)
                    by (nonlinear_arith);
                assert((round + 1) as int * p as int <= count_for_each as int * p as int)
                    by (nonlinear_arith)
                    requires
                        round as int + 1 <= count_for_each as int,
                        p as int >= 0,
                ;
            }
            while j < p
                invariant
                    p == order.queue@.len(),
                    order.queue@.no_duplicates(),
                    forall|jj: int|
                        0 <= jj < order.queue@.len() ==> (#[trigger] order.queue@[jj] as int)
                            < players0.len(),
                    players@.len() == players0.len(),
                    round < count_for_each,
                    j <= p,
                    deck0.len() >= count_for_each as int * p as int,
                    round as int * p as int + p as int <= count_for_each as int * p as int,
                    self@ == deck0.skip(round as int * p as int + j as int),
                    forall|t: int|
                        0 <= t < j ==> players@[#[trigger] order.queue@[t] as int].hand@
                            == players0[order.queue@[t] as int].hand@ + dealt_to(
                            deck0,
                            t,
                            p as int,
                            round as int + 1,
                        ),
                    forall|t: int|
                        j <= t < p ==> players@[#[trigger] order.queue@[t] as int].hand@
                            == players0[order.queue@[t] as int].hand@ + dealt_to(
                            deck0,
                            t,
                            p as int,
                            round as int,
                        ),
                    forall|u: int|
                        0 <= u < players0.len() && !order.queue@.contains(u as u8) ==> players@[u]
                            == players0[u],
                    forall|u: int|
                        0 <= u < players0.len() ==> #[trigger] players@[u].uid == players0[u].uid,
                decreases p - j,
            {
                let ghost k = round as int * p as int + j as int;
                proof {
                    assert(k < count_for_each as int * p as int);
                    assert(self@.len() == deck0.len() - k);
                }
                let card = self.cards.pop_front().unwrap();
                proof {
                    assert(card == deck0[k]);
                    assert(self@ =~= deck0.skip(k + 1));
                }
                let uid = order.at(j);
                let ghost before = players@;
                players[uid as usize].add_card_to_hand(card);
                proof {
                    let qj = order.queue@[j as int] as int;
                    assert(players@ == before.update(qj, players@[qj]));
                    assert(players@[qj].hand@ == before[qj].hand@.push(deck0[k]));
                    assert(players0[qj].hand@ + dealt_to(deck0, j as int, p as int, round as int)
                        + seq![deck0[k]] =~= players0[qj].hand@ + dealt_to(
                        deck0,
                        j as int,
                        p as int,
                        round as int + 1,
                    ));
                    assert(before[qj].hand@.push(deck0[k]) =~= before[qj].hand@ + seq![deck0[k]]);
                    assert(players@[qj].hand@ == players0[qj].hand@ + dealt_to(
                        deck0,
                        j as int,
                        p as int,
                        round as int + 1,
                    ));
                    assert(order.queue@.contains(order.queue@[j as int]));
                    assert forall|t: int|
                        0 <= t < p && t != j implies order.queue@[t] != order.queue@[j as int] by {
                    }
                }
                j = j + 1;
            }
            round = round + 1;
        }
        proof {
            assert(self@ == deck0.skip(count_for_each as int * p as int));
        }
        Ok(())
    }

    /// Replaces the deck's order by ten passes of a chunk shuffle
    /// followed by a zipper shuffle: the new order is reachable from the
    /// old one by exactly ten such passes, so no card is added, removed
    /// or duplicated.
    pub fn shuffle(&mut self)
        ensures
            final(self)@.len() == old(self)@.len(),
            final(self)@.to_multiset() == old(self)@.to_multiset(),
            is_shuffled_times(final(self)@, old(self)@, 10),
    {
        let mut cards: VecDeque<Card> = VecDeque::new();
        core::mem::swap(&mut cards, &mut self.cards);
        let ghost orig = cards@;
        let mut pass: u8 = 0;
        while pass < 10
            invariant
                pass <= 10,
                cards@.len() == orig.len(),
                cards@.to_multiset() == orig.to_multiset(),
                is_shuffled_times(cards@, orig, pass as int),
            decreases 10 - pass,
        {
            let ghost prev = cards@;
            cards = Self::chunk_shuffle(cards);
            let ghost mid = cards@;
            cards = Self::zipper_shuffle(cards);
            pass = pass + 1;
            proof {
                assert(is_chunk_shuffle_of(mid, prev) && is_zipper_shuffle_of(cards@, mid));
                assert(is_shuffle_pass_of(cards@, prev));
                assert(is_shuffled_times(prev, orig, pass as int - 1) && is_shuffle_pass_of(
                    cards@,
                    prev,
                ));
                assert(is_shuffled_times(cards@, orig, pass as int));
            }
        }
        self.cards = cards;
    }
}

} // verus!
