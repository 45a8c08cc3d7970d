use vstd::prelude::*;
use crate::cards::{Card, rank_int, suit_int};
use crate::hand::Hand;

verus! {

/// The taxonomy of hand classifications, weakest last. `RoyalFlush`
/// and `StraightFlush` are declared for completeness of the taxonomy
/// but the evaluator never produces them.
#[derive(Clone, Copy, Debug, PartialEq, Eq, Structural)]
pub enum PokerHand {
    RoyalFlush,
    StraightFlush,
    FourOfAKind,
    FullHouse,
    Flush,
    Straight,
    ThreeOfAKind,
    TwoPair,
    OnePair,
    HighCard,
}

/// How many cards of `s` have rank integer `r`.
pub open spec fn count_rank(s: Seq<Card>, r: int) -> nat
    decreases s.len(),
{
    if s.len() == 0 {
        0
    } else {
        count_rank(s.drop_last(), r) + if rank_int(s.last().rank) == r {
            1nat
        } else {
            0nat
        }
    }
}

/// How many cards of `s` have suit index `q`.
pub open spec fn count_suit(s: Seq<Card>, q: int) -> nat
    decreases s.len(),
{
    if s.len() == 0 {
        0
    } else {
        count_suit(s.drop_last(), q) + if suit_int(s.last().suit) == q {
            1nat
        } else {
            0nat
        }
    }
}

/// How many rank integers below `n` occur at least twice in `s`. A
/// rank held three or four times counts here as well: a
/// three-of-a-kind or four-of-a-kind rank also counts as a pair.
pub open spec fn pair_count_upto(s: Seq<Card>, n: int) -> nat
    decreases n,
{
    if n <= 1 {
        0
    } else {
        pair_count_upto(s, n - 1) + if count_rank(s, n - 1) >= 2 {
            1nat
        } else {
            0nat
        }
    }
}

/// How many distinct ranks occur at least twice in `s`.
pub open spec fn pair_count(s: Seq<Card>) -> nat {
    pair_count_upto(s, 14)
}

/// Some suit covers five or more cards of `s`.
pub open spec fn has_flush(s: Seq<Card>) -> bool {
    exists|q: int| 0 <= q < 4 && count_suit(s, q) >= 5
}

/// Some rank occurs exactly three times in `s`.
pub open spec fn has_three_of_a_kind(s: Seq<Card>) -> bool {
    exists|r: int| 1 <= r <= 13 && count_rank(s, r) == 3
}

/// Some rank occurs exactly four times in `s`.
pub open spec fn has_four_of_a_kind(s: Seq<Card>) -> bool {
    exists|r: int| 1 <= r <= 13 && count_rank(s, r) == 4
}

/// The five consecutive ranks `r` through `r + 4` are all present in
/// `s`.
pub open spec fn run_of_five_at(s: Seq<Card>, r: int) -> bool {
    &&& count_rank(s, r) >= 1
    &&& count_rank(s, r + 1) >= 1
    &&& count_rank(s, r + 2) >= 1
    &&& count_rank(s, r + 3) >= 1
    &&& count_rank(s, r + 4) >= 1
}

/// Five consecutive ranks are present somewhere in `s`.
pub open spec fn has_straight(s: Seq<Card>) -> bool {
    exists|r: int| 1 <= r <= 9 && #[trigger] run_of_five_at(s, r)
}

/// The single classification the evaluator reports. Categories are
/// tried in a fixed order and each match overwrites the last, so the
/// survivor is the one checked last among those that match: four of a
/// kind beats the full-house condition, which beats flush, straight,
/// three of a kind and the pair counts in that order. The full-house
/// condition is `(pair_count > 1 && three of a kind) || four of a
/// kind`, exactly as the evaluator applies it.
pub open spec fn best_category(s: Seq<Card>) -> PokerHand {
    if has_four_of_a_kind(s) {
        PokerHand::FourOfAKind
    } else if pair_count(s) > 1 && has_three_of_a_kind(s) {
        PokerHand::FullHouse
    } else if has_flush(s) {
        PokerHand::Flush
    } else if has_straight(s) {
        PokerHand::Straight
    } else if has_three_of_a_kind(s) {
        PokerHand::ThreeOfAKind
    } else if pair_count(s) >= 2 {
        PokerHand::TwoPair
    } else if pair_count(s) == 1 {
        PokerHand::OnePair
    } else {
        PokerHand::HighCard
    }
}

/// Everything the evaluator found in one hand: the raw tallies'
/// verdicts and the single best classification. A category "matched"
/// exactly when the corresponding field (or pair-count comparison)
/// says so.
pub struct HandAnalysis {
    /// Some suit covers at least five cards.
    pub has_flush: bool,
    /// How many distinct ranks occur at least twice (threes and fours
    /// of a kind included).
    pub pairs: usize,
    /// Some rank occurs exactly three times.
    pub has_three_of_a_kind: bool,
    /// Some rank occurs exactly four times.
    pub has_four_of_a_kind: bool,
    /// Five consecutive ranks are all present.
    pub has_straight: bool,
    /// The classification that survives the fixed overwrite order.
    pub best_hand: PokerHand,
}

/// No rank occurs more often than the hand has cards.
proof fn lemma_count_rank_le_len(s: Seq<Card>, r: int)
    ensures
        count_rank(s, r) <= s.len(),
    decreases s.len(),
{
    if s.len() > 0 {
        lemma_count_rank_le_len(s.drop_last(), r);
    }
}

/// No suit covers more cards than the hand has.
proof fn lemma_count_suit_le_len(s: Seq<Card>, q: int)
    ensures
        count_suit(s, q) <= s.len(),
    decreases s.len(),
{
    if s.len() > 0 {
        lemma_count_suit_le_len(s.drop_last(), q);
    }
}

/// A rank below `n` that occurs at least twice makes the pair tally
/// up to `n` positive.
proof fn lemma_pair_count_upto_positive(s: Seq<Card>, x: int, n: int)
    requires
        1 <= x < n,
        count_rank(s, x) >= 2,
    ensures
        pair_count_upto(s, n) >= 1,
    decreases n,
{
    if x < n - 1 {
        lemma_pair_count_upto_positive(s, x, n - 1);
    }
}

impl Hand {
    /// Classify the hand: tally the suits and ranks in one pass, read
    /// flush, pair, three/four-of-a-kind and straight verdicts off the
    /// tallies, and resolve the best category by the fixed overwrite
    /// order. The hand itself is left untouched.
    pub fn analyze_hand(&self) -> (a: HandAnalysis)
        ensures
            a.has_flush == has_flush(self@),
            a.pairs == pair_count(self@),
            a.has_three_of_a_kind == has_three_of_a_kind(self@),
            a.has_four_of_a_kind == has_four_of_a_kind(self@),
            a.has_straight == has_straight(self@),
            a.best_hand == best_category(self@),
    {
        let ghost s = self.cards@;
        let n = self.cards.len();
        let mut suit_counts: Vec<usize> = vec![0usize; 4];
        let mut rank_counts: Vec<usize> = vec![0usize; 14];

        let mut idx: usize = 0;
        while idx < n
            invariant
                s == self.cards@,
                n == s.len(),
                idx <= n,
                suit_counts@.len() == 4,
                rank_counts@.len() == 14,
                forall|q: int| 0 <= q < 4 ==> suit_counts@[q] == count_suit(s.take(idx as int), q),
                forall|r: int|
                    1 <= r <= 13 ==> rank_counts@[r] == count_rank(s.take(idx as int), r),
            decreases n - idx,
        {
            let c = self.cards[idx];
            let qi = c.suit.suit_index();
            let ri = c.rank.rank_index();
            proof {
                lemma_count_suit_le_len(s.take(idx as int), suit_int(c.suit));
                lemma_count_rank_le_len(s.take(idx as int), rank_int(c.rank));
                assert(s.take(idx as int + 1).drop_last() =~= s.take(idx as int));
                assert(s.take(idx as int + 1).last() == c);
            }
            suit_counts[qi] = suit_counts[qi] + 1;
            rank_counts[ri] = rank_counts[ri] + 1;
            idx = idx + 1;
        }
        proof {
            assert(s.take(n as int) =~= s);
        }

        let mut found_flush = false;
        let mut q: usize = 0;
        while q < 4
            invariant
                suit_counts@.len() == 4,
                forall|x: int| 0 <= x < 4 ==> suit_counts@[x] == count_suit(s, x),
                q <= 4,
                found_flush == (exists|x: int| 0 <= x < q && #[trigger] count_suit(s, x) >= 5),
            decreases 4 - q,
        {
            if suit_counts[q] >= 5 {
                proof {
                    assert(count_suit(s, q as int) >= 5);
                }
                found_flush = true;
            } else {
                proof {
                    assert(count_suit(s, q as int) < 5);
                }
            }
            q = q + 1;
        }

        let mut pairs: usize = 0;
        let mut found_three = false;
        let mut found_four = false;
        let mut r: usize = 1;
        while r < 14
            invariant
                rank_counts@.len() == 14,
                forall|x: int| 1 <= x <= 13 ==> rank_counts@[x] == count_rank(s, x),
                1 <= r <= 14,
                pairs == pair_count_upto(s, r as int),
                pairs < r,
                found_three == (exists|x: int| 1 <= x < r && #[trigger] count_rank(s, x) == 3),
                found_four == (exists|x: int| 1 <= x < r && #[trigger] count_rank(s, x) == 4),
            decreases 14 - r,
        {
            let amount = rank_counts[r];
            proof {
                assert(count_rank(s, r as int) == amount);
            }
            if amount == 4 {
                found_four = true;
            } else if amount == 3 {
                found_three = true;
            }
            if amount >= 2 {
                pairs = pairs + 1;
            }
            r = r + 1;
        }

        let mut found_straight = false;
        let mut lo: usize = 1;
        while lo < 10
            invariant
                rank_counts@.len() == 14,
                forall|x: int| 1 <= x <= 13 ==> rank_counts@[x] == count_rank(s, x),
                1 <= lo <= 10,
                found_straight == exists|x: int|
                    1 <= x < lo && #[trigger] run_of_five_at(s, x),
            decreases 10 - lo,
        {
            if rank_counts[lo] >= 1 && rank_counts[lo + 1] >= 1 && rank_counts[lo + 2] >= 1
                && rank_counts[lo + 3] >= 1 && rank_counts[lo + 4] >= 1 {
                proof {
                    assert(run_of_five_at(s, lo as int));
                }
                found_straight = true;
            } else {
                proof {
                    assert(!run_of_five_at(s, lo as int));
                }
            }
            lo = lo + 1;
        }

        let mut best_hand = PokerHand::HighCard;
        if pairs == 1 {
            best_hand = PokerHand::OnePair;
        } else if pairs >= 2 {
            best_hand = PokerHand::TwoPair;
        }
        if found_three {
            best_hand = PokerHand::ThreeOfAKind;
        }
        if found_straight {
            best_hand = PokerHand::Straight;
        }
        if found_flush {
            best_hand = PokerHand::Flush;
        }
        if pairs > 1 && found_three || found_four {
            best_hand = PokerHand::FullHouse;
        }
        if found_four {
            best_hand = PokerHand::FourOfAKind;
        }

        HandAnalysis {
            has_flush: found_flush,
            pairs,
            has_three_of_a_kind: found_three,
            has_four_of_a_kind: found_four,
            has_straight: found_straight,
            best_hand,
        }
    }
}

/// A hand holding four cards of one rank is reported as four of a
/// kind: the four-of-a-kind verdict is set, the rank counts among the
/// pairs, and the best category resolves to `FourOfAKind` whatever
/// else the hand holds.
pub proof fn lemma_four_of_a_kind_wins(s: Seq<Card>, x: int)
    requires
        1 <= x <= 13,
        count_rank(s, x) == 4,
    ensures
        has_four_of_a_kind(s),
        pair_count(s) >= 1,
        best_category(s) == PokerHand::FourOfAKind,
{
    lemma_pair_count_upto_positive(s, x, 14);
}

/// A hand with five cards of one suit and no three- or
/// four-of-a-kind is reported as a flush: the flush verdict is set,
/// and since neither the four-of-a-kind check nor the full-house
/// condition can fire, no later check overwrites it.
pub proof fn lemma_flush_wins(s: Seq<Card>, q: int)
    requires
        0 <= q < 4,
        count_suit(s, q) >= 5,
        !has_three_of_a_kind(s),
        !has_four_of_a_kind(s),
    ensures
        has_flush(s),
        best_category(s) == PokerHand::Flush,
{
}

/// A hand in which the ranks 3 through 7 are all present contains a
/// straight, and the best category resolves to `Straight` unless a
/// flush, the full-house condition or a four of a kind overwrites it
/// later in the fixed order.
pub proof fn lemma_straight_detected(s: Seq<Card>)
    requires
        forall|k: int| 3 <= k <= 7 ==> count_rank(s, k) >= 1,
    ensures
        has_straight(s),
        (!has_flush(s) && !has_four_of_a_kind(s) && !(pair_count(s) > 1 && has_three_of_a_kind(s)))
            ==> best_category(s) == PokerHand::Straight,
{
    assert(run_of_five_at(s, 3)) by {
        assert(count_rank(s, 3) >= 1);
        assert(count_rank(s, 4) >= 1);
        assert(count_rank(s, 5) >= 1);
        assert(count_rank(s, 6) >= 1);
        assert(count_rank(s, 7) >= 1);
    }
}

} // verus!
