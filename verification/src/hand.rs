use vstd::prelude::*;
use crate::cards::{Card, rank_int};

verus! {

/// The cards stand in ascending order of their rank integer. Cards of
/// equal rank may stand in any order relative to one another.
pub open spec fn sorted_by_rank(s: Seq<Card>) -> bool {
    forall|i: int, j: int| 0 <= i <= j < s.len() ==> rank_int(s[i].rank) <= rank_int(s[j].rank)
}

/// The cards a player was dealt: starts empty and grows one card at a
/// time. The type itself puts no bound on its size.
pub struct Hand {
    pub cards: Vec<Card>,
}

impl View for Hand {
    type V = Seq<Card>;

    open spec fn view(&self) -> Seq<Card> {
        self.cards@
    }
}

impl Hand {
    /// An empty hand.
    pub fn new() -> (hand: Hand)
        ensures
            hand@ == Seq::<Card>::empty(),
    {
        Hand { cards: Vec::new() }
    }

    /// Append one card to the hand.
    pub fn add_card(&mut self, card: Card)
        ensures
            final(self)@ == old(self)@.push(card),
    {
        self.cards.push(card);
    }

    /// How many cards the hand holds.
    pub fn len(&self) -> (n: usize)
        ensures
            n == self@.len(),
    {
        self.cards.len()
    }

    /// Reorder the hand's cards ascending by rank integer, in place,
    /// by insertion sort. The multiset of cards is unchanged: no card
    /// is gained, lost or altered.
    pub fn sort_by_rank(&mut self)
        ensures
            sorted_by_rank(final(self)@),
            final(self)@.to_multiset() == old(self)@.to_multiset(),
            final(self)@.len() == old(self)@.len(),
    {
        broadcast use vstd::seq_lib::group_to_multiset_ensures;

        let n = self.cards.len();
        if n > 1 {
            let mut i: usize = 1;
            while i < n
                invariant
                    n == self.cards@.len(),
                    1 <= i <= n,
                    self.cards@.to_multiset() == old(self)@.to_multiset(),
                    sorted_by_rank(self.cards@.take(i as int)),
                decreases n - i,
            {
                let c = self.cards[i];
                let mut j: usize = i;
                while j > 0 && self.cards[j - 1].rank.as_i32() > c.rank.as_i32()
                    invariant
                        0 <= j <= i < n,
                        n == self.cards@.len(),
                        c == self.cards@[i as int],
                        sorted_by_rank(self.cards@.take(i as int)),
                        forall|k: int|
                            j <= k < i ==> rank_int(#[trigger] self.cards@[k].rank) > rank_int(
                                c.rank,
                            ),
                    decreases j,
                {
                    j = j - 1;
                }
                let ghost before = self.cards@;
                let moved = self.cards.remove(i);
                self.cards.insert(j, moved);
                proof {
                    broadcast use vstd::seq_lib::group_to_multiset_ensures;

                    before.remove_ensures(i as int);
                    before.remove(i as int).insert_ensures(j as int, moved);
                    assert(before.to_multiset().count(c) > 0) by {
                        assert(before[i as int] == c);
                        assert(before.contains(c));
                    }
                    assert(before.remove(i as int).to_multiset() == before.to_multiset().remove(
                        c,
                    ));
                    assert(self.cards@.to_multiset() == before.to_multiset().remove(c).insert(c));
                    assert(before.to_multiset().remove(c).insert(c) =~= before.to_multiset());
                    assert(sorted_by_rank(self.cards@.take(i + 1 as int))) by {
                        let s = self.cards@.take(i + 1 as int);
                        assert forall|a: int, b: int|
                            0 <= a <= b < s.len() implies rank_int(s[a].rank) <= rank_int(
                            s[b].rank,
                        ) by {
                            assert(forall|k: int| 0 <= k <= i ==> s[k] == self.cards@[k]);
                            assert(forall|k: int| 0 <= k < j ==> self.cards@[k] == before[k]);
                            assert(self.cards@[j as int] == c);
                            assert(forall|k: int| j < k <= i ==> self.cards@[k] == before[k - 1]);
                        }
                    }
                }
                i = i + 1;
            }
            proof {
                assert(self.cards@.take(n as int) =~= self.cards@);
            }
        }
        proof {
            vstd::seq_lib::to_multiset_len(old(self)@);
            vstd::seq_lib::to_multiset_len(self.cards@);
        }
    }
}

} // verus!
