use vstd::prelude::*;
use rand::seq::SliceRandom;
use crate::cards::{Card, Suit, Rank, suit_from_int, rank_from_int, suit_int, rank_int};

verus! {

/// The card that a fresh deck holds at position `i`: all thirteen
/// ranks of the first suit, then of the second, and so on.
pub open spec fn card_at(i: int) -> Card {
    Card { suit: suit_from_int(i / 13), rank: rank_from_int(i % 13 + 1) }
}

/// The fixed 52-card sequence of a freshly built deck.
pub open spec fn full_deck() -> Seq<Card> {
    Seq::new(52, |i: int| card_at(i))
}

/// An ordered pile of cards: created with all 52, it shrinks from the
/// back as cards are dealt and is never refilled.
pub struct Deck {
    cards: Vec<Card>,
}

impl View for Deck {
    type V = Seq<Card>;

    closed spec fn view(&self) -> Seq<Card> {
        self.cards@
    }
}

/// Relies on `rand::seq::SliceRandom::shuffle` (driven by
/// `rand::thread_rng`): it permutes the slice in place by
/// Fisher-Yates swaps, so the cards are rearranged and none is
/// added, dropped or changed.
#[verifier::external_body]
fn shuffle_cards(cards: &mut Vec<Card>)
    ensures
        final(cards)@.to_multiset() == old(cards)@.to_multiset(),
{
    let mut rng = rand::thread_rng();
    cards.shuffle(&mut rng);
}

impl Deck {
    /// Build the full deck in its fixed enumeration order: every
    /// (suit, rank) combination exactly once, 52 cards in all.
    pub fn new() -> (deck: Deck)
        ensures
            deck@ == full_deck(),
    {
        let suits = Suit::iter();
        let ranks = Rank::iter();
        let mut cards: Vec<Card> = Vec::new();
        for q in 0..4
            invariant
                suits@.len() == 4,
                forall|a: int| 0 <= a < 4 ==> suits@[a] == suit_from_int(a),
                ranks@.len() == 13,
                forall|b: int| 0 <= b < 13 ==> ranks@[b] == rank_from_int(b + 1),
                cards@.len() == 13 * (q as int),
                forall|k: int| 0 <= k < cards@.len() ==> cards@[k] == card_at(k),
        {
            for m in 0..13
                invariant
                    q < 4,
                    suits@.len() == 4,
                    forall|a: int| 0 <= a < 4 ==> suits@[a] == suit_from_int(a),
                    ranks@.len() == 13,
                    forall|b: int| 0 <= b < 13 ==> ranks@[b] == rank_from_int(b + 1),
                    cards@.len() == 13 * (q as int) + m,
                    forall|k: int| 0 <= k < cards@.len() ==> cards@[k] == card_at(k),
            {
                proof {
                    vstd::arithmetic::div_mod::lemma_fundamental_div_mod_converse(
                        13 * (q as int) + (m as int),
                        13,
                        q as int,
                        m as int,
                    );
                }
                cards.push(Card { suit: suits[q], rank: ranks[m] });
            }
        }
        proof {
            assert(cards@ =~= full_deck());
        }
        Deck { cards }
    }

    /// How many cards remain.
    pub fn len(&self) -> (n: usize)
        ensures
            n == self@.len(),
    {
        self.cards.len()
    }

    /// Rearrange the remaining cards uniformly at random, in place.
    /// No card is gained or lost: the multiset of cards is unchanged,
    /// and so is their number.
    pub fn shuffle(&mut self)
        ensures
            final(self)@.to_multiset() == old(self)@.to_multiset(),
            final(self)@.len() == old(self)@.len(),
    {
        shuffle_cards(&mut self.cards);
        proof {
            vstd::seq_lib::to_multiset_len(old(self)@);
            vstd::seq_lib::to_multiset_len(self@);
        }
    }

    /// Remove and return the top card (the back of the sequence).
    /// On an empty deck this signals exhaustion with `None` and
    /// changes nothing; otherwise the deck shrinks by exactly one.
    pub fn deal(&mut self) -> (card: Option<Card>)
        ensures
            old(self)@.len() > 0 ==> {
                &&& card == Some(old(self)@.last())
                &&& final(self)@ == old(self)@.drop_last()
                &&& final(self)@.len() == old(self)@.len() - 1
            },
            old(self)@.len() == 0 ==> {
                &&& card is None
                &&& final(self)@ == old(self)@
            },
    {
        self.cards.pop()
    }
}

/// A freshly built deck is complete: it holds 52 cards, no two
/// positions hold the same card, and every (suit, rank) combination
/// appears at some position.
pub proof fn lemma_full_deck_complete()
    ensures
        full_deck().len() == 52,
        forall|i: int, j: int| 0 <= i < j < 52 ==> full_deck()[i] != full_deck()[j],
        forall|s: Suit, r: Rank| 0 <= #[trigger] deck_index(s, r) < 52,
        forall|s: Suit, r: Rank|
            full_deck()[#[trigger] deck_index(s, r)] == (Card { suit: s, rank: r }),
{
    assert forall|i: int, j: int| 0 <= i < j < 52 implies full_deck()[i] != full_deck()[j] by {
        vstd::arithmetic::div_mod::lemma_fundamental_div_mod(i, 13);
        vstd::arithmetic::div_mod::lemma_fundamental_div_mod(j, 13);
    }
    assert forall|s: Suit, r: Rank|
        0 <= deck_index(s, r) < 52 && full_deck()[#[trigger] deck_index(s, r)] == (Card {
            suit: s,
            rank: r,
        }) by {
        vstd::arithmetic::div_mod::lemma_fundamental_div_mod_converse(
            deck_index(s, r),
            13,
            suit_int(s),
            rank_int(r) - 1,
        );
    }
}

/// The position at which a fresh deck holds the card (s, r).
pub open spec fn deck_index(s: Suit, r: Rank) -> int {
    13 * suit_int(s) + rank_int(r) - 1
}

} // verus!
