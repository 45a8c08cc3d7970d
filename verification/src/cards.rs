use vstd::prelude::*;

verus! {

/// One of the four suits of a standard deck. Suits carry no ordering
/// semantics beyond equality.
#[derive(Clone, Copy, Debug, PartialEq, Eq, Structural)]
pub enum Suit {
    Hearts,
    Diamonds,
    Clubs,
    Spades,
}

/// One of the thirteen ranks, totally ordered by the integer mapping
/// below (Ace lowest at 1, King highest at 13).
#[derive(Clone, Copy, Debug, PartialEq, Eq, Structural)]
pub enum Rank {
    Ace,
    Two,
    Three,
    Four,
    Five,
    Six,
    Seven,
    Eight,
    Nine,
    Ten,
    Jack,
    Queen,
    King,
}

/// A single playing card: an immutable (suit, rank) pair with no
/// identity beyond its fields.
#[derive(Clone, Copy, Debug, PartialEq, Eq, Structural)]
pub struct Card {
    pub suit: Suit,
    pub rank: Rank,
}

/// The error reported when an integer outside [1, 13] is offered as a
/// rank; it carries the offending value.
#[derive(Clone, Copy, Debug, PartialEq, Eq, Structural)]
pub struct InvalidRankValue {
    pub value: i32,
}

/// The canonical index of a suit, in [0, 3].
pub open spec fn suit_int(s: Suit) -> int {
    match s {
        Suit::Hearts => 0,
        Suit::Diamonds => 1,
        Suit::Clubs => 2,
        Suit::Spades => 3,
    }
}

/// The inverse of `suit_int` on [0, 3].
pub open spec fn suit_from_int(q: int) -> Suit {
    if q == 0 {
        Suit::Hearts
    } else if q == 1 {
        Suit::Diamonds
    } else if q == 2 {
        Suit::Clubs
    } else {
        Suit::Spades
    }
}

/// The canonical integer of a rank, in [1, 13]; 1 is the lowest rank.
pub open spec fn rank_int(r: Rank) -> int {
    match r {
        Rank::Ace => 1,
        Rank::Two => 2,
        Rank::Three => 3,
        Rank::Four => 4,
        Rank::Five => 5,
        Rank::Six => 6,
        Rank::Seven => 7,
        Rank::Eight => 8,
        Rank::Nine => 9,
        Rank::Ten => 10,
        Rank::Jack => 11,
        Rank::Queen => 12,
        Rank::King => 13,
    }
}

/// The inverse of `rank_int` on [1, 13].
pub open spec fn rank_from_int(n: int) -> Rank {
    if n == 1 {
        Rank::Ace
    } else if n == 2 {
        Rank::Two
    } else if n == 3 {
        Rank::Three
    } else if n == 4 {
        Rank::Four
    } else if n == 5 {
        Rank::Five
    } else if n == 6 {
        Rank::Six
    } else if n == 7 {
        Rank::Seven
    } else if n == 8 {
        Rank::Eight
    } else if n == 9 {
        Rank::Nine
    } else if n == 10 {
        Rank::Ten
    } else if n == 11 {
        Rank::Jack
    } else if n == 12 {
        Rank::Queen
    } else {
        Rank::King
    }
}

impl Suit {
    /// All four suits, in the deck's fixed enumeration order.
    pub fn iter() -> (v: Vec<Suit>)
        ensures
            v@.len() == 4,
            forall|q: int| 0 <= q < 4 ==> v@[q] == suit_from_int(q),
    {
        let mut v: Vec<Suit> = Vec::new();
        v.push(Suit::Hearts);
        v.push(Suit::Diamonds);
        v.push(Suit::Clubs);
        v.push(Suit::Spades);
        v
    }

    /// The canonical index of this suit, in [0, 3].
    pub fn suit_index(self) -> (q: usize)
        ensures
            q == suit_int(self),
    {
        match self {
            Suit::Hearts => 0,
            Suit::Diamonds => 1,
            Suit::Clubs => 2,
            Suit::Spades => 3,
        }
    }
}

impl Rank {
    /// All thirteen ranks, lowest first.
    pub fn iter() -> (v: Vec<Rank>)
        ensures
            v@.len() == 13,
            forall|n: int| 0 <= n < 13 ==> v@[n] == rank_from_int(n + 1),
    {
        let mut v: Vec<Rank> = Vec::new();
        v.push(Rank::Ace);
        v.push(Rank::Two);
        v.push(Rank::Three);
        v.push(Rank::Four);
        v.push(Rank::Five);
        v.push(Rank::Six);
        v.push(Rank::Seven);
        v.push(Rank::Eight);
        v.push(Rank::Nine);
        v.push(Rank::Ten);
        v.push(Rank::Jack);
        v.push(Rank::Queen);
        v.push(Rank::King);
        v
    }

    /// The canonical integer of this rank, in [1, 13].
    pub fn as_i32(self) -> (n: i32)
        ensures
            n == rank_int(self),
    {
        match self {
            Rank::Ace => 1,
            Rank::Two => 2,
            Rank::Three => 3,
            Rank::Four => 4,
            Rank::Five => 5,
            Rank::Six => 6,
            Rank::Seven => 7,
            Rank::Eight => 8,
            Rank::Nine => 9,
            Rank::Ten => 10,
            Rank::Jack => 11,
            Rank::Queen => 12,
            Rank::King => 13,
        }
    }

    /// The canonical index of this rank, in [1, 13], as a `usize`.
    pub fn rank_index(self) -> (n: usize)
        ensures
            n == rank_int(self),
    {
        match self {
            Rank::Ace => 1,
            Rank::Two => 2,
            Rank::Three => 3,
            Rank::Four => 4,
            Rank::Five => 5,
            Rank::Six => 6,
            Rank::Seven => 7,
            Rank::Eight => 8,
            Rank::Nine => 9,
            Rank::Ten => 10,
            Rank::Jack => 11,
            Rank::Queen => 12,
            Rank::King => 13,
        }
    }

    /// The rank whose canonical integer is `value`. Integers outside
    /// [1, 13] are rejected with `InvalidRankValue`, never coerced.
    pub fn from_i32(value: i32) -> (r: Result<Rank, InvalidRankValue>)
        ensures
            1 <= value <= 13 ==> r == Ok::<Rank, InvalidRankValue>(rank_from_int(value as int)),
            !(1 <= value <= 13) ==> r == Err::<Rank, InvalidRankValue>(InvalidRankValue { value }),
    {
        match value {
            1 => Ok(Rank::Ace),
            2 => Ok(Rank::Two),
            3 => Ok(Rank::Three),
            4 => Ok(Rank::Four),
            5 => Ok(Rank::Five),
            6 => Ok(Rank::Six),
            7 => Ok(Rank::Seven),
            8 => Ok(Rank::Eight),
            9 => Ok(Rank::Nine),
            10 => Ok(Rank::Ten),
            11 => Ok(Rank::Jack),
            12 => Ok(Rank::Queen),
            13 => Ok(Rank::King),
            _ => Err(InvalidRankValue { value }),
        }
    }
}

/// The rank-integer mapping is a bijection between the thirteen ranks
/// and [1, 13]: converting a rank to its integer and back, or an
/// in-range integer to a rank and back, returns the starting point.
pub proof fn lemma_rank_int_bijective()
    ensures
        forall|n: int| 1 <= n <= 13 ==> rank_int(#[trigger] rank_from_int(n)) == n,
        forall|r: Rank| rank_from_int(#[trigger] rank_int(r)) == r,
        forall|r: Rank| 1 <= #[trigger] rank_int(r) <= 13,
{
}

} // verus!
