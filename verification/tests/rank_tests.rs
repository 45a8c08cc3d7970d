use poker_hands::cards::{InvalidRankValue, Rank, Suit};

#[test]
fn rank_to_int_gives_canonical_values() {
    let ranks = Rank::iter();
    assert_eq!(ranks.len(), 13);
    for (i, r) in ranks.iter().enumerate() {
        assert_eq!(r.as_i32(), i as i32 + 1);
    }
    assert_eq!(Rank::Ace.as_i32(), 1);
    assert_eq!(Rank::Ten.as_i32(), 10);
    assert_eq!(Rank::King.as_i32(), 13);
}

#[test]
fn rank_conversion_round_trips_in_range() {
    for n in 1..=13 {
        let rank = Rank::from_i32(n).unwrap();
        assert_eq!(rank.as_i32(), n);
    }
    for r in Rank::iter() {
        assert_eq!(Rank::from_i32(r.as_i32()), Ok(r));
    }
}

#[test]
fn rank_from_int_rejects_out_of_range() {
    assert_eq!(Rank::from_i32(0), Err(InvalidRankValue { value: 0 }));
    assert_eq!(Rank::from_i32(14), Err(InvalidRankValue { value: 14 }));
    assert_eq!(Rank::from_i32(-7), Err(InvalidRankValue { value: -7 }));
    assert_eq!(Rank::from_i32(i32::MAX), Err(InvalidRankValue { value: i32::MAX }));
}

#[test]
fn suit_iter_gives_four_distinct_suits() {
    let suits = Suit::iter();
    assert_eq!(suits.len(), 4);
    for i in 0..suits.len() {
        for j in 0..i {
            assert_ne!(suits[i], suits[j]);
        }
    }
    assert_eq!(suits[0], Suit::Hearts);
    assert_eq!(suits[3], Suit::Spades);
}
