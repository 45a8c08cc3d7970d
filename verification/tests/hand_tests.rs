use poker_hands::cards::{Card, Rank, Suit};
use poker_hands::deck::Deck;
use poker_hands::eval::PokerHand;
use poker_hands::hand::Hand;

fn hand_of(cards: &[(Suit, Rank)]) -> Hand {
    let mut hand = Hand::new();
    for &(suit, rank) in cards {
        hand.add_card(Card { suit, rank });
    }
    hand
}

#[test]
fn add_card_appends() {
    let mut hand = Hand::new();
    assert_eq!(hand.len(), 0);
    hand.add_card(Card { suit: Suit::Hearts, rank: Rank::Ace });
    hand.add_card(Card { suit: Suit::Clubs, rank: Rank::King });
    assert_eq!(hand.len(), 2);
    assert_eq!(hand.cards[0], Card { suit: Suit::Hearts, rank: Rank::Ace });
    assert_eq!(hand.cards[1], Card { suit: Suit::Clubs, rank: Rank::King });
}

#[test]
fn sort_by_rank_orders_ascending_and_keeps_cards() {
    let mut hand = hand_of(&[
        (Suit::Spades, Rank::King),
        (Suit::Hearts, Rank::Two),
        (Suit::Diamonds, Rank::Nine),
        (Suit::Clubs, Rank::Two),
        (Suit::Hearts, Rank::Five),
    ]);
    let before = hand.cards.clone();
    hand.sort_by_rank();
    assert_eq!(hand.len(), 5);
    for i in 1..hand.cards.len() {
        assert!(hand.cards[i - 1].rank.as_i32() <= hand.cards[i].rank.as_i32());
    }
    // Same cards, just reordered.
    for card in &before {
        let n_before = before.iter().filter(|c| **c == *card).count();
        let n_after = hand.cards.iter().filter(|c| **c == *card).count();
        assert_eq!(n_before, n_after);
    }
}

#[test]
fn four_of_a_kind_is_reported_and_wins() {
    let mut hand = hand_of(&[
        (Suit::Hearts, Rank::Nine),
        (Suit::Diamonds, Rank::Nine),
        (Suit::Clubs, Rank::Nine),
        (Suit::Spades, Rank::Nine),
        (Suit::Hearts, Rank::Two),
    ]);
    hand.sort_by_rank();
    let analysis = hand.analyze_hand();
    assert!(analysis.has_four_of_a_kind);
    assert!(analysis.pairs >= 1);
    assert_eq!(analysis.best_hand, PokerHand::FourOfAKind);
}

#[test]
fn flush_is_reported_and_wins_without_stronger_groups() {
    let mut hand = hand_of(&[
        (Suit::Hearts, Rank::Two),
        (Suit::Hearts, Rank::Four),
        (Suit::Hearts, Rank::Six),
        (Suit::Hearts, Rank::Eight),
        (Suit::Hearts, Rank::Ten),
    ]);
    hand.sort_by_rank();
    let analysis = hand.analyze_hand();
    assert!(analysis.has_flush);
    assert!(!analysis.has_three_of_a_kind);
    assert!(!analysis.has_four_of_a_kind);
    assert!(!analysis.has_straight);
    assert_eq!(analysis.pairs, 0);
    assert_eq!(analysis.best_hand, PokerHand::Flush);
}

#[test]
fn straight_is_reported_across_suits() {
    // Ranks 3 through 7 are all present among ten cards; no suit
    // reaches five cards and no rank reaches three.
    let mut hand = hand_of(&[
        (Suit::Hearts, Rank::Three),
        (Suit::Diamonds, Rank::Four),
        (Suit::Clubs, Rank::Five),
        (Suit::Spades, Rank::Six),
        (Suit::Hearts, Rank::Seven),
        (Suit::Diamonds, Rank::Nine),
        (Suit::Clubs, Rank::Jack),
        (Suit::Spades, Rank::King),
        (Suit::Diamonds, Rank::Ace),
        (Suit::Clubs, Rank::Queen),
    ]);
    hand.sort_by_rank();
    let analysis = hand.analyze_hand();
    assert!(analysis.has_straight);
    assert!(!analysis.has_flush);
    assert!(!analysis.has_four_of_a_kind);
    assert_eq!(analysis.pairs, 0);
    assert_eq!(analysis.best_hand, PokerHand::Straight);
}

#[test]
fn one_pair_two_pair_and_three_of_a_kind() {
    let one_pair = hand_of(&[
        (Suit::Hearts, Rank::Two),
        (Suit::Diamonds, Rank::Two),
        (Suit::Clubs, Rank::Five),
        (Suit::Spades, Rank::Nine),
        (Suit::Hearts, Rank::King),
    ]);
    let a = one_pair.analyze_hand();
    assert_eq!(a.pairs, 1);
    assert_eq!(a.best_hand, PokerHand::OnePair);

    let two_pair = hand_of(&[
        (Suit::Hearts, Rank::Two),
        (Suit::Diamonds, Rank::Two),
        (Suit::Clubs, Rank::Five),
        (Suit::Spades, Rank::Five),
        (Suit::Hearts, Rank::King),
    ]);
    let a = two_pair.analyze_hand();
    assert_eq!(a.pairs, 2);
    assert_eq!(a.best_hand, PokerHand::TwoPair);

    let three = hand_of(&[
        (Suit::Hearts, Rank::Two),
        (Suit::Diamonds, Rank::Two),
        (Suit::Clubs, Rank::Two),
        (Suit::Spades, Rank::Five),
        (Suit::Hearts, Rank::King),
    ]);
    let a = three.analyze_hand();
    assert!(a.has_three_of_a_kind);
    assert_eq!(a.pairs, 1);
    assert_eq!(a.best_hand, PokerHand::ThreeOfAKind);
}

#[test]
fn three_of_a_kind_with_a_pair_is_a_full_house() {
    let hand = hand_of(&[
        (Suit::Hearts, Rank::Two),
        (Suit::Diamonds, Rank::Two),
        (Suit::Clubs, Rank::Two),
        (Suit::Spades, Rank::Five),
        (Suit::Hearts, Rank::Five),
    ]);
    let analysis = hand.analyze_hand();
    assert!(analysis.has_three_of_a_kind);
    assert_eq!(analysis.pairs, 2);
    assert_eq!(analysis.best_hand, PokerHand::FullHouse);
}

#[test]
fn high_card_when_nothing_matches() {
    let hand = hand_of(&[
        (Suit::Hearts, Rank::Two),
        (Suit::Diamonds, Rank::Five),
        (Suit::Clubs, Rank::Seven),
        (Suit::Spades, Rank::Ten),
        (Suit::Hearts, Rank::King),
    ]);
    let analysis = hand.analyze_hand();
    assert!(!analysis.has_flush);
    assert!(!analysis.has_straight);
    assert!(!analysis.has_three_of_a_kind);
    assert!(!analysis.has_four_of_a_kind);
    assert_eq!(analysis.pairs, 0);
    assert_eq!(analysis.best_hand, PokerHand::HighCard);
}

#[test]
fn empty_hand_is_high_card() {
    let hand = Hand::new();
    let analysis = hand.analyze_hand();
    assert_eq!(analysis.pairs, 0);
    assert_eq!(analysis.best_hand, PokerHand::HighCard);
}

#[test]
fn tallies_of_the_example_hand_resolve_to_four_of_a_kind() {
    // 2H 2D 2C 5S 5H 9D 9C 9S 9H KS, already ascending by rank.
    let mut hand = hand_of(&[
        (Suit::Hearts, Rank::Two),
        (Suit::Diamonds, Rank::Two),
        (Suit::Clubs, Rank::Two),
        (Suit::Spades, Rank::Five),
        (Suit::Hearts, Rank::Five),
        (Suit::Diamonds, Rank::Nine),
        (Suit::Clubs, Rank::Nine),
        (Suit::Spades, Rank::Nine),
        (Suit::Hearts, Rank::Nine),
        (Suit::Spades, Rank::King),
    ]);
    hand.sort_by_rank();
    let analysis = hand.analyze_hand();
    // Tallies: {2: 3, 5: 2, 9: 4, King: 1}.
    assert_eq!(analysis.pairs, 3);
    assert!(analysis.has_three_of_a_kind);
    assert!(analysis.has_four_of_a_kind);
    // The full-house condition holds, but four of a kind is checked
    // last and wins.
    assert_eq!(analysis.best_hand, PokerHand::FourOfAKind);
}

#[test]
fn dealing_ten_cards_leaves_42_and_classifies() {
    let mut deck = Deck::new();
    let mut hand = Hand::new();
    deck.shuffle();
    for _ in 0..10 {
        match deck.deal() {
            Some(card) => hand.add_card(card),
            None => panic!("the deck ran out while dealing"),
        }
    }
    assert_eq!(deck.len(), 42);
    assert_eq!(hand.len(), 10);
    hand.sort_by_rank();
    let analysis = hand.analyze_hand();
    // Whatever was dealt, the evaluator resolves to one category; a
    // ten-card hand always holds at least one pair or better or a
    // plain high card.
    let _ = analysis.best_hand;
    assert!(analysis.pairs <= 10);
}
