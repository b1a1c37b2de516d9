use std::cmp::Ordering;
use std::collections::HashSet;

use tarock::cards::{
    deal_four_player_standard, exchange, Card, CardRank, CardSuit, Deck, Hand, Pile, RandomSource,
    Tarock, Trick,
};
use tarock::contracts::WinnerStrategy;

const CARD_TAROCK_PAGAT: Card = Card::TarockCard(Tarock::Tarock1);
const CARD_TAROCK_2: Card = Card::TarockCard(Tarock::Tarock2);
const CARD_TAROCK_MOND: Card = Card::TarockCard(Tarock::Tarock21);
const CARD_TAROCK_SKIS: Card = Card::TarockCard(Tarock::TarockSkis);
const CARD_HEARTS_SEVEN: Card = Card::SuitCard(CardRank::Seven, CardSuit::Hearts);
const CARD_HEARTS_QUEEN: Card = Card::SuitCard(CardRank::Queen, CardSuit::Hearts);
const CARD_HEARTS_KING: Card = Card::SuitCard(CardRank::King, CardSuit::Hearts);
const CARD_SPADES_KING: Card = Card::SuitCard(CardRank::King, CardSuit::Spades);
const CARD_CLUBS_SEVEN: Card = Card::SuitCard(CardRank::Seven, CardSuit::Clubs);
const CARD_CLUBS_EIGHT: Card = Card::SuitCard(CardRank::Eight, CardSuit::Clubs);
const CARD_CLUBS_JACK: Card = Card::SuitCard(CardRank::Jack, CardSuit::Clubs);

/// A small generator of numbers, good enough to shuffle with.
struct Lcg {
    state: u64,
}

impl Lcg {
    fn new(seed: u64) -> Lcg {
        Lcg { state: seed }
    }
}

impl RandomSource for Lcg {
    fn next_u64(&mut self) -> u64 {
        self.state = self
            .state
            .wrapping_mul(6364136223846793005)
            .wrapping_add(1442695040888963407);
        self.state >> 33
    }
}

fn pile_of(cards: &[Card]) -> Pile {
    let mut pile = Pile::new();
    for card in cards.iter() {
        pile.add_card(*card);
    }
    pile
}

fn card_set(cards: &[Card]) -> HashSet<Card> {
    cards.iter().copied().collect()
}

#[test]
fn tarock_cards_are_ordered() {
    assert_eq!(CARD_TAROCK_PAGAT.partial_cmp(&CARD_TAROCK_2), Some(Ordering::Less));
    assert_eq!(CARD_TAROCK_2.partial_cmp(&CARD_TAROCK_PAGAT), Some(Ordering::Greater));
}

#[test]
fn suit_cards_are_ordered() {
    assert_eq!(CARD_HEARTS_QUEEN.partial_cmp(&CARD_HEARTS_KING), Some(Ordering::Less));
    assert_eq!(CARD_HEARTS_KING.partial_cmp(&CARD_HEARTS_QUEEN), Some(Ordering::Greater));
}

#[test]
fn tarocks_are_greater_than_suit_cards() {
    assert_eq!(CARD_HEARTS_KING.partial_cmp(&CARD_TAROCK_PAGAT), Some(Ordering::Less));
    assert_eq!(CARD_TAROCK_PAGAT.partial_cmp(&CARD_HEARTS_KING), Some(Ordering::Greater));
}

#[test]
fn first_card_of_different_suits_is_always_greater() {
    assert_eq!(CARD_HEARTS_SEVEN.partial_cmp(&CARD_SPADES_KING), Some(Ordering::Greater));
    assert_eq!(CARD_SPADES_KING.partial_cmp(&CARD_HEARTS_SEVEN), Some(Ordering::Greater));
}

#[test]
fn a_card_equals_itself() {
    assert_eq!(CARD_HEARTS_KING.partial_cmp(&CARD_HEARTS_KING), Some(Ordering::Equal));
    assert_eq!(CARD_TAROCK_SKIS.partial_cmp(&CARD_TAROCK_SKIS), Some(Ordering::Equal));
    assert!(CARD_TAROCK_SKIS > CARD_TAROCK_MOND);
    assert!(CARD_TAROCK_MOND.outranks(&CARD_TAROCK_PAGAT));
    assert!(!CARD_TAROCK_PAGAT.outranks(&CARD_TAROCK_PAGAT));
}

#[test]
fn new_card_deck_is_of_correct_size() {
    let deck = Deck::new();
    assert_eq!(deck.size(), 54);
}

#[test]
fn new_card_deck_is_in_order() {
    let deck = Deck::new();
    assert_eq!(deck.cards()[0], CARD_CLUBS_SEVEN);
    assert_eq!(deck.cards()[1], CARD_CLUBS_EIGHT);
    assert_eq!(deck.cards()[4], CARD_CLUBS_JACK);
    assert_eq!(deck.cards()[15], CARD_SPADES_KING);
    assert_eq!(deck.cards()[23], CARD_HEARTS_KING);
    assert_eq!(deck.cards()[32], CARD_TAROCK_PAGAT);
    assert_eq!(deck.cards()[52], CARD_TAROCK_MOND);
    assert_eq!(deck.cards()[53], CARD_TAROCK_SKIS);
    for (i, card) in deck.cards().iter().enumerate() {
        assert_eq!(card.index(), i);
        assert_eq!(Card::from_index(i), *card);
    }
}

/// A source that gives one number over and over.
struct Constant {
    number: u64,
}

impl RandomSource for Constant {
    fn next_u64(&mut self) -> u64 {
        self.number
    }
}

#[test]
fn shuffling_with_zeros_brings_the_top_card_to_the_bottom() {
    let deck = Deck::new();
    let mut expected: Vec<Card> = deck.cards()[1..].to_vec();
    expected.push(deck.cards()[0]);
    let shuffled = deck.shuffle(&mut Constant { number: 0 });
    assert_eq!(shuffled.cards().to_vec(), expected);
}

#[test]
fn cards_change_places_as_the_number_picks() {
    let mut cards = vec![CARD_CLUBS_SEVEN, CARD_CLUBS_EIGHT, CARD_CLUBS_JACK, CARD_TAROCK_2];
    // 6 picks position 0 among the positions 0 to 2.
    exchange(&mut cards, 2, 6);
    assert_eq!(cards, vec![CARD_CLUBS_JACK, CARD_CLUBS_EIGHT, CARD_CLUBS_SEVEN, CARD_TAROCK_2]);
    // 7 picks position 3 among the positions 0 to 3: the card stays.
    exchange(&mut cards, 3, 7);
    assert_eq!(cards, vec![CARD_CLUBS_JACK, CARD_CLUBS_EIGHT, CARD_CLUBS_SEVEN, CARD_TAROCK_2]);
    exchange(&mut cards, 1, u64::MAX);
    assert_eq!(cards, vec![CARD_CLUBS_JACK, CARD_CLUBS_EIGHT, CARD_CLUBS_SEVEN, CARD_TAROCK_2]);
    exchange(&mut cards, 1, 2);
    assert_eq!(cards, vec![CARD_CLUBS_EIGHT, CARD_CLUBS_JACK, CARD_CLUBS_SEVEN, CARD_TAROCK_2]);
}

#[test]
fn shuffling_changes_the_order() {
    let mut rng = Lcg::new(11);
    let shuffled = Deck::new().shuffle(&mut rng);
    assert_ne!(shuffled.cards().to_vec(), Deck::new().cards().to_vec());
}

#[test]
fn there_are_22_tarocks_in_a_deck() {
    let deck = Deck::new();
    assert_eq!(deck.cards().iter().filter(|c| c.is_tarock()).count(), 22);
}

#[test]
fn there_are_19_valuable_cards_in_a_deck() {
    let num_valuable = Deck::new().cards().iter().filter(|c| c.is_valuable()).count();
    assert_eq!(num_valuable, 19);
}

#[test]
fn there_are_35_empty_cards_in_a_deck() {
    let num_empty = Deck::new().cards().iter().filter(|c| c.is_empty()).count();
    assert_eq!(num_empty, 35);
}

#[test]
fn card_values_are_as_named() {
    assert_eq!(CARD_HEARTS_KING.value(), 5);
    assert_eq!(CARD_HEARTS_QUEEN.value(), 4);
    assert_eq!(Card::SuitCard(CardRank::Knight, CardSuit::Clubs).value(), 3);
    assert_eq!(CARD_CLUBS_JACK.value(), 2);
    assert_eq!(Card::SuitCard(CardRank::Ten, CardSuit::Clubs).value(), 0);
    assert_eq!(CARD_TAROCK_PAGAT.value(), 5);
    assert_eq!(CARD_TAROCK_MOND.value(), 5);
    assert_eq!(CARD_TAROCK_SKIS.value(), 5);
    assert_eq!(CARD_TAROCK_2.value(), 0);
    assert_eq!(CARD_HEARTS_KING.suit(), Some(CardSuit::Hearts));
    assert_eq!(CARD_TAROCK_2.suit(), None);
    assert!(CARD_TAROCK_PAGAT.is_pagat());
    assert!(CARD_TAROCK_MOND.is_mond());
    assert!(CARD_TAROCK_SKIS.is_skis());
    assert!(!CARD_TAROCK_2.is_pagat() && !CARD_TAROCK_2.is_mond() && !CARD_TAROCK_2.is_skis());
}

#[test]
fn there_are_four_player_hands_with_four_player_standard_deal_strategy() {
    let mut rng = Lcg::new(1);
    let dealt_cards = Deck::new().shuffle(&mut rng).deal(deal_four_player_standard);
    assert_eq!(dealt_cards.hands.len(), 4);
}

#[test]
fn each_player_gets_twelve_cards_with_four_player_standard_deal_strategy() {
    let mut rng = Lcg::new(2);
    let dealt_cards = Deck::new().shuffle(&mut rng).deal(deal_four_player_standard);
    assert_eq!(dealt_cards.hands[0].size(), 12);
    assert_eq!(dealt_cards.hands[1].size(), 12);
    assert_eq!(dealt_cards.hands[2].size(), 12);
    assert_eq!(dealt_cards.hands[3].size(), 12);
}

#[test]
fn standard_deal_gives_packets_of_six_in_turn() {
    let deck = Deck::new();
    let dealt_cards = deal_four_player_standard(deck.cards());
    assert_eq!(dealt_cards.talon.cards().to_vec(), deck.cards()[0..6].to_vec());
    for player in 0usize..4 {
        let mut expected: Vec<Card> = Vec::new();
        expected.extend_from_slice(&deck.cards()[6 * player + 6..6 * player + 12]);
        expected.extend_from_slice(&deck.cards()[6 * player + 30..6 * player + 36]);
        assert_eq!(card_set(dealt_cards.hands[player].as_slice()), card_set(&expected));
    }
}

#[test]
fn standard_deal_of_a_few_cards() {
    let deck = Deck::new();
    let dealt_cards = deal_four_player_standard(&deck.cards()[0..4]);
    assert_eq!(dealt_cards.talon.size(), 4);
    assert_eq!(dealt_cards.hands.len(), 4);
    assert!(dealt_cards.hands.iter().all(|hand| hand.is_empty()));
    let dealt_cards = deal_four_player_standard(&deck.cards()[0..14]);
    assert_eq!(dealt_cards.talon.size(), 6);
    assert_eq!(dealt_cards.hands[0].size(), 6);
    assert_eq!(dealt_cards.hands[1].size(), 2);
    assert_eq!(dealt_cards.hands[2].size(), 0);
}

#[test]
fn total_score_of_a_deck_is_70() {
    let deck = Deck::new();
    let mut pile = Pile::new();
    for card in deck.cards().iter() {
        pile.add_card(*card);
    }
    assert_eq!(pile.score(), 70);
}

#[test]
fn two_piles_of_a_deck_score_70_unless_a_short_pair_loses_a_point() {
    let deck = Deck::new();
    let cards = deck.cards();
    // Whole groups on both piles.
    assert_eq!(pile_of(&cards[..27]).score() + pile_of(&cards[27..]).score(), 70);
    // One card left over on the first pile, mond and skis on the second.
    assert_eq!(pile_of(&cards[..1]).score(), 0);
    assert_eq!(pile_of(&cards[1..]).score(), 70);
    // The seven and the eight of clubs left over on the first pile.
    assert_eq!(pile_of(&cards[..2]).score(), 0);
    assert_eq!(pile_of(&cards[2..]).score(), 69);
}

#[test]
fn groups_of_a_pile_are_scored_as_told() {
    // Full groups.
    assert_eq!(pile_of(&[CARD_CLUBS_SEVEN, CARD_CLUBS_EIGHT, CARD_TAROCK_2]).score(), 1);
    assert_eq!(pile_of(&[CARD_HEARTS_KING, CARD_CLUBS_EIGHT, CARD_TAROCK_2]).score(), 5);
    assert_eq!(pile_of(&[CARD_HEARTS_KING, CARD_HEARTS_QUEEN, CARD_TAROCK_2]).score(), 8);
    assert_eq!(pile_of(&[CARD_HEARTS_KING, CARD_HEARTS_QUEEN, CARD_CLUBS_JACK]).score(), 9);
    // Short groups.
    assert_eq!(pile_of(&[]).score(), 0);
    assert_eq!(pile_of(&[CARD_CLUBS_SEVEN]).score(), 0);
    assert_eq!(pile_of(&[CARD_HEARTS_KING]).score(), 4);
    assert_eq!(pile_of(&[CARD_CLUBS_SEVEN, CARD_CLUBS_EIGHT]).score(), 0);
    assert_eq!(pile_of(&[CARD_HEARTS_KING, CARD_CLUBS_EIGHT]).score(), 4);
    assert_eq!(pile_of(&[CARD_HEARTS_KING, CARD_HEARTS_QUEEN]).score(), 8);
    // A full group and a short one.
    assert_eq!(
        pile_of(&[CARD_HEARTS_KING, CARD_CLUBS_EIGHT, CARD_TAROCK_2, CARD_CLUBS_JACK]).score(),
        6
    );
}

#[test]
fn piles_grow_by_cards_tricks_and_piles() {
    let mut pile = Pile::new();
    assert!(pile.is_empty());
    pile.add_card(CARD_HEARTS_KING);
    let mut trick = Trick::new(CARD_TAROCK_2);
    trick.add_card(CARD_TAROCK_MOND);
    pile.add_trick(trick);
    let mut other = Pile::new();
    other.add_card(CARD_CLUBS_SEVEN);
    pile.add_pile(&other);
    assert_eq!(pile.size(), 4);
    assert!(!pile.is_empty());
    // King, tarock 2 and mond are one group, the seven of clubs is left over.
    assert_eq!(pile.score(), 9);
}

#[test]
fn can_add_card_to_trick() {
    let mut trick = Trick::empty();
    assert_eq!(trick.count(), 0);
    trick.add_card(Card::TarockCard(Tarock::Tarock1));
    assert_eq!(trick.count(), 1);
    trick.add_card(Card::TarockCard(Tarock::Tarock2));
    assert_eq!(trick.count(), 2);
}

#[test]
fn can_clear_trick_cards() {
    let mut trick = Trick::empty();
    trick.add_card(Card::TarockCard(Tarock::Tarock1));
    trick.add_card(Card::TarockCard(Tarock::Tarock2));
    assert_eq!(trick.count(), 2);
    trick.clear();
    assert_eq!(trick.count(), 0);
}

#[test]
fn trick_knows_its_first_card_and_its_winner() {
    let mut trick = Trick::empty();
    assert!(trick.is_empty());
    assert_eq!(trick.first(), None);
    trick.add_card(CARD_HEARTS_QUEEN);
    trick.add_card(CARD_HEARTS_KING);
    trick.add_card(CARD_SPADES_KING);
    trick.add_card(CARD_TAROCK_2);
    assert_eq!(trick.first(), Some(CARD_HEARTS_QUEEN));
    assert_eq!(
        trick.cards().to_vec(),
        vec![CARD_HEARTS_QUEEN, CARD_HEARTS_KING, CARD_SPADES_KING, CARD_TAROCK_2]
    );
    let winner = trick.winner(WinnerStrategy::Standard);
    assert_eq!(winner.card_index, 3);
    assert_eq!(winner.card, CARD_TAROCK_2);
    let winner = trick.winner(WinnerStrategy::ColorValat);
    assert_eq!(winner.card_index, 1);
    assert_eq!(winner.card, CARD_HEARTS_KING);
}

#[test]
fn hand_holds_each_card_once() {
    let mut hand = Hand::new(&[CARD_HEARTS_KING, CARD_TAROCK_2, CARD_HEARTS_KING]);
    assert_eq!(hand.size(), 2);
    assert!(hand.has_card(&CARD_HEARTS_KING));
    assert!(hand.has_tarock());
    assert!(hand.has_suit(&CardSuit::Hearts));
    assert!(!hand.has_suit(&CardSuit::Clubs));
    hand.insert(CARD_TAROCK_2);
    assert_eq!(hand.size(), 2);
    hand.remove_card(&CARD_TAROCK_2);
    assert_eq!(hand.size(), 1);
    assert!(!hand.has_tarock());
    assert!(!hand.has_card(&CARD_TAROCK_2));
    hand.remove_card(&CARD_TAROCK_2);
    assert_eq!(hand.size(), 1);
    hand.remove_card(&CARD_HEARTS_KING);
    assert!(hand.is_empty());
    assert!(Hand::empty().is_empty());
}

#[test]
fn hands_are_equal_where_they_hold_the_same_cards() {
    let hand = Hand::new(&[CARD_HEARTS_KING, CARD_TAROCK_2, CARD_CLUBS_SEVEN]);
    let same = [CARD_CLUBS_SEVEN, CARD_HEARTS_KING, CARD_TAROCK_2, CARD_HEARTS_KING];
    let more = [CARD_CLUBS_SEVEN, CARD_HEARTS_KING, CARD_TAROCK_2, CARD_TAROCK_MOND];
    assert!(hand == Hand::new(&same));
    assert!(hand != Hand::new(&[CARD_CLUBS_SEVEN, CARD_HEARTS_KING]));
    assert!(hand != Hand::new(&more));
    assert!(Hand::empty() == Hand::new(&[]));
    assert!(hand.clone() == hand);
}

#[test]
fn hand_is_made_of_what_an_iterator_gives() {
    let cards = card_set(&[CARD_HEARTS_KING, CARD_TAROCK_2, CARD_CLUBS_SEVEN]);
    let hand = Hand::from_iter(cards.iter());
    assert_eq!(hand.size(), 3);
    assert_eq!(card_set(hand.as_slice()), cards);
    let mut seen: HashSet<Card> = HashSet::new();
    let mut rest = hand.cards();
    while let Some(card) = rest.next() {
        assert!(seen.insert(*card));
    }
    assert_eq!(seen, cards);
    assert!(rest.next().is_none());
}
