use std::cmp::Ordering;
use std::collections::HashSet;

use tarock::cards::{Card, CardRank, CardSuit, Hand, Tarock, Trick};
use tarock::contracts::beggar;
use tarock::contracts::valat;
use tarock::contracts::{
    color_valat_winner_strategy, contains_mond_and_skis, contains_trula, find_winner,
    has_only_pagat, negative_contract_move_validator, standard_move_validator,
    standard_winner_strategy, valid_moves, Contract, ContractType, MoveRule, MoveValidator,
    WinnerStrategy,
};

const KLOP: Contract = Contract::Klop;
const SOLO_WITHOUT: Contract = Contract::SoloWithout;

const CARD_CLUBS_NINE: Card = Card::SuitCard(CardRank::Nine, CardSuit::Clubs);
const CARD_CLUBS_KING: Card = Card::SuitCard(CardRank::King, CardSuit::Clubs);
const CARD_SPADES_SEVEN: Card = Card::SuitCard(CardRank::Seven, CardSuit::Spades);
const CARD_SPADES_EIGHT: Card = Card::SuitCard(CardRank::Eight, CardSuit::Spades);
const CARD_SPADES_JACK: Card = Card::SuitCard(CardRank::Jack, CardSuit::Spades);
const CARD_SPADES_KNIGHT: Card = Card::SuitCard(CardRank::Knight, CardSuit::Spades);
const CARD_SPADES_QUEEN: Card = Card::SuitCard(CardRank::Queen, CardSuit::Spades);
const CARD_SPADES_KING: Card = Card::SuitCard(CardRank::King, CardSuit::Spades);
const CARD_HEARTS_SEVEN: Card = Card::SuitCard(CardRank::Seven, CardSuit::Hearts);
const CARD_HEARTS_JACK: Card = Card::SuitCard(CardRank::Jack, CardSuit::Hearts);
const CARD_HEARTS_QUEEN: Card = Card::SuitCard(CardRank::Queen, CardSuit::Hearts);
const CARD_HEARTS_KING: Card = Card::SuitCard(CardRank::King, CardSuit::Hearts);
const CARD_DIAMONDS_SEVEN: Card = Card::SuitCard(CardRank::Seven, CardSuit::Diamonds);
const CARD_DIAMONDS_NINE: Card = Card::SuitCard(CardRank::Nine, CardSuit::Diamonds);
const CARD_DIAMONDS_JACK: Card = Card::SuitCard(CardRank::Jack, CardSuit::Diamonds);
const CARD_DIAMONDS_KING: Card = Card::SuitCard(CardRank::King, CardSuit::Diamonds);
const CARD_TAROCK_PAGAT: Card = Card::TarockCard(Tarock::Tarock1);
const CARD_TAROCK_2: Card = Card::TarockCard(Tarock::Tarock2);
const CARD_TAROCK_5: Card = Card::TarockCard(Tarock::Tarock5);
const CARD_TAROCK_6: Card = Card::TarockCard(Tarock::Tarock6);
const CARD_TAROCK_9: Card = Card::TarockCard(Tarock::Tarock9);
const CARD_TAROCK_12: Card = Card::TarockCard(Tarock::Tarock12);
const CARD_TAROCK_13: Card = Card::TarockCard(Tarock::Tarock13);
const CARD_TAROCK_20: Card = Card::TarockCard(Tarock::Tarock20);
const CARD_TAROCK_MOND: Card = Card::TarockCard(Tarock::Tarock21);
const CARD_TAROCK_SKIS: Card = Card::TarockCard(Tarock::TarockSkis);

const HIGH_HEARTS_NO_TAROCKS: [Card; 4] =
    [CARD_HEARTS_JACK, CARD_HEARTS_QUEEN, CARD_SPADES_KING, CARD_HEARTS_SEVEN];

const SPADES: [Card; 4] =
    [CARD_SPADES_KING, CARD_SPADES_JACK, CARD_SPADES_QUEEN, CARD_SPADES_SEVEN];

const SPADES2: [Card; 4] =
    [CARD_SPADES_JACK, CARD_SPADES_SEVEN, CARD_SPADES_KING, CARD_SPADES_QUEEN];

const SUITS_WITH_TAROCK: [Card; 4] =
    [CARD_HEARTS_JACK, CARD_SPADES_KING, CARD_HEARTS_SEVEN, CARD_TAROCK_PAGAT];

const JUST_TAROCKS: [Card; 4] = [CARD_TAROCK_9, CARD_TAROCK_12, CARD_TAROCK_20, CARD_TAROCK_6];

const TAROCKS_TRULA: [Card; 4] =
    [CARD_TAROCK_SKIS, CARD_TAROCK_MOND, CARD_TAROCK_6, CARD_TAROCK_PAGAT];

fn set(cards: &[Card]) -> HashSet<Card> {
    cards.iter().copied().collect()
}

fn moves(rule: MoveRule, hand: &Hand, trick: &Trick) -> HashSet<Card> {
    let moves = valid_moves(rule, hand, trick);
    let as_set: HashSet<Card> = moves.iter().copied().collect();
    assert_eq!(as_set.len(), moves.len());
    as_set
}

fn make_trick(cards: &[Card]) -> Trick {
    let mut trick = Trick::empty();
    for card in cards.iter() {
        trick.add_card(*card);
    }
    trick
}

#[test]
fn standard_highest_card_of_played_suit_wins() {
    assert_eq!(standard_winner_strategy(&SPADES), 0)
}

#[test]
fn standard_higher_card_of_different_suit_has_no_effect() {
    assert_eq!(standard_winner_strategy(&HIGH_HEARTS_NO_TAROCKS), 1)
}

#[test]
fn standard_tarock_always_wins() {
    assert_eq!(standard_winner_strategy(&SUITS_WITH_TAROCK), 3)
}

#[test]
fn standard_highest_tarock_always() {
    assert_eq!(standard_winner_strategy(&JUST_TAROCKS), 2)
}

#[test]
fn standard_pagat_wins_if_trula_is_played() {
    assert_eq!(standard_winner_strategy(&TAROCKS_TRULA), 3)
}

#[test]
fn color_valat_played_suit_wins() {
    assert_eq!(color_valat_winner_strategy(&SUITS_WITH_TAROCK), 0);
    assert_eq!(color_valat_winner_strategy(&HIGH_HEARTS_NO_TAROCKS), 1)
}

#[test]
fn color_valat_highest_card_of_suit_wins() {
    assert_eq!(color_valat_winner_strategy(&SPADES), 0);
    assert_eq!(color_valat_winner_strategy(&SPADES2), 2)
}

#[test]
fn color_valat_highest_tarock_wins() {
    assert_eq!(color_valat_winner_strategy(&JUST_TAROCKS), 2)
}

#[test]
fn color_valat_pagat_wins_if_trula_is_played() {
    assert_eq!(color_valat_winner_strategy(&TAROCKS_TRULA), 3)
}

#[test]
fn pagat_wins_a_trick_with_trula_wherever_it_lies() {
    let tricks: [[Card; 4]; 4] = [
        [CARD_TAROCK_PAGAT, CARD_TAROCK_SKIS, CARD_TAROCK_MOND, CARD_TAROCK_20],
        [CARD_TAROCK_SKIS, CARD_TAROCK_PAGAT, CARD_TAROCK_MOND, CARD_TAROCK_20],
        [CARD_TAROCK_20, CARD_TAROCK_MOND, CARD_TAROCK_PAGAT, CARD_TAROCK_SKIS],
        [CARD_HEARTS_KING, CARD_TAROCK_MOND, CARD_TAROCK_SKIS, CARD_TAROCK_PAGAT],
    ];
    let expected: [usize; 4] = [0, 1, 2, 3];
    for (trick, index) in tricks.iter().zip(expected.iter()) {
        assert!(contains_trula(trick));
        assert_eq!(standard_winner_strategy(trick), *index);
        assert_eq!(find_winner(trick, WinnerStrategy::Standard), *index);
    }
    // Where a suit was led and only that suit counts, the trula changes nothing.
    assert_eq!(
        color_valat_winner_strategy(&[
            CARD_HEARTS_KING,
            CARD_TAROCK_MOND,
            CARD_TAROCK_SKIS,
            CARD_TAROCK_PAGAT
        ]),
        0
    );
    // Without the pagat the highest tarock wins.
    assert!(!contains_trula(&[CARD_TAROCK_SKIS, CARD_TAROCK_MOND, CARD_TAROCK_6]));
    assert_eq!(standard_winner_strategy(&[CARD_TAROCK_MOND, CARD_TAROCK_SKIS, CARD_TAROCK_6]), 1);
    assert!(contains_mond_and_skis(&[CARD_TAROCK_SKIS, CARD_TAROCK_MOND, CARD_TAROCK_6]));
    assert!(!contains_mond_and_skis(&[CARD_TAROCK_SKIS, CARD_TAROCK_PAGAT, CARD_TAROCK_6]));
}

#[test]
fn a_trick_of_one_card_goes_to_that_card() {
    assert_eq!(standard_winner_strategy(&[CARD_SPADES_SEVEN]), 0);
    assert_eq!(color_valat_winner_strategy(&[CARD_TAROCK_PAGAT]), 0);
}

#[test]
fn move_validator_all_moves_are_valid_on_first_play_in_trick() {
    let cards = set(&[CARD_TAROCK_2, CARD_SPADES_EIGHT, CARD_DIAMONDS_JACK]);
    assert_eq!(moves(MoveRule::Standard, &Hand::from_iter(cards.iter()), &Trick::empty()), cards);
    assert_eq!(
        moves(MoveRule::NegativeContract, &Hand::from_iter(cards.iter()), &Trick::empty()),
        cards
    );
}

#[test]
fn move_validator_card_of_same_suit_must_be_played() {
    let cards = set(&[CARD_TAROCK_2, CARD_SPADES_EIGHT, CARD_DIAMONDS_JACK]);
    assert_eq!(
        moves(MoveRule::Standard, &Hand::from_iter(cards.iter()), &make_trick(&[CARD_SPADES_KING])),
        set(&[CARD_SPADES_EIGHT])
    );
    assert_eq!(
        moves(
            MoveRule::NegativeContract,
            &Hand::from_iter(cards.iter()),
            &make_trick(&[CARD_SPADES_KING])
        ),
        set(&[CARD_SPADES_EIGHT])
    );
}

#[test]
fn move_validator_tarock_must_be_played_if_no_cards_of_suit_in_hand() {
    let cards = set(&[CARD_TAROCK_2, CARD_HEARTS_KING, CARD_TAROCK_SKIS, CARD_SPADES_JACK]);
    assert_eq!(
        moves(
            MoveRule::Standard,
            &Hand::from_iter(cards.iter()),
            &make_trick(&[CARD_DIAMONDS_KING])
        ),
        set(&[CARD_TAROCK_2, CARD_TAROCK_SKIS])
    );
    assert_eq!(
        moves(
            MoveRule::NegativeContract,
            &Hand::from_iter(cards.iter()),
            &make_trick(&[CARD_DIAMONDS_KING])
        ),
        set(&[CARD_TAROCK_2, CARD_TAROCK_SKIS])
    );
}

#[test]
fn move_validator_other_suits_can_be_played_only_when_required_suit_or_tarocks_missing() {
    let cards = set(&[CARD_HEARTS_KING, CARD_DIAMONDS_JACK]);
    assert_eq!(
        moves(
            MoveRule::Standard,
            &Hand::from_iter(cards.iter()),
            &make_trick(&[CARD_CLUBS_NINE, CARD_CLUBS_KING])
        ),
        cards
    );
    assert_eq!(
        moves(
            MoveRule::NegativeContract,
            &Hand::from_iter(cards.iter()),
            &make_trick(&[CARD_CLUBS_NINE, CARD_CLUBS_KING])
        ),
        cards
    );
}

#[test]
fn negative_contract_validator_higher_card_of_suit_must_be_played() {
    let cards = set(&[CARD_TAROCK_13, CARD_SPADES_EIGHT, CARD_SPADES_QUEEN]);
    assert_eq!(
        moves(
            MoveRule::NegativeContract,
            &Hand::from_iter(cards.iter()),
            &make_trick(&[CARD_SPADES_KNIGHT, CARD_SPADES_SEVEN])
        ),
        set(&[CARD_SPADES_QUEEN])
    );
    assert_eq!(
        moves(
            MoveRule::NegativeContract,
            &Hand::from_iter(cards.iter()),
            &make_trick(&[CARD_SPADES_KING, CARD_SPADES_SEVEN])
        ),
        set(&[CARD_SPADES_EIGHT, CARD_SPADES_QUEEN])
    );
    assert_eq!(
        moves(
            MoveRule::NegativeContract,
            &Hand::from_iter(cards.iter()),
            &make_trick(&[CARD_SPADES_KING, CARD_SPADES_SEVEN, CARD_TAROCK_2])
        ),
        set(&[CARD_SPADES_EIGHT, CARD_SPADES_QUEEN])
    );
}

#[test]
fn negative_contract_pagat_can_only_be_played_as_last_tarock() {
    let cards = set(&[CARD_TAROCK_13, CARD_HEARTS_JACK, CARD_TAROCK_PAGAT, CARD_TAROCK_5]);
    assert_eq!(
        moves(
            MoveRule::NegativeContract,
            &Hand::from_iter(cards.iter()),
            &make_trick(&[CARD_TAROCK_12, CARD_SPADES_SEVEN])
        ),
        set(&[CARD_TAROCK_13])
    );
    assert_eq!(
        moves(
            MoveRule::NegativeContract,
            &Hand::from_iter(cards.iter()),
            &make_trick(&[CARD_TAROCK_SKIS, CARD_SPADES_SEVEN])
        ),
        set(&[CARD_TAROCK_13, CARD_TAROCK_5])
    );
    assert_eq!(
        moves(
            MoveRule::NegativeContract,
            &Hand::from_iter(cards.iter()),
            &make_trick(&[CARD_SPADES_QUEEN])
        ),
        set(&[CARD_TAROCK_13, CARD_TAROCK_5])
    );
}

#[test]
fn negative_contract_pagat_as_not_last_tarock_must_be_played_if_trula_wins_trick() {
    let cards = set(&[CARD_TAROCK_13, CARD_HEARTS_JACK, CARD_TAROCK_PAGAT, CARD_TAROCK_5]);
    assert_eq!(
        moves(
            MoveRule::NegativeContract,
            &Hand::from_iter(cards.iter()),
            &make_trick(&[CARD_TAROCK_12, CARD_TAROCK_SKIS, CARD_TAROCK_MOND])
        ),
        set(&[CARD_TAROCK_PAGAT])
    );
    assert_eq!(
        moves(
            MoveRule::NegativeContract,
            &Hand::from_iter(cards.iter()),
            &make_trick(&[CARD_TAROCK_SKIS, CARD_DIAMONDS_JACK, CARD_TAROCK_MOND])
        ),
        set(&[CARD_TAROCK_PAGAT])
    );
}

#[test]
fn negative_contract_pagat_is_played_as_the_single_tarock() {
    let hand = Hand::new(&[CARD_TAROCK_PAGAT, CARD_HEARTS_JACK]);
    assert!(has_only_pagat(&hand, &CARD_TAROCK_PAGAT));
    assert!(!has_only_pagat(&hand, &CARD_HEARTS_JACK));
    assert!(!has_only_pagat(&Hand::new(&[CARD_TAROCK_PAGAT, CARD_TAROCK_5]), &CARD_TAROCK_PAGAT));
    assert!(!has_only_pagat(&Hand::new(&[CARD_HEARTS_JACK]), &CARD_TAROCK_PAGAT));
    // To a lead of tarocks.
    assert_eq!(
        moves(MoveRule::NegativeContract, &hand, &make_trick(&[CARD_TAROCK_12])),
        set(&[CARD_TAROCK_PAGAT])
    );
    // To a lead of a suit that the hand does not hold.
    assert_eq!(
        moves(MoveRule::NegativeContract, &hand, &make_trick(&[CARD_SPADES_KING])),
        set(&[CARD_TAROCK_PAGAT])
    );
    // Not to a suit that the hand can follow.
    assert_eq!(
        moves(MoveRule::NegativeContract, &hand, &make_trick(&[CARD_HEARTS_KING])),
        set(&[CARD_HEARTS_JACK])
    );
    // Out of a hand with mond and skis, to a suit that the hand does not hold.
    let hand = Hand::new(&[CARD_TAROCK_PAGAT, CARD_TAROCK_MOND, CARD_TAROCK_SKIS]);
    assert_eq!(
        moves(MoveRule::NegativeContract, &hand, &make_trick(&[CARD_SPADES_KING])),
        set(&[CARD_TAROCK_PAGAT, CARD_TAROCK_MOND, CARD_TAROCK_SKIS])
    );
}

#[test]
fn negative_contract_pagat_is_due_once_mond_and_skis_lie() {
    let trick = make_trick(&[CARD_SPADES_KING, CARD_TAROCK_MOND, CARD_TAROCK_SKIS]);
    // A hand with the pagat must play it.
    let hand = Hand::new(&[CARD_TAROCK_13, CARD_TAROCK_PAGAT, CARD_HEARTS_JACK]);
    assert_eq!(moves(MoveRule::NegativeContract, &hand, &trick), set(&[CARD_TAROCK_PAGAT]));
    assert!(!negative_contract_move_validator(&hand, &trick, &CARD_TAROCK_13));
    assert!(standard_move_validator(&hand, &trick, &CARD_TAROCK_13));
    // A hand without it plays any tarock.
    let hand = Hand::new(&[CARD_TAROCK_13, CARD_TAROCK_5, CARD_HEARTS_JACK]);
    assert_eq!(
        moves(MoveRule::NegativeContract, &hand, &trick),
        set(&[CARD_TAROCK_13, CARD_TAROCK_5])
    );
    // A hand that can follow the suit does so.
    let hand = Hand::new(&[CARD_TAROCK_13, CARD_TAROCK_PAGAT, CARD_SPADES_JACK]);
    assert_eq!(moves(MoveRule::NegativeContract, &hand, &trick), set(&[CARD_SPADES_JACK]));
}

#[test]
fn a_hand_with_cards_always_has_a_move() {
    let all: Vec<Card> = (0usize..54).map(Card::from_index).collect();
    let mut state: u64 = 12345;
    let mut next = move |bound: usize| -> usize {
        state = state.wrapping_mul(6364136223846793005).wrapping_add(1442695040888963407);
        ((state >> 33) as usize) % bound
    };
    for _ in 0..3000 {
        let hand_size = 1 + next(6);
        let trick_size = next(4);
        let mut hand_cards: Vec<Card> = Vec::new();
        for _ in 0..hand_size {
            hand_cards.push(all[next(54)]);
        }
        let mut trick_cards: Vec<Card> = Vec::new();
        for _ in 0..trick_size {
            trick_cards.push(all[next(54)]);
        }
        let hand = Hand::new(&hand_cards);
        let trick = make_trick(&trick_cards);
        let standard = moves(MoveRule::Standard, &hand, &trick);
        let negative = moves(MoveRule::NegativeContract, &hand, &trick);
        assert!(!standard.is_empty());
        assert!(!negative.is_empty());
        assert!(negative.is_subset(&standard));
    }
}

#[test]
fn player_without_led_suit_and_tarocks_plays_any_card() {
    let trick = make_trick(&[CARD_DIAMONDS_KING]);
    let hand = Hand::new(&[CARD_HEARTS_KING, CARD_SPADES_JACK, CARD_CLUBS_NINE]);
    assert_eq!(
        moves(MoveRule::Standard, &hand, &trick),
        set(&[CARD_HEARTS_KING, CARD_SPADES_JACK, CARD_CLUBS_NINE])
    );
    let hand =
        Hand::new(&[CARD_HEARTS_KING, CARD_DIAMONDS_SEVEN, CARD_DIAMONDS_NINE, CARD_TAROCK_2]);
    assert_eq!(
        moves(MoveRule::Standard, &hand, &trick),
        set(&[CARD_DIAMONDS_SEVEN, CARD_DIAMONDS_NINE])
    );
    assert!(MoveRule::Standard.is_valid(&hand, &trick, &CARD_DIAMONDS_SEVEN));
    assert!(!MoveRule::Standard.is_valid(&hand, &trick, &CARD_HEARTS_KING));
    assert!(!MoveRule::Standard.is_valid(&hand, &trick, &CARD_TAROCK_2));
}

#[test]
fn tarock_lead_asks_for_tarocks() {
    let trick = make_trick(&[CARD_TAROCK_9]);
    let hand = Hand::new(&[CARD_HEARTS_KING, CARD_TAROCK_2]);
    assert_eq!(moves(MoveRule::Standard, &hand, &trick), set(&[CARD_TAROCK_2]));
    let hand = Hand::new(&[CARD_HEARTS_KING, CARD_SPADES_JACK]);
    assert_eq!(
        moves(MoveRule::Standard, &hand, &trick),
        set(&[CARD_HEARTS_KING, CARD_SPADES_JACK])
    );
}

#[test]
fn contracts_have_their_values() {
    assert_eq!(KLOP.value(), 70);
    assert_eq!(Contract::Standard(ContractType::Three).value(), 10);
    assert_eq!(Contract::Standard(ContractType::Two).value(), 20);
    assert_eq!(Contract::Standard(ContractType::One).value(), 30);
    assert_eq!(Contract::Solo(ContractType::Three).value(), 40);
    assert_eq!(Contract::Solo(ContractType::Two).value(), 50);
    assert_eq!(Contract::Solo(ContractType::One).value(), 60);
    assert_eq!(Contract::Beggar(beggar::Type::Normal).value(), 70);
    assert_eq!(SOLO_WITHOUT.value(), 80);
    assert_eq!(Contract::Beggar(beggar::Type::Open).value(), 90);
    assert_eq!(Contract::Valat(valat::Type::Color).value(), 125);
    assert_eq!(Contract::Valat(valat::Type::Normal).value(), 250);
}

#[test]
fn contracts_are_ordered_by_value() {
    assert!(Contract::Standard(ContractType::Two) > Contract::Standard(ContractType::Three));
    assert!(Contract::Solo(ContractType::Three) > Contract::Standard(ContractType::One));
    assert!(Contract::Standard(ContractType::Three) < KLOP);
    assert_eq!(
        KLOP.partial_cmp(&Contract::Beggar(beggar::Type::Normal)),
        Some(Ordering::Equal)
    );
    assert!(KLOP >= Contract::Beggar(beggar::Type::Normal));
}

#[test]
fn contracts_know_their_family() {
    assert!(KLOP.is_klop());
    assert!(!KLOP.is_normal() && !KLOP.is_beggar() && !KLOP.is_valat());
    assert!(Contract::Standard(ContractType::Three).is_normal());
    assert!(Contract::Standard(ContractType::One).is_normal());
    assert!(Contract::Solo(ContractType::Two).is_normal());
    assert!(SOLO_WITHOUT.is_normal());
    assert!(Contract::Beggar(beggar::Type::Open).is_beggar());
    assert!(!Contract::Beggar(beggar::Type::Open).is_normal());
    assert!(Contract::Valat(valat::Type::Color).is_valat());
    assert!(!Contract::Valat(valat::Type::Normal).is_klop());
}
