use tarock::cards::{Card, CardRank, CardSuit, Hand, Tarock};
use tarock::contracts::{Contract, ContractType};
use tarock::game::{to_player_index, ContractGame, MoveError, StandardGame, Success};
use tarock::player::{Player, PlayerTurn};

const CARD_CLUBS_EIGHT: Card = Card::SuitCard(CardRank::Eight, CardSuit::Clubs);
const CARD_SPADES_JACK: Card = Card::SuitCard(CardRank::Jack, CardSuit::Spades);
const CARD_HEARTS_EIGHT: Card = Card::SuitCard(CardRank::Eight, CardSuit::Hearts);
const CARD_HEARTS_NINE: Card = Card::SuitCard(CardRank::Nine, CardSuit::Hearts);
const CARD_HEARTS_JACK: Card = Card::SuitCard(CardRank::Jack, CardSuit::Hearts);
const CARD_DIAMONDS_EIGHT: Card = Card::SuitCard(CardRank::Eight, CardSuit::Diamonds);
const CARD_DIAMONDS_NINE: Card = Card::SuitCard(CardRank::Nine, CardSuit::Diamonds);
const CARD_DIAMONDS_QUEEN: Card = Card::SuitCard(CardRank::Queen, CardSuit::Diamonds);
const CARD_TAROCK_PAGAT: Card = Card::TarockCard(Tarock::Tarock1);
const CARD_TAROCK_10: Card = Card::TarockCard(Tarock::Tarock10);
const CARD_TAROCK_14: Card = Card::TarockCard(Tarock::Tarock14);
const CARD_TAROCK_MOND: Card = Card::TarockCard(Tarock::Tarock21);
const CARD_TAROCK_SKIS: Card = Card::TarockCard(Tarock::TarockSkis);

fn players() -> Vec<Player> {
    vec![
        Player::new(0, Hand::empty()),
        Player::new(1, Hand::empty()),
        Player::new(2, Hand::empty()),
        Player::new(3, Hand::empty()),
    ]
}

#[test]
fn played_contract_is_returned() {
    let players = players();
    let game = StandardGame::new(players, ContractType::Three, CardSuit::Hearts, vec![]);
    assert_eq!(game.contract(), Contract::Standard(ContractType::Three));
}

#[test]
fn only_the_active_player_can_play_the_card() {
    let players = vec![
        Player::new(0, Hand::empty()),
        Player::new(1, Hand::new(&[CARD_TAROCK_10])),
        Player::new(2, Hand::empty()),
        Player::new(3, Hand::new(&[CARD_TAROCK_MOND])),
    ];
    let mut game = StandardGame::new(players, ContractType::Three, CardSuit::Hearts, vec![]);
    assert_eq!(game.play_card(3, CARD_TAROCK_MOND), Err(MoveError::NotPlayersTurn));
    assert_eq!(game.play_card(1, CARD_TAROCK_10), Ok(Success::Next(2)));
}

#[test]
fn player_cant_play_invalid_card() {
    let players = vec![
        Player::new(0, Hand::empty()),
        Player::new(1, Hand::new(&[CARD_TAROCK_10, CARD_HEARTS_NINE])),
        Player::new(2, Hand::new(&[CARD_HEARTS_JACK, CARD_CLUBS_EIGHT])),
        Player::new(3, Hand::new(&[CARD_TAROCK_MOND, CARD_SPADES_JACK])),
    ];
    let mut game = StandardGame::new(players, ContractType::Three, CardSuit::Hearts, vec![]);
    assert_eq!(game.play_card(1, CARD_HEARTS_NINE), Ok(Success::Next(2)));
    // Playing a card that is not valid for the current trick.
    assert_eq!(game.play_card(2, CARD_CLUBS_EIGHT), Err(MoveError::InvalidCard));
    assert_eq!(game.play_card(2, CARD_HEARTS_JACK), Ok(Success::Next(3)));
    // Playing a card that the user does not have in his hand.
    assert_eq!(game.play_card(3, CARD_DIAMONDS_NINE), Err(MoveError::InvalidCard));
    assert_eq!(game.play_card(3, CARD_TAROCK_MOND), Ok(Success::Next(0)));
}

#[test]
fn played_card_is_removed_from_hand() {
    let players = vec![
        Player::new(0, Hand::new(&[CARD_TAROCK_SKIS, CARD_HEARTS_EIGHT])),
        Player::new(1, Hand::new(&[CARD_TAROCK_10, CARD_HEARTS_NINE])),
        Player::new(2, Hand::new(&[CARD_HEARTS_JACK, CARD_CLUBS_EIGHT])),
        Player::new(3, Hand::new(&[CARD_TAROCK_MOND, CARD_SPADES_JACK])),
    ];
    let mut game = StandardGame::new(players, ContractType::Three, CardSuit::Hearts, vec![]);
    assert_eq!(game.play_card(1, CARD_HEARTS_NINE), Ok(Success::Next(2)));
    assert_eq!(game.play_card(2, CARD_HEARTS_JACK), Ok(Success::Next(3)));
    assert_eq!(game.play_card(3, CARD_TAROCK_MOND), Ok(Success::Next(0)));
    assert_eq!(game.play_card(0, CARD_HEARTS_EIGHT), Ok(Success::Next(3)));
    // Player 3 is the winner of previous trick.
    assert_eq!(game.play_card(3, CARD_TAROCK_MOND), Err(MoveError::InvalidCard));
}

#[test]
fn the_player_that_won_the_trick_starts_the_next_trick() {
    let players = vec![
        Player::new(0, Hand::new(&[CARD_TAROCK_SKIS, CARD_HEARTS_EIGHT])),
        Player::new(1, Hand::new(&[CARD_TAROCK_10, CARD_HEARTS_NINE])),
        Player::new(2, Hand::new(&[CARD_HEARTS_JACK, CARD_CLUBS_EIGHT])),
        Player::new(3, Hand::new(&[CARD_TAROCK_MOND, CARD_SPADES_JACK])),
    ];
    let mut game = StandardGame::new(players, ContractType::Three, CardSuit::Hearts, vec![]);
    assert_eq!(game.play_card(1, CARD_TAROCK_10), Ok(Success::Next(2)));
    assert_eq!(game.play_card(2, CARD_HEARTS_JACK), Ok(Success::Next(3)));
    assert_eq!(game.play_card(3, CARD_TAROCK_MOND), Ok(Success::Next(0)));
    // Player 0 wins the trick and starts the next trick.
    assert_eq!(game.play_card(0, CARD_TAROCK_SKIS), Ok(Success::Next(0)));
}

#[test]
fn game_is_done_when_all_cards_are_played() {
    let players = vec![
        Player::new(0, Hand::new(&[CARD_DIAMONDS_EIGHT])),
        Player::new(1, Hand::new(&[CARD_HEARTS_NINE])),
        Player::new(2, Hand::new(&[CARD_DIAMONDS_QUEEN])),
        Player::new(3, Hand::new(&[CARD_TAROCK_14])),
    ];
    let mut game = StandardGame::new(players, ContractType::Three, CardSuit::Hearts, vec![]);
    assert_eq!(game.play_card(1, CARD_HEARTS_NINE), Ok(Success::Next(2)));
    assert_eq!(game.play_card(2, CARD_DIAMONDS_QUEEN), Ok(Success::Next(3)));
    assert_eq!(game.play_card(3, CARD_TAROCK_14), Ok(Success::Next(0)));
    assert_eq!(game.play_card(0, CARD_DIAMONDS_EIGHT), Ok(Success::Last));
    assert!(game.is_finished());
    assert_eq!(game.play_card(3, CARD_DIAMONDS_EIGHT), Err(MoveError::Done));
}

#[test]
fn the_trick_goes_to_the_pile_of_its_winner() {
    let players = vec![
        Player::new(0, Hand::new(&[CARD_TAROCK_SKIS, CARD_HEARTS_EIGHT])),
        Player::new(1, Hand::new(&[CARD_TAROCK_10, CARD_HEARTS_NINE])),
        Player::new(2, Hand::new(&[CARD_HEARTS_JACK, CARD_CLUBS_EIGHT])),
        Player::new(3, Hand::new(&[CARD_TAROCK_MOND, CARD_SPADES_JACK])),
    ];
    let mut game = StandardGame::new(players, ContractType::Two, CardSuit::Clubs, vec![]);
    assert_eq!(game.trick_number(), 1);
    assert_eq!(game.current_player().id(), 1);
    assert_eq!(game.play_card(1, CARD_HEARTS_NINE), Ok(Success::Next(2)));
    assert_eq!(game.play_card(2, CARD_HEARTS_JACK), Ok(Success::Next(3)));
    assert_eq!(game.play_card(3, CARD_TAROCK_MOND), Ok(Success::Next(0)));
    assert_eq!(game.trick_number(), 1);
    assert_eq!(game.play_card(0, CARD_HEARTS_EIGHT), Ok(Success::Next(3)));
    assert_eq!(game.trick_number(), 2);
    assert!(!game.is_finished());
    assert_eq!(game.contract(), Contract::Standard(ContractType::Two));
    for player in game.players().iter() {
        assert_eq!(player.hand().size(), 1);
    }
    assert_eq!(game.players()[3].pile().size(), 4);
    // Nine, jack and mond score 6, the eight that is left over nothing.
    assert_eq!(game.players()[3].pile().score(), 6);
    assert!(game.players()[0].pile().is_empty());
    // The second trick: the skis takes it.
    assert_eq!(game.play_card(3, CARD_SPADES_JACK), Ok(Success::Next(0)));
    assert_eq!(game.play_card(0, CARD_TAROCK_SKIS), Ok(Success::Next(1)));
    assert_eq!(game.play_card(1, CARD_TAROCK_10), Ok(Success::Next(2)));
    assert_eq!(game.play_card(2, CARD_CLUBS_EIGHT), Ok(Success::Last));
    assert!(game.is_finished());
    assert_eq!(game.trick_number(), 3);
    let players = game.into_players();
    assert_eq!(players[0].pile().size(), 4);
    assert_eq!(players[3].pile().size(), 4);
    assert!(players.iter().all(|player| player.hand().is_empty()));
}

#[test]
fn the_pagat_takes_a_trick_with_the_trula() {
    let players = vec![
        Player::new(0, Hand::new(&[CARD_TAROCK_10, CARD_HEARTS_EIGHT])),
        Player::new(1, Hand::new(&[CARD_TAROCK_SKIS, CARD_HEARTS_NINE])),
        Player::new(2, Hand::new(&[CARD_TAROCK_PAGAT, CARD_CLUBS_EIGHT])),
        Player::new(3, Hand::new(&[CARD_TAROCK_MOND, CARD_SPADES_JACK])),
    ];
    let mut game = StandardGame::new(players, ContractType::Three, CardSuit::Hearts, vec![]);
    assert_eq!(game.play_card(1, CARD_TAROCK_SKIS), Ok(Success::Next(2)));
    assert_eq!(game.play_card(2, CARD_TAROCK_PAGAT), Ok(Success::Next(3)));
    assert_eq!(game.play_card(3, CARD_TAROCK_MOND), Ok(Success::Next(0)));
    assert_eq!(game.play_card(0, CARD_TAROCK_10), Ok(Success::Next(2)));
    assert_eq!(game.players()[2].pile().size(), 4);
}

#[test]
fn a_card_is_found_again_by_the_player_who_played_it() {
    let turn = PlayerTurn::start_with(4, 1);
    assert_eq!(to_player_index(&turn, 0), 1);
    assert_eq!(to_player_index(&turn, 2), 3);
    assert_eq!(to_player_index(&turn, 3), 0);
    let turn = PlayerTurn::start_with(4, 3);
    assert_eq!(to_player_index(&turn, 0), 3);
    assert_eq!(to_player_index(&turn, 1), 0);
}
