//! Bonuses: further ways to earn points beside the contract.

use vstd::prelude::*;
use crate::cards::{Card, CardRank, CardSuit, Tarock, pagat};
use crate::contracts::{Contract, contains_trula, holds_trula};
use crate::player::Player;

verus! {

/// The kinds of bonus.
#[derive(Clone, Copy, Debug, PartialEq, Eq, Hash, Structural)]
pub enum BonusType {
    Trula,
    Kings,
    KingUltimo,
    PagatUltimo,
    Valat,
}

/// All kinds of bonus.
pub const BONUS_TYPES: [BonusType; 5] = [
    BonusType::Trula,
    BonusType::Kings,
    BonusType::KingUltimo,
    BonusType::PagatUltimo,
    BonusType::Valat,
];

impl BonusType {
    /// Value of the bonus where it was not announced.
    pub open spec fn spec_value(&self) -> int {
        match *self {
            BonusType::Trula => 10,
            BonusType::Kings => 10,
            BonusType::KingUltimo => 10,
            BonusType::PagatUltimo => 25,
            BonusType::Valat => 250,
        }
    }

    /// Value of the bonus where it was not announced.
    pub fn value(&self) -> (v: i64)
        ensures
            v == self.spec_value(),
    {
        match *self {
            BonusType::Trula => 10,
            BonusType::Kings => 10,
            BonusType::KingUltimo => 10,
            BonusType::PagatUltimo => 25,
            BonusType::Valat => 250,
        }
    }
}

/// A bonus, announced before play or not.
#[derive(Clone, Copy, Debug)]
pub enum Bonus {
    Unannounced(BonusType),
    Announced(BonusType),
}

impl Bonus {
    /// Value of the bonus: an announced bonus is worth twice the bonus that was not
    /// announced.
    pub open spec fn spec_value(&self) -> int {
        match *self {
            Bonus::Unannounced(bonus_type) => bonus_type.spec_value(),
            Bonus::Announced(bonus_type) => 2 * bonus_type.spec_value(),
        }
    }

    /// Value of the bonus.
    pub fn value(&self) -> (v: i64)
        ensures
            v == self.spec_value(),
    {
        match *self {
            Bonus::Unannounced(bonus_type) => bonus_type.value(),
            Bonus::Announced(bonus_type) => 2 * bonus_type.value(),
        }
    }

    /// Whether the bonus was announced.
    pub open spec fn spec_is_announced(&self) -> bool {
        *self is Announced
    }

    /// Whether the bonus was announced.
    #[verifier::when_used_as_spec(spec_is_announced)]
    pub fn is_announced(&self) -> (b: bool)
        ensures
            b == self.spec_is_announced(),
    {
        match *self {
            Bonus::Unannounced(_) => false,
            Bonus::Announced(_) => true,
        }
    }
}

/// The king of `suit`.
pub open spec fn king_of(suit: CardSuit) -> Card {
    Card::SuitCard(CardRank::King, suit)
}

/// Whether the four kings are among `cards`.
pub open spec fn holds_kings(cards: Seq<Card>) -> bool {
    &&& cards.contains(king_of(CardSuit::Clubs))
    &&& cards.contains(king_of(CardSuit::Spades))
    &&& cards.contains(king_of(CardSuit::Hearts))
    &&& cards.contains(king_of(CardSuit::Diamonds))
}

/// Whether the trula is among `cards`: pagat, mond and skis.
pub fn has_trula(cards: &[Card]) -> (b: bool)
    ensures
        b == holds_trula(cards@),
{
    contains_trula(cards)
}

/// Whether bonuses may be announced for `contract`.
pub fn bonuses_allowed(contract: &Contract) -> (b: bool)
    ensures
        b == contract.is_normal(),
{
    contract.is_normal()
}

/// Whether `card` is among `cards`.
fn holds_card(cards: &[Card], card: Card) -> (b: bool)
    ensures
        b == cards@.contains(card),
{
    let n = cards.len();
    let mut i: usize = 0;
    while i < n
        invariant
            n == cards@.len(),
            i <= n,
            forall|k: int| 0 <= k < i ==> cards@[k] != card,
        decreases n - i,
    {
        if cards[i] == card {
            return true;
        }
        i += 1;
    }
    false
}

/// Whether the four kings are among `cards`.
pub fn has_kings(cards: &[Card]) -> (b: bool)
    ensures
        b == holds_kings(cards@),
{
    holds_card(cards, Card::SuitCard(CardRank::King, CardSuit::Clubs)) && holds_card(
        cards,
        Card::SuitCard(CardRank::King, CardSuit::Spades),
    ) && holds_card(cards, Card::SuitCard(CardRank::King, CardSuit::Hearts)) && holds_card(
        cards,
        Card::SuitCard(CardRank::King, CardSuit::Diamonds),
    )
}

/// Whether a player who holds `hand` may announce `bonus` where the king of `king`
/// was called: trula, kings and valat always, king ultimo with the called king in
/// hand, pagat ultimo with the pagat in hand.
pub open spec fn bonus_is_valid(hand: Set<Card>, king: Option<CardSuit>, bonus: BonusType) -> bool {
    match bonus {
        BonusType::Trula => true,
        BonusType::Kings => true,
        BonusType::Valat => true,
        BonusType::KingUltimo => king is Some && hand.contains(king_of(king->0)),
        BonusType::PagatUltimo => hand.contains(pagat()),
    }
}

/// The bonuses that `player` may announce, each once.
pub fn valid_bonuses(player: &Player, king: Option<CardSuit>) -> (bonuses: Vec<BonusType>)
    ensures
        forall|bonus: BonusType|
            bonuses@.contains(bonus) <==> bonus_is_valid(player.spec_hand()@, king, bonus),
        bonuses@.no_duplicates(),
{
    let mut bonuses: Vec<BonusType> = Vec::new();
    bonuses.push(BonusType::Trula);
    bonuses.push(BonusType::Kings);
    bonuses.push(BonusType::Valat);
    if has_king(player, king) {
        bonuses.push(BonusType::KingUltimo);
    }
    if has_pagat(player) {
        bonuses.push(BonusType::PagatUltimo);
    }
    proof {
        assert(bonuses@[0] == BonusType::Trula);
        assert(bonuses@[1] == BonusType::Kings);
        assert(bonuses@[2] == BonusType::Valat);
        if has_king(player, king) {
            assert(bonuses@[3] == BonusType::KingUltimo);
        }
        if has_pagat(player) {
            assert(bonuses@[bonuses@.len() - 1] == BonusType::PagatUltimo);
        }
    }
    bonuses
}

/// Whether `player` holds the king of the suit `king`. Without a suit the answer is
/// no.
pub open spec fn spec_has_king(player: &Player, king: Option<CardSuit>) -> bool {
    king is Some && player.spec_hand()@.contains(king_of(king->0))
}

/// Whether `player` holds the king of the suit `king`.
#[verifier::when_used_as_spec(spec_has_king)]
pub fn has_king(player: &Player, king: Option<CardSuit>) -> (b: bool)
    ensures
        b == spec_has_king(player, king),
{
    match king {
        Some(suit) => player.hand().has_card(&Card::SuitCard(CardRank::King, suit)),
        None => false,
    }
}

/// Whether `player` holds the pagat.
pub open spec fn spec_has_pagat(player: &Player) -> bool {
    player.spec_hand()@.contains(pagat())
}

/// Whether `player` holds the pagat.
#[verifier::when_used_as_spec(spec_has_pagat)]
pub fn has_pagat(player: &Player) -> (b: bool)
    ensures
        b == spec_has_pagat(player),
{
    player.hand().has_card(&Card::TarockCard(Tarock::Tarock1))
}

} // verus!
