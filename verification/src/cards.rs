//! Cards, hands, tricks, piles and the deck.

use vstd::prelude::*;
use std::cmp::Ordering;
use vstd::std_specs::cmp::{PartialEqSpecImpl, PartialOrdSpecImpl};
use vstd::std_specs::iter::IteratorSpec;
use crate::contracts::{WinnerStrategy, find_winner, is_winner, winner_index};
use crate::counting::{
    bearing_count, card_points, lemma_deck_scores_70, lemma_points_bounds, pile_score,
};

verus! {

/// Number of cards in the deck.
pub const NUM_CARDS: usize = 54;

/// Number of cards set aside in the talon.
pub const TALON_SIZE: usize = 6;

/// Half of the points of a whole deck.
pub const HALF_POINTS: usize = 35;

/// The four suits of the non-trump cards.
#[derive(Clone, Copy, Debug, PartialEq, Eq, Hash, Structural)]
pub enum CardSuit {
    Clubs,
    Spades,
    Hearts,
    Diamonds,
}

/// The eight ranks of a suit, lowest first.
#[derive(Clone, Copy, Debug, PartialEq, Eq, Hash, PartialOrd, Ord, Structural)]
pub enum CardRank {
    Seven,
    Eight,
    Nine,
    Ten,
    Jack,
    Knight,
    Queen,
    King,
}

/// The twenty-two tarocks (trumps), lowest first.
#[derive(Clone, Copy, Debug, PartialEq, Eq, Hash, PartialOrd, Ord, Structural)]
pub enum Tarock {
    Tarock1,
    Tarock2,
    Tarock3,
    Tarock4,
    Tarock5,
    Tarock6,
    Tarock7,
    Tarock8,
    Tarock9,
    Tarock10,
    Tarock11,
    Tarock12,
    Tarock13,
    Tarock14,
    Tarock15,
    Tarock16,
    Tarock17,
    Tarock18,
    Tarock19,
    Tarock20,
    Tarock21,
    TarockSkis,
}

/// A card: a tarock, or a card of a suit.
#[derive(Clone, Copy, Debug, PartialEq, Eq, Hash, Structural)]
pub enum Card {
    TarockCard(Tarock),
    SuitCard(CardRank, CardSuit),
}

impl CardSuit {
    /// Position of the suit in the deck's order.
    pub open spec fn spec_ordinal(&self) -> nat {
        match *self {
            CardSuit::Clubs => 0,
            CardSuit::Spades => 1,
            CardSuit::Hearts => 2,
            CardSuit::Diamonds => 3,
        }
    }

    /// The suit at position `i` of the deck's order.
    pub open spec fn spec_from_ordinal(i: int) -> CardSuit {
        if i == 0 {
            CardSuit::Clubs
        } else if i == 1 {
            CardSuit::Spades
        } else if i == 2 {
            CardSuit::Hearts
        } else {
            CardSuit::Diamonds
        }
    }

    /// Position of the suit in the deck's order.
    pub fn ordinal(&self) -> (n: usize)
        ensures
            n == self.spec_ordinal(),
            n < 4,
    {
        match *self {
            CardSuit::Clubs => 0,
            CardSuit::Spades => 1,
            CardSuit::Hearts => 2,
            CardSuit::Diamonds => 3,
        }
    }

    /// The suit at position `i` of the deck's order.
    pub fn from_ordinal(i: usize) -> (suit: CardSuit)
        requires
            i < 4,
        ensures
            suit == CardSuit::spec_from_ordinal(i as int),
            suit.spec_ordinal() == i,
    {
        if i == 0 {
            CardSuit::Clubs
        } else if i == 1 {
            CardSuit::Spades
        } else if i == 2 {
            CardSuit::Hearts
        } else {
            CardSuit::Diamonds
        }
    }
}

impl CardRank {
    /// Position of the rank within its suit, the seven being 0 and the king 7.
    pub open spec fn spec_ordinal(&self) -> nat {
        match *self {
            CardRank::Seven => 0,
            CardRank::Eight => 1,
            CardRank::Nine => 2,
            CardRank::Ten => 3,
            CardRank::Jack => 4,
            CardRank::Knight => 5,
            CardRank::Queen => 6,
            CardRank::King => 7,
        }
    }

    /// The rank at position `i`.
    pub open spec fn spec_from_ordinal(i: int) -> CardRank {
        if i == 0 {
            CardRank::Seven
        } else if i == 1 {
            CardRank::Eight
        } else if i == 2 {
            CardRank::Nine
        } else if i == 3 {
            CardRank::Ten
        } else if i == 4 {
            CardRank::Jack
        } else if i == 5 {
            CardRank::Knight
        } else if i == 6 {
            CardRank::Queen
        } else {
            CardRank::King
        }
    }

    /// Position of the rank within its suit.
    pub fn ordinal(&self) -> (n: usize)
        ensures
            n == self.spec_ordinal(),
            n < 8,
    {
        match *self {
            CardRank::Seven => 0,
            CardRank::Eight => 1,
            CardRank::Nine => 2,
            CardRank::Ten => 3,
            CardRank::Jack => 4,
            CardRank::Knight => 5,
            CardRank::Queen => 6,
            CardRank::King => 7,
        }
    }

    /// The rank at position `i`.
    pub fn from_ordinal(i: usize) -> (rank: CardRank)
        requires
            i < 8,
        ensures
            rank == CardRank::spec_from_ordinal(i as int),
            rank.spec_ordinal() == i,
    {
        if i == 0 {
            CardRank::Seven
        } else if i == 1 {
            CardRank::Eight
        } else if i == 2 {
            CardRank::Nine
        } else if i == 3 {
            CardRank::Ten
        } else if i == 4 {
            CardRank::Jack
        } else if i == 5 {
            CardRank::Knight
        } else if i == 6 {
            CardRank::Queen
        } else {
            CardRank::King
        }
    }
}

impl Tarock {
    /// Position of the tarock among the tarocks, the pagat being 0 and the skis 21.
    pub open spec fn spec_ordinal(&self) -> nat {
        match *self {
            Tarock::Tarock1 => 0,
            Tarock::Tarock2 => 1,
            Tarock::Tarock3 => 2,
            Tarock::Tarock4 => 3,
            Tarock::Tarock5 => 4,
            Tarock::Tarock6 => 5,
            Tarock::Tarock7 => 6,
            Tarock::Tarock8 => 7,
            Tarock::Tarock9 => 8,
            Tarock::Tarock10 => 9,
            Tarock::Tarock11 => 10,
            Tarock::Tarock12 => 11,
            Tarock::Tarock13 => 12,
            Tarock::Tarock14 => 13,
            Tarock::Tarock15 => 14,
            Tarock::Tarock16 => 15,
            Tarock::Tarock17 => 16,
            Tarock::Tarock18 => 17,
            Tarock::Tarock19 => 18,
            Tarock::Tarock20 => 19,
            Tarock::Tarock21 => 20,
            Tarock::TarockSkis => 21,
        }
    }

    /// The tarock at position `i`.
    pub open spec fn spec_from_ordinal(i: int) -> Tarock {
        if i == 0 {
            Tarock::Tarock1
        } else if i == 1 {
            Tarock::Tarock2
        } else if i == 2 {
            Tarock::Tarock3
        } else if i == 3 {
            Tarock::Tarock4
        } else if i == 4 {
            Tarock::Tarock5
        } else if i == 5 {
            Tarock::Tarock6
        } else if i == 6 {
            Tarock::Tarock7
        } else if i == 7 {
            Tarock::Tarock8
        } else if i == 8 {
            Tarock::Tarock9
        } else if i == 9 {
            Tarock::Tarock10
        } else if i == 10 {
            Tarock::Tarock11
        } else if i == 11 {
            Tarock::Tarock12
        } else if i == 12 {
            Tarock::Tarock13
        } else if i == 13 {
            Tarock::Tarock14
        } else if i == 14 {
            Tarock::Tarock15
        } else if i == 15 {
            Tarock::Tarock16
        } else if i == 16 {
            Tarock::Tarock17
        } else if i == 17 {
            Tarock::Tarock18
        } else if i == 18 {
            Tarock::Tarock19
        } else if i == 19 {
            Tarock::Tarock20
        } else if i == 20 {
            Tarock::Tarock21
        } else {
            Tarock::TarockSkis
        }
    }

    /// Position of the tarock among the tarocks.
    pub fn ordinal(&self) -> (n: usize)
        ensures
            n == self.spec_ordinal(),
            n < 22,
    {
        match *self {
            Tarock::Tarock1 => 0,
            Tarock::Tarock2 => 1,
            Tarock::Tarock3 => 2,
            Tarock::Tarock4 => 3,
            Tarock::Tarock5 => 4,
            Tarock::Tarock6 => 5,
            Tarock::Tarock7 => 6,
            Tarock::Tarock8 => 7,
            Tarock::Tarock9 => 8,
            Tarock::Tarock10 => 9,
            Tarock::Tarock11 => 10,
            Tarock::Tarock12 => 11,
            Tarock::Tarock13 => 12,
            Tarock::Tarock14 => 13,
            Tarock::Tarock15 => 14,
            Tarock::Tarock16 => 15,
            Tarock::Tarock17 => 16,
            Tarock::Tarock18 => 17,
            Tarock::Tarock19 => 18,
            Tarock::Tarock20 => 19,
            Tarock::Tarock21 => 20,
            Tarock::TarockSkis => 21,
        }
    }

    /// The tarock at position `i`.
    pub fn from_ordinal(i: usize) -> (tarock: Tarock)
        requires
            i < 22,
        ensures
            tarock == Tarock::spec_from_ordinal(i as int),
            tarock.spec_ordinal() == i,
    {
        if i == 0 {
            Tarock::Tarock1
        } else if i == 1 {
            Tarock::Tarock2
        } else if i == 2 {
            Tarock::Tarock3
        } else if i == 3 {
            Tarock::Tarock4
        } else if i == 4 {
            Tarock::Tarock5
        } else if i == 5 {
            Tarock::Tarock6
        } else if i == 6 {
            Tarock::Tarock7
        } else if i == 7 {
            Tarock::Tarock8
        } else if i == 8 {
            Tarock::Tarock9
        } else if i == 9 {
            Tarock::Tarock10
        } else if i == 10 {
            Tarock::Tarock11
        } else if i == 11 {
            Tarock::Tarock12
        } else if i == 12 {
            Tarock::Tarock13
        } else if i == 13 {
            Tarock::Tarock14
        } else if i == 14 {
            Tarock::Tarock15
        } else if i == 15 {
            Tarock::Tarock16
        } else if i == 16 {
            Tarock::Tarock17
        } else if i == 17 {
            Tarock::Tarock18
        } else if i == 18 {
            Tarock::Tarock19
        } else if i == 19 {
            Tarock::Tarock20
        } else if i == 20 {
            Tarock::Tarock21
        } else {
            Tarock::TarockSkis
        }
    }
}

impl Card {
    /// Whether the card is a tarock.
    pub open spec fn spec_is_tarock(&self) -> bool {
        *self is TarockCard
    }

    /// Whether the card is a tarock.
    #[verifier::when_used_as_spec(spec_is_tarock)]
    pub fn is_tarock(&self) -> (b: bool)
        ensures
            b == self.spec_is_tarock(),
    {
        match *self {
            Card::TarockCard(_) => true,
            _ => false,
        }
    }

    /// Whether the card is the pagat, the lowest tarock.
    pub open spec fn spec_is_pagat(&self) -> bool {
        *self == Card::TarockCard(Tarock::Tarock1)
    }

    /// Whether the card is the pagat, the lowest tarock.
    #[verifier::when_used_as_spec(spec_is_pagat)]
    pub fn is_pagat(&self) -> (b: bool)
        ensures
            b == self.spec_is_pagat(),
    {
        match *self {
            Card::TarockCard(Tarock::Tarock1) => true,
            _ => false,
        }
    }

    /// Whether the card is the mond, the tarock numbered 21.
    pub open spec fn spec_is_mond(&self) -> bool {
        *self == Card::TarockCard(Tarock::Tarock21)
    }

    /// Whether the card is the mond, the tarock numbered 21.
    #[verifier::when_used_as_spec(spec_is_mond)]
    pub fn is_mond(&self) -> (b: bool)
        ensures
            b == self.spec_is_mond(),
    {
        match *self {
            Card::TarockCard(Tarock::Tarock21) => true,
            _ => false,
        }
    }

    /// Whether the card is the skis, the highest tarock.
    pub open spec fn spec_is_skis(&self) -> bool {
        *self == Card::TarockCard(Tarock::TarockSkis)
    }

    /// Whether the card is the skis, the highest tarock.
    #[verifier::when_used_as_spec(spec_is_skis)]
    pub fn is_skis(&self) -> (b: bool)
        ensures
            b == self.spec_is_skis(),
    {
        match *self {
            Card::TarockCard(Tarock::TarockSkis) => true,
            _ => false,
        }
    }

    /// Points of the card: 5 for a king and for each of pagat, mond and skis, 4 for a
    /// queen, 3 for a knight, 2 for a jack, 0 for every other card.
    pub open spec fn spec_value(&self) -> nat {
        match *self {
            Card::SuitCard(rank, _) => match rank {
                CardRank::King => 5,
                CardRank::Queen => 4,
                CardRank::Knight => 3,
                CardRank::Jack => 2,
                _ => 0,
            },
            Card::TarockCard(tarock) => match tarock {
                Tarock::Tarock1 | Tarock::Tarock21 | Tarock::TarockSkis => 5,
                _ => 0,
            },
        }
    }

    /// Points of the card.
    pub fn value(&self) -> (v: usize)
        ensures
            v == self.spec_value(),
            v <= 5,
    {
        match *self {
            Card::SuitCard(rank, _) => match rank {
                CardRank::King => 5,
                CardRank::Queen => 4,
                CardRank::Knight => 3,
                CardRank::Jack => 2,
                _ => 0,
            },
            Card::TarockCard(tarock) => match tarock {
                Tarock::Tarock1 | Tarock::Tarock21 | Tarock::TarockSkis => 5,
                _ => 0,
            },
        }
    }

    /// Whether the card bears points.
    pub open spec fn spec_is_valuable(&self) -> bool {
        self.spec_value() > 0
    }

    /// Whether the card bears points.
    #[verifier::when_used_as_spec(spec_is_valuable)]
    pub fn is_valuable(&self) -> (b: bool)
        ensures
            b == self.spec_is_valuable(),
    {
        self.value() > 0
    }

    /// Whether the card bears no points.
    pub open spec fn spec_is_empty(&self) -> bool {
        self.spec_value() == 0
    }

    /// Whether the card bears no points.
    #[verifier::when_used_as_spec(spec_is_empty)]
    pub fn is_empty(&self) -> (b: bool)
        ensures
            b == self.spec_is_empty(),
    {
        !self.is_valuable()
    }

    /// The suit of the card, none for a tarock.
    pub open spec fn spec_suit(&self) -> Option<CardSuit> {
        match *self {
            Card::SuitCard(_, suit) => Some(suit),
            _ => None,
        }
    }

    /// The suit of the card, none for a tarock.
    #[verifier::when_used_as_spec(spec_suit)]
    pub fn suit(&self) -> (s: Option<CardSuit>)
        ensures
            s == self.spec_suit(),
    {
        match *self {
            Card::SuitCard(_, suit) => Some(suit),
            _ => None,
        }
    }

    /// Whether `self` compares as greater than `other`: a tarock against a card of a
    /// suit, the higher of two tarocks, the higher of two cards of one suit, and
    /// either of two cards of different suits against the other.
    pub open spec fn spec_outranks(&self, other: &Card) -> bool {
        match (*self, *other) {
            (Card::TarockCard(_), Card::SuitCard(_, _)) => true,
            (Card::SuitCard(_, _), Card::TarockCard(_)) => false,
            (Card::SuitCard(rank, suit), Card::SuitCard(other_rank, other_suit)) => {
                suit != other_suit || rank.spec_ordinal() > other_rank.spec_ordinal()
            },
            (Card::TarockCard(tarock), Card::TarockCard(other_tarock)) => {
                tarock.spec_ordinal() > other_tarock.spec_ordinal()
            },
        }
    }

    /// Whether `self` compares as greater than `other`.
    #[verifier::when_used_as_spec(spec_outranks)]
    pub fn outranks(&self, other: &Card) -> (b: bool)
        ensures
            b == self.spec_outranks(other),
    {
        match (*self, *other) {
            (Card::TarockCard(_), Card::SuitCard(_, _)) => true,
            (Card::SuitCard(_, _), Card::TarockCard(_)) => false,
            (Card::SuitCard(rank, suit), Card::SuitCard(other_rank, other_suit)) => {
                suit != other_suit || rank.ordinal() > other_rank.ordinal()
            },
            (Card::TarockCard(tarock), Card::TarockCard(other_tarock)) => {
                tarock.ordinal() > other_tarock.ordinal()
            },
        }
    }

    /// Position of the card in the unshuffled deck: the suits in their order, each
    /// from seven to king, then the tarocks from pagat to skis.
    pub open spec fn spec_index(&self) -> nat {
        match *self {
            Card::SuitCard(rank, suit) => suit.spec_ordinal() * 8 + rank.spec_ordinal(),
            Card::TarockCard(tarock) => 32 + tarock.spec_ordinal(),
        }
    }

    /// The card at position `i` of the unshuffled deck.
    pub open spec fn spec_from_index(i: int) -> Card {
        if i < 32 {
            Card::SuitCard(CardRank::spec_from_ordinal(i % 8), CardSuit::spec_from_ordinal(i / 8))
        } else {
            Card::TarockCard(Tarock::spec_from_ordinal(i - 32))
        }
    }

    /// Position of the card in the unshuffled deck.
    pub fn index(&self) -> (i: usize)
        ensures
            i == self.spec_index(),
            i < NUM_CARDS,
    {
        match *self {
            Card::SuitCard(rank, suit) => suit.ordinal() * 8 + rank.ordinal(),
            Card::TarockCard(tarock) => 32 + tarock.ordinal(),
        }
    }

    /// The card at position `i` of the unshuffled deck.
    pub fn from_index(i: usize) -> (card: Card)
        requires
            i < NUM_CARDS,
        ensures
            card == Card::spec_from_index(i as int),
            card.spec_index() == i,
    {
        if i < 32 {
            Card::SuitCard(CardRank::from_ordinal(i % 8), CardSuit::from_ordinal(i / 8))
        } else {
            Card::TarockCard(Tarock::from_ordinal(i - 32))
        }
    }

    /// Every card stands at its own position of the unshuffled deck, so that two cards
    /// at one position are the same card.
    pub proof fn lemma_index_round_trip(card: Card)
        ensures
            card.spec_index() < NUM_CARDS,
            Card::spec_from_index(card.spec_index() as int) == card,
    {
    }
}

impl PartialOrd for Card {
    /// Compares two cards as tricks do: `Greater` where `self` outranks `other`,
    /// `Equal` for one and the same card, `Less` otherwise.
    fn partial_cmp(&self, other: &Card) -> (r: Option<Ordering>) {
        if self.outranks(other) {
            Some(Ordering::Greater)
        } else if *self == *other {
            Some(Ordering::Equal)
        } else {
            Some(Ordering::Less)
        }
    }
}

impl PartialOrdSpecImpl for Card {
    open spec fn obeys_partial_cmp_spec() -> bool {
        true
    }

    open spec fn partial_cmp_spec(&self, other: &Card) -> Option<Ordering> {
        if self.spec_outranks(other) {
            Some(Ordering::Greater)
        } else if *self == *other {
            Some(Ordering::Equal)
        } else {
            Some(Ordering::Less)
        }
    }
}

/// The cards played to one round, in the order of play.
pub struct Trick {
    cards: Vec<Card>,
}

/// The card that takes a trick, with its position in the trick.
pub struct TrickWinner {
    pub card_index: usize,
    pub card: Card,
}

impl Trick {
    /// The cards of the trick in the order of play.
    pub closed spec fn view(&self) -> Seq<Card> {
        self.cards@
    }

    /// A trick without cards.
    pub fn empty() -> (trick: Trick)
        ensures
            trick@ == Seq::<Card>::empty(),
    {
        Trick { cards: Vec::new() }
    }

    /// A trick that `card` leads.
    pub fn new(card: Card) -> (trick: Trick)
        ensures
            trick@ == seq![card],
    {
        let mut trick = Trick::empty();
        trick.add_card(card);
        trick
    }

    /// Plays `card` to the trick.
    pub fn add_card(&mut self, card: Card)
        ensures
            final(self)@ == old(self)@.push(card),
    {
        self.cards.push(card);
    }

    /// Takes all cards off the trick.
    pub fn clear(&mut self)
        ensures
            final(self)@ == Seq::<Card>::empty(),
    {
        self.cards.clear()
    }

    /// Number of cards played to the trick.
    pub fn count(&self) -> (n: usize)
        ensures
            n == self@.len(),
    {
        self.cards.len()
    }

    /// Whether no card has been played to the trick.
    pub fn is_empty(&self) -> (b: bool)
        ensures
            b == (self@.len() == 0),
    {
        self.count() == 0
    }

    /// The card that leads the trick.
    pub fn first(&self) -> (card: Option<Card>)
        ensures
            card == if self@.len() > 0 {
                Some(self@[0])
            } else {
                None
            },
    {
        if self.cards.len() > 0 {
            Some(self.cards[0])
        } else {
            None
        }
    }

    /// The cards of the trick in the order of play.
    pub fn cards(&self) -> (cards: &[Card])
        ensures
            cards@ == self@,
    {
        self.cards.as_slice()
    }

    /// The card that takes the trick under `strategy`.
    pub fn winner(&self, strategy: WinnerStrategy) -> (winner: TrickWinner)
        requires
            self@.len() > 0,
        ensures
            is_winner(self@, strategy, winner.card_index as int),
            winner.card_index == winner_index(self@, strategy),
            winner.card_index < self@.len(),
            winner.card == self@[winner.card_index as int],
    {
        let card_index = find_winner(self.cards.as_slice(), strategy);
        TrickWinner { card_index: card_index, card: self.cards[card_index] }
    }
}

/// The cards a player has won, in the order in which they were won.
#[derive(Clone)]
pub struct Pile {
    cards: Vec<Card>,
}

impl Pile {
    /// The cards of the pile, the first one won first.
    pub closed spec fn view(&self) -> Seq<Card> {
        self.cards@
    }

    /// A pile without cards.
    pub fn new() -> (pile: Pile)
        ensures
            pile@ == Seq::<Card>::empty(),
    {
        Pile { cards: Vec::new() }
    }

    /// Puts `card` on the pile.
    pub fn add_card(&mut self, card: Card)
        ensures
            final(self)@ == old(self)@.push(card),
    {
        self.cards.push(card);
    }

    /// Puts the cards of `trick` on the pile, in the order of play.
    pub fn add_trick(&mut self, trick: Trick)
        ensures
            final(self)@ == old(self)@ + trick@,
    {
        let n = trick.cards.len();
        let mut i: usize = 0;
        while i < n
            invariant
                n == trick.cards@.len(),
                i <= n,
                self@ == old(self)@ + trick.cards@.take(i as int),
            decreases n - i,
        {
            self.add_card(trick.cards[i]);
            i += 1;
        }
    }

    /// Puts the cards of `other` on the pile, in their order.
    pub fn add_pile(&mut self, other: &Pile)
        ensures
            final(self)@ == old(self)@ + other@,
    {
        let n = other.cards.len();
        let mut i: usize = 0;
        while i < n
            invariant
                n == other.cards@.len(),
                i <= n,
                self@ == old(self)@ + other.cards@.take(i as int),
            decreases n - i,
        {
            self.add_card(other.cards[i]);
            i += 1;
        }
    }

    /// Number of cards on the pile.
    pub fn size(&self) -> (n: usize)
        ensures
            n == self@.len(),
    {
        self.cards.len()
    }

    /// Whether the pile holds no card.
    pub fn is_empty(&self) -> (b: bool)
        ensures
            b == (self@.len() == 0),
    {
        self.cards.len() == 0
    }

    /// Counts the pile in groups of three. The cards of the whole deck score 70.
    pub fn score(&self) -> (total: usize)
        requires
            pile_score(self@) <= usize::MAX,
        ensures
            total == pile_score(self@),
            is_deck(self@) ==> total == 70,
    {
        proof {
            if is_deck(self@) {
                lemma_deck_scores_70(self@);
            }
        }
        let n = self.cards.len();
        let mut total: usize = 0;
        let mut i: usize = 0;
        assert(self.cards@.skip(0) == self.cards@);
        while i < n
            invariant
                n == self.cards@.len(),
                i <= n,
                total + pile_score(self.cards@.skip(i as int)) == pile_score(self.cards@),
                pile_score(self.cards@) <= usize::MAX,
            decreases n - i,
        {
            let end = if n - i < 3 {
                n
            } else {
                i + 3
            };
            let ghost rest = self.cards@.skip(i as int);
            let ghost group = self.cards@.subrange(i as int, end as int);
            let mut points: usize = 0;
            let mut bearing: usize = 0;
            let mut j: usize = i;
            while j < end
                invariant
                    n == self.cards@.len(),
                    i <= j <= end <= n,
                    end - i <= 3,
                    points == card_points(self.cards@.subrange(i as int, j as int)),
                    bearing == bearing_count(self.cards@.subrange(i as int, j as int)),
                    points <= 5 * (j - i),
                    bearing <= j - i,
                decreases end - j,
            {
                let card = self.cards[j];
                proof {
                    let next = self.cards@.subrange(i as int, j as int + 1);
                    assert(next.drop_last() == self.cards@.subrange(i as int, j as int));
                    assert(next.last() == card);
                }
                points += card.value();
                if card.is_valuable() {
                    bearing += 1;
                }
                j += 1;
            }
            proof {
                lemma_points_bounds(group);
                if end == n {
                    assert(rest == group);
                    assert(self.cards@.skip(end as int).len() == 0);
                } else {
                    assert(rest.take(3) == group);
                    assert(rest.skip(3) == self.cards@.skip(end as int));
                }
            }
            if end - i >= 3 {
                if points == 0 {
                    total += 1;
                } else {
                    total += points - (bearing - 1);
                }
            } else if bearing > 0 {
                total += points - 1;
            }
            i = end;
        }
        total
    }
}

/// The pagat, the lowest tarock.
pub open spec fn pagat() -> Card {
    Card::TarockCard(Tarock::Tarock1)
}

/// The mond, the tarock numbered 21.
pub open spec fn mond() -> Card {
    Card::TarockCard(Tarock::Tarock21)
}

/// The skis, the highest tarock.
pub open spec fn skis() -> Card {
    Card::TarockCard(Tarock::TarockSkis)
}

/// Whether there is a tarock among `cards`.
pub open spec fn holds_tarock(cards: Set<Card>) -> bool {
    exists|card: Card| cards.contains(card) && card.is_tarock()
}

/// Whether there is a card of `suit` among `cards`.
pub open spec fn holds_suit(cards: Set<Card>, suit: CardSuit) -> bool {
    exists|card: Card| cards.contains(card) && card.suit() == Some(suit)
}

/// The cards a player holds. No card is held twice.
#[derive(Clone, Debug)]
pub struct Hand {
    cards: Vec<Card>,
}

impl Hand {
    /// The set of cards in the hand.
    pub closed spec fn view(&self) -> Set<Card> {
        self.cards@.to_set()
    }

    /// The hand keeps each of its cards once.
    pub closed spec fn wf(&self) -> bool {
        self.cards@.no_duplicates()
    }

    /// A hand without cards.
    pub fn empty() -> (hand: Hand)
        ensures
            hand.wf(),
            hand@ == Set::<Card>::empty(),
    {
        let hand = Hand { cards: Vec::new() };
        assert(hand.cards@.to_set() =~= Set::<Card>::empty());
        hand
    }

    /// A hand of the cards in `cards`. A card that occurs twice is held once.
    pub fn new(cards: &[Card]) -> (hand: Hand)
        ensures
            hand.wf(),
            hand@ == cards@.to_set(),
    {
        let mut hand = Hand::empty();
        insert_all(&mut hand, cards);
        hand
    }

    /// A hand of the cards that `cards` gives. A card that is given twice is held
    /// once.
    pub fn from_iter<'a, C: Iterator<Item = &'a Card>>(cards: C) -> (hand: Hand)
        requires
            cards.obeys_prophetic_iter_laws(),
            cards.decrease() is Some,
        ensures
            hand.wf(),
            hand@ == cards.remaining().map_values(|card: &Card| *card).to_set(),
    {
        let mut hand = Hand::empty();
        let mut rest = cards;
        let ghost all = cards.remaining().map_values(|card: &Card| *card);
        assert(all.take(0).to_set() =~= Set::<Card>::empty());
        loop
            invariant
                rest.obeys_prophetic_iter_laws(),
                rest.decrease() is Some,
                hand.wf(),
                all == cards.remaining().map_values(|card: &Card| *card),
                rest.remaining().len() <= all.len(),
                rest.remaining().map_values(|card: &Card| *card) == all.skip(
                    all.len() - rest.remaining().len(),
                ),
                hand@ == all.take(all.len() - rest.remaining().len()).to_set(),
            ensures
                hand.wf(),
                hand@ == all.to_set(),
            decreases rest.decrease()->0,
        {
            let ghost before = rest.remaining();
            let ghost done = all.len() - before.len();
            match rest.next() {
                Some(card) => {
                    proof {
                        let mapped = before.map_values(|card: &Card| *card);
                        assert(mapped[0] == *card);
                        assert(all[done] == *card);
                        assert(all.take(done + 1) == all.take(done).push(*card));
                        all.take(done).lemma_push_to_set_commute(*card);
                        let mapped_rest = rest.remaining().map_values(|card: &Card| *card);
                        assert(rest.remaining() == before.drop_first());
                        assert(mapped_rest.len() == mapped.len() - 1);
                        assert forall|k: int| 0 <= k < mapped_rest.len() implies mapped_rest[k]
                            == all.skip(done + 1)[k] by {
                            assert(mapped_rest[k] == *rest.remaining()[k]);
                            assert(rest.remaining()[k] == before[k + 1]);
                            assert(mapped[k + 1] == *before[k + 1]);
                            assert(all.skip(done)[k + 1] == all[done + k + 1]);
                        }
                        assert(mapped_rest =~= all.skip(done + 1));
                    }
                    hand.insert(*card);
                },
                None => {
                    assert(all.take(all.len() as int) == all);
                    break ;
                },
            }
        }
        hand
    }

    /// Puts `card` into the hand, unless the hand holds it already.
    pub fn insert(&mut self, card: Card)
        requires
            old(self).wf(),
        ensures
            final(self).wf(),
            final(self)@ == old(self)@.insert(card),
    {
        if !self.has_card(&card) {
            proof {
                self.cards@.lemma_push_to_set_commute(card);
            }
            self.cards.push(card);
        } else {
            assert(self@.insert(card) =~= self@);
        }
    }

    /// Takes `card` out of the hand, if the hand holds it.
    pub fn remove_card(&mut self, card: &Card)
        requires
            old(self).wf(),
        ensures
            final(self).wf(),
            final(self)@ == old(self)@.remove(*card),
    {
        let n = self.cards.len();
        let mut i: usize = 0;
        while i < n
            invariant
                n == self.cards@.len(),
                i <= n,
                self.cards@ == old(self).cards@,
                self.cards@.no_duplicates(),
                forall|k: int| 0 <= k < i ==> self.cards@[k] != *card,
            decreases n - i,
        {
            if self.cards[i] == *card {
                proof {
                    lemma_remove_at(self.cards@, i as int);
                }
                self.cards.remove(i);
                return ;
            }
            i += 1;
        }
        assert(self@.remove(*card) =~= self@);
    }

    /// Number of cards in the hand.
    pub fn size(&self) -> (n: usize)
        requires
            self.wf(),
        ensures
            n == self@.len(),
    {
        proof {
            self.cards@.unique_seq_to_set();
        }
        self.cards.len()
    }

    /// Whether the hand holds no card.
    pub fn is_empty(&self) -> (b: bool)
        ensures
            b == (self@ == Set::<Card>::empty()),
    {
        proof {
            if self.cards@.len() > 0 {
                assert(self.cards@.to_set().contains(self.cards@[0]));
            } else {
                assert(self.cards@.to_set() =~= Set::<Card>::empty());
            }
        }
        self.cards.len() == 0
    }

    /// Whether the hand holds a tarock.
    pub fn has_tarock(&self) -> (b: bool)
        ensures
            b == holds_tarock(self@),
    {
        let n = self.cards.len();
        let mut i: usize = 0;
        while i < n
            invariant
                n == self.cards@.len(),
                i <= n,
                forall|k: int| 0 <= k < i ==> !self.cards@[k].is_tarock(),
            decreases n - i,
        {
            if self.cards[i].is_tarock() {
                assert(self@.contains(self.cards@[i as int]));
                return true;
            }
            i += 1;
        }
        false
    }

    /// Whether the hand holds a card of `suit`.
    pub fn has_suit(&self, suit: &CardSuit) -> (b: bool)
        ensures
            b == holds_suit(self@, *suit),
    {
        let n = self.cards.len();
        let mut i: usize = 0;
        while i < n
            invariant
                n == self.cards@.len(),
                i <= n,
                forall|k: int| 0 <= k < i ==> self.cards@[k].suit() != Some(*suit),
            decreases n - i,
        {
            match self.cards[i].suit() {
                Some(s) => {
                    if s == *suit {
                        assert(self@.contains(self.cards@[i as int]));
                        return true;
                    }
                },
                None => {},
            }
            i += 1;
        }
        false
    }

    /// Whether the hand holds `card`.
    pub fn has_card(&self, card: &Card) -> (b: bool)
        ensures
            b == self@.contains(*card),
    {
        let n = self.cards.len();
        let mut i: usize = 0;
        while i < n
            invariant
                n == self.cards@.len(),
                i <= n,
                forall|k: int| 0 <= k < i ==> self.cards@[k] != *card,
            decreases n - i,
        {
            if self.cards[i] == *card {
                return true;
            }
            i += 1;
        }
        false
    }

    /// A hand is a finite set of at most 54 cards.
    pub proof fn lemma_size_bound(&self)
        ensures
            self@.finite(),
            self@.len() <= NUM_CARDS,
    {
        let full = full_deck();
        vstd::seq_lib::seq_to_set_is_finite(self.cards@);
        vstd::seq_lib::seq_to_set_is_finite(full);
        lemma_full_deck_no_duplicates();
        full.unique_seq_to_set();
        assert forall|card: Card| self@.contains(card) implies full.to_set().contains(card) by {
            Card::lemma_index_round_trip(card);
            assert(full[card.spec_index() as int] == card);
        }
        vstd::set_lib::lemma_len_subset(self@, full.to_set());
    }

    /// The cards of the hand, to go through them one after the other.
    pub fn cards<'a>(&'a self) -> (cards: Cards<'a>)
        ensures
            cards.remaining().to_set() == self@,
            self.wf() ==> cards.remaining().no_duplicates(),
    {
        let cards = Cards { cards: self.cards.as_slice(), next: 0 };
        assert(cards.cards@.skip(0) == cards.cards@);
        cards
    }

    /// The cards of the hand, each once, in the order in which the hand got them.
    pub fn as_slice(&self) -> (cards: &[Card])
        ensures
            cards@.to_set() == self@,
            self.wf() ==> cards@.no_duplicates(),
    {
        self.cards.as_slice()
    }
}

impl Hand {
    /// Whether every card of this hand is in `other`.
    fn is_within(&self, other: &Hand) -> (b: bool)
        ensures
            b == self@.subset_of(other@),
    {
        let n = self.cards.len();
        let mut i: usize = 0;
        while i < n
            invariant
                n == self.cards@.len(),
                i <= n,
                forall|k: int| 0 <= k < i ==> other@.contains(self.cards@[k]),
            decreases n - i,
        {
            if !other.has_card(&self.cards[i]) {
                assert(self@.contains(self.cards@[i as int]));
                return false;
            }
            i += 1;
        }
        true
    }
}

impl PartialEq for Hand {
    /// Two hands are equal where they hold the same cards.
    fn eq(&self, other: &Hand) -> (b: bool) {
        let b = self.is_within(other) && other.is_within(self);
        assert(b == (self@ =~= other@));
        b
    }
}

impl PartialEqSpecImpl for Hand {
    open spec fn obeys_eq_spec() -> bool {
        true
    }

    open spec fn eq_spec(&self, other: &Hand) -> bool {
        self@ == other@
    }
}

impl Eq for Hand {

}

/// The cards of a hand that are still to come, one after the other.
pub struct Cards<'a> {
    cards: &'a [Card],
    next: usize,
}

impl<'a> Cards<'a> {
    /// The cards that are still to come, the next one first.
    pub closed spec fn remaining(&self) -> Seq<Card> {
        if self.next <= self.cards@.len() {
            self.cards@.skip(self.next as int)
        } else {
            Seq::empty()
        }
    }

    /// The next card, if one is left.
    pub fn next(&mut self) -> (card: Option<&'a Card>)
        ensures
            match card {
                Some(card) => old(self).remaining().len() > 0 && *card == old(self).remaining()[0]
                    && final(self).remaining() == old(self).remaining().drop_first(),
                None => old(self).remaining().len() == 0 && final(self).remaining() == old(
                    self,
                ).remaining(),
            },
    {
        if self.next < self.cards.len() {
            let card = &self.cards[self.next];
            assert(self.cards@.skip(self.next as int).drop_first() == self.cards@.skip(
                self.next as int + 1,
            ));
            self.next += 1;
            Some(card)
        } else {
            None
        }
    }
}

/// Taking the card at position `i` out of a sequence without repetitions leaves a
/// sequence without repetitions that holds every other card of it.
proof fn lemma_remove_at(cards: Seq<Card>, i: int)
    requires
        cards.no_duplicates(),
        0 <= i < cards.len(),
    ensures
        cards.remove(i).no_duplicates(),
        cards.remove(i).to_set() == cards.to_set().remove(cards[i]),
{
    let rest = cards.remove(i);
    assert forall|c: Card| rest.to_set().contains(c) <==> cards.to_set().remove(cards[i]).contains(
        c,
    ) by {
        if rest.to_set().contains(c) {
            let k = choose|k: int| 0 <= k < rest.len() && rest[k] == c;
            if k < i {
                assert(cards[k] == c);
            } else {
                assert(cards[k + 1] == c);
            }
        }
        if cards.to_set().remove(cards[i]).contains(c) {
            let k = choose|k: int| 0 <= k < cards.len() && cards[k] == c;
            if k < i {
                assert(rest[k] == c);
            } else {
                assert(rest[k - 1] == c);
            }
        }
    }
    assert(rest.to_set() =~= cards.to_set().remove(cards[i]));
}

/// Puts every card of `cards` into `hand`.
pub fn insert_all(hand: &mut Hand, cards: &[Card])
    requires
        old(hand).wf(),
    ensures
        final(hand).wf(),
        final(hand)@ == old(hand)@.union(cards@.to_set()),
{
    let n = cards.len();
    let mut i: usize = 0;
    assert(cards@.take(0).to_set() =~= Set::<Card>::empty());
    assert(hand@.union(Set::<Card>::empty()) =~= hand@);
    while i < n
        invariant
            n == cards@.len(),
            i <= n,
            hand.wf(),
            hand@ == old(hand)@.union(cards@.take(i as int).to_set()),
        decreases n - i,
    {
        proof {
            let before = cards@.take(i as int);
            let after = cards@.take(i as int + 1);
            assert(after == before.push(cards@[i as int]));
            before.lemma_push_to_set_commute(cards@[i as int]);
            assert(old(hand)@.union(before.to_set()).insert(cards@[i as int]) =~= old(hand)@.union(
                after.to_set(),
            ));
        }
        hand.insert(cards[i]);
        i += 1;
    }
    assert(cards@.take(n as int) == cards@);
}

/// The cards set aside when the deck is dealt.
pub struct Talon {
    cards: Vec<Card>,
}

impl Talon {
    /// The cards of the talon in the order in which they were dealt.
    pub closed spec fn view(&self) -> Seq<Card> {
        self.cards@
    }

    /// A talon of `cards`.
    pub fn new(cards: Vec<Card>) -> (talon: Talon)
        ensures
            talon@ == cards@,
    {
        Talon { cards: cards }
    }

    /// The cards of the talon in the order in which they were dealt.
    pub fn cards(&self) -> (cards: &[Card])
        ensures
            cards@ == self@,
    {
        self.cards.as_slice()
    }

    /// Number of cards in the talon.
    pub fn size(&self) -> (n: usize)
        ensures
            n == self@.len(),
    {
        self.cards.len()
    }
}

/// A dealt deck: the talon and one hand for each player.
pub struct CardDeal {
    pub talon: Talon,
    pub hands: Vec<Hand>,
}

/// The player who gets the card at position `i` when four players are dealt to: after
/// the talon the packets of six cards go to the players in turn.
pub open spec fn packet_owner(i: int) -> int {
    (i / 6 - 1) % 4
}

/// The cards among the first `end` of `cards` that the standard deal for four players
/// gives to `player`.
pub open spec fn dealt_before(cards: Seq<Card>, player: int, end: int) -> Set<Card> {
    Set::new(|card: Card| exists|i: int| i < end && #[trigger] dealt_at(cards, player, i, card))
}

/// Whether `card` is the card at position `i` of `cards`, behind the talon, and the
/// standard deal for four players gives it to `player`.
pub open spec fn dealt_at(cards: Seq<Card>, player: int, i: int, card: Card) -> bool {
    TALON_SIZE <= i < cards.len() && packet_owner(i) == player && cards[i] == card
}

/// The cards of `cards` that the standard deal for four players gives to `player`.
pub open spec fn dealt_to(cards: Seq<Card>, player: int) -> Set<Card> {
    dealt_before(cards, player, cards.len() as int)
}

/// The cards of `cards` that the standard deal for four players sets aside: the first
/// six, or all of them where there are fewer.
pub open spec fn dealt_talon(cards: Seq<Card>) -> Seq<Card> {
    if cards.len() < TALON_SIZE {
        cards
    } else {
        cards.take(TALON_SIZE as int)
    }
}

/// Deals `cards` to four players: the first packet of six cards is the talon, the
/// following packets of six go to the players in turn, beginning with the first. Of
/// a whole deck six cards are set aside and each player gets twelve.
pub fn deal_four_player_standard(cards: &[Card]) -> (deal: CardDeal)
    requires
        cards@.len() > 0,
    ensures
        deal.talon@ == dealt_talon(cards@),
        deal.hands@.len() == 4,
        forall|player: int|
            0 <= player < 4 ==> (#[trigger] deal.hands@[player]).wf() && deal.hands@[player]@
                == dealt_to(cards@, player),
        is_deck(cards@) ==> deal.talon@.len() == TALON_SIZE && forall|player: int|
            0 <= player < 4 ==> (#[trigger] deal.hands@[player])@.len() == 12,
{
    let n = cards.len();
    let mut talon: Vec<Card> = Vec::new();
    let mut i: usize = 0;
    while i < n && i < TALON_SIZE
        invariant
            n == cards@.len(),
            i <= n,
            i <= TALON_SIZE,
            talon@ == cards@.take(i as int),
        decreases n - i,
    {
        talon.push(cards[i]);
        assert(cards@.take(i as int + 1) == cards@.take(i as int).push(cards@[i as int]));
        i += 1;
    }
    assert(cards@.take(n as int) == cards@);
    let mut hands: Vec<Hand> = Vec::new();
    let mut player: usize = 0;
    while player < 4
        invariant
            player <= 4,
            hands@.len() == player,
            forall|p: int|
                0 <= p < player ==> (#[trigger] hands@[p]).wf() && hands@[p]@ == Set::<
                    Card,
                >::empty(),
        decreases 4 - player,
    {
        hands.push(Hand::empty());
        player += 1;
    }
    assert forall|p: int| 0 <= p < 4 implies (#[trigger] hands@[p])@ == dealt_before(
        cards@,
        p,
        i as int,
    ) by {
        assert(dealt_before(cards@, p, i as int) =~= Set::<Card>::empty());
    }
    while i < n
        invariant
            n == cards@.len(),
            i <= n,
            n <= TALON_SIZE ==> i == n,
            n > TALON_SIZE ==> i >= TALON_SIZE,
            hands@.len() == 4,
            forall|p: int|
                0 <= p < 4 ==> (#[trigger] hands@[p]).wf() && hands@[p]@ == dealt_before(
                    cards@,
                    p,
                    i as int,
                ),
        decreases n - i,
    {
        let owner = (i / 6 - 1) % 4;
        let card = cards[i];
        let ghost before = hands@;
        hands[owner].insert(card);
        proof {
            assert forall|p: int| 0 <= p < 4 implies (#[trigger] hands@[p]).wf() && hands@[p]@
                == dealt_before(cards@, p, i as int + 1) by {
                if p == owner {
                    assert(dealt_at(cards@, p, i as int, card));
                    assert(before[p]@.insert(card) =~= dealt_before(cards@, p, i as int + 1));
                } else {
                    assert(hands@[p] == before[p]);
                    assert(before[p]@ =~= dealt_before(cards@, p, i as int + 1));
                }
            }
        }
        i += 1;
    }
    proof {
        if is_deck(cards@) {
            lemma_deal_of_deck(cards@);
            assert forall|player: int| 0 <= player < 4 implies (#[trigger] hands@[player])@.len()
                == 12 by {
                assert(dealt_to(cards@, player).len() == 12);
            }
        }
    }
    CardDeal { talon: Talon::new(talon), hands: hands }
}

/// The whole deck in its unshuffled order: the suits in their order, each from seven
/// to king, then the tarocks from pagat to skis.
pub open spec fn full_deck() -> Seq<Card> {
    Seq::new(NUM_CARDS as nat, |i: int| Card::spec_from_index(i))
}

/// Whether `cards` holds the cards of the whole deck, each once, in any order.
pub open spec fn is_deck(cards: Seq<Card>) -> bool {
    cards.to_multiset() == full_deck().to_multiset()
}

/// A source of random numbers, for shuffling.
pub trait RandomSource {
    /// The next random number.
    fn next_u64(&mut self) -> u64;
}

/// State of a deck that has not been shuffled.
#[derive(Clone, Debug)]
pub struct Unshuffled;

/// State of a deck that has been shuffled.
#[derive(Clone, Debug)]
pub struct Shuffled;

/// The deck of 54 cards, in the state `S`.
#[derive(Clone, Debug)]
pub struct Deck<S> {
    cards: Vec<Card>,
    state: S,
}

impl<S> Deck<S> {
    /// The cards of the deck from top to bottom.
    pub closed spec fn view(&self) -> Seq<Card> {
        self.cards@
    }

    /// The deck holds each card of the whole deck once.
    pub open spec fn wf(&self) -> bool {
        is_deck(self@)
    }

    /// Shuffles the deck with the numbers that `rng` gives: from the bottom up, each
    /// card changes places with a card that lies no lower, which the next number
    /// picks.
    pub fn shuffle<R: RandomSource>(self, rng: &mut R) -> (deck: Deck<Shuffled>)
        ensures
            deck@.to_multiset() == self@.to_multiset(),
            self.wf() ==> deck.wf(),
    {
        let mut cards = self.cards;
        let mut i: usize = cards.len();
        while i > 1
            invariant
                i <= cards@.len(),
                cards@.to_multiset() == self.cards@.to_multiset(),
            decreases i,
        {
            let number = rng.next_u64();
            proof {
                lemma_swap_keeps_cards(cards@, i - 1, picked(i - 1, number));
            }
            exchange(&mut cards, i - 1, number);
            i -= 1;
        }
        Deck { cards: cards, state: Shuffled }
    }

    /// Number of cards in the deck.
    pub fn size(&self) -> (n: usize)
        ensures
            n == self@.len(),
            self.wf() ==> n == NUM_CARDS,
    {
        proof {
            if self.wf() {
                lemma_deck_is_complete(self@);
            }
        }
        self.cards.len()
    }

    /// The cards of the deck from top to bottom.
    pub fn cards(&self) -> (cards: &[Card])
        ensures
            cards@ == self@,
    {
        self.cards.as_slice()
    }
}

impl Deck<Unshuffled> {
    /// The whole deck in its unshuffled order.
    pub fn new() -> (deck: Deck<Unshuffled>)
        ensures
            deck.wf(),
            deck@ == full_deck(),
    {
        let mut cards: Vec<Card> = Vec::new();
        let mut i: usize = 0;
        while i < NUM_CARDS
            invariant
                i <= NUM_CARDS,
                cards@.len() == i,
                forall|k: int| 0 <= k < i ==> cards@[k] == Card::spec_from_index(k),
            decreases NUM_CARDS - i,
        {
            cards.push(Card::from_index(i));
            i += 1;
        }
        assert(cards@ =~= full_deck());
        Deck { cards: cards, state: Unshuffled }
    }
}

impl Deck<Shuffled> {
    /// Deals the deck as `deal_strat` says.
    pub fn deal<F: Fn(&[Card]) -> CardDeal>(&self, deal_strat: F) -> (deal: CardDeal)
        requires
            forall|cards: &[Card]| cards@ == self@ ==> call_requires(deal_strat, (cards,)),
        ensures
            exists|cards: &[Card]| cards@ == self@ && call_ensures(deal_strat, (cards,), deal),
    {
        deal_strat(self.cards.as_slice())
    }
}

/// The position among the positions 0 to `last` that `number` picks.
pub open spec fn picked(last: int, number: u64) -> int {
    number as int % (last + 1)
}

/// The card at position `last` changes places with the card at the position that
/// `number` picks among the positions 0 to `last`.
pub fn exchange(cards: &mut Vec<Card>, last: usize, number: u64)
    requires
        last < old(cards)@.len(),
    ensures
        final(cards)@ == old(cards)@.update(
            last as int,
            old(cards)@[picked(last as int, number)],
        ).update(picked(last as int, number), old(cards)@[last as int]),
{
    assert(cards@.len() == cards.len());
    let pick = (number % (last as u64 + 1)) as usize;
    let upper = cards[last];
    let lower = cards[pick];
    cards[last] = lower;
    cards[pick] = upper;
}

/// Exchanging two cards of a sequence keeps what it holds.
proof fn lemma_swap_keeps_cards(cards: Seq<Card>, i: int, j: int)
    requires
        0 <= i < cards.len(),
        0 <= j < cards.len(),
    ensures
        cards.update(i, cards[j]).update(j, cards[i]).to_multiset() == cards.to_multiset(),
{
    broadcast use vstd::seq_lib::to_multiset_update;
    let mid = cards.update(i, cards[j]);
    assert(mid.to_multiset() =~= cards.to_multiset().insert(cards[j]).remove(cards[i]));
    assert(mid[j] == cards[j]);
    assert(mid.update(j, cards[i]).to_multiset() =~= mid.to_multiset().insert(cards[i]).remove(
        cards[j],
    ));
    assert(cards.to_multiset().count(cards[i]) > 0) by {
        assert(cards.contains(cards[i]));
        vstd::seq_lib::to_multiset_contains(cards, cards[i]);
    }
    assert(cards.to_multiset().count(cards[j]) > 0) by {
        assert(cards.contains(cards[j]));
        vstd::seq_lib::to_multiset_contains(cards, cards[j]);
    }
    assert(mid.update(j, cards[i]).to_multiset() =~= cards.to_multiset());
}

/// The unshuffled deck holds no card twice.
proof fn lemma_full_deck_no_duplicates()
    ensures
        full_deck().no_duplicates(),
{
    let full = full_deck();
    assert forall|i: int, j: int|
        0 <= i < full.len() && 0 <= j < full.len() && i != j implies full[i] != full[j] by {
        assert(full[i].spec_index() == i);
        assert(full[j].spec_index() == j);
    }
}

/// A deck has 54 cards, holds none twice and holds every card.
pub proof fn lemma_deck_is_complete(cards: Seq<Card>)
    requires
        is_deck(cards),
    ensures
        cards.len() == NUM_CARDS,
        cards.no_duplicates(),
        forall|card: Card| cards.contains(card),
{
    let full = full_deck();
    vstd::seq_lib::to_multiset_len(cards);
    vstd::seq_lib::to_multiset_len(full);
    lemma_full_deck_no_duplicates();
    full.lemma_multiset_has_no_duplicates();
    cards.lemma_multiset_has_no_duplicates_conv();
    assert forall|card: Card| cards.contains(card) by {
        Card::lemma_index_round_trip(card);
        assert(full[card.spec_index() as int] == card);
        assert(full.contains(card));
        vstd::seq_lib::to_multiset_contains(full, card);
        vstd::seq_lib::to_multiset_contains(cards, card);
    }
}

/// The cards that the standard deal for four players gives to `player` out of a whole
/// deck, in the order of the deck: two packets of six.
spec fn dealt_packets(cards: Seq<Card>, player: int) -> Seq<Card> {
    cards.subrange(6 * player + 6, 6 * player + 12) + cards.subrange(
        6 * player + 30,
        6 * player + 36,
    )
}

proof fn lemma_dealt_packets(cards: Seq<Card>, player: int)
    requires
        cards.len() == NUM_CARDS,
        cards.no_duplicates(),
        0 <= player < 4,
    ensures
        dealt_packets(cards, player).len() == 12,
        dealt_packets(cards, player).no_duplicates(),
        dealt_packets(cards, player).to_set() == dealt_to(cards, player),
{
    let packets = dealt_packets(cards, player);
    let low = 6 * player + 6;
    let high = 6 * player + 30;
    assert forall|k: int| 0 <= k < 12 implies #[trigger] packets[k] == cards[if k < 6 {
        low + k
    } else {
        high + k - 6
    }] by {}
    assert forall|c: Card| packets.to_set().contains(c) <==> dealt_to(cards, player).contains(
        c,
    ) by {
        if packets.to_set().contains(c) {
            let k = choose|k: int| 0 <= k < packets.len() && packets[k] == c;
            let i = if k < 6 {
                low + k
            } else {
                high + k - 6
            };
            assert(packets[k] == cards[i]);
            assert(dealt_at(cards, player, i, c));
        }
        if dealt_to(cards, player).contains(c) {
            let i = choose|i: int| i < cards.len() && #[trigger] dealt_at(cards, player, i, c);
            let k = if i < high {
                i - low
            } else {
                i - high + 6
            };
            assert(packets[k] == c);
        }
    }
    assert(packets.to_set() =~= dealt_to(cards, player));
}

/// Dealing a whole deck to four players sets six cards aside and gives twelve cards to
/// each player. No card is dealt twice, and every card of the deck is dealt.
pub proof fn lemma_deal_of_deck(cards: Seq<Card>)
    requires
        is_deck(cards),
    ensures
        dealt_talon(cards).len() == TALON_SIZE,
        dealt_talon(cards).no_duplicates(),
        forall|player: int|
            0 <= player < 4 ==> (#[trigger] dealt_to(cards, player)).finite() && dealt_to(
                cards,
                player,
            ).len() == 12,
        forall|player: int|
            0 <= player < 4 ==> (#[trigger] dealt_to(cards, player)).disjoint(
                dealt_talon(cards).to_set(),
            ),
        forall|player: int, other: int|
            0 <= player < other < 4 ==> (#[trigger] dealt_to(cards, player)).disjoint(
                #[trigger] dealt_to(cards, other),
            ),
        forall|card: Card|
            dealt_talon(cards).contains(card) || dealt_to(cards, 0).contains(card) || dealt_to(
                cards,
                1,
            ).contains(card) || dealt_to(cards, 2).contains(card) || dealt_to(cards, 3).contains(
                card,
            ),
{
    lemma_deck_is_complete(cards);
    let talon = dealt_talon(cards);
    assert forall|player: int| 0 <= player < 4 implies (#[trigger] dealt_to(
        cards,
        player,
    )).finite() && dealt_to(cards, player).len() == 12 by {
        lemma_dealt_packets(cards, player);
        dealt_packets(cards, player).unique_seq_to_set();
        vstd::seq_lib::seq_to_set_is_finite(dealt_packets(cards, player));
    }
    assert forall|player: int| 0 <= player < 4 implies (#[trigger] dealt_to(
        cards,
        player,
    )).disjoint(talon.to_set()) by {
        assert forall|c: Card| !(dealt_to(cards, player).contains(c) && talon.to_set().contains(
            c,
        )) by {
            if dealt_to(cards, player).contains(c) && talon.to_set().contains(c) {
                let i = choose|i: int| i < cards.len() && #[trigger] dealt_at(cards, player, i, c);
                let k = choose|k: int| 0 <= k < talon.len() && talon[k] == c;
                assert(cards[k] == cards[i]);
            }
        }
    }
    assert forall|player: int, other: int| 0 <= player < other < 4 implies (#[trigger] dealt_to(
        cards,
        player,
    )).disjoint(#[trigger] dealt_to(cards, other)) by {
        assert forall|c: Card| !(dealt_to(cards, player).contains(c) && dealt_to(
            cards,
            other,
        ).contains(c)) by {
            if dealt_to(cards, player).contains(c) && dealt_to(cards, other).contains(c) {
                let i = choose|i: int| i < cards.len() && #[trigger] dealt_at(cards, player, i, c);
                let k = choose|k: int| k < cards.len() && #[trigger] dealt_at(cards, other, k, c);
                assert(cards[k] == cards[i]);
            }
        }
    }
    assert forall|card: Card|
        talon.contains(card) || dealt_to(cards, 0).contains(card) || dealt_to(cards, 1).contains(
            card,
        ) || dealt_to(cards, 2).contains(card) || dealt_to(cards, 3).contains(card) by {
        assert(cards.contains(card));
        let i = choose|i: int| 0 <= i < cards.len() && cards[i] == card;
        if i < 6 {
            assert(talon[i] == card);
        } else {
            assert(dealt_at(cards, packet_owner(i), i, card));
        }
    }
}

} // verus!
