//! Contracts, and what each of them asks of the cards that are played: which card
//! takes a trick, and which cards a player may play.

use vstd::prelude::*;
use std::cmp::Ordering;
use vstd::std_specs::cmp::PartialOrdSpecImpl;
use crate::cards::{
    Card, CardSuit, Hand, Tarock, Trick, holds_suit, holds_tarock, mond, pagat, skis,
};

pub mod beggar;
pub mod valat;

verus! {

/// The three tiers of the standard and of the solo contracts.
#[derive(Clone, Copy, Debug, PartialEq, Eq, Structural)]
pub enum ContractType {
    Three,
    Two,
    One,
}

/// A contract that a player can bid for.
#[derive(Clone, Copy, Debug, PartialEq, Eq, Structural)]
pub enum Contract {
    Klop,
    Standard(ContractType),
    Solo(ContractType),
    Beggar(beggar::Type),
    SoloWithout,
    Valat(valat::Type),
}

impl Contract {
    /// Whether the contract is klop.
    pub open spec fn spec_is_klop(&self) -> bool {
        *self is Klop
    }

    /// Whether the contract is klop.
    #[verifier::when_used_as_spec(spec_is_klop)]
    pub fn is_klop(&self) -> (b: bool)
        ensures
            b == self.spec_is_klop(),
    {
        match *self {
            Contract::Klop => true,
            _ => false,
        }
    }

    /// Whether the contract is one of the beggars.
    pub open spec fn spec_is_beggar(&self) -> bool {
        *self is Beggar
    }

    /// Whether the contract is one of the beggars.
    #[verifier::when_used_as_spec(spec_is_beggar)]
    pub fn is_beggar(&self) -> (b: bool)
        ensures
            b == self.spec_is_beggar(),
    {
        match *self {
            Contract::Beggar(_) => true,
            _ => false,
        }
    }

    /// Whether the contract is one of the valats.
    pub open spec fn spec_is_valat(&self) -> bool {
        *self is Valat
    }

    /// Whether the contract is one of the valats.
    #[verifier::when_used_as_spec(spec_is_valat)]
    pub fn is_valat(&self) -> (b: bool)
        ensures
            b == self.spec_is_valat(),
    {
        match *self {
            Contract::Valat(_) => true,
            _ => false,
        }
    }

    /// Whether the contract is a normal one: a standard contract, a solo contract or
    /// solo without.
    pub open spec fn spec_is_normal(&self) -> bool {
        *self is Standard || *self is Solo || *self is SoloWithout
    }

    /// Whether the contract is a normal one: a standard contract, a solo contract or
    /// solo without.
    #[verifier::when_used_as_spec(spec_is_normal)]
    pub fn is_normal(&self) -> (b: bool)
        ensures
            b == self.spec_is_normal(),
    {
        match *self {
            Contract::Standard(_) | Contract::Solo(_) | Contract::SoloWithout => true,
            _ => false,
        }
    }

    /// Value of the contract.
    pub open spec fn spec_value(&self) -> int {
        match *self {
            Contract::Klop => 70,
            Contract::Standard(ContractType::Three) => 10,
            Contract::Standard(ContractType::Two) => 20,
            Contract::Standard(ContractType::One) => 30,
            Contract::Solo(ContractType::Three) => 40,
            Contract::Solo(ContractType::Two) => 50,
            Contract::Solo(ContractType::One) => 60,
            Contract::Beggar(beggar::Type::Normal) => 70,
            Contract::SoloWithout => 80,
            Contract::Beggar(beggar::Type::Open) => 90,
            Contract::Valat(valat::Type::Color) => 125,
            Contract::Valat(valat::Type::Normal) => 250,
        }
    }

    /// Value of the contract. A bid is ranked by it, and it is won or lost with the
    /// contract.
    pub fn value(&self) -> (v: i64)
        ensures
            v == self.spec_value(),
            10 <= v <= 250,
    {
        match *self {
            Contract::Klop => 70,
            Contract::Standard(ContractType::Three) => 10,
            Contract::Standard(ContractType::Two) => 20,
            Contract::Standard(ContractType::One) => 30,
            Contract::Solo(ContractType::Three) => 40,
            Contract::Solo(ContractType::Two) => 50,
            Contract::Solo(ContractType::One) => 60,
            Contract::Beggar(beggar::Type::Normal) => 70,
            Contract::SoloWithout => 80,
            Contract::Beggar(beggar::Type::Open) => 90,
            Contract::Valat(valat::Type::Color) => 125,
            Contract::Valat(valat::Type::Normal) => 250,
        }
    }
}

impl PartialOrd for Contract {
    /// Compares two contracts by their values.
    fn partial_cmp(&self, other: &Contract) -> (r: Option<Ordering>) {
        let mine = self.value();
        let theirs = other.value();
        if mine < theirs {
            Some(Ordering::Less)
        } else if mine > theirs {
            Some(Ordering::Greater)
        } else {
            Some(Ordering::Equal)
        }
    }
}

impl PartialOrdSpecImpl for Contract {
    open spec fn obeys_partial_cmp_spec() -> bool {
        true
    }

    open spec fn partial_cmp_spec(&self, other: &Contract) -> Option<Ordering> {
        if self.spec_value() < other.spec_value() {
            Some(Ordering::Less)
        } else if self.spec_value() > other.spec_value() {
            Some(Ordering::Greater)
        } else {
            Some(Ordering::Equal)
        }
    }
}

/// How the card that takes a trick is found.
#[derive(Clone, Copy, Debug, PartialEq, Eq, Structural)]
pub enum WinnerStrategy {
    /// The highest card of the suit that was led takes the trick, unless a tarock was
    /// played: then the highest tarock takes it.
    Standard,
    /// The highest card of the suit that was led takes the trick, whatever else was
    /// played; where a tarock was led, the highest tarock.
    ColorValat,
}

impl WinnerStrategy {
    /// Whether `card` can take a trick to which a card of `led` was led (`None`
    /// where a tarock was led).
    pub open spec fn eligible(&self, card: Card, led: Option<CardSuit>) -> bool {
        card.suit() == led || (*self is Standard && card.is_tarock())
    }
}

/// Whether mond and skis are both among `cards`.
pub open spec fn holds_mond_and_skis(cards: Seq<Card>) -> bool {
    cards.contains(mond()) && cards.contains(skis())
}

/// Whether the trula is among `cards`: pagat, mond and skis.
pub open spec fn holds_trula(cards: Seq<Card>) -> bool {
    cards.contains(pagat()) && cards.contains(mond()) && cards.contains(skis())
}

/// Whether the card at position `i` is the best of the cards that can take the trick:
/// none of them outranks it. Of two equal cards the first counts.
pub open spec fn is_best(cards: Seq<Card>, strategy: WinnerStrategy, i: int) -> bool {
    let led = cards[0].suit();
    &&& 0 <= i < cards.len()
    &&& strategy.eligible(cards[i], led)
    &&& forall|k: int|
        0 <= k < cards.len() && strategy.eligible(#[trigger] cards[k], led) ==> !cards[k].outranks(
            &cards[i],
        )
    &&& forall|k: int| 0 <= k < i ==> #[trigger] cards[k] != cards[i]
}

/// Whether the card at position `i` is the pagat, and the first one.
pub open spec fn is_first_pagat(cards: Seq<Card>, i: int) -> bool {
    &&& 0 <= i < cards.len()
    &&& cards[i].is_pagat()
    &&& forall|k: int| 0 <= k < i ==> !(#[trigger] cards[k]).is_pagat()
}

/// Whether the card at position `w` takes the trick: it is the best of the cards that
/// can take it, unless that one is a tarock and the trick holds the trula. Then the
/// pagat takes the trick.
pub open spec fn is_winner(cards: Seq<Card>, strategy: WinnerStrategy, w: int) -> bool {
    exists|b: int|
        #[trigger] is_best(cards, strategy, b) && if cards[b].is_tarock() && holds_trula(cards) {
            is_first_pagat(cards, w)
        } else {
            w == b
        }
}

/// Position of the card that takes the trick.
pub open spec fn winner_index(cards: Seq<Card>, strategy: WinnerStrategy) -> int {
    choose|w: int| is_winner(cards, strategy, w)
}

/// One card only takes a trick.
pub proof fn lemma_winner_unique(
    cards: Seq<Card>,
    strategy: WinnerStrategy,
    first: int,
    second: int,
)
    requires
        is_winner(cards, strategy, first),
        is_winner(cards, strategy, second),
    ensures
        first == second,
{
    let b1 = choose|b: int|
        #[trigger] is_best(cards, strategy, b) && if cards[b].is_tarock() && holds_trula(cards) {
            is_first_pagat(cards, first)
        } else {
            first == b
        };
    let b2 = choose|b: int|
        #[trigger] is_best(cards, strategy, b) && if cards[b].is_tarock() && holds_trula(cards) {
            is_first_pagat(cards, second)
        } else {
            second == b
        };
    assert(cards[b1] == cards[b2]);
    assert(b1 == b2) by {
        if b1 < b2 {
            assert(cards[b1] != cards[b2]);
        }
        if b2 < b1 {
            assert(cards[b2] != cards[b1]);
        }
    }
    if cards[b1].is_tarock() && holds_trula(cards) {
        if first < second {
            assert(!cards[first].is_pagat());
        }
        if second < first {
            assert(!cards[second].is_pagat());
        }
    }
}

/// Under the standard strategy a trick that holds the trula goes to the pagat,
/// whatever else was played.
pub proof fn lemma_trula_goes_to_pagat(cards: Seq<Card>, w: int)
    requires
        holds_trula(cards),
        is_winner(cards, WinnerStrategy::Standard, w),
    ensures
        is_first_pagat(cards, w),
{
    let b = choose|b: int|
        #[trigger] is_best(cards, WinnerStrategy::Standard, b) && if cards[b].is_tarock()
            && holds_trula(cards) {
            is_first_pagat(cards, w)
        } else {
            w == b
        };
    let p = choose|p: int| 0 <= p < cards.len() && cards[p] == pagat();
    assert(WinnerStrategy::Standard.eligible(cards[p], cards[0].suit()));
    assert(!cards[p].outranks(&cards[b]));
}

/// Whether the trula is among `cards`: pagat, mond and skis.
pub fn contains_trula(cards: &[Card]) -> (b: bool)
    ensures
        b == holds_trula(cards@),
{
    let mut has_pagat = false;
    let mut has_mond = false;
    let mut has_skis = false;
    let n = cards.len();
    let mut i: usize = 0;
    while i < n
        invariant
            n == cards@.len(),
            i <= n,
            has_pagat == cards@.take(i as int).contains(pagat()),
            has_mond == cards@.take(i as int).contains(mond()),
            has_skis == cards@.take(i as int).contains(skis()),
        decreases n - i,
    {
        proof {
            lemma_take_next_contains(cards@, i as int, pagat());
            lemma_take_next_contains(cards@, i as int, mond());
            lemma_take_next_contains(cards@, i as int, skis());
        }
        let card = cards[i];
        if card.is_pagat() {
            has_pagat = true;
        } else if card.is_mond() {
            has_mond = true;
        } else if card.is_skis() {
            has_skis = true;
        }
        i += 1;
    }
    assert(cards@.take(n as int) == cards@);
    has_pagat && has_mond && has_skis
}

/// A card is among the first `i + 1` cards where it is among the first `i` or is the
/// card at position `i`.
proof fn lemma_take_next_contains(cards: Seq<Card>, i: int, card: Card)
    requires
        0 <= i < cards.len(),
    ensures
        cards.take(i + 1).contains(card) <==> cards.take(i).contains(card) || cards[i] == card,
{
    let shorter = cards.take(i);
    let longer = cards.take(i + 1);
    assert(longer == shorter.push(cards[i]));
    if shorter.contains(card) {
        let k = choose|k: int| 0 <= k < shorter.len() && shorter[k] == card;
        assert(longer[k] == card);
    }
    if cards[i] == card {
        assert(longer[i] == card);
    }
    if longer.contains(card) {
        let k = choose|k: int| 0 <= k < longer.len() && longer[k] == card;
        if k < i {
            assert(shorter[k] == card);
        }
    }
}

/// A sequence with one more card holds what it held, and that card.
proof fn lemma_push_contains(cards: Seq<Card>, card: Card, other: Card)
    ensures
        cards.push(card).contains(other) <==> cards.contains(other) || other == card,
{
    let longer = cards.push(card);
    if cards.contains(other) {
        let k = choose|k: int| 0 <= k < cards.len() && cards[k] == other;
        assert(longer[k] == other);
    }
    if other == card {
        assert(longer[cards.len() as int] == other);
    }
    if longer.contains(other) {
        let k = choose|k: int| 0 <= k < longer.len() && longer[k] == other;
        if k < cards.len() {
            assert(cards[k] == other);
        }
    }
}

/// A sequence without repetitions stays so with one more card that it did not hold.
proof fn lemma_push_no_duplicates(cards: Seq<Card>, card: Card)
    requires
        cards.no_duplicates(),
        !cards.contains(card),
    ensures
        cards.push(card).no_duplicates(),
{
    let longer = cards.push(card);
    assert forall|i: int, j: int|
        0 <= i < longer.len() && 0 <= j < longer.len() && i != j implies longer[i] != longer[j] by {
        if i < cards.len() && j < cards.len() {
        } else if i < cards.len() {
            assert(cards.contains(cards[i]));
        } else {
            assert(cards.contains(cards[j]));
        }
    }
}

/// Whether `strategy` lets `card` take a trick to which `led` was led.
fn is_eligible(strategy: WinnerStrategy, card: &Card, led: Option<CardSuit>) -> (b: bool)
    ensures
        b == strategy.eligible(*card, led),
{
    let follows = match (card.suit(), led) {
        (Some(suit), Some(led_suit)) => suit == led_suit,
        (None, None) => true,
        _ => false,
    };
    follows || (match strategy {
        WinnerStrategy::Standard => card.is_tarock(),
        WinnerStrategy::ColorValat => false,
    })
}

/// Position of the card that takes the trick `cards` under `strategy`.
pub fn find_winner(cards: &[Card], strategy: WinnerStrategy) -> (w: usize)
    requires
        cards@.len() > 0,
    ensures
        is_winner(cards@, strategy, w as int),
        w == winner_index(cards@, strategy),
        w < cards@.len(),
{
    let n = cards.len();
    let led = cards[0].suit();
    let mut best: usize = 0;
    let mut i: usize = 1;
    while i < n
        invariant
            n == cards@.len(),
            1 <= i <= n,
            led == cards@[0].suit(),
            best < i,
            strategy.eligible(cards@[best as int], led),
            forall|k: int|
                0 <= k < i && strategy.eligible(#[trigger] cards@[k], led) ==> !cards@[k].outranks(
                    &cards@[best as int],
                ),
            forall|k: int| 0 <= k < best ==> #[trigger] cards@[k] != cards@[best as int],
        decreases n - i,
    {
        if is_eligible(strategy, &cards[i], led) && cards[i].outranks(&cards[best]) {
            best = i;
        }
        i += 1;
    }
    assert(is_best(cards@, strategy, best as int));
    let mut w = best;
    if cards[best].is_tarock() && contains_trula(cards) {
        let mut k: usize = 0;
        while k < n && !cards[k].is_pagat()
            invariant
                n == cards@.len(),
                k <= n,
                cards@.contains(pagat()),
                forall|j: int| 0 <= j < k ==> !(#[trigger] cards@[j]).is_pagat(),
            decreases n - k,
        {
            k += 1;
        }
        w = k;
    }
    proof {
        assert(is_winner(cards@, strategy, w as int));
        lemma_winner_unique(cards@, strategy, w as int, winner_index(cards@, strategy));
    }
    w
}

/// Position of the card that takes the trick where only the suit that was led counts.
pub fn color_valat_winner_strategy(cards: &[Card]) -> (w: usize)
    requires
        cards@.len() > 0,
    ensures
        is_winner(cards@, WinnerStrategy::ColorValat, w as int),
        w == winner_index(cards@, WinnerStrategy::ColorValat),
        w < cards@.len(),
{
    find_winner(cards, WinnerStrategy::ColorValat)
}

/// Position of the card that takes the trick where tarocks beat the suit that was
/// led.
pub fn standard_winner_strategy(cards: &[Card]) -> (w: usize)
    requires
        cards@.len() > 0,
    ensures
        is_winner(cards@, WinnerStrategy::Standard, w as int),
        w == winner_index(cards@, WinnerStrategy::Standard),
        w < cards@.len(),
        holds_trula(cards@) ==> cards@[w as int].is_pagat(),
{
    let w = find_winner(cards, WinnerStrategy::Standard);
    proof {
        if holds_trula(cards@) {
            lemma_trula_goes_to_pagat(cards@, w as int);
        }
    }
    w
}

/// Whether a player who holds `hand` can follow a lead of `led`: with a card of that
/// suit, or with a tarock where a tarock was led.
pub open spec fn can_follow(hand: Set<Card>, led: Option<CardSuit>) -> bool {
    match led {
        Some(suit) => holds_suit(hand, suit),
        None => holds_tarock(hand),
    }
}

/// Whether a player who holds `hand` may play `card` to `trick` under the standard
/// rule: any card may be led; a player who can follow the lead must do so; one who
/// cannot must play a tarock; one who has no tarock either may play any card.
pub open spec fn standard_allows(hand: Set<Card>, trick: Seq<Card>, card: Card) -> bool {
    trick.len() == 0 || card.suit() == trick[0].suit() || (!can_follow(hand, trick[0].suit()) && (
    card.is_tarock() || !holds_tarock(hand)))
}

/// Whether `card` outranks every card of `trick` that can take it under the standard
/// strategy.
pub open spec fn beats_trick(card: Card, trick: Seq<Card>) -> bool {
    forall|k: int|
        0 <= k < trick.len() && WinnerStrategy::Standard.eligible(
            #[trigger] trick[k],
            trick[0].suit(),
        ) ==> card.outranks(&trick[k])
}

/// Whether `hand` holds a card that follows the lead of `trick` and beats the trick.
pub open spec fn can_beat(hand: Set<Card>, trick: Seq<Card>) -> bool {
    exists|card: Card| #[trigger]
        hand.contains(card) && card.suit() == trick[0].suit() && beats_trick(card, trick)
}

/// Whether `hand` holds one tarock and no other.
pub open spec fn holds_single_tarock(hand: Set<Card>) -> bool {
    exists|tarock: Card| #[trigger]
        hand.contains(tarock) && tarock.is_tarock() && forall|card: Card| #[trigger]
            hand.contains(card) && card.is_tarock() ==> card == tarock
}

/// Whether a player who holds `hand` must play the pagat to `trick` if they play a
/// tarock: mond and skis lie in the trick, and the hand holds the pagat.
pub open spec fn pagat_is_due(hand: Set<Card>, trick: Seq<Card>) -> bool {
    holds_mond_and_skis(trick) && hand.contains(pagat())
}

/// Whether a player who holds `hand` may play `card` to `trick` in a negative
/// contract. The standard rule holds, and beyond it:
///
/// - A card that follows the lead must beat the trick, if the hand holds a card that
///   follows the lead and beats the trick.
/// - The pagat may be played only as the hand's single tarock, or onto mond and skis;
///   to a lead of a suit also out of a hand that holds mond and skis.
/// - Where mond and skis lie in the trick and the hand holds the pagat, no other
///   tarock may be played.
pub open spec fn negative_allows(hand: Set<Card>, trick: Seq<Card>, card: Card) -> bool {
    trick.len() == 0 || if card.suit() == trick[0].suit() {
        if card.is_pagat() {
            holds_mond_and_skis(trick) || holds_single_tarock(hand)
        } else if card.is_tarock() && pagat_is_due(hand, trick) {
            false
        } else {
            beats_trick(card, trick) || !can_beat(hand, trick)
        }
    } else {
        !can_follow(hand, trick[0].suit()) && if !card.is_tarock() {
            !holds_tarock(hand)
        } else if card.is_pagat() {
            holds_mond_and_skis(trick) || (hand.contains(mond()) && hand.contains(skis()))
                || holds_single_tarock(hand)
        } else {
            !pagat_is_due(hand, trick)
        }
    }
}

/// What a negative contract allows, the standard rule allows too.
pub proof fn lemma_negative_is_stricter(hand: Set<Card>, trick: Seq<Card>, card: Card)
    requires
        negative_allows(hand, trick, card),
    ensures
        standard_allows(hand, trick, card),
{
}

/// To a lead of `suit` a player who holds the suit may play cards of that suit only,
/// and a player who holds neither the suit nor a tarock may play any card.
pub proof fn lemma_follow_suit(hand: Set<Card>, trick: Seq<Card>, suit: CardSuit, card: Card)
    requires
        trick.len() > 0,
        trick[0].suit() == Some(suit),
    ensures
        holds_suit(hand, suit) ==> (standard_allows(hand, trick, card) <==> card.suit() == Some(
            suit,
        )),
        !holds_suit(hand, suit) && !holds_tarock(hand) ==> standard_allows(hand, trick, card),
{
}

/// A player who holds a card can play one under the standard rule.
pub proof fn lemma_standard_move_exists(hand: Set<Card>, trick: Seq<Card>)
    requires
        exists|card: Card| hand.contains(card),
    ensures
        exists|card: Card| hand.contains(card) && standard_allows(hand, trick, card),
{
    let any = choose|card: Card| hand.contains(card);
    if trick.len() == 0 {
        assert(hand.contains(any) && standard_allows(hand, trick, any));
    } else {
        let led = trick[0].suit();
        if can_follow(hand, led) {
            let follower = lemma_follower(hand, led);
            assert(hand.contains(follower) && standard_allows(hand, trick, follower));
        } else if holds_tarock(hand) {
            let tarock = choose|card: Card| hand.contains(card) && card.is_tarock();
            assert(hand.contains(tarock) && standard_allows(hand, trick, tarock));
        } else {
            assert(hand.contains(any) && standard_allows(hand, trick, any));
        }
    }
}

/// A card of `hand` that follows a lead of `led`.
proof fn lemma_follower(hand: Set<Card>, led: Option<CardSuit>) -> (card: Card)
    requires
        can_follow(hand, led),
    ensures
        hand.contains(card),
        card.suit() == led,
{
    match led {
        Some(suit) => choose|card: Card| hand.contains(card) && card.suit() == Some(suit),
        None => choose|card: Card| hand.contains(card) && card.is_tarock(),
    }
}

/// A player who holds a card can play one in a negative contract.
pub proof fn lemma_negative_move_exists(hand: Set<Card>, trick: Seq<Card>)
    requires
        exists|card: Card| hand.contains(card),
    ensures
        exists|card: Card| hand.contains(card) && negative_allows(hand, trick, card),
{
    let any = choose|card: Card| hand.contains(card);
    if trick.len() == 0 {
        assert(hand.contains(any) && negative_allows(hand, trick, any));
    } else {
        let led = trick[0].suit();
        if can_follow(hand, led) {
            let follower = lemma_follower(hand, led);
            if led is None && pagat_is_due(hand, trick) {
                // Mond and skis lie in the trick: the pagat is played.
                assert(hand.contains(pagat()) && negative_allows(hand, trick, pagat()));
            } else if can_beat(hand, trick) {
                let better = choose|card: Card| #[trigger]
                    hand.contains(card) && card.suit() == trick[0].suit() && beats_trick(
                        card,
                        trick,
                    );
                assert(WinnerStrategy::Standard.eligible(trick[0], led));
                assert(better.outranks(&trick[0]));
                assert(!better.is_pagat());
                assert(hand.contains(better) && negative_allows(hand, trick, better));
            } else if !follower.is_pagat() {
                assert(hand.contains(follower) && negative_allows(hand, trick, follower));
            } else if holds_single_tarock(hand) {
                assert(hand.contains(follower) && negative_allows(hand, trick, follower));
            } else {
                // The hand holds another tarock beside the pagat.
                let other = lemma_other_tarock(hand);
                assert(hand.contains(other) && negative_allows(hand, trick, other));
            }
        } else if !holds_tarock(hand) {
            assert(hand.contains(any) && negative_allows(hand, trick, any));
        } else if pagat_is_due(hand, trick) {
            assert(hand.contains(pagat()) && negative_allows(hand, trick, pagat()));
        } else {
            let tarock = choose|card: Card| hand.contains(card) && card.is_tarock();
            if !tarock.is_pagat() {
                assert(hand.contains(tarock) && negative_allows(hand, trick, tarock));
            } else if holds_single_tarock(hand) {
                assert(hand.contains(tarock) && negative_allows(hand, trick, tarock));
            } else {
                let other = lemma_other_tarock(hand);
                assert(hand.contains(other) && negative_allows(hand, trick, other));
            }
        }
    }
}

/// A hand that holds the pagat, and not as its single tarock, holds another tarock.
proof fn lemma_other_tarock(hand: Set<Card>) -> (card: Card)
    requires
        hand.contains(pagat()),
        !holds_single_tarock(hand),
    ensures
        hand.contains(card),
        card.is_tarock(),
        !card.is_pagat(),
{
    assert(hand.contains(pagat()) && pagat().is_tarock());
    choose|card: Card| #[trigger] hand.contains(card) && card.is_tarock() && card != pagat()
}

/// Whether two cards are of one suit, or both tarocks.
fn same_suit(first: Option<CardSuit>, second: Option<CardSuit>) -> (b: bool)
    ensures
        b == (first == second),
{
    match (first, second) {
        (Some(suit), Some(other)) => suit == other,
        (None, None) => true,
        _ => false,
    }
}

/// Whether `hand` can follow a lead of `led`.
fn hand_can_follow(hand: &Hand, led: Option<CardSuit>) -> (b: bool)
    ensures
        b == can_follow(hand@, led),
{
    match led {
        Some(suit) => hand.has_suit(&suit),
        None => hand.has_tarock(),
    }
}

/// Whether `hand` may play `card` to `trick` under the standard rule.
pub fn standard_move_validator(hand: &Hand, trick: &Trick, card: &Card) -> (ok: bool)
    ensures
        ok == standard_allows(hand@, trick@, *card),
{
    match trick.first() {
        None => true,
        Some(lead) => {
            let led = lead.suit();
            if same_suit(card.suit(), led) {
                true
            } else {
                !hand_can_follow(hand, led) && (card.is_tarock() || !hand.has_tarock())
            }
        },
    }
}

/// Whether `card` outranks every card of `trick` that can take it.
fn card_beats_trick(card: &Card, trick: &[Card]) -> (b: bool)
    requires
        trick@.len() > 0,
    ensures
        b == beats_trick(*card, trick@),
{
    let n = trick.len();
    let led = trick[0].suit();
    let mut i: usize = 0;
    while i < n
        invariant
            n == trick@.len(),
            i <= n,
            led == trick@[0].suit(),
            forall|k: int|
                0 <= k < i && WinnerStrategy::Standard.eligible(#[trigger] trick@[k], led)
                    ==> card.outranks(&trick@[k]),
        decreases n - i,
    {
        if is_eligible(WinnerStrategy::Standard, &trick[i], led) && !card.outranks(&trick[i]) {
            return false;
        }
        i += 1;
    }
    true
}

/// Whether `hand` holds a card that follows the lead of `trick` and beats the trick.
fn hand_can_beat(hand: &Hand, trick: &[Card]) -> (b: bool)
    requires
        trick@.len() > 0,
    ensures
        b == can_beat(hand@, trick@),
{
    let cards = hand.as_slice();
    let n = cards.len();
    let led = trick[0].suit();
    let mut i: usize = 0;
    while i < n
        invariant
            n == cards@.len(),
            i <= n,
            cards@.to_set() == hand@,
            led == trick@[0].suit(),
            trick@.len() > 0,
            forall|k: int|
                0 <= k < i ==> !((#[trigger] cards@[k]).suit() == led && beats_trick(
                    cards@[k],
                    trick@,
                )),
        decreases n - i,
    {
        if same_suit(cards[i].suit(), led) && card_beats_trick(&cards[i], trick) {
            assert(hand@.contains(cards@[i as int]));
            return true;
        }
        i += 1;
    }
    assert(!can_beat(hand@, trick@)) by {
        if can_beat(hand@, trick@) {
            let card = choose|card: Card| #[trigger]
                hand@.contains(card) && card.suit() == trick@[0].suit() && beats_trick(
                    card,
                    trick@,
                );
            let k = choose|k: int| 0 <= k < cards@.len() && cards@[k] == card;
            assert(cards@[k].suit() == led);
        }
    }
    false
}

/// Whether `card` is the pagat and `hand` holds one tarock and no other.
pub fn has_only_pagat(hand: &Hand, card: &Card) -> (b: bool)
    ensures
        b == (card.is_pagat() && holds_single_tarock(hand@)),
{
    if !card.is_pagat() {
        return false;
    }
    let cards = hand.as_slice();
    let n = cards.len();
    let mut found: Option<Card> = None;
    let mut i: usize = 0;
    while i < n
        invariant
            n == cards@.len(),
            i <= n,
            cards@.to_set() == hand@,
            match found {
                Some(tarock) => tarock.is_tarock() && hand@.contains(tarock) && forall|k: int|
                    0 <= k < i && (#[trigger] cards@[k]).is_tarock() ==> cards@[k] == tarock,
                None => forall|k: int| 0 <= k < i ==> !(#[trigger] cards@[k]).is_tarock(),
            },
        decreases n - i,
    {
        let card = cards[i];
        if card.is_tarock() {
            assert(hand@.contains(cards@[i as int]));
            match found {
                Some(tarock) => {
                    if tarock != card {
                        assert(!holds_single_tarock(hand@)) by {
                            if holds_single_tarock(hand@) {
                                let single = choose|single: Card| #[trigger]
                                    hand@.contains(single) && single.is_tarock() && forall|
                                        other: Card,
                                    | #[trigger]
                                        hand@.contains(other) && other.is_tarock() ==> other
                                            == single;
                                assert(hand@.contains(tarock));
                                assert(hand@.contains(card));
                            }
                        }
                        return false;
                    }
                },
                None => {
                    found = Some(card);
                },
            }
        }
        i += 1;
    }
    match found {
        Some(tarock) => {
            assert(holds_single_tarock(hand@)) by {
                assert forall|other: Card| #[trigger]
                    hand@.contains(other) && other.is_tarock() implies other == tarock by {
                    let k = choose|k: int| 0 <= k < cards@.len() && cards@[k] == other;
                    assert(cards@[k].is_tarock());
                }
                assert(hand@.contains(tarock) && tarock.is_tarock());
            }
            true
        },
        None => {
            assert(!holds_single_tarock(hand@)) by {
                if holds_single_tarock(hand@) {
                    let single = choose|single: Card| #[trigger]
                        hand@.contains(single) && single.is_tarock() && forall|other: Card|
                            #[trigger] hand@.contains(other) && other.is_tarock() ==> other
                                == single;
                    let k = choose|k: int| 0 <= k < cards@.len() && cards@[k] == single;
                    assert(cards@[k].is_tarock());
                }
            }
            false
        },
    }
}

/// Whether mond and skis are both among `cards`.
pub fn contains_mond_and_skis(cards: &[Card]) -> (b: bool)
    ensures
        b == holds_mond_and_skis(cards@),
{
    let mut has_mond = false;
    let mut has_skis = false;
    let n = cards.len();
    let mut i: usize = 0;
    while i < n
        invariant
            n == cards@.len(),
            i <= n,
            has_mond == cards@.take(i as int).contains(mond()),
            has_skis == cards@.take(i as int).contains(skis()),
        decreases n - i,
    {
        proof {
            lemma_take_next_contains(cards@, i as int, mond());
            lemma_take_next_contains(cards@, i as int, skis());
        }
        let card = cards[i];
        if card.is_mond() {
            has_mond = true;
        } else if card.is_skis() {
            has_skis = true;
        }
        i += 1;
    }
    assert(cards@.take(n as int) == cards@);
    has_mond && has_skis
}

/// Whether `hand` may play `card` to `trick` in a negative contract.
pub fn negative_contract_move_validator(hand: &Hand, trick: &Trick, card: &Card) -> (ok: bool)
    ensures
        ok == negative_allows(hand@, trick@, *card),
{
    match trick.first() {
        None => true,
        Some(lead) => {
            let led = lead.suit();
            let played = trick.cards();
            if same_suit(card.suit(), led) {
                if card.is_pagat() {
                    contains_mond_and_skis(played) || has_only_pagat(hand, card)
                } else if card.is_tarock() && contains_mond_and_skis(played) && hand.has_card(
                    &Card::TarockCard(Tarock::Tarock1),
                ) {
                    false
                } else {
                    card_beats_trick(card, played) || !hand_can_beat(hand, played)
                }
            } else if hand_can_follow(hand, led) {
                false
            } else if !card.is_tarock() {
                !hand.has_tarock()
            } else if card.is_pagat() {
                contains_mond_and_skis(played) || (hand.has_card(
                    &Card::TarockCard(Tarock::Tarock21),
                ) && hand.has_card(&Card::TarockCard(Tarock::TarockSkis))) || has_only_pagat(
                    hand,
                    card,
                )
            } else {
                !(contains_mond_and_skis(played) && hand.has_card(
                    &Card::TarockCard(Tarock::Tarock1),
                ))
            }
        },
    }
}

/// A rule that says which cards a hand may play to a trick.
pub trait MoveValidator {
    /// Whether the rule lets a player who holds `hand` play `card` to `trick`.
    spec fn allows(&self, hand: Set<Card>, trick: Seq<Card>, card: Card) -> bool;

    /// Whether the rule lets `hand` play `card` to `trick`.
    fn is_valid(&self, hand: &Hand, trick: &Trick, card: &Card) -> (ok: bool)
        ensures
            ok == self.allows(hand@, trick@, *card),
    ;
}

/// The two rules of play.
#[derive(Clone, Copy, Debug, PartialEq, Eq, Structural)]
pub enum MoveRule {
    /// The rule of the standard and solo contracts and of klop.
    Standard,
    /// The rule of the beggar and valat contracts.
    NegativeContract,
}

impl MoveValidator for MoveRule {
    open spec fn allows(&self, hand: Set<Card>, trick: Seq<Card>, card: Card) -> bool {
        match *self {
            MoveRule::Standard => standard_allows(hand, trick, card),
            MoveRule::NegativeContract => negative_allows(hand, trick, card),
        }
    }

    fn is_valid(&self, hand: &Hand, trick: &Trick, card: &Card) -> (ok: bool) {
        match *self {
            MoveRule::Standard => standard_move_validator(hand, trick, card),
            MoveRule::NegativeContract => negative_contract_move_validator(hand, trick, card),
        }
    }
}

/// The cards of `hand` that `validator` lets it play to `trick`, each once.
pub fn valid_moves<V: MoveValidator>(validator: V, hand: &Hand, trick: &Trick) -> (moves: Vec<Card>)
    ensures
        moves@.to_set() == hand@.filter(|card: Card| validator.allows(hand@, trick@, card)),
        hand.wf() ==> moves@.no_duplicates(),
{
    let cards = hand.as_slice();
    let n = cards.len();
    let mut moves: Vec<Card> = Vec::new();
    let mut i: usize = 0;
    while i < n
        invariant
            n == cards@.len(),
            i <= n,
            cards@.to_set() == hand@,
            hand.wf() ==> cards@.no_duplicates(),
            forall|card: Card|
                moves@.contains(card) <==> cards@.take(i as int).contains(card) && validator.allows(
                    hand@,
                    trick@,
                    card,
                ),
            hand.wf() ==> moves@.no_duplicates(),
        decreases n - i,
    {
        let card = cards[i];
        let ghost before = moves@;
        let ghost seen = cards@.take(i as int);
        let ghost seen_next = cards@.take(i as int + 1);
        let valid = validator.is_valid(hand, trick, &card);
        if valid {
            moves.push(card);
        }
        proof {
            assert forall|other: Card|
                moves@.contains(other) <==> seen_next.contains(other) && validator.allows(
                    hand@,
                    trick@,
                    other,
                ) by {
                lemma_take_next_contains(cards@, i as int, other);
                assert(before.contains(other) <==> seen.contains(other) && validator.allows(
                    hand@,
                    trick@,
                    other,
                ));
                if valid {
                    lemma_push_contains(before, card, other);
                }
            }
            if hand.wf() && valid {
                if seen.contains(card) {
                    let k = choose|k: int| 0 <= k < seen.len() && seen[k] == card;
                    assert(cards@[k] == cards@[i as int]);
                }
                assert(!before.contains(card));
                lemma_push_no_duplicates(before, card);
            }
        }
        i += 1;
    }
    assert(cards@.take(n as int) == cards@);
    assert(moves@.to_set() =~= hand@.filter(|card: Card| validator.allows(hand@, trick@, card)));
    moves
}

} // verus!
