//! How the cards of a pile are counted.
//!
//! A pile is counted in groups of three cards, taken from its front. The last group
//! may hold one or two cards only.

use vstd::prelude::*;
use crate::cards::{Card, full_deck, is_deck, lemma_deck_is_complete};

verus! {

/// Sum of the points of `cards`.
pub open spec fn card_points(cards: Seq<Card>) -> nat
    decreases cards.len(),
{
    if cards.len() == 0 {
        0
    } else {
        card_points(cards.drop_last()) + cards.last().spec_value()
    }
}

/// Number of cards in `cards` that bear points.
pub open spec fn bearing_count(cards: Seq<Card>) -> nat
    decreases cards.len(),
{
    if cards.len() == 0 {
        0
    } else {
        bearing_count(cards.drop_last()) + if cards.last().spec_is_valuable() {
            1nat
        } else {
            0nat
        }
    }
}

/// Score of one group of at most three cards.
///
/// A full group without points scores 1, a full group with points scores its points
/// less one for each point-bearing card after the first. A short group scores its
/// points less one, and nothing where it has no points.
pub open spec fn group_score(group: Seq<Card>) -> nat {
    let points = card_points(group);
    let bearing = bearing_count(group);
    if group.len() >= 3 {
        if points == 0 {
            1
        } else {
            (points - (bearing - 1)) as nat
        }
    } else if bearing > 0 {
        (points - 1) as nat
    } else {
        0
    }
}

/// Score of a pile: the sum of the scores of its groups of three.
pub open spec fn pile_score(cards: Seq<Card>) -> nat
    decreases cards.len(),
{
    if cards.len() == 0 {
        0
    } else if cards.len() <= 3 {
        group_score(cards)
    } else {
        group_score(cards.take(3)) + pile_score(cards.skip(3))
    }
}

/// A group has at least as many points as point-bearing cards, and at most five
/// points for each card.
pub proof fn lemma_points_bounds(cards: Seq<Card>)
    ensures
        bearing_count(cards) <= cards.len(),
        bearing_count(cards) <= card_points(cards),
        card_points(cards) <= 5 * cards.len(),
        card_points(cards) == 0 <==> bearing_count(cards) == 0,
    decreases cards.len(),
{
    if cards.len() > 0 {
        lemma_points_bounds(cards.drop_last());
    }
}

/// A group scores no more than five points for each of its cards.
proof fn lemma_group_score_bound(group: Seq<Card>)
    requires
        1 <= group.len() <= 3,
    ensures
        group_score(group) <= 5 * group.len(),
{
    lemma_points_bounds(group);
}

/// A pile scores no more than five points for each of its cards. A pile that is
/// short enough can therefore be counted in machine integers.
pub proof fn lemma_pile_score_bound(cards: Seq<Card>)
    ensures
        pile_score(cards) <= 5 * cards.len(),
    decreases cards.len(),
{
    if cards.len() == 0 {
    } else if cards.len() <= 3 {
        lemma_group_score_bound(cards);
    } else {
        lemma_group_score_bound(cards.take(3));
        lemma_pile_score_bound(cards.skip(3));
    }
}

/// Three times the worth of a card within a full group: a full group scores a third
/// of the weights of its cards.
pub open spec fn card_weight(card: Card) -> int {
    if card.spec_is_valuable() {
        3 * card.spec_value() - 2
    } else {
        1
    }
}

/// Sum of the weights of `cards`.
pub open spec fn weight_sum(cards: Seq<Card>) -> int
    decreases cards.len(),
{
    if cards.len() == 0 {
        0
    } else {
        weight_sum(cards.drop_last()) + card_weight(cards.last())
    }
}

/// What the last group of a pile scores, in thirds of a point, above the weights of
/// its cards: nothing for a full group, a third less for a single card, a third more
/// for two point-bearing cards and two thirds less for any other two cards.
pub open spec fn tail_adjust(cards: Seq<Card>) -> int {
    if cards.len() % 3 == 0 {
        0
    } else if cards.len() % 3 == 1 {
        -1
    } else if cards[cards.len() - 2].spec_is_valuable()
        && cards[cards.len() - 1].spec_is_valuable() {
        1
    } else {
        -2
    }
}

/// The weights of two sequences add up to the weight of the two put together.
pub proof fn lemma_weight_sum_concat(first: Seq<Card>, second: Seq<Card>)
    ensures
        weight_sum(first + second) == weight_sum(first) + weight_sum(second),
    decreases second.len(),
{
    if second.len() == 0 {
        assert(first + second == first);
    } else {
        assert((first + second).drop_last() == first + second.drop_last());
        lemma_weight_sum_concat(first, second.drop_last());
    }
}

/// Two sequences that hold the same cards have the same weight.
pub proof fn lemma_weight_sum_reordered(first: Seq<Card>, second: Seq<Card>)
    requires
        first.to_multiset() == second.to_multiset(),
    ensures
        weight_sum(first) == weight_sum(second),
{
    let add = |sum: int, card: Card| sum + card_weight(card);
    lemma_weight_sum_is_fold(first);
    lemma_weight_sum_is_fold(second);
    assert(vstd::seq_lib::commutative_foldl(add));
    vstd::seq_lib::lemma_fold_left_permutation(first, second, add, 0int);
}

proof fn lemma_weight_sum_is_fold(cards: Seq<Card>)
    ensures
        weight_sum(cards) == cards.fold_left(0int, |sum: int, card: Card| sum + card_weight(card)),
    decreases cards.len(),
{
    if cards.len() > 0 {
        lemma_weight_sum_is_fold(cards.drop_last());
    }
}

/// Three times the score of a group is the weight of its cards, adjusted where the
/// group is short.
proof fn lemma_group_score_weights(group: Seq<Card>)
    requires
        1 <= group.len() <= 3,
    ensures
        3 * group_score(group) == weight_sum(group) + tail_adjust(group),
{
    reveal_with_fuel(card_points, 4);
    reveal_with_fuel(bearing_count, 4);
    reveal_with_fuel(weight_sum, 4);
    if group.len() == 3 {
        assert(group.drop_last().drop_last().drop_last().len() == 0);
        assert(group.drop_last().last() == group[1]);
        assert(group.drop_last().drop_last().last() == group[0]);
    } else if group.len() == 2 {
        assert(group.drop_last().drop_last().len() == 0);
        assert(group.drop_last().last() == group[0]);
    } else {
        assert(group.drop_last().len() == 0);
    }
}

/// Three times the score of a pile is the weight of its cards, adjusted where the
/// last group is short.
pub proof fn lemma_pile_score_weights(cards: Seq<Card>)
    ensures
        3 * pile_score(cards) == weight_sum(cards) + tail_adjust(cards),
    decreases cards.len(),
{
    if cards.len() == 0 {
    } else if cards.len() <= 3 {
        lemma_group_score_weights(cards);
    } else {
        let head = cards.take(3);
        let rest = cards.skip(3);
        lemma_group_score_weights(head);
        lemma_pile_score_weights(rest);
        assert(cards == head + rest);
        lemma_weight_sum_concat(head, rest);
        assert(rest.len() == cards.len() - 3);
        if rest.len() % 3 == 2 {
            assert(rest[rest.len() - 2] == cards[cards.len() - 2]);
            assert(rest[rest.len() - 1] == cards[cards.len() - 1]);
        }
    }
}

/// Weight of the first `n` cards of the unshuffled deck.
spec fn deck_weight(n: nat) -> int
    decreases n,
{
    if n == 0 {
        0
    } else {
        deck_weight((n - 1) as nat) + card_weight(Card::spec_from_index(n - 1))
    }
}

proof fn lemma_deck_weight_prefix(n: nat)
    requires
        n <= 54,
    ensures
        weight_sum(full_deck().take(n as int)) == deck_weight(n),
    decreases n,
{
    if n > 0 {
        lemma_deck_weight_prefix((n - 1) as nat);
        assert(full_deck().take(n as int).drop_last() == full_deck().take(n - 1));
    }
}

/// The whole deck weighs 210, that is 70 points.
proof fn lemma_full_deck_weight()
    ensures
        weight_sum(full_deck()) == 210,
{
    lemma_deck_weight_prefix(54);
    assert(full_deck().take(54) == full_deck());
    assert(deck_weight(8) == 38) by {
        reveal_with_fuel(deck_weight, 9);
    }
    assert(deck_weight(16) == 76) by {
        reveal_with_fuel(deck_weight, 9);
    }
    assert(deck_weight(24) == 114) by {
        reveal_with_fuel(deck_weight, 9);
    }
    assert(deck_weight(32) == 152) by {
        reveal_with_fuel(deck_weight, 9);
    }
    assert(deck_weight(43) == 175) by {
        reveal_with_fuel(deck_weight, 12);
    }
    assert(deck_weight(54) == 210) by {
        reveal_with_fuel(deck_weight, 12);
    }
}

/// The cards of the whole deck, in whatever order they lie on one pile, score 70.
pub proof fn lemma_deck_scores_70(cards: Seq<Card>)
    requires
        is_deck(cards),
    ensures
        pile_score(cards) == 70,
{
    lemma_deck_is_complete(cards);
    lemma_pile_score_weights(cards);
    lemma_weight_sum_reordered(cards, full_deck());
    lemma_full_deck_weight();
}

/// Two piles that hold the whole deck between them score 70 together, less one point
/// where a pile ends in two cards that are not both point-bearing.
pub proof fn lemma_split_deck_score(first: Seq<Card>, second: Seq<Card>)
    requires
        is_deck(first + second),
    ensures
        3 * (pile_score(first) + pile_score(second)) == 210 + tail_adjust(first) + tail_adjust(
            second,
        ),
        tail_adjust(first) + tail_adjust(second) == 0 || tail_adjust(first) + tail_adjust(second)
            == -3,
{
    lemma_deck_is_complete(first + second);
    lemma_pile_score_weights(first);
    lemma_pile_score_weights(second);
    lemma_weight_sum_concat(first, second);
    lemma_weight_sum_reordered(first + second, full_deck());
    lemma_full_deck_weight();
}

/// Two piles that hold the whole deck between them score 70 together, provided that
/// their short groups make up for each other: neither pile ends in a short group, or
/// one ends in a single card and the other in two point-bearing cards.
pub proof fn lemma_split_deck_scores_70(first: Seq<Card>, second: Seq<Card>)
    requires
        is_deck(first + second),
        tail_adjust(first) + tail_adjust(second) == 0,
    ensures
        pile_score(first) + pile_score(second) == 70,
{
    lemma_split_deck_score(first, second);
}

} // verus!
