//! Scoring: what the players win or lose once a contract has been played.

use vstd::prelude::*;
use std::collections::HashMap;
use crate::cards::{Card, Pile, HALF_POINTS, NUM_CARDS, TALON_SIZE};
use crate::contracts::Contract;
use crate::counting::pile_score;
use crate::player::{ContractPlayers, Player, PlayerId};

verus! {

/// The scores of the players who score, by their numbers.
pub type PlayerScores = HashMap<PlayerId, i64>;

/// Whether `scores` holds the scores `expected`, for the same players.
pub open spec fn same_scores(scores: Map<PlayerId, i64>, expected: Map<PlayerId, int>) -> bool {
    &&& forall|id: PlayerId| scores.contains_key(id) <==> expected.contains_key(id)
    &&& forall|id: PlayerId| #[trigger] expected.contains_key(id) ==> scores[id] == expected[id]
}

/// The multiple of 5 that is nearest to `score`.
pub open spec fn round_to_five(score: int) -> int {
    5 * ((score + 2) / 5)
}

/// `round_to_five` gives a multiple of 5 that is no more than 2 away. There is one
/// such number only.
pub proof fn lemma_round_to_five(score: int, other: int)
    ensures
        round_to_five(score) % 5 == 0,
        -2 <= score - round_to_five(score) <= 2,
        other % 5 == 0 && -2 <= score - other <= 2 ==> other == round_to_five(score),
{
}

/// 1 for a contract that was won, -1 for one that was lost.
pub open spec fn sign_of(won: bool) -> int {
    if won {
        1
    } else {
        -1
    }
}

/// Whether a pile of `cards` can be scored in machine integers with a contract's
/// value added.
pub open spec fn countable(cards: Seq<Card>) -> bool {
    pile_score(cards) <= usize::MAX && pile_score(cards) + 250 + 2 <= i64::MAX
}

/// The piles of the players `ids` of `players` put together, in the order of `ids`.
pub open spec fn combined_pile(players: Seq<Player>, ids: Seq<int>) -> Seq<Card>
    decreases ids.len(),
{
    if ids.len() == 0 {
        Seq::empty()
    } else {
        combined_pile(players, ids.drop_last()) + players[ids.last()].spec_pile()@
    }
}

/// The scores in which each of the players `ids` of `players` has `score`.
pub open spec fn uniform_scores(players: Seq<Player>, ids: Seq<int>, score: int) -> Map<
    PlayerId,
    int,
>
    decreases ids.len(),
{
    if ids.len() == 0 {
        Map::empty()
    } else {
        uniform_scores(players, ids.drop_last(), score).insert(
            players[ids.last()].spec_id(),
            score,
        )
    }
}

/// Score of a normal contract for each of the players whose piles together are
/// `pile`: the points of the pile and the value of the contract, won with more than
/// half of the points of the deck and lost else, rounded to a multiple of 5.
pub open spec fn normal_score(pile: Seq<Card>, contract: Contract) -> int {
    let points = pile_score(pile);
    round_to_five(sign_of(points > HALF_POINTS) * (points + contract.spec_value()))
}

/// Scores of a normal contract: the players who score put their piles together and
/// have one score.
pub open spec fn normal_scores(playing: &ContractPlayers) -> Map<PlayerId, int> {
    let players = playing.spec_players()@;
    let ids = playing.scoring_ids();
    uniform_scores(players, ids, normal_score(combined_pile(players, ids), playing.spec_contract()))
}

/// What a player has in klop before winners and losers are looked for: the points of
/// their pile, lost.
pub open spec fn klop_raw(player: Player) -> int {
    -(pile_score(player.spec_pile()@) as int)
}

/// What the first `n` of `players` have in klop, by their numbers.
pub open spec fn klop_raw_scores(players: Seq<Player>, n: nat) -> Map<PlayerId, int>
    decreases n,
{
    if n == 0 {
        Map::empty()
    } else {
        klop_raw_scores(players, (n - 1) as nat).insert(
            players[n - 1].spec_id(),
            klop_raw(players[n - 1]),
        )
    }
}

/// Whether a player with `score` has won klop: they have taken no points.
pub open spec fn spec_is_winner(score: int) -> bool {
    score == 0
}

/// Whether a player with `score` has lost klop: they have taken more than half of
/// the points of the deck.
pub open spec fn spec_is_loser(score: int) -> bool {
    score < -HALF_POINTS
}

/// Whether a player with `score` has won or lost klop.
pub open spec fn spec_is_winner_loser(score: int) -> bool {
    spec_is_winner(score) || spec_is_loser(score)
}

/// Whether klop has a winner or a loser among the scores `raw`.
pub open spec fn klop_is_decided(raw: Map<PlayerId, int>) -> bool {
    exists|id: PlayerId| #[trigger] raw.contains_key(id) && spec_is_winner_loser(raw[id])
}

/// Score in klop of a player who has `raw`. Where klop has no winner and no loser,
/// the player has what they lost, rounded to a multiple of 5. Else a winner has the
/// value of klop, a loser has lost it, and any other player has nothing.
pub open spec fn klop_score(raw: int, decided: bool) -> int {
    if !decided {
        round_to_five(raw)
    } else if spec_is_winner(raw) {
        Contract::Klop.spec_value()
    } else if spec_is_loser(raw) {
        -Contract::Klop.spec_value()
    } else {
        0
    }
}

/// Scores of klop: each player's score, for the players whose score is not 0.
pub open spec fn klop_scores(players: Seq<Player>) -> Map<PlayerId, int> {
    let raw = klop_raw_scores(players, players.len());
    let decided = klop_is_decided(raw);
    Map::new(
        |id: PlayerId| raw.contains_key(id) && klop_score(raw[id], decided) != 0,
        |id: PlayerId| klop_score(raw[id], decided),
    )
}

/// Scores of a beggar: the declarer has the value of the contract, won with an empty
/// pile and lost else.
pub open spec fn beggar_scores(playing: &ContractPlayers) -> Map<PlayerId, int> {
    let declarer = playing.spec_declaring_player();
    Map::empty().insert(
        declarer.spec_id(),
        sign_of(declarer.spec_pile()@.len() == 0) * playing.spec_contract().spec_value(),
    )
}

/// Scores of a valat: the declarer has the value of the contract, won with every
/// card that was played on their pile and lost else.
pub open spec fn valat_scores(playing: &ContractPlayers) -> Map<PlayerId, int> {
    let declarer = playing.spec_declaring_player();
    Map::empty().insert(
        declarer.spec_id(),
        sign_of(declarer.spec_pile()@.len() >= NUM_CARDS - TALON_SIZE)
            * playing.spec_contract().spec_value(),
    )
}

/// Scores of the contract that was played.
pub open spec fn contract_scores(playing: &ContractPlayers) -> Map<PlayerId, int> {
    if playing.spec_contract().is_klop() {
        klop_scores(playing.spec_players()@)
    } else if playing.spec_contract().is_beggar() {
        beggar_scores(playing)
    } else if playing.spec_contract().is_valat() {
        valat_scores(playing)
    } else {
        normal_scores(playing)
    }
}

/// Whether the declarer plays alone.
pub open spec fn declarer_is_alone(playing: &ContractPlayers) -> bool {
    playing.spec_declarer() < playing.spec_players()@.len()
        && playing.spec_declaring_player().spec_partner() is None
}

/// Whether every pile of `players` can be scored.
pub open spec fn piles_countable(players: Seq<Player>) -> bool {
    forall|i: int| 0 <= i < players.len() ==> countable((#[trigger] players[i]).spec_pile()@)
}

/// Whether the contract can be scored: the players who score are players of the
/// game, a beggar or valat was played alone, and the piles can be scored in machine
/// integers.
pub open spec fn scorable(playing: &ContractPlayers) -> bool {
    if playing.spec_contract().is_klop() {
        piles_countable(playing.spec_players()@)
    } else if playing.spec_contract().is_beggar() || playing.spec_contract().is_valat() {
        declarer_is_alone(playing)
    } else {
        playing.wf() && countable(
            combined_pile(playing.spec_players()@, playing.scoring_ids()),
        )
    }
}

/// The scores of the players for the contract that was played, for the players
/// whose score is not 0. At least one player scores, unless klop ended without a
/// winner or a loser.
pub fn score(players: &ContractPlayers) -> (scores: PlayerScores)
    requires
        scorable(players),
    ensures
        same_scores(scores@, contract_scores(players)),
        !players.spec_contract().is_klop() || klop_is_decided(
            klop_raw_scores(players.spec_players()@, players.spec_players()@.len()),
        ) ==> exists|id: PlayerId| scores@.contains_key(id),
{
    if players.contract().is_klop() {
        score_klop(players)
    } else if players.contract().is_beggar() {
        score_beggar(players)
    } else if players.contract().is_valat() {
        score_valat(players)
    } else {
        score_normal(players)
    }
}

/// The scores of a normal contract.
pub fn score_normal(players: &ContractPlayers) -> (scores: PlayerScores)
    requires
        !players.spec_contract().is_klop(),
        players.wf(),
        countable(combined_pile(players.spec_players()@, players.scoring_ids())),
    ensures
        same_scores(scores@, normal_scores(players)),
        exists|id: PlayerId| scores@.contains_key(id),
{
    broadcast use vstd::std_specs::hash::group_hash_axioms;

    let contract = players.contract();
    let mut pile = Pile::new();
    let scoring = players.scoring_players();
    let ghost all = players.spec_players()@;
    let ghost ids = players.scoring_ids();
    let n = scoring.len();
    // The piles of the players who score are counted as one.
    let mut i: usize = 0;
    assert(ids.take(0) == Seq::<int>::empty());
    while i < n
        invariant
            n == scoring@.len(),
            n == ids.len(),
            i <= n,
            forall|k: int| 0 <= k < n ==> *(#[trigger] scoring@[k]) == all[ids[k]],
            pile@ == combined_pile(all, ids.take(i as int)),
        decreases n - i,
    {
        pile.add_pile(scoring[i].pile());
        proof {
            assert(ids.take(i as int + 1).drop_last() == ids.take(i as int));
        }
        i += 1;
    }
    assert(ids.take(n as int) == ids);
    let points = pile.score();
    let sign = score_sign(points > HALF_POINTS);
    let sum = points as i64 + contract.value();
    assert(sign * sum == sum || sign * sum == -sum) by (nonlinear_arith)
        requires
            sign == 1 || sign == -1,
    ;
    let rounded = round_score(sign * sum);
    // Each of them has the same score.
    let mut scores: PlayerScores = HashMap::new();
    let mut i: usize = 0;
    while i < n
        invariant
            n == scoring@.len(),
            n == ids.len(),
            i <= n,
            forall|k: int| 0 <= k < n ==> *(#[trigger] scoring@[k]) == all[ids[k]],
            same_scores(scores@, uniform_scores(all, ids.take(i as int), rounded as int)),
            i > 0 ==> scores@.contains_key(all[ids[0]].spec_id()),
        decreases n - i,
    {
        scores.insert(scoring[i].id(), rounded);
        proof {
            assert(ids.take(i as int + 1).drop_last() == ids.take(i as int));
        }
        i += 1;
    }
    assert(n >= 1);
    scores
}

/// The scores of klop.
pub fn score_klop(players: &ContractPlayers) -> (scores: PlayerScores)
    requires
        players.spec_contract().is_klop(),
        piles_countable(players.spec_players()@),
    ensures
        same_scores(scores@, klop_scores(players.spec_players()@)),
        klop_is_decided(
            klop_raw_scores(players.spec_players()@, players.spec_players()@.len()),
        ) ==> exists|id: PlayerId| scores@.contains_key(id),
{
    broadcast use vstd::std_specs::hash::group_hash_axioms;

    let scoring = players.scoring_players();
    let ghost all = players.spec_players()@;
    let n = scoring.len();
    assert(n == all.len());
    // Each player is scored for themselves.
    let mut raw: HashMap<PlayerId, i64> = HashMap::new();
    let mut i: usize = 0;
    while i < n
        invariant
            n == scoring@.len(),
            n == all.len(),
            i <= n,
            piles_countable(all),
            forall|k: int| 0 <= k < n ==> *(#[trigger] scoring@[k]) == all[k],
            same_scores(raw@, klop_raw_scores(all, i as nat)),
        decreases n - i,
    {
        let player = scoring[i];
        assert(countable(all[i as int].spec_pile()@));
        raw.insert(player.id(), -(player.pile().score() as i64));
        i += 1;
    }
    let ghost expected = klop_raw_scores(all, n as nat);
    proof {
        lemma_klop_raw_keys(all, n as nat);
    }
    let mut decided = false;
    let mut i: usize = 0;
    while i < n
        invariant
            n == scoring@.len(),
            n == all.len(),
            i <= n,
            forall|k: int| 0 <= k < n ==> *(#[trigger] scoring@[k]) == all[k],
            same_scores(raw@, expected),
            forall|k: int| 0 <= k < n ==> expected.contains_key((#[trigger] all[k]).spec_id()),
            decided <==> exists|k: int|
                0 <= k < i && spec_is_winner_loser(expected[(#[trigger] all[k]).spec_id()]),
        decreases n - i,
    {
        let id = scoring[i].id();
        assert(expected.contains_key(all[i as int].spec_id()));
        let score = *raw.get(&id).unwrap();
        if is_winner_loser(score) {
            decided = true;
        }
        i += 1;
    }
    proof {
        if klop_is_decided(expected) {
            let id = choose|id: PlayerId| #[trigger]
                expected.contains_key(id) && spec_is_winner_loser(expected[id]);
            let k = choose|k: int| 0 <= k < n && (#[trigger] all[k]).spec_id() == id;
            assert(spec_is_winner_loser(expected[all[k].spec_id()]));
        }
        if decided {
            let k = choose|k: int|
                0 <= k < n && spec_is_winner_loser(expected[(#[trigger] all[k]).spec_id()]);
            assert(expected.contains_key(all[k].spec_id()));
        }
        assert(decided == klop_is_decided(expected));
    }
    let mut scores: PlayerScores = HashMap::new();
    let mut i: usize = 0;
    while i < n
        invariant
            n == scoring@.len(),
            n == all.len(),
            i <= n,
            forall|k: int| 0 <= k < n ==> *(#[trigger] scoring@[k]) == all[k],
            same_scores(raw@, expected),
            forall|k: int| 0 <= k < n ==> expected.contains_key((#[trigger] all[k]).spec_id()),
            forall|k: int|
                0 <= k < n ==> -i64::MAX + 2 <= expected[(#[trigger] all[k]).spec_id()] <= 0,
            decided == klop_is_decided(expected),
            expected == klop_raw_scores(all, n as nat),
            forall|id: PlayerId|
                scores@.contains_key(id) <==> (exists|k: int|
                    0 <= k < i && (#[trigger] all[k]).spec_id() == id) && klop_score(
                    expected[id],
                    decided,
                ) != 0,
            forall|id: PlayerId| #[trigger]
                scores@.contains_key(id) ==> scores@[id] == klop_score(expected[id], decided),
        decreases n - i,
    {
        let id = scoring[i].id();
        assert(expected.contains_key(all[i as int].spec_id()));
        let score = klop_player_score(*raw.get(&id).unwrap(), decided);
        let ghost before = scores@;
        if score != 0 {
            scores.insert(id, score);
        }
        proof {
            assert forall|other: PlayerId|
                scores@.contains_key(other) <==> (exists|k: int|
                    0 <= k < i + 1 && (#[trigger] all[k]).spec_id() == other) && klop_score(
                    expected[other],
                    decided,
                ) != 0 by {
                if before.contains_key(other) {
                    let k = choose|k: int| 0 <= k < i && (#[trigger] all[k]).spec_id() == other;
                    assert(0 <= k < i + 1 && all[k].spec_id() == other);
                }
                if (exists|k: int| 0 <= k < i + 1 && (#[trigger] all[k]).spec_id() == other)
                    && klop_score(expected[other], decided) != 0 {
                    let k = choose|k: int|
                        0 <= k < i + 1 && (#[trigger] all[k]).spec_id() == other;
                    if k < i {
                        assert(before.contains_key(other));
                    } else {
                        assert(other == id);
                    }
                }
                if other == id {
                    assert(all[i as int].spec_id() == other);
                }
            }
        }
        i += 1;
    }
    proof {
        let wanted = klop_scores(all);
        assert forall|id: PlayerId| scores@.contains_key(id) <==> wanted.contains_key(id) by {
            if wanted.contains_key(id) {
                let k = choose|k: int| 0 <= k < n && (#[trigger] all[k]).spec_id() == id;
                assert(0 <= k < n && all[k].spec_id() == id);
            }
        }
        if decided {
            let id = choose|id: PlayerId| #[trigger]
                expected.contains_key(id) && spec_is_winner_loser(expected[id]);
            assert(wanted.contains_key(id));
        }
    }
    scores
}

/// Score in klop of a player who has `raw`, where `decided` tells whether klop has a
/// winner or a loser.
pub fn klop_player_score(raw: i64, decided: bool) -> (score: i64)
    requires
        -i64::MAX + 2 <= raw <= i64::MAX - 2,
    ensures
        score == klop_score(raw as int, decided),
{
    if !decided {
        round_score(raw)
    } else if is_winner(raw) {
        // A winner has the value of klop.
        Contract::Klop.value()
    } else if is_loser(raw) {
        // A loser has lost it.
        -Contract::Klop.value()
    } else {
        0
    }
}

/// The players' numbers are the keys of what they have in klop.
proof fn lemma_klop_raw_keys(players: Seq<Player>, n: nat)
    requires
        n <= players.len(),
        piles_countable(players),
    ensures
        forall|id: PlayerId|
            klop_raw_scores(players, n).contains_key(id) <==> exists|k: int|
                0 <= k < n && (#[trigger] players[k]).spec_id() == id,
        forall|k: int|
            0 <= k < n ==> klop_raw_scores(players, n).contains_key(
                (#[trigger] players[k]).spec_id(),
            ),
        forall|id: PlayerId|
            klop_raw_scores(players, n).contains_key(id) ==> -i64::MAX + 2 <= (
            #[trigger] klop_raw_scores(players, n)[id]) <= 0,
    decreases n,
{
    if n > 0 {
        lemma_klop_raw_keys(players, (n - 1) as nat);
        let shorter = klop_raw_scores(players, (n - 1) as nat);
        let longer = klop_raw_scores(players, n);
        let last = players[n - 1];
        assert(countable(last.spec_pile()@));
        assert forall|id: PlayerId|
            longer.contains_key(id) <==> exists|k: int|
                0 <= k < n && (#[trigger] players[k]).spec_id() == id by {
            if shorter.contains_key(id) {
                let k = choose|k: int| 0 <= k < n - 1 && (#[trigger] players[k]).spec_id() == id;
                assert(0 <= k < n && players[k].spec_id() == id);
            }
            if id == last.spec_id() {
                assert(players[n - 1].spec_id() == id);
            }
            if exists|k: int| 0 <= k < n && (#[trigger] players[k]).spec_id() == id {
                let k = choose|k: int| 0 <= k < n && (#[trigger] players[k]).spec_id() == id;
                if k < n - 1 {
                    assert(shorter.contains_key(id));
                }
            }
        }
    }
}

/// Whether a player with `score` has won or lost klop.
pub fn is_winner_loser(score: i64) -> (b: bool)
    ensures
        b == spec_is_winner_loser(score as int),
{
    is_winner(score) || is_loser(score)
}

/// Whether a player with `score` has won klop: they have taken no points.
pub fn is_winner(score: i64) -> (b: bool)
    ensures
        b == spec_is_winner(score as int),
{
    score == 0
}

/// Whether a player with `score` has lost klop: they have taken more than half of
/// the points of the deck.
pub fn is_loser(score: i64) -> (b: bool)
    ensures
        b == spec_is_loser(score as int),
{
    score < -(HALF_POINTS as i64)
}

/// The scores of a beggar.
pub fn score_beggar(players: &ContractPlayers) -> (scores: PlayerScores)
    requires
        !players.spec_contract().is_klop(),
        declarer_is_alone(players),
    ensures
        same_scores(scores@, beggar_scores(players)),
        exists|id: PlayerId| scores@.contains_key(id),
{
    broadcast use vstd::std_specs::hash::group_hash_axioms;

    let contract = players.contract();
    let mut scores: PlayerScores = HashMap::new();
    let scoring = players.scoring_players();
    let score = score_sign(scoring[0].pile().is_empty()) * contract.value();
    scores.insert(scoring[0].id(), score);
    assert(scores@.contains_key(scoring@[0].spec_id()));
    scores
}

/// The scores of a valat.
pub fn score_valat(players: &ContractPlayers) -> (scores: PlayerScores)
    requires
        !players.spec_contract().is_klop(),
        declarer_is_alone(players),
    ensures
        same_scores(scores@, valat_scores(players)),
        exists|id: PlayerId| scores@.contains_key(id),
{
    broadcast use vstd::std_specs::hash::group_hash_axioms;

    let contract = players.contract();
    let mut scores: PlayerScores = HashMap::new();
    let scoring = players.scoring_players();
    let score = score_sign(scoring[0].pile().size() >= NUM_CARDS - TALON_SIZE) * contract.value();
    scores.insert(scoring[0].id(), score);
    assert(scores@.contains_key(scoring@[0].spec_id()));
    scores
}

/// 1 where `won` is set, -1 else.
pub fn score_sign(won: bool) -> (sign: i64)
    ensures
        sign == sign_of(won),
{
    if won {
        1
    } else {
        -1
    }
}

/// The multiple of 5 that is nearest to `score`.
pub fn round_score(score: i64) -> (rounded: i64)
    requires
        -i64::MAX + 2 <= score <= i64::MAX - 2,
    ensures
        rounded == round_to_five(score as int),
{
    if score >= 0 {
        (score + 2) / 5 * 5
    } else {
        -((2 - score) / 5 * 5)
    }
}

} // verus!
