//! The play of a contract, card by card and trick by trick.

use vstd::prelude::*;
use crate::cards::{Card, CardSuit, Trick, NUM_CARDS};
use crate::contracts::{
    Contract, ContractType, WinnerStrategy, standard_allows, standard_move_validator, winner_index,
};
use crate::player::{Player, PlayerId, PlayerTurn, next_cursor};

verus! {

/// What follows a card that was played.
#[derive(Clone, Copy, Debug, PartialEq, Eq, Structural)]
pub enum Success {
    /// The play goes on with this player.
    Next(PlayerId),
    /// The last card has been played.
    Last,
}

/// Why a card was refused.
#[derive(Clone, Copy, Debug, PartialEq, Eq, Structural)]
pub enum MoveError {
    NotPlayersTurn,
    InvalidCard,
    Done,
}

/// What playing a card gives.
pub type PlayResult = Result<Success, MoveError>;

/// The play of a contract.
pub trait ContractGame: Sized {
    /// What every game keeps true of itself.
    spec fn wf(&self) -> bool;

    /// The contract that is played.
    spec fn spec_contract(&self) -> Contract;

    /// Number of the trick that is played, counted from 1.
    spec fn spec_trick_number(&self) -> usize;

    /// Whether the last trick has been played.
    spec fn spec_is_finished(&self) -> bool;

    /// Number of the player whose turn it is.
    spec fn spec_current(&self) -> PlayerId;

    /// Why `card` is refused where `player` plays it, if it is.
    spec fn play_error(&self, player: PlayerId, card: Card) -> Option<MoveError>;

    /// `player` plays `card`. The card is taken unless `play_error` gives a reason to
    /// refuse it. A card that is refused changes nothing, and once the game is
    /// finished every card is refused.
    fn play_card(&mut self, player: PlayerId, card: Card) -> (result: PlayResult)
        requires
            old(self).wf(),
        ensures
            final(self).wf(),
            old(self).play_error(player, card) matches Some(error) ==> result == Err::<
                Success,
                MoveError,
            >(error),
            old(self).play_error(player, card) is None ==> result is Ok,
            old(self).spec_is_finished() ==> result == Err::<Success, MoveError>(MoveError::Done),
            !old(self).spec_is_finished() && player != old(self).spec_current() ==> result
                == Err::<Success, MoveError>(MoveError::NotPlayersTurn),
            result is Err ==> *final(self) == *old(self),
            result is Ok ==> final(self).spec_contract() == old(self).spec_contract(),
            result is Ok ==> final(self).spec_trick_number() >= old(self).spec_trick_number(),
            result is Ok ==> result == if final(self).spec_is_finished() {
                Ok::<Success, MoveError>(Success::Last)
            } else {
                Ok::<Success, MoveError>(Success::Next(final(self).spec_current()))
            },
    ;

    /// The contract that is played.
    fn contract(&self) -> (contract: Contract)
        ensures
            contract == self.spec_contract(),
    ;

    /// Number of the trick that is played, counted from 1.
    fn trick_number(&self) -> (n: usize)
        ensures
            n == self.spec_trick_number(),
    ;

    /// Whether the last trick has been played.
    fn is_finished(&self) -> (done: bool)
        ensures
            done == self.spec_is_finished(),
    ;
}

/// Number of players that `StandardGame` is for.
pub const NUM_PLAYERS: usize = 4;

/// The play of a standard contract.
pub struct StandardGame {
    players: Vec<Player>,
    contract_type: ContractType,
    called_king: CardSuit,
    trick: Trick,
    turn: PlayerTurn,
    talon: Vec<Card>,
    trick_number: usize,
    done: bool,
}

/// Number of cards that four players hold between them.
pub open spec fn cards_in_hands(players: Seq<Player>) -> nat {
    players[0].spec_hand()@.len() + players[1].spec_hand()@.len() + players[2].spec_hand()@.len()
        + players[3].spec_hand()@.len()
}

/// The player who played the card at position `card_index` of a trick that the
/// player `first` led, among `num_players` players.
pub open spec fn player_index(first: int, card_index: int, num_players: int) -> int {
    (first + card_index) % num_players
}

/// Whether `players` are four players with the numbers 0 to 3, none of whom holds a
/// card twice.
pub open spec fn seated(players: Seq<Player>) -> bool {
    &&& players.len() == 4
    &&& forall|i: int| 0 <= i < 4 ==> (#[trigger] players[i]).spec_id() == i && players[i].wf()
}

/// Whether the players `after` are the players `before` once the player `mover` has
/// played `card` and the player `winner` has put `won` on their pile.
pub open spec fn players_moved(
    before: Seq<Player>,
    after: Seq<Player>,
    mover: int,
    card: Card,
    winner: int,
    won: Seq<Card>,
) -> bool {
    &&& after.len() == 4
    &&& forall|i: int|
        0 <= i < 4 ==> {
            let player = #[trigger] after[i];
            &&& player.spec_id() == before[i].spec_id()
            &&& player.spec_bids() == before[i].spec_bids()
            &&& player.spec_partner() == before[i].spec_partner()
            &&& player.spec_hand()@ == if i == mover {
                before[i].spec_hand()@.remove(card)
            } else {
                before[i].spec_hand()@
            }
            &&& player.spec_pile()@ == if i == winner {
                before[i].spec_pile()@ + won
            } else {
                before[i].spec_pile()@
            }
        }
}

impl StandardGame {
    /// The players by their numbers.
    pub closed spec fn spec_players(&self) -> Seq<Player> {
        self.players@
    }

    /// Tier of the contract.
    pub closed spec fn spec_contract_type(&self) -> ContractType {
        self.contract_type
    }

    /// Suit of the king that was called.
    pub closed spec fn spec_called_king(&self) -> CardSuit {
        self.called_king
    }

    /// The cards played to the trick that is open.
    pub closed spec fn spec_trick(&self) -> Seq<Card> {
        self.trick@
    }

    /// The turns of the trick that is open.
    pub closed spec fn spec_turn(&self) -> PlayerTurn {
        self.turn
    }

    /// What is left of the talon.
    pub closed spec fn spec_talon(&self) -> Seq<Card> {
        self.talon@
    }

    /// Whether `after` is what follows `self` once the player whose turn it is has
    /// played `card`, with `success` as the answer.
    ///
    /// The card leaves the hand for the trick. The fourth card closes the trick:
    /// the cards go to the pile of the player whose card takes it under the standard
    /// strategy, who leads the next trick, unless their hand is empty: then the game
    /// is finished. Before that the turn passes to the next player.
    pub open spec fn played(&self, after: &StandardGame, card: Card, success: Success) -> bool {
        let mover = self.spec_current() as int;
        let trick = self.spec_trick().push(card);
        &&& after.spec_contract_type() == self.spec_contract_type()
        &&& after.spec_called_king() == self.spec_called_king()
        &&& after.spec_talon() == self.spec_talon()
        &&& after.spec_turn().roster() == self.spec_turn().roster()
        &&& if trick.len() == 4 {
            let winner = player_index(
                self.spec_turn().spec_started_with() as int,
                winner_index(trick, WinnerStrategy::Standard),
                4,
            );
            &&& players_moved(self.spec_players(), after.spec_players(), mover, card, winner, trick)
            &&& after.spec_trick() == Seq::<Card>::empty()
            &&& after.spec_trick_number() == self.spec_trick_number() + 1
            &&& after.spec_turn().spec_started_with() == winner
            &&& after.spec_turn().cursor() == winner
            &&& after.spec_is_finished() == (after.spec_players()[winner].spec_hand()@
                == Set::<Card>::empty())
            &&& success == if after.spec_is_finished() {
                Success::Last
            } else {
                Success::Next(winner as PlayerId)
            }
        } else {
            &&& players_moved(self.spec_players(), after.spec_players(), mover, card, -1, trick)
            &&& after.spec_trick() == trick
            &&& after.spec_trick_number() == self.spec_trick_number()
            &&& after.spec_turn().spec_started_with() == self.spec_turn().spec_started_with()
            &&& after.spec_turn().cursor() == next_cursor(4, self.spec_turn().cursor())
            &&& !after.spec_is_finished()
            &&& success == Success::Next(after.spec_current())
        }
    }

    /// The play of the standard contract of the tier `ty` with the called king of
    /// `king`, by `players`. `talon` is what is left of the talon. Player 1 leads the
    /// first trick.
    pub fn new(players: Vec<Player>, ty: ContractType, king: CardSuit, talon: Vec<Card>) -> (game:
        StandardGame)
        requires
            players@.len() == NUM_PLAYERS,
            seated(players@),
        ensures
            game.wf(),
            game.spec_players() == players@,
            game.spec_contract_type() == ty,
            game.spec_called_king() == king,
            game.spec_talon() == talon@,
            game.spec_trick() == Seq::<Card>::empty(),
            game.spec_trick_number() == 1,
            !game.spec_is_finished(),
            game.spec_current() == 1,
            game.spec_turn().spec_started_with() == 1,
    {
        let turn = PlayerTurn::start_with(NUM_PLAYERS, 1);
        proof {
            players@[0].spec_hand().lemma_size_bound();
            players@[1].spec_hand().lemma_size_bound();
            players@[2].spec_hand().lemma_size_bound();
            players@[3].spec_hand().lemma_size_bound();
        }
        StandardGame {
            players: players,
            contract_type: ty,
            called_king: king,
            trick: Trick::empty(),
            turn: turn,
            talon: talon,
            trick_number: 1,
            done: false,
        }
    }

    /// The players by their numbers.
    pub fn players(&self) -> (players: &[Player])
        ensures
            players@ == self.spec_players(),
    {
        self.players.as_slice()
    }

    /// Ends the game and hands the players back.
    pub fn into_players(self) -> (players: Vec<Player>)
        ensures
            players@ == self.spec_players(),
    {
        self.players
    }

    /// The player whose turn it is.
    pub fn current_player(&self) -> (player: &Player)
        requires
            self.wf(),
        ensures
            *player == self.spec_players()[self.spec_current() as int],
    {
        &self.players[*self.turn.current() as usize]
    }

    /// The player whose turn it is plays `card` from their hand to the trick.
    fn lay_card(&mut self, card: Card)
        requires
            old(self).wf(),
            old(self).players@[old(self).spec_current() as int].spec_hand()@.contains(card),
        ensures
            seated(final(self).players@),
            players_moved(
                old(self).players@,
                final(self).players@,
                old(self).spec_current() as int,
                card,
                -1,
                Seq::<Card>::empty(),
            ),
            final(self).trick@ == old(self).trick@.push(card),
            4 * final(self).trick_number + cards_in_hands(final(self).players@) + final(
                self
            ).trick@.len() <= 4 + 4 * NUM_CARDS,
            final(self).contract_type == old(self).contract_type,
            final(self).called_king == old(self).called_king,
            final(self).turn == old(self).turn,
            final(self).talon == old(self).talon,
            final(self).trick_number == old(self).trick_number,
            final(self).done == old(self).done,
    {
        proof {
            self.players@[0].spec_hand().lemma_size_bound();
            self.players@[1].spec_hand().lemma_size_bound();
            self.players@[2].spec_hand().lemma_size_bound();
            self.players@[3].spec_hand().lemma_size_bound();
        }
        self.current_player_mut().hand_mut().remove_card(&card);
        self.trick.add_card(card);
        proof {
            let mover = old(self).spec_current() as int;
            let before = old(self).players@;
            assert(self.players@[mover].spec_hand()@.len() == before[mover].spec_hand()@.len() - 1);
            assert forall|i: int| 0 <= i < 4 && i != mover implies #[trigger] self.players@[i]
                == before[i] by {}
        }
    }

    /// Closes the trick, which four cards have been played to: the cards go to the
    /// pile of the player whose card takes the trick, and that player leads the next
    /// trick, or the game is finished where their hand is empty.
    fn close_trick(&mut self) -> (success: Success)
        requires
            seated(old(self).players@),
            old(self).trick@.len() == 4,
            old(self).turn.wf(),
            old(self).turn.spec_num_players() == 4,
            old(self).turn.roster() == Seq::new(4, |i: int| i as PlayerId),
            old(self).trick_number >= 1,
            4 * old(self).trick_number + cards_in_hands(old(self).players@) <= 4 * NUM_CARDS,
        ensures
            final(self).wf(),
            players_moved(
                old(self).players@,
                final(self).players@,
                -1,
                old(self).trick@[0],
                player_index(
                    old(self).turn.spec_started_with() as int,
                    winner_index(old(self).trick@, WinnerStrategy::Standard),
                    4,
                ),
                old(self).trick@,
            ),
            final(self).trick@ == Seq::<Card>::empty(),
            final(self).trick_number == old(self).trick_number + 1,
            final(self).turn.roster() == old(self).turn.roster(),
            final(self).turn.spec_started_with() == player_index(
                old(self).turn.spec_started_with() as int,
                winner_index(old(self).trick@, WinnerStrategy::Standard),
                4,
            ),
            final(self).turn.cursor() == final(self).turn.spec_started_with(),
            final(self).done == (final(self).players@[final(self).turn.cursor()].spec_hand()@
                == Set::<Card>::empty()),
            success == if final(self).done {
                Success::Last
            } else {
                Success::Next(final(self).turn.spec_started_with())
            },
            final(self).contract_type == old(self).contract_type,
            final(self).called_king == old(self).called_king,
            final(self).talon == old(self).talon,
    {
        let winner = self.trick.winner(WinnerStrategy::Standard);
        let index = to_player_index(&self.turn, winner.card_index);
        let mut trick = Trick::empty();
        std::mem::swap(&mut trick, &mut self.trick);
        self.players[index].pile_mut().add_trick(trick);
        proof {
            let before = old(self).players@;
            assert forall|i: int| 0 <= i < 4 && i != index implies #[trigger] self.players@[i]
                == before[i] by {}
        }
        // The winner leads the next trick.
        self.turn = PlayerTurn::start_with(NUM_PLAYERS, self.players[index].id());
        self.trick_number += 1;
        // The game is finished once the cards are played.
        self.done = self.current_player().hand().is_empty();
        if self.done {
            Success::Last
        } else {
            Success::Next(*self.turn.current())
        }
    }

    /// The player whose turn it is, to change them.
    fn current_player_mut(&mut self) -> (player: &mut Player)
        requires
            old(self).wf(),
        ensures
            *player == old(self).players@[old(self).spec_current() as int],
            final(self).players@ == old(self).players@.update(
                old(self).spec_current() as int,
                *final(player),
            ),
            final(self).contract_type == old(self).contract_type,
            final(self).called_king == old(self).called_king,
            final(self).trick == old(self).trick,
            final(self).turn == old(self).turn,
            final(self).talon == old(self).talon,
            final(self).trick_number == old(self).trick_number,
            final(self).done == old(self).done,
    {
        let index = *self.turn.current() as usize;
        &mut self.players[index]
    }
}

/// How often `player` has `card`: in their hand, and on their pile.
pub open spec fn copies_with(player: Player, card: Card) -> nat {
    player.spec_pile()@.to_multiset().count(card) + if player.spec_hand()@.contains(card) {
        1nat
    } else {
        0nat
    }
}

/// How often `card` is in the game: with the four players, and in the trick.
pub open spec fn copies_in_game(players: Seq<Player>, trick: Seq<Card>, card: Card) -> nat {
    copies_with(players[0], card) + copies_with(players[1], card) + copies_with(players[2], card)
        + copies_with(players[3], card) + trick.to_multiset().count(card)
}

/// Play neither makes nor loses cards: a card that is played goes from the hand to
/// the trick, and the cards of a trick go to a pile.
pub proof fn lemma_play_keeps_cards(
    before: StandardGame,
    after: StandardGame,
    played: Card,
    success: Success,
    card: Card,
)
    requires
        before.wf(),
        before.play_error(before.spec_current(), played) is None,
        before.played(&after, played, success),
    ensures
        copies_in_game(after.spec_players(), after.spec_trick(), card) == copies_in_game(
            before.spec_players(),
            before.spec_trick(),
            card,
        ),
{
    let old_players = before.spec_players();
    let new_players = after.spec_players();
    let mover = before.spec_current() as int;
    let trick = before.spec_trick().push(played);
    vstd::seq_lib::to_multiset_build(before.spec_trick(), played);
    vstd::seq_lib::to_multiset_len(Seq::<Card>::empty());
    assert(Seq::<Card>::empty().to_multiset().count(card) == 0) by {
        vstd::seq_lib::to_multiset_contains(Seq::<Card>::empty(), card);
    }
    assert(0 <= mover < 4);
    let winner = if trick.len() == 4 {
        player_index(
            before.spec_turn().spec_started_with() as int,
            winner_index(trick, WinnerStrategy::Standard),
            4,
        )
    } else {
        -1
    };
    assert forall|i: int| 0 <= i < 4 implies copies_with(#[trigger] new_players[i], card)
        == copies_with(old_players[i], card) - (if i == mover && card == played {
        1int
    } else {
        0int
    }) + (if i == winner {
        trick.to_multiset().count(card) as int
    } else {
        0int
    }) by {
        if i == winner {
            vstd::seq_lib::lemma_multiset_commutative(old_players[i].spec_pile()@, trick);
        }
    }
    assert(copies_with(new_players[0], card) + copies_with(new_players[1], card) + copies_with(
        new_players[2],
        card,
    ) + copies_with(new_players[3], card) + after.spec_trick().to_multiset().count(card)
        == copies_with(old_players[0], card) + copies_with(old_players[1], card) + copies_with(
        old_players[2],
        card,
    ) + copies_with(old_players[3], card) + before.spec_trick().to_multiset().count(card));
}

impl ContractGame for StandardGame {
    /// Four players with the numbers 0 to 3 play, in turn from the one who led the
    /// trick, and the trick that is open holds fewer than four cards.
    open spec fn wf(&self) -> bool {
        &&& seated(self.spec_players())
        &&& self.spec_trick().len() < 4
        &&& self.spec_turn().wf()
        &&& self.spec_turn().spec_num_players() == 4
        &&& self.spec_turn().roster() == Seq::new(4, |i: int| i as PlayerId)
        &&& self.spec_turn().cursor() == player_index(
            self.spec_turn().spec_started_with() as int,
            self.spec_trick().len() as int,
            4,
        )
        &&& self.spec_trick_number() >= 1
        &&& 4 * self.spec_trick_number() + cards_in_hands(self.spec_players())
            + self.spec_trick().len() <= 4 + 4 * NUM_CARDS
    }

    open spec fn spec_contract(&self) -> Contract {
        Contract::Standard(self.spec_contract_type())
    }

    closed spec fn spec_trick_number(&self) -> usize {
        self.trick_number
    }

    closed spec fn spec_is_finished(&self) -> bool {
        self.done
    }

    open spec fn spec_current(&self) -> PlayerId {
        self.spec_turn().spec_current()
    }

    open spec fn play_error(&self, player: PlayerId, card: Card) -> Option<MoveError> {
        let hand = self.spec_players()[player as int].spec_hand()@;
        if self.spec_is_finished() {
            Some(MoveError::Done)
        } else if player != self.spec_current() {
            Some(MoveError::NotPlayersTurn)
        } else if !hand.contains(card) || !standard_allows(hand, self.spec_trick(), card) {
            Some(MoveError::InvalidCard)
        } else {
            None
        }
    }

    fn play_card(&mut self, player: PlayerId, card: Card) -> (result: PlayResult)
        ensures
            old(self).play_error(player, card) is None ==> old(self).played(
                final(self),
                card,
                result->Ok_0,
            ),
    {
        if self.is_finished() {
            return Err(MoveError::Done);
        }
        if player != *self.turn.current() {
            return Err(MoveError::NotPlayersTurn);
        }
        let hand = self.current_player().hand();
        if !hand.has_card(&card) || !standard_move_validator(hand, &self.trick, &card) {
            return Err(MoveError::InvalidCard);
        }
        // The card leaves the hand for the trick.
        self.lay_card(card);
        if self.trick.count() == NUM_PLAYERS {
            // All players have played: the trick is closed.
            Ok(self.close_trick())
        } else {
            Ok(Success::Next(*self.turn.next()))
        }
    }

    fn contract(&self) -> (contract: Contract) {
        Contract::Standard(self.contract_type)
    }

    fn trick_number(&self) -> (n: usize) {
        self.trick_number
    }

    fn is_finished(&self) -> (done: bool) {
        self.done
    }
}

/// The player who played the card at position `card_index` of the trick whose turns
/// are `turn`.
pub fn to_player_index(turn: &PlayerTurn, card_index: usize) -> (index: usize)
    requires
        turn.wf(),
        turn.spec_started_with() + card_index <= usize::MAX,
    ensures
        index == player_index(
            turn.spec_started_with() as int,
            card_index as int,
            turn.spec_num_players() as int,
        ),
        index < turn.spec_num_players(),
{
    (*turn.started_with() as usize + card_index) % turn.num_players()
}

} // verus!
