//! Bidding: the players bid for the contract that will be played.
//!
//! The player behind the dealer, the forehand, holds the lowest contract from the
//! start and speaks last. A player who passes is out of the bidding. The bidding is
//! done when one player is left and has bid.

use vstd::prelude::*;
use crate::contracts::{Contract, ContractType};
use crate::player::{PlayerId, PlayerTurn, next_cursor};

verus! {

/// What follows a bid or a pass.
#[derive(Clone, Copy, Debug, PartialEq, Eq, Structural)]
pub enum Success {
    /// The bidding goes on with this player.
    Next(PlayerId),
    /// The bidding is done.
    Last,
}

/// Why a bid or a pass was refused.
#[derive(Clone, Copy, Debug, PartialEq, Eq, Structural)]
pub enum BidError {
    NotPlayersTurn,
    ContractTooLow,
    InvalidContract,
    MustBid,
    Done,
}

/// The bidding of a game, whatever the number of players.
pub trait Bidding: Sized {
    /// What every bidding keeps true of itself.
    spec fn wf(&self) -> bool;

    /// Whether the bidding is done.
    spec fn spec_is_done(&self) -> bool;

    /// The player whose turn it is to bid.
    spec fn spec_current_player(&self) -> PlayerId;

    /// The highest bid so far.
    spec fn spec_current_bid(&self) -> Bid;

    /// Why the bid of `contract` by `player` is refused, if it is.
    spec fn bid_error(&self, player: PlayerId, contract: Contract) -> Option<BidError>;

    /// Why `player` may not pass, if that is so.
    spec fn pass_error(&self, player: PlayerId) -> Option<BidError>;

    /// The player whose turn it is to bid.
    fn current_player(&self) -> (player: &PlayerId)
        requires
            self.wf(),
        ensures
            *player == self.spec_current_player(),
    ;

    /// `player` bids `contract`. The bid is taken unless `bid_error` gives a reason
    /// to refuse it. A bid that is refused changes nothing. One that is taken is the
    /// highest bid from then on.
    fn bid(&mut self, player: &PlayerId, contract: Contract) -> (result: Result<Success, BidError>)
        requires
            old(self).wf(),
        ensures
            final(self).wf(),
            old(self).bid_error(*player, contract) matches Some(error) ==> result == Err::<
                Success,
                BidError,
            >(error),
            old(self).bid_error(*player, contract) is None ==> result is Ok,
            old(self).spec_is_done() ==> result == Err::<Success, BidError>(BidError::Done),
            !old(self).spec_is_done() && *player != old(self).spec_current_player() ==> result
                == Err::<Success, BidError>(BidError::NotPlayersTurn),
            result is Err ==> *final(self) == *old(self),
            result is Ok ==> final(self).spec_current_bid().spec_player() == *player,
            result is Ok ==> final(self).spec_current_bid().spec_contract() == contract,
            result is Ok ==> result == if final(self).spec_is_done() {
                Ok::<Success, BidError>(Success::Last)
            } else {
                Ok::<Success, BidError>(Success::Next(final(self).spec_current_player()))
            },
    ;

    /// `player` passes. The pass is taken unless `pass_error` gives a reason to
    /// refuse it. A pass that is refused changes nothing. One that is taken leaves
    /// the highest bid as it is.
    fn pass(&mut self, player: &PlayerId) -> (result: Result<Success, BidError>)
        requires
            old(self).wf(),
        ensures
            final(self).wf(),
            old(self).pass_error(*player) matches Some(error) ==> result == Err::<
                Success,
                BidError,
            >(error),
            old(self).pass_error(*player) is None ==> result is Ok,
            old(self).spec_is_done() ==> result == Err::<Success, BidError>(BidError::Done),
            !old(self).spec_is_done() && *player != old(self).spec_current_player() ==> result
                == Err::<Success, BidError>(BidError::NotPlayersTurn),
            result is Err ==> *final(self) == *old(self),
            result is Ok ==> final(self).spec_current_bid() == old(self).spec_current_bid(),
            result is Ok ==> result == if final(self).spec_is_done() {
                Ok::<Success, BidError>(Success::Last)
            } else {
                Ok::<Success, BidError>(Success::Next(final(self).spec_current_player()))
            },
    ;

    /// Whether the bidding is done.
    fn is_done(&self) -> (done: bool)
        ensures
            done == self.spec_is_done(),
    ;

    /// The bid that won, once the bidding is done.
    fn winner(&self) -> (bid: Option<Bid>)
        ensures
            bid == if self.spec_is_done() {
                Some(self.spec_current_bid())
            } else {
                None
            },
    ;
}

/// The bid of a player.
#[derive(Clone, Copy, Debug, PartialEq, Eq, Structural)]
pub struct Bid {
    player: PlayerId,
    player_priority: usize,
    contract: Contract,
}

impl Bid {
    /// The player who made the bid.
    pub closed spec fn spec_player(&self) -> PlayerId {
        self.player
    }

    /// Rank of the bidder: 0 for the forehand, 1 for the player behind, and so on
    /// round the table.
    pub closed spec fn priority(&self) -> usize {
        self.player_priority
    }

    /// The contract that was bid.
    pub closed spec fn spec_contract(&self) -> Contract {
        self.contract
    }

    /// Whether this is the bid of `contract` by `player`, whose rank is `priority`.
    pub open spec fn is_bid_of(&self, player: PlayerId, priority: int, contract: Contract) -> bool {
        &&& self.spec_player() == player
        &&& self.priority() == priority
        &&& self.spec_contract() == contract
    }

    /// The bid of `contract` by `player`, whose rank is `priority`.
    pub fn new(player: PlayerId, priority: usize, contract: Contract) -> (bid: Bid)
        ensures
            bid.is_bid_of(player, priority as int, contract),
    {
        Bid { player: player, player_priority: priority, contract: contract }
    }

    /// The contract that was bid.
    #[verifier::when_used_as_spec(spec_contract)]
    pub fn contract(&self) -> (contract: Contract)
        ensures
            contract == self.spec_contract(),
    {
        self.contract
    }

    /// The player who made the bid.
    #[verifier::when_used_as_spec(spec_player)]
    pub fn player(&self) -> (player: PlayerId)
        ensures
            player == self.spec_player(),
    {
        self.player
    }
}

/// The contract that the forehand holds before anyone has bid.
pub open spec fn default_contract() -> Contract {
    Contract::Standard(ContractType::Three)
}

/// Number of players that `Bidder` is for.
pub const NUM_PLAYERS: usize = 4;

/// Rank of `player` among `num_players` players where the turns began with `first`:
/// the player behind `first` has rank 0, the next one rank 1, and `first` the last
/// rank.
pub open spec fn priority_rank(first: int, player: int, num_players: int) -> int {
    (player - first + num_players - 1) % num_players
}

/// Whether a bid of `contract` by a bidder of the rank `rank` may take the place of
/// the bid of `held` by a bidder of the rank `holder`: a bidder whose rank is no
/// later than that of the holder must bid a contract of a higher value, a bidder of
/// a later rank may bid a contract of the same value or more.
pub open spec fn outbids(rank: int, contract: Contract, holder: int, held: Contract) -> bool {
    if rank <= holder {
        contract.spec_value() > held.spec_value()
    } else {
        contract.spec_value() >= held.spec_value()
    }
}

/// Whether the bid `wanted` may take the place of the bid `highest`.
pub open spec fn bid_is_valid(highest: &Bid, wanted: &Bid) -> bool {
    outbids(
        wanted.priority() as int,
        wanted.spec_contract(),
        highest.priority() as int,
        highest.spec_contract(),
    )
}

/// The bidding of four players.
pub struct Bidder {
    forehand: PlayerId,
    done: bool,
    highest: Bid,
    turn: PlayerTurn,
}

impl Bidder {
    /// The player behind the dealer.
    pub closed spec fn spec_forehand(&self) -> PlayerId {
        self.forehand
    }

    /// The players who are still bidding, and whose turn it is.
    pub closed spec fn spec_turn(&self) -> PlayerTurn {
        self.turn
    }

    /// The player who dealt, with whom the turns began.
    pub open spec fn spec_dealer(&self) -> PlayerId {
        self.spec_turn().spec_started_with()
    }

    /// Whether `player` is the forehand and the highest bid is of the lowest
    /// contract.
    pub open spec fn spec_has_no_bets(&self, player: PlayerId) -> bool {
        self.spec_forehand() == player && self.spec_current_bid().spec_contract()
            == default_contract()
    }

    /// Rank of `player` in this bidding.
    pub open spec fn rank_of(&self, player: PlayerId) -> int {
        priority_rank(self.spec_dealer() as int, player as int, NUM_PLAYERS as int)
    }

    /// The bidding of four players of whom `dealer` has dealt. The forehand holds the
    /// lowest contract, and the turn is with the player behind the forehand.
    pub fn new(dealer: PlayerId) -> (bidder: Bidder)
        requires
            dealer < NUM_PLAYERS,
        ensures
            bidder.wf(),
            !bidder.spec_is_done(),
            bidder.spec_dealer() == dealer,
            bidder.spec_forehand() == (dealer + 1) % 4,
            bidder.spec_current_bid().is_bid_of(bidder.spec_forehand(), 0, default_contract()),
            bidder.spec_turn().roster() == Seq::new(4, |i: int| i as PlayerId),
            bidder.spec_turn().spec_current() == (dealer + 2) % 4,
    {
        let mut turn = PlayerTurn::start_with(NUM_PLAYERS, dealer);
        // The dealer speaks last.
        turn.next();
        let forehand = *turn.current();
        let highest_bid = Bid::new(
            forehand,
            player_priority(&turn, &forehand),
            Contract::Standard(ContractType::Three),
        );
        // The forehand holds a bid already and speaks after the others.
        turn.next();
        Bidder { forehand: forehand, done: false, highest: highest_bid, turn: turn }
    }

    /// The highest bid so far.
    pub fn current_bid(&self) -> (bid: &Bid)
        ensures
            *bid == self.spec_current_bid(),
    {
        &self.highest
    }

    /// Whether `player` is the forehand and the highest bid is of the lowest
    /// contract.
    pub fn has_no_bets(&self, player: &PlayerId) -> (b: bool)
        ensures
            b == self.spec_has_no_bets(*player),
    {
        self.forehand == *player && self.highest.contract() == Contract::Standard(
            ContractType::Three,
        )
    }

    /// Moves the turn on after a bid or a pass. Where one bidder only is left, the
    /// bidding is done. Else the turn goes to the next bidder, and the bidder whose
    /// turn it was leaves where `leave` is set.
    fn next_player(&mut self, leave: bool) -> (success: Success)
        requires
            old(self).wf(),
        ensures
            final(self).wf(),
            final(self).spec_forehand() == old(self).spec_forehand(),
            final(self).spec_current_bid() == old(self).spec_current_bid(),
            final(self).spec_dealer() == old(self).spec_dealer(),
            old(self).spec_turn().roster().len() == 1 ==> success == Success::Last
                && final(self).spec_is_done() && final(self).spec_turn() == old(self).spec_turn(),
            old(self).spec_turn().roster().len() > 1 ==> success == Success::Next(
                final(self).spec_turn().spec_current(),
            ) && final(self).spec_is_done() == old(self).spec_is_done() && turn_moved(
                &old(self).spec_turn(),
                &final(self).spec_turn(),
                leave,
            ),
    {
        if self.turn.current_players() == 1 {
            self.done = true;
            Success::Last
        } else if leave {
            Success::Next(*self.turn.remove())
        } else {
            Success::Next(*self.turn.next())
        }
    }
}

/// Whether the turn `after` is the turn `before` moved on by one bidder, who has left
/// the roster where `leave` is set.
pub open spec fn turn_moved(before: &PlayerTurn, after: &PlayerTurn, leave: bool) -> bool {
    let len = before.roster().len() as int;
    if leave {
        after.roster() == before.roster().remove(before.cursor()) && after.cursor()
            == before.cursor() % (len - 1)
    } else {
        after.roster() == before.roster() && after.cursor() == next_cursor(len, before.cursor())
    }
}

impl Bidding for Bidder {
    /// The turns are those of four players, and the forehand sits behind the dealer.
    open spec fn wf(&self) -> bool {
        &&& self.spec_turn().wf()
        &&& self.spec_turn().spec_num_players() == NUM_PLAYERS
        &&& self.spec_forehand() == (self.spec_dealer() + 1) % 4
    }

    closed spec fn spec_is_done(&self) -> bool {
        self.done
    }

    open spec fn spec_current_player(&self) -> PlayerId {
        self.spec_turn().spec_current()
    }

    closed spec fn spec_current_bid(&self) -> Bid {
        self.highest
    }

    open spec fn bid_error(&self, player: PlayerId, contract: Contract) -> Option<BidError> {
        if self.spec_is_done() {
            Some(BidError::Done)
        } else if self.spec_turn().spec_current() != player {
            Some(BidError::NotPlayersTurn)
        } else if contract.is_klop() && !self.spec_has_no_bets(player) {
            Some(BidError::InvalidContract)
        } else if !outbids(
            self.rank_of(player),
            contract,
            self.spec_current_bid().priority() as int,
            self.spec_current_bid().spec_contract(),
        ) {
            Some(BidError::ContractTooLow)
        } else {
            None
        }
    }

    open spec fn pass_error(&self, player: PlayerId) -> Option<BidError> {
        if self.spec_is_done() {
            Some(BidError::Done)
        } else if self.spec_turn().spec_current() != player {
            Some(BidError::NotPlayersTurn)
        } else if self.spec_has_no_bets(player) || self.spec_turn().roster().len() == 1 {
            Some(BidError::MustBid)
        } else {
            None
        }
    }

    fn current_player(&self) -> (player: &PlayerId) {
        self.turn.current()
    }

    fn bid(&mut self, player: &PlayerId, contract: Contract) -> (result: Result<Success, BidError>)
        ensures
            old(self).bid_error(*player, contract) is None ==> {
                &&& final(self).spec_current_bid().is_bid_of(
                    *player,
                    old(self).rank_of(*player),
                    contract,
                )
                &&& final(self).spec_forehand() == old(self).spec_forehand()
                &&& final(self).spec_dealer() == old(self).spec_dealer()
                &&& if old(self).spec_turn().roster().len() == 1 {
                    &&& result == Ok::<Success, BidError>(Success::Last)
                    &&& final(self).spec_is_done()
                    &&& final(self).spec_turn() == old(self).spec_turn()
                } else {
                    &&& result == Ok::<Success, BidError>(
                        Success::Next(final(self).spec_turn().spec_current()),
                    )
                    &&& !final(self).spec_is_done()
                    &&& turn_moved(&old(self).spec_turn(), &final(self).spec_turn(), false)
                }
            },
    {
        if self.is_done() {
            return Err(BidError::Done);
        }
        if *self.turn.current() != *player {
            return Err(BidError::NotPlayersTurn);
        }
        if contract.is_klop() && !self.has_no_bets(player) {
            // Only the forehand may bid klop, and only while no one has bid more than
            // the lowest contract.
            return Err(BidError::InvalidContract);
        }
        let bid = Bid::new(*player, player_priority(&self.turn, player), contract);
        if !is_bid_valid(&self.highest, &bid) {
            return Err(BidError::ContractTooLow);
        }
        self.highest = bid;
        Ok(self.next_player(false))
    }

    fn pass(&mut self, player: &PlayerId) -> (result: Result<Success, BidError>)
        ensures
            old(self).pass_error(*player) is None ==> {
                &&& result == Ok::<Success, BidError>(
                    Success::Next(final(self).spec_turn().spec_current()),
                )
                &&& final(self).spec_current_bid() == old(self).spec_current_bid()
                &&& final(self).spec_forehand() == old(self).spec_forehand()
                &&& final(self).spec_dealer() == old(self).spec_dealer()
                &&& !final(self).spec_is_done()
                &&& turn_moved(&old(self).spec_turn(), &final(self).spec_turn(), true)
            },
    {
        if self.is_done() {
            return Err(BidError::Done);
        }
        if *self.turn.current() != *player {
            return Err(BidError::NotPlayersTurn);
        }
        if self.has_no_bets(player) || self.turn.current_players() == 1 {
            // The forehand must bid while no one has bid more than the lowest
            // contract, and so must the last bidder.
            return Err(BidError::MustBid);
        }
        // A player who passes is out of the bidding.
        Ok(self.next_player(true))
    }

    fn is_done(&self) -> (done: bool) {
        self.done
    }

    fn winner(&self) -> (bid: Option<Bid>) {
        if self.is_done() {
            Some(self.highest)
        } else {
            None
        }
    }
}

/// Rank of `player` in the bidding whose turns are `turn`.
pub fn player_priority(turn: &PlayerTurn, player: &PlayerId) -> (rank: usize)
    requires
        turn.wf(),
        *player < turn.spec_num_players(),
    ensures
        rank == priority_rank(
            turn.spec_started_with() as int,
            *player as int,
            turn.spec_num_players() as int,
        ),
        rank < turn.spec_num_players(),
{
    let n = turn.num_players();
    let first = *turn.started_with();
    let behind = if *player >= first {
        (*player - first) as usize
    } else {
        n - ((first - *player) as usize)
    };
    proof {
        let m = n as int;
        let d = *player - first;
        if d >= 0 {
            if d == 0 {
                vstd::arithmetic::div_mod::lemma_small_mod((m - 1) as nat, m as nat);
            } else {
                vstd::arithmetic::div_mod::lemma_mod_add_multiples_vanish(d - 1, m);
                vstd::arithmetic::div_mod::lemma_small_mod((d - 1) as nat, m as nat);
            }
        } else {
            vstd::arithmetic::div_mod::lemma_small_mod((d + m - 1) as nat, m as nat);
        }
    }
    if behind == 0 {
        n - 1
    } else {
        behind - 1
    }
}

/// Whether the bid `wanted` may take the place of the bid `highest`.
pub fn is_bid_valid(highest: &Bid, wanted: &Bid) -> (valid: bool)
    ensures
        valid == bid_is_valid(highest, wanted),
{
    if wanted.player_priority <= highest.player_priority {
        wanted.contract > highest.contract
    } else {
        wanted.contract >= highest.contract
    }
}

} // verus!
