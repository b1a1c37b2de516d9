//! Announcements: before play, each player in turn may announce bonuses.

use vstd::prelude::*;
use crate::bonuses::{BonusType, bonus_is_valid, valid_bonuses};
use crate::cards::CardSuit;
use crate::player::{Player, PlayerId, PlayerTurn};

verus! {

/// What follows an announcement or a pass.
#[derive(Clone, Copy, Debug, PartialEq, Eq, Structural)]
pub enum Success {
    /// All players have spoken.
    Last,
    /// The announcements go on with this player.
    Next(PlayerId),
}

/// Why an announcement or a pass was refused.
#[derive(Clone, Copy, Debug, PartialEq, Eq, Structural)]
pub enum AnnounceError {
    Done,
    NotPlayersTurn,
    InvalidBonus,
}

/// Number of players that `Announcements` is for.
pub const NUM_PLAYERS: usize = 4;

/// The announcements of four players, who speak in turn, the declarer first.
pub struct Announcements {
    turn: PlayerTurn,
    done: bool,
    king: Option<CardSuit>,
}

/// Whether a player who holds `hand` may announce all of `bonuses` where the king of
/// `king` was called.
pub open spec fn bonuses_are_valid(
    hand: Set<crate::cards::Card>,
    king: Option<CardSuit>,
    bonuses: Seq<BonusType>,
) -> bool {
    forall|i: int| 0 <= i < bonuses.len() ==> bonus_is_valid(hand, king, #[trigger] bonuses[i])
}

impl Announcements {
    /// The players who have not spoken yet, and whose turn it is.
    pub closed spec fn spec_turn(&self) -> PlayerTurn {
        self.turn
    }

    /// Whether all players have spoken.
    pub closed spec fn spec_is_done(&self) -> bool {
        self.done
    }

    /// Suit of the king that was called, if one was.
    pub closed spec fn spec_king(&self) -> Option<CardSuit> {
        self.king
    }

    /// The turns are those of four players.
    pub open spec fn wf(&self) -> bool {
        &&& self.spec_turn().wf()
        &&& self.spec_turn().spec_num_players() == NUM_PLAYERS
    }

    /// The player whose turn it is.
    pub open spec fn spec_current_player(&self) -> PlayerId {
        self.spec_turn().spec_current()
    }

    /// Why an announcement or a pass of the player with the number `player` is
    /// refused before the bonuses are looked at, if it is.
    pub open spec fn turn_error(&self, player: PlayerId) -> Option<AnnounceError> {
        if self.spec_is_done() {
            Some(AnnounceError::Done)
        } else if self.spec_current_player() != player {
            Some(AnnounceError::NotPlayersTurn)
        } else {
            None
        }
    }

    /// Whether `after` is what follows `self` once the player whose turn it is has
    /// spoken, with `success` as the answer: the player leaves the roster and the next
    /// one speaks, or all have spoken.
    pub open spec fn spoken(&self, after: &Announcements, success: Success) -> bool {
        let len = self.spec_turn().roster().len() as int;
        &&& after.spec_king() == self.spec_king()
        &&& if len > 1 {
            &&& !after.spec_is_done()
            &&& after.spec_turn().roster() == self.spec_turn().roster().remove(
                self.spec_turn().cursor(),
            )
            &&& after.spec_turn().cursor() == self.spec_turn().cursor() % (len - 1)
            &&& success == Success::Next(after.spec_current_player())
        } else {
            &&& after.spec_is_done()
            &&& after.spec_turn() == self.spec_turn()
            &&& success == Success::Last
        }
    }

    /// The announcements for a contract without a called king, which `declarer` has
    /// declared.
    pub fn new(declarer: &Player) -> (announcements: Announcements)
        requires
            declarer.spec_id() < NUM_PLAYERS,
        ensures
            announcements.wf(),
            !announcements.spec_is_done(),
            announcements.spec_king() == None::<CardSuit>,
            announcements.spec_turn().roster() == Seq::new(4, |i: int| i as PlayerId),
            announcements.spec_current_player() == declarer.spec_id(),
    {
        Announcements {
            turn: PlayerTurn::start_with(NUM_PLAYERS, declarer.id()),
            done: false,
            king: None,
        }
    }

    /// The announcements for a contract which `declarer` has declared, calling the
    /// king of `king`.
    pub fn with_king(declarer: &Player, king: CardSuit) -> (announcements: Announcements)
        requires
            declarer.spec_id() < NUM_PLAYERS,
        ensures
            announcements.wf(),
            !announcements.spec_is_done(),
            announcements.spec_king() == Some(king),
            announcements.spec_turn().roster() == Seq::new(4, |i: int| i as PlayerId),
            announcements.spec_current_player() == declarer.spec_id(),
    {
        let mut ann = Announcements::new(declarer);
        ann.king = Some(king);
        ann
    }

    /// The player whose turn it is.
    pub fn current_player(&self) -> (player: PlayerId)
        requires
            self.wf(),
        ensures
            player == self.spec_current_player(),
    {
        *self.turn.current()
    }

    /// `player` announces `bonuses`.
    pub fn announce(&mut self, player: &Player, bonuses: &[BonusType]) -> (result: Result<
        Success,
        AnnounceError,
    >)
        requires
            old(self).wf(),
        ensures
            final(self).wf(),
            old(self).turn_error(player.spec_id()) matches Some(error) ==> result == Err::<
                Success,
                AnnounceError,
            >(error) && *final(self) == *old(self),
            old(self).turn_error(player.spec_id()) is None && !bonuses_are_valid(
                player.spec_hand()@,
                old(self).spec_king(),
                bonuses@,
            ) ==> result == Err::<Success, AnnounceError>(AnnounceError::InvalidBonus)
                && *final(self) == *old(self),
            old(self).turn_error(player.spec_id()) is None && bonuses_are_valid(
                player.spec_hand()@,
                old(self).spec_king(),
                bonuses@,
            ) ==> result is Ok && old(self).spoken(final(self), result->Ok_0),
    {
        if self.is_done() {
            Err(AnnounceError::Done)
        } else if *self.turn.current() != player.id() {
            Err(AnnounceError::NotPlayersTurn)
        } else if !check_bonuses_valid(player, bonuses, self.king) {
            Err(AnnounceError::InvalidBonus)
        } else {
            Ok(self.next_player())
        }
    }

    /// `player` announces nothing.
    pub fn pass(&mut self, player: &Player) -> (result: Result<Success, AnnounceError>)
        requires
            old(self).wf(),
        ensures
            final(self).wf(),
            old(self).turn_error(player.spec_id()) matches Some(error) ==> result == Err::<
                Success,
                AnnounceError,
            >(error) && *final(self) == *old(self),
            old(self).turn_error(player.spec_id()) is None ==> result is Ok && old(self).spoken(
                final(self),
                result->Ok_0,
            ),
    {
        if self.is_done() {
            Err(AnnounceError::Done)
        } else if *self.turn.current() != player.id() {
            Err(AnnounceError::NotPlayersTurn)
        } else {
            Ok(self.next_player())
        }
    }

    /// Moves the turn on once a player has spoken.
    fn next_player(&mut self) -> (success: Success)
        requires
            old(self).wf(),
            !old(self).spec_is_done(),
        ensures
            final(self).wf(),
            old(self).spoken(final(self), success),
    {
        if self.turn.current_players() > 1 {
            self.turn.remove();
            Success::Next(*self.turn.current())
        } else {
            self.done = true;
            Success::Last
        }
    }

    /// Whether all players have spoken.
    #[verifier::when_used_as_spec(spec_is_done)]
    pub fn is_done(&self) -> (done: bool)
        ensures
            done == self.spec_is_done(),
    {
        self.done
    }
}

/// Whether `player` may announce all of `bonuses` where the king of `king` was
/// called.
pub fn check_bonuses_valid(
    player: &Player,
    bonuses: &[BonusType],
    king: Option<CardSuit>,
) -> (valid: bool)
    ensures
        valid == bonuses_are_valid(player.spec_hand()@, king, bonuses@),
{
    let allowed = valid_bonuses(player, king);
    let n = bonuses.len();
    let mut i: usize = 0;
    while i < n
        invariant
            n == bonuses@.len(),
            i <= n,
            forall|bonus: BonusType|
                allowed@.contains(bonus) <==> bonus_is_valid(player.spec_hand()@, king, bonus),
            forall|k: int|
                0 <= k < i ==> bonus_is_valid(player.spec_hand()@, king, #[trigger] bonuses@[k]),
        decreases n - i,
    {
        let bonus = bonuses[i];
        let m = allowed.len();
        let mut found = false;
        let mut j: usize = 0;
        while j < m && !found
            invariant
                m == allowed@.len(),
                j <= m,
                found ==> allowed@.contains(bonus),
                !found ==> forall|k: int| 0 <= k < j ==> allowed@[k] != bonus,
            decreases m - j + if found { 0int } else { 1int },
        {
            if allowed[j] == bonus {
                found = true;
            } else {
                j += 1;
            }
        }
        if !found {
            assert(!allowed@.contains(bonus));
            assert(!bonus_is_valid(player.spec_hand()@, king, bonuses@[i as int]));
            return false;
        }
        i += 1;
    }
    true
}

} // verus!
