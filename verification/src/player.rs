//! Players, and the order in which they take their turns.

use vstd::prelude::*;
use crate::bonuses::BonusType;
use crate::cards::{Card, CardDeal, Hand, Pile, Talon};
use crate::contracts::Contract;

verus! {

/// A player is known by a number.
pub type PlayerId = u64;

/// A player with the cards dealt to them and the cards they have won.
#[derive(Clone)]
pub struct Player {
    id: PlayerId,
    hand: Hand,
    bids: Vec<BonusType>,
    pile: Pile,
    partner: Option<PlayerId>,
}

impl Player {
    /// The player's number.
    pub closed spec fn spec_id(&self) -> PlayerId {
        self.id
    }

    /// The player's hand.
    pub closed spec fn spec_hand(&self) -> Hand {
        self.hand
    }

    /// The bonuses the player has announced.
    pub closed spec fn spec_bids(&self) -> Seq<BonusType> {
        self.bids@
    }

    /// The player's pile.
    pub closed spec fn spec_pile(&self) -> Pile {
        self.pile
    }

    /// The player's partner.
    pub closed spec fn spec_partner(&self) -> Option<PlayerId> {
        self.partner
    }

    /// The player's hand holds no card twice.
    pub open spec fn wf(&self) -> bool {
        self.spec_hand().wf()
    }

    /// Whether `other` is this player but for the hand.
    pub open spec fn same_but_hand(&self, other: &Player) -> bool {
        &&& self.spec_id() == other.spec_id()
        &&& self.spec_bids() == other.spec_bids()
        &&& self.spec_pile() == other.spec_pile()
        &&& self.spec_partner() == other.spec_partner()
    }

    /// Whether `other` is this player but for the pile.
    pub open spec fn same_but_pile(&self, other: &Player) -> bool {
        &&& self.spec_id() == other.spec_id()
        &&& self.spec_hand() == other.spec_hand()
        &&& self.spec_bids() == other.spec_bids()
        &&& self.spec_partner() == other.spec_partner()
    }

    /// A player with the number `id` who holds `hand`, has won nothing, announced
    /// nothing and has no partner.
    pub fn new(id: PlayerId, hand: Hand) -> (player: Player)
        ensures
            player.spec_id() == id,
            player.spec_hand() == hand,
            player.spec_bids() == Seq::<BonusType>::empty(),
            player.spec_pile()@ == Seq::<Card>::empty(),
            player.spec_partner() == None::<PlayerId>,
    {
        Player { id: id, hand: hand, bids: Vec::new(), pile: Pile::new(), partner: None }
    }

    /// The player's number.
    #[verifier::when_used_as_spec(spec_id)]
    pub fn id(&self) -> (id: PlayerId)
        ensures
            id == self.spec_id(),
    {
        self.id
    }

    /// The player's hand.
    pub fn hand(&self) -> (hand: &Hand)
        ensures
            *hand == self.spec_hand(),
    {
        &self.hand
    }

    /// The player's hand, to change it.
    pub fn hand_mut(&mut self) -> (hand: &mut Hand)
        ensures
            *hand == old(self).spec_hand(),
            final(self).spec_hand() == *final(hand),
            final(self).same_but_hand(old(self)),
    {
        &mut self.hand
    }

    /// The bonuses the player has announced.
    pub fn bids(&self) -> (bids: &[BonusType])
        ensures
            bids@ == self.spec_bids(),
    {
        self.bids.as_slice()
    }

    /// The player's pile.
    pub fn pile(&self) -> (pile: &Pile)
        ensures
            *pile == self.spec_pile(),
    {
        &self.pile
    }

    /// The player's pile, to change it.
    pub fn pile_mut(&mut self) -> (pile: &mut Pile)
        ensures
            *pile == old(self).spec_pile(),
            final(self).spec_pile() == *final(pile),
            final(self).same_but_pile(old(self)),
    {
        &mut self.pile
    }

    /// Takes the pile from the player, who is left with an empty one.
    pub fn take_pile(&mut self) -> (pile: Pile)
        ensures
            pile == old(self).spec_pile(),
            final(self).spec_pile()@ == Seq::<Card>::empty(),
            final(self).same_but_pile(old(self)),
    {
        let mut pile = Pile::new();
        std::mem::swap(&mut pile, &mut self.pile);
        pile
    }

    /// The player's partner.
    #[verifier::when_used_as_spec(spec_partner)]
    pub fn partner(&self) -> (partner: Option<PlayerId>)
        ensures
            partner == self.spec_partner(),
    {
        self.partner
    }

    /// Makes `id` the player's partner.
    pub fn set_partner(&mut self, id: PlayerId)
        ensures
            final(self).spec_partner() == Some(id),
            final(self).spec_id() == old(self).spec_id(),
            final(self).spec_hand() == old(self).spec_hand(),
            final(self).spec_bids() == old(self).spec_bids(),
            final(self).spec_pile() == old(self).spec_pile(),
    {
        self.partner = Some(id);
    }
}

/// The players of a game.
pub struct Players {
    players: Vec<Player>,
    dealer: usize,
}

impl Players {
    /// The players by their numbers.
    pub closed spec fn view(&self) -> Seq<Player> {
        self.players@
    }

    /// Number of the player who deals.
    pub closed spec fn spec_dealer(&self) -> usize {
        self.dealer
    }

    /// `n` players numbered from 0, without cards. Player 0 deals first.
    pub fn new(n: usize) -> (players: Players)
        ensures
            players@.len() == n,
            players.spec_dealer() == 0,
            forall|i: int|
                0 <= i < n ==> {
                    let player = #[trigger] players@[i];
                    &&& player.spec_id() == i
                    &&& player.wf()
                    &&& player.spec_hand()@ == Set::<Card>::empty()
                    &&& player.spec_bids() == Seq::<BonusType>::empty()
                    &&& player.spec_pile()@ == Seq::<Card>::empty()
                    &&& player.spec_partner() == None::<PlayerId>
                },
    {
        let mut players: Vec<Player> = Vec::new();
        let mut i: usize = 0;
        while i < n
            invariant
                i <= n,
                players@.len() == i,
                forall|k: int|
                    0 <= k < i ==> {
                        let player = #[trigger] players@[k];
                        &&& player.spec_id() == k
                        &&& player.wf()
                        &&& player.spec_hand()@ == Set::<Card>::empty()
                        &&& player.spec_bids() == Seq::<BonusType>::empty()
                        &&& player.spec_pile()@ == Seq::<Card>::empty()
                        &&& player.spec_partner() == None::<PlayerId>
                    },
            decreases n - i,
        {
            players.push(Player::new(i as PlayerId, Hand::empty()));
            i += 1;
        }
        Players { players: players, dealer: 0 }
    }

    /// Gives each player the hand dealt to them, and returns the talon.
    pub fn deal(&mut self, deal: CardDeal) -> (talon: Talon)
        requires
            deal.hands@.len() == old(self)@.len(),
        ensures
            talon == deal.talon,
            final(self).spec_dealer() == old(self).spec_dealer(),
            final(self)@.len() == old(self)@.len(),
            forall|i: int|
                0 <= i < old(self)@.len() ==> (#[trigger] final(self)@[i]).spec_hand()
                    == deal.hands@[i] && final(self)@[i].same_but_hand(&old(self)@[i]),
    {
        let mut hands = deal.hands;
        let mut i: usize = hands.len();
        assert(hands@ == deal.hands@.take(i as int));
        while i > 0
            invariant
                i == hands@.len(),
                i <= deal.hands@.len(),
                hands@ == deal.hands@.take(i as int),
                self.dealer == old(self).dealer,
                self.players@.len() == old(self).players@.len(),
                deal.hands@.len() == self.players@.len(),
                forall|k: int|
                    0 <= k < i ==> #[trigger] self.players@[k] == old(self).players@[k],
                forall|k: int|
                    i <= k < self.players@.len() ==> (#[trigger] self.players@[k]).spec_hand()
                        == deal.hands@[k] && self.players@[k].same_but_hand(&old(self).players@[k]),
            decreases i,
        {
            let hand = hands.pop().unwrap();
            i -= 1;
            assert(hands@ == deal.hands@.take(i as int));
            self.players[i].hand = hand;
        }
        deal.talon
    }

    /// The player who deals.
    pub fn dealer(&self) -> (player: &Player)
        requires
            self.spec_dealer() < self@.len(),
        ensures
            *player == self@[self.spec_dealer() as int],
    {
        &self.players[self.dealer]
    }

    /// The players as they play `contract`, which `declarer` has declared.
    pub fn play_contract<'a>(&'a self, declarer: PlayerId, contract: Contract) -> (playing:
        ContractPlayers<'a>)
        ensures
            playing.spec_declarer() == declarer,
            playing.spec_contract() == contract,
            playing.spec_players() == *self,
    {
        ContractPlayers { declarer: declarer, players: self, contract: contract }
    }

    /// The player with the number `id`.
    pub fn player(&self, id: PlayerId) -> (player: &Player)
        requires
            id < self@.len(),
        ensures
            *player == self@[id as int],
    {
        assert(self.players@.len() == self.players.len());
        let i = id as usize;
        &self.players[i]
    }

    /// The player with the number `id`, to change them.
    pub fn player_mut(&mut self, id: PlayerId) -> (player: &mut Player)
        requires
            id < old(self)@.len(),
        ensures
            *player == old(self)@[id as int],
            final(self)@ == old(self)@.update(id as int, *final(player)),
            final(self).spec_dealer() == old(self).spec_dealer(),
    {
        assert(self.players@.len() == self.players.len());
        let i = id as usize;
        &mut self.players[i]
    }
}

/// The players of a game while they play a contract.
pub struct ContractPlayers<'a> {
    declarer: PlayerId,
    players: &'a Players,
    contract: Contract,
}

impl<'a> ContractPlayers<'a> {
    /// Number of the player who declared the contract.
    pub closed spec fn spec_declarer(&self) -> PlayerId {
        self.declarer
    }

    /// The players of the game.
    pub closed spec fn spec_players(&self) -> Players {
        *self.players
    }

    /// The contract that is played.
    pub closed spec fn spec_contract(&self) -> Contract {
        self.contract
    }

    /// The player who declared the contract.
    pub open spec fn spec_declaring_player(&self) -> Player {
        self.spec_players()@[self.spec_declarer() as int]
    }

    /// The declarer is a player of the game, and so is the declarer's partner, if
    /// there is one.
    pub open spec fn wf(&self) -> bool {
        let players = self.spec_players()@;
        &&& self.spec_declarer() < players.len()
        &&& self.spec_declaring_player().spec_partner() matches Some(partner) ==> partner
            < players.len()
    }

    /// Numbers of the players who score: every player in klop; else the declarer,
    /// and behind them the declarer's partner where there is one.
    pub open spec fn scoring_ids(&self) -> Seq<int> {
        let players = self.spec_players()@;
        if self.spec_contract().is_klop() {
            Seq::new(players.len(), |i: int| i)
        } else {
            match self.spec_declaring_player().spec_partner() {
                Some(partner) => seq![self.spec_declarer() as int, partner as int],
                None => seq![self.spec_declarer() as int],
            }
        }
    }

    /// The player who declared the contract.
    pub fn declarer(&self) -> (player: &Player)
        requires
            self.spec_declarer() < self.spec_players()@.len(),
        ensures
            *player == self.spec_declaring_player(),
    {
        self.player(self.declarer)
    }

    /// The players who score.
    pub fn scoring_players(&self) -> (scoring: Vec<&Player>)
        requires
            self.spec_contract().is_klop() || self.wf(),
        ensures
            scoring@.len() == self.scoring_ids().len(),
            forall|i: int|
                0 <= i < scoring@.len() ==> *(#[trigger] scoring@[i])
                    == self.spec_players()@[self.scoring_ids()[i]],
    {
        if self.contract.is_klop() {
            let n = self.players.players.len();
            let mut scoring: Vec<&Player> = Vec::new();
            let mut i: usize = 0;
            while i < n
                invariant
                    n == self.players.players@.len(),
                    i <= n,
                    scoring@.len() == i,
                    forall|k: int|
                        0 <= k < i ==> *(#[trigger] scoring@[k]) == self.players.players@[k],
                decreases n - i,
            {
                scoring.push(&self.players.players[i]);
                i += 1;
            }
            scoring
        } else {
            self.scoring_players_normal()
        }
    }

    /// The players who score in a contract other than klop.
    fn scoring_players_normal(&self) -> (scoring: Vec<&Player>)
        requires
            self.wf(),
        ensures
            scoring@.len() == if self.spec_declaring_player().spec_partner() is Some {
                2nat
            } else {
                1nat
            },
            *scoring@[0] == self.spec_declaring_player(),
            self.spec_declaring_player().spec_partner() matches Some(partner) ==> *scoring@[1]
                == self.spec_players()@[partner as int],
    {
        let declarer = self.player(self.declarer);
        let mut scoring: Vec<&Player> = Vec::new();
        scoring.push(declarer);
        match declarer.partner() {
            Some(partner_id) => {
                scoring.push(self.player(partner_id));
            },
            None => {},
        }
        scoring
    }

    /// The contract that is played.
    #[verifier::when_used_as_spec(spec_contract)]
    pub fn contract(&self) -> (contract: Contract)
        ensures
            contract == self.spec_contract(),
    {
        self.contract
    }

    /// The player with the number `player_id`.
    fn player(&self, player_id: PlayerId) -> (player: &Player)
        requires
            player_id < self.spec_players()@.len(),
        ensures
            *player == self.spec_players()@[player_id as int],
    {
        self.players.player(player_id)
    }
}

/// The order in which the players take their turns: those who are still in, and the
/// one among them whose turn it is.
pub struct PlayerTurn {
    current_index: usize,
    num_players: usize,
    started_with: PlayerId,
    players: Vec<PlayerId>,
}

/// The position that follows `cursor` among `len` positions in a circle.
pub open spec fn next_cursor(len: int, cursor: int) -> int {
    (cursor + 1) % len
}

/// The position at which the turn stands after `steps` steps from `cursor` among
/// `len` positions in a circle.
pub open spec fn cursor_after(len: int, cursor: int, steps: nat) -> int
    decreases steps,
{
    if steps == 0 {
        cursor
    } else {
        next_cursor(len, cursor_after(len, cursor, (steps - 1) as nat))
    }
}

/// The turn goes round: after `steps` steps it stands `steps` positions further on
/// in the circle, so that it comes by every position and is back where it began
/// after as many steps as there are positions.
pub proof fn lemma_turn_goes_round(len: int, cursor: int, steps: nat)
    requires
        0 <= cursor < len,
    ensures
        cursor_after(len, cursor, steps) == (cursor + steps) % len,
        steps == len ==> cursor_after(len, cursor, steps) == cursor,
        0 < steps < len ==> cursor_after(len, cursor, steps) != cursor,
    decreases steps,
{
    if steps > 0 {
        lemma_turn_goes_round(len, cursor, (steps - 1) as nat);
        vstd::arithmetic::div_mod::lemma_add_mod_noop_right(1, cursor + steps - 1, len);
    }
    vstd::arithmetic::div_mod::lemma_small_mod(cursor as nat, len as nat);
    if steps == len {
        vstd::arithmetic::div_mod::lemma_mod_add_multiples_vanish(cursor, len);
    }
    if 0 < steps < len {
        if cursor + steps < len {
            vstd::arithmetic::div_mod::lemma_small_mod((cursor + steps) as nat, len as nat);
        } else {
            vstd::arithmetic::div_mod::lemma_mod_add_multiples_vanish(cursor + steps - len, len);
            vstd::arithmetic::div_mod::lemma_small_mod((cursor + steps - len) as nat, len as nat);
        }
    }
}

impl PlayerTurn {
    /// The players who are still in, by their numbers.
    pub closed spec fn roster(&self) -> Seq<PlayerId> {
        self.players@
    }

    /// Position in the roster of the player whose turn it is.
    pub closed spec fn cursor(&self) -> int {
        self.current_index as int
    }

    /// The player with whom the turns began.
    pub closed spec fn spec_started_with(&self) -> PlayerId {
        self.started_with
    }

    /// Number of players in the game.
    pub closed spec fn spec_num_players(&self) -> usize {
        self.num_players
    }

    /// The player whose turn it is.
    pub open spec fn spec_current(&self) -> PlayerId {
        self.roster()[self.cursor()]
    }

    /// The roster is never empty and holds players of the game in rising order, and
    /// the turn is with one of them.
    pub open spec fn wf(&self) -> bool {
        &&& 1 <= self.roster().len() <= self.spec_num_players()
        &&& 0 <= self.cursor() < self.roster().len()
        &&& self.spec_started_with() < self.spec_num_players()
        &&& forall|i: int|
            0 <= i < self.roster().len() ==> (#[trigger] self.roster()[i]) < self.spec_num_players()
        &&& forall|i: int, j: int|
            0 <= i < j < self.roster().len() ==> (#[trigger] self.roster()[i]) < (
            #[trigger] self.roster()[j])
    }

    /// The turns of `num_players` players, beginning with player 0.
    pub fn new(num_players: usize) -> (turn: PlayerTurn)
        requires
            num_players >= 1,
        ensures
            turn.wf(),
            turn.roster() == Seq::new(num_players as nat, |i: int| i as PlayerId),
            turn.cursor() == 0,
            turn.spec_started_with() == 0,
            turn.spec_num_players() == num_players,
    {
        PlayerTurn::start_with(num_players, 0)
    }

    /// The turns of `num_players` players, beginning with the player `first`.
    pub fn start_with(num_players: usize, first: PlayerId) -> (turn: PlayerTurn)
        requires
            first < num_players,
        ensures
            turn.wf(),
            turn.roster() == Seq::new(num_players as nat, |i: int| i as PlayerId),
            turn.cursor() == first,
            turn.spec_started_with() == first,
            turn.spec_num_players() == num_players,
    {
        let mut players: Vec<PlayerId> = Vec::new();
        let mut i: usize = 0;
        while i < num_players
            invariant
                i <= num_players,
                players@.len() == i,
                forall|k: int| 0 <= k < i ==> players@[k] == k as PlayerId,
            decreases num_players - i,
        {
            players.push(i as PlayerId);
            i += 1;
        }
        assert(players@ =~= Seq::new(num_players as nat, |i: int| i as PlayerId));
        PlayerTurn {
            current_index: first as usize,
            num_players: num_players,
            started_with: first,
            players: players,
        }
    }

    /// The player with whom the turns began.
    pub fn started_with(&self) -> (id: &PlayerId)
        ensures
            *id == self.spec_started_with(),
    {
        &self.started_with
    }

    /// Number of players in the game.
    #[verifier::when_used_as_spec(spec_num_players)]
    pub fn num_players(&self) -> (n: usize)
        ensures
            n == self.spec_num_players(),
    {
        self.num_players
    }

    /// Number of players who are still in.
    pub fn current_players(&self) -> (n: usize)
        ensures
            n == self.roster().len(),
    {
        self.players.len()
    }

    /// Takes the player whose turn it is out of the roster, unless no other player
    /// is left. The turn passes to the player who followed, or to the first of the
    /// roster where none followed.
    pub fn remove(&mut self) -> (id: &PlayerId)
        requires
            old(self).wf(),
        ensures
            final(self).wf(),
            final(self).spec_started_with() == old(self).spec_started_with(),
            final(self).spec_num_players() == old(self).spec_num_players(),
            old(self).roster().len() > 1 ==> final(self).roster() == old(self).roster().remove(
                old(self).cursor(),
            ) && final(self).cursor() == old(self).cursor() % (old(self).roster().len() - 1),
            old(self).roster().len() == 1 ==> final(self).roster() == old(self).roster()
                && final(self).cursor() == old(self).cursor(),
            final(self).roster().len() >= 1,
            *id == final(self).spec_current(),
    {
        if self.current_players() > 1 {
            self.players.remove(self.current_index);
            self.current_index %= self.current_players();
        }
        self.current()
    }

    /// Passes the turn to the next player of the roster, and from the last to the
    /// first.
    pub fn next(&mut self) -> (id: &PlayerId)
        requires
            old(self).wf(),
        ensures
            final(self).wf(),
            final(self).spec_started_with() == old(self).spec_started_with(),
            final(self).spec_num_players() == old(self).spec_num_players(),
            final(self).roster() == old(self).roster(),
            final(self).cursor() == next_cursor(
                old(self).roster().len() as int,
                old(self).cursor(),
            ),
            *id == final(self).spec_current(),
    {
        let next_index = (self.current_index + 1) % self.current_players();
        self.current_index = next_index;
        self.current()
    }

    /// The player whose turn it is.
    pub fn current(&self) -> (id: &PlayerId)
        requires
            self.wf(),
        ensures
            *id == self.spec_current(),
    {
        &self.players[self.current_index]
    }
}

} // verus!
