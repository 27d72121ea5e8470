//! The game state: two player areas, the shared trade row, and the turn
//! state machine that drives one full turn.

use vstd::prelude::*;
use vstd::multiset::Multiset;
use std::rc::Rc;

use crate::active_card::{ActiveCard, IdCardCollection};
use crate::card::{Base, CardRef};
use crate::card_library::CardLibrary;
use crate::components::{Authority, Combat, Goods};
use crate::client_comms::{
    all_players, Client, ClientActionOptionQuery, ClientActionOptionResponse, ClientQuery,
    PerPlayer, StyledText, TextStyle,
};
use crate::details::{spec_auto_action, spec_auto_actionable, Action, Actionable, ActionOp,
    CardSource, Condition, Play, Requirement, Sacrifice};
use crate::text::decimal_string;
use crate::util::Join;
use crate::in_game::{ActivePlay, Trigger};
use crate::stack::{move_all_to, SimpleStack};
use crate::util::Failure;
use vstd::pervasive::unreached;

verus! {

/// A stack of shared card references.
pub type CardStack = SimpleStack<CardRef>;

/// Per-turn bookkeeping for the active player.
#[derive(Debug)]
pub struct TurnData {
    pub total_combat: Combat,
    pub money: u8,
    pub triggers: Vec<Trigger>,
}

impl TurnData {
    pub fn new() -> (r: TurnData)
        ensures
            r.total_combat == 0,
            r.money == 0,
            r.triggers@.len() == 0,
    {
        TurnData { total_combat: 0, money: 0, triggers: Vec::new() }
    }

    pub fn reset(&mut self)
        ensures
            final(self).total_combat == 0,
            final(self).money == 0,
            final(self).triggers@.len() == 0,
    {
        self.total_combat = 0;
        self.money = 0;
        self.triggers = Vec::new();
    }
}

#[derive(Copy, Clone, Debug, Eq, PartialEq, Hash, Structural)]
pub enum Player {
    Player1,
    Player2,
}

impl Player {
    /// The other player.
    pub open spec fn spec_reverse(self) -> Player {
        match self {
            Player::Player1 => Player::Player2,
            Player::Player2 => Player::Player1,
        }
    }

    pub fn reverse(&self) -> (r: Player)
        ensures
            r == self.spec_reverse(),
    {
        match self {
            Player::Player1 => Player::Player2,
            Player::Player2 => Player::Player1,
        }
    }
}

/// A player named relative to whose turn it is.
#[derive(Copy, Clone, Debug, Eq, PartialEq, Hash, Structural)]
pub enum RelativePlayer {
    Current,
    Opponent,
}

impl RelativePlayer {
    pub fn to_string(&self) -> (r: String)
        ensures
            *self is Current ==> r@ == "current"@,
            *self is Opponent ==> r@ == "opponent"@,
    {
        match self {
            RelativePlayer::Current => String::from_str("current"),
            RelativePlayer::Opponent => String::from_str("opponent"),
        }
    }
}

/// Feedback classifications for messages surfaced to the client.
pub enum Feedback {
    Invalid(String),
    Info(String),
}

/// Whether the user wants to go on with a begun action.
pub enum UserActionIntent<T> {
    Continue(T),
    Cancel,
}

/// The broad kinds of action a player can take in a turn.
pub enum AbstractPlayerAction {
    CardEffects,
    TradeRow,
    TrashCard,
    EndTurn,
}


/// The card references held by a sequence of active cards.
pub open spec fn hand_cards(s: Seq<ActiveCard>) -> Seq<CardRef> {
    s.map_values(|ac: ActiveCard| ac.card)
}

/// Per-player zones and per-turn resources.
pub struct PlayerArea {
    pub hand: IdCardCollection,
    pub table: IdCardCollection,
    pub turn_data: TurnData,
    pub deck: CardStack,
    pub discard: CardStack,
    pub current_goods: Goods,
    pub authority: Authority,
}

impl PlayerArea {
    /// How many card instances this player holds over all four zones.
    pub open spec fn card_count(self) -> int {
        self.deck@.len() + self.discard@.len() + self.hand@.len() + self.table@.len() as int
    }

    /// Which card instances this player holds, as a multiset.
    pub open spec fn zone_multiset(self) -> Multiset<CardRef> {
        self.deck@.to_multiset().add(self.discard@.to_multiset()).add(
            hand_cards(self.hand@).to_multiset(),
        ).add(hand_cards(self.table@).to_multiset())
    }

    /// A fresh player area: a shuffled starter deck of eight `scout`s and
    /// two `viper`s, drawn down to the starting hand of five.
    pub fn new(scout: CardRef, viper: CardRef, starting_health: Authority) -> (r: PlayerArea)
        ensures
            r.authority == starting_health,
            r.current_goods == (Goods { trade: 0, authority: 0, combat: 0 }),
            r.turn_data.total_combat == 0,
            r.hand@.len() == 5,
            r.deck@.len() == 5,
            r.discard@.len() == 0,
            r.table@.len() == 0,
            r.card_count() == 10,
            r.zone_multiset() =~= seq![
                scout, scout, scout, scout, scout, scout, scout, scout, viper, viper,
            ].to_multiset(),
            forall|i: int| 0 <= i < r.hand@.len()
                ==> (#[trigger] r.hand@[i]).will_discard && r.hand@[i].played_this_turn
                    && r.hand@[i].fresh_content(),
    {
        proof {
            broadcast use vstd::seq_lib::group_to_multiset_ensures;
        }
        let mut deck: CardStack = SimpleStack::empty();
        let mut i: usize = 0;
        while i < 8
            invariant
                i <= 8,
                deck@.len() == i,
                forall|j: int| 0 <= j < i ==> (#[trigger] deck@[j]) == scout,
            decreases 8 - i,
        {
            deck.add(scout.clone());
            i += 1;
        }
        deck.add(viper.clone());
        deck.add(viper.clone());
        proof {
            assert(deck@ =~= seq![
                scout, scout, scout, scout, scout, scout, scout, scout, viper, viper,
            ]);
        }
        deck.shuffle();
        let mut pa = PlayerArea {
            hand: IdCardCollection::new(SimpleStack::empty()),
            table: IdCardCollection::new(SimpleStack::empty()),
            turn_data: TurnData::new(),
            deck,
            discard: SimpleStack::empty(),
            current_goods: Goods { trade: 0, authority: 0, combat: 0 },
            authority: starting_health,
        };
        proof {
            assert(hand_cards(pa.hand@) =~= Seq::<CardRef>::empty());
            assert(hand_cards(pa.table@) =~= Seq::<CardRef>::empty());
            assert(pa.zone_multiset() =~= pa.deck@.to_multiset());
        }
        let drawn = pa.draw_cards_into_hand(5);
        drawn.check();
        pa
    }

    /// Draws from the deck, reshuffling the discard pile into the deck
    /// when the deck is exhausted; `None` only when both are empty.
    pub fn draw_card(&mut self) -> (r: Option<CardRef>)
        ensures
            final(self).authority == old(self).authority,
            final(self).current_goods == old(self).current_goods,
            final(self).turn_data == old(self).turn_data,
            final(self).hand == old(self).hand,
            final(self).table == old(self).table,
            (r is Some) == (old(self).deck@.len() + old(self).discard@.len() > 0),
            r is None ==> *final(self) == *old(self),
            old(self).deck@.len() > 0 ==> r == Some(old(self).deck@.last())
                && final(self).deck@ == old(self).deck@.drop_last()
                && final(self).discard == old(self).discard,
            r matches Some(c) ==> final(self).deck@.len() + final(self).discard@.len()
                == old(self).deck@.len() + old(self).discard@.len() - 1
                && final(self).deck@.to_multiset().add(final(self).discard@.to_multiset())
                    .insert(c) =~= old(self).deck@.to_multiset().add(
                    old(self).discard@.to_multiset()),
    {
        proof {
            broadcast use vstd::seq_lib::group_to_multiset_ensures;
        }
        if self.deck.len() == 0 && self.discard.len() == 0 {
            return None;
        }
        let ghost deck0 = self.deck@;
        let ghost disc0 = self.discard@;
        match self.deck.draw() {
            Some(c) => {
                proof {
                    assert(deck0.drop_last().to_multiset().insert(c) =~= deck0.to_multiset())
                        by {
                        assert(deck0.drop_last().push(c) =~= deck0);
                        assert(deck0.drop_last().push(c).to_multiset()
                            =~= deck0.drop_last().to_multiset().insert(c));
                    }
                }
                Some(c)
            },
            None => {
                self.discard.shuffle();
                let ghost shuf = self.discard@;
                move_all_to(&mut self.discard, &mut self.deck);
                proof {
                    assert(self.deck@ =~= shuf.reverse());
                    shuf.lemma_reverse_to_multiset();
                    assert(self.deck@.to_multiset() =~= disc0.to_multiset());
                }
                let ghost deck1 = self.deck@;
                let r = self.deck.draw();
                proof {
                    assert(deck1.len() > 0);
                    let c = deck1.last();
                    assert(deck1.drop_last().to_multiset().insert(c) =~= deck1.to_multiset())
                        by {
                        assert(deck1.drop_last().push(c) =~= deck1);
                        assert(deck1.drop_last().push(c).to_multiset()
                            =~= deck1.drop_last().to_multiset().insert(c));
                    }
                    assert(self.discard@.to_multiset() =~= Multiset::<CardRef>::empty());
                }
                r
            },
        }
    }

    /// Draws one card into the hand; no card silently disappears: the
    /// player's zones hold the same instances before and after.
    pub fn draw_card_into_hand(&mut self) -> (r: Failure<String>)
        ensures
            final(self).authority == old(self).authority,
            final(self).current_goods == old(self).current_goods,
            final(self).turn_data == old(self).turn_data,
            final(self).table == old(self).table,
            (r is Succeed) == (old(self).deck@.len() + old(self).discard@.len() > 0),
            final(self).zone_multiset() =~= old(self).zone_multiset(),
            final(self).card_count() == old(self).card_count(),
            r is Fail ==> *final(self) == *old(self),
            old(self).deck@.len() > 0 ==> final(self).deck@ == old(self).deck@.drop_last()
                && final(self).discard == old(self).discard,
            r is Succeed ==> final(self).hand@.len() == old(self).hand@.len() + 1
                && final(self).deck@.len() + final(self).discard@.len()
                    == old(self).deck@.len() + old(self).discard@.len() - 1
                && final(self).hand@.drop_last() == old(self).hand@
                && final(self).hand@.last().will_discard
                && final(self).hand@.last().played_this_turn
                && final(self).hand@.last().fresh_content(),
    {
        proof {
            broadcast use vstd::seq_lib::group_to_multiset_ensures;
        }
        let ghost pre = *self;
        match self.draw_card() {
            Some(card) => {
                let ghost cardg = card;
                let active_card = ActiveCard::activate(card, true, true);
                let ghost hand0 = self.hand@;
                self.hand.add(active_card);
                proof {
                    assert(self.hand@.drop_last() =~= hand0);
                    assert(hand_cards(self.hand@) =~= hand_cards(hand0).push(cardg));
                    assert(hand_cards(self.hand@).to_multiset()
                        =~= hand_cards(hand0).to_multiset().insert(cardg));
                    assert(hand_cards(self.table@) =~= hand_cards(pre.table@));
                    lemma_ms_shift(
                        self.deck@.to_multiset(),
                        self.discard@.to_multiset(),
                        pre.deck@.to_multiset(),
                        pre.discard@.to_multiset(),
                        hand_cards(hand0).to_multiset(),
                        cardg,
                    );
                    assert(self.zone_multiset() =~= pre.zone_multiset());
                }
                Failure::Succeed
            },
            None => Failure::Fail(String::from_str("No cards in deck nor discard")),
        }
    }

    /// Draws `num` cards into the hand, stopping at the first failure.
    pub fn draw_cards_into_hand(&mut self, num: usize) -> (r: Failure<String>)
        ensures
            final(self).authority == old(self).authority,
            final(self).current_goods == old(self).current_goods,
            final(self).turn_data == old(self).turn_data,
            final(self).table == old(self).table,
            final(self).zone_multiset() =~= old(self).zone_multiset(),
            final(self).card_count() == old(self).card_count(),
            (r is Succeed) == (old(self).deck@.len() + old(self).discard@.len() >= num),
            old(self).discard@.len() == 0 ==> final(self).discard@.len() == 0,
            r is Fail ==> final(self).deck@.len() + final(self).discard@.len() == 0,
            final(self).hand@.len() <= old(self).hand@.len() + num,
            r is Succeed ==> final(self).hand@.len() == old(self).hand@.len() + num
                && final(self).deck@.len() + final(self).discard@.len()
                    == old(self).deck@.len() + old(self).discard@.len() - num
                && (forall|i: int| 0 <= i < old(self).hand@.len()
                    ==> (#[trigger] final(self).hand@[i]) == old(self).hand@[i])
                && (forall|i: int| old(self).hand@.len() <= i < final(self).hand@.len()
                    ==> (#[trigger] final(self).hand@[i]).will_discard
                        && final(self).hand@[i].played_this_turn
                        && final(self).hand@[i].fresh_content()),
    {
        let mut i: usize = 0;
        while i < num
            invariant
                i <= num,
                self.authority == old(self).authority,
                self.current_goods == old(self).current_goods,
                self.turn_data == old(self).turn_data,
                self.table == old(self).table,
                self.zone_multiset() =~= old(self).zone_multiset(),
                self.card_count() == old(self).card_count(),
                self.hand@.len() == old(self).hand@.len() + i,
                self.deck@.len() + self.discard@.len() == old(self).deck@.len() + old(self).discard@.len() - i,
                i <= old(self).deck@.len() + old(self).discard@.len(),
                old(self).discard@.len() == 0 ==> self.discard@.len() == 0,
                forall|j: int| 0 <= j < old(self).hand@.len()
                    ==> (#[trigger] self.hand@[j]) == old(self).hand@[j],
                forall|j: int| old(self).hand@.len() <= j < self.hand@.len()
                    ==> (#[trigger] self.hand@[j]).will_discard
                        && self.hand@[j].played_this_turn && self.hand@[j].fresh_content(),
            decreases num - i,
        {
            let ghost mid = *self;
            if let Failure::Fail(_) = self.draw_card_into_hand() {
                proof {
                    assert(mid.deck@.len() + mid.discard@.len() == 0);
                }
                return Failure::Fail(String::from_str("Failed to draw the requested cards"));
            }
            proof {
                assert(self.hand@.drop_last() =~= mid.hand@);
                assert forall|j: int| 0 <= j < mid.hand@.len()
                    implies (#[trigger] self.hand@[j]) == mid.hand@[j] by {
                    assert(self.hand@.drop_last()[j] == mid.hand@[j]);
                }
            }
            i += 1;
        }
        Failure::Succeed
    }

    /// Deals direct damage to this player's authority, flooring at zero;
    /// the result says whether the player was destroyed.
    pub fn deal_damage(&mut self, damage: Authority) -> (r: bool)
        ensures
            final(self).hand == old(self).hand,
            final(self).table == old(self).table,
            final(self).deck == old(self).deck,
            final(self).discard == old(self).discard,
            final(self).current_goods == old(self).current_goods,
            final(self).turn_data == old(self).turn_data,
            damage >= old(self).authority ==> final(self).authority == 0 && r,
            damage < old(self).authority
                ==> final(self).authority == old(self).authority - damage && !r,
    {
        if damage >= self.authority {
            self.authority = 0;
            true
        } else {
            self.authority = self.authority - damage;
            false
        }
    }
}

/// Rearranging a card that moved between a player's zones: if the deck and
/// discard multisets together lost exactly `c` and the hand gained `c`, the
/// combined holdings are unchanged.
proof fn lemma_ms_shift(
    deck1: Multiset<CardRef>,
    disc1: Multiset<CardRef>,
    deck0: Multiset<CardRef>,
    disc0: Multiset<CardRef>,
    hand0: Multiset<CardRef>,
    c: CardRef,
)
    requires
        deck1.add(disc1).insert(c) =~= deck0.add(disc0),
    ensures
        deck1.add(disc1).add(hand0.insert(c)) =~= deck0.add(disc0).add(hand0),
{
}


/// The whole game: both players, the shared trade row and scrap pile, and
/// whose turn it is.
pub struct GameState {
    pub player1: PlayerArea,
    pub player2: PlayerArea,
    pub current_player: Player,
    pub trade_row: CardStack,
    pub explorers: u8,
    pub scrapped: CardStack,
    pub trade_row_stack: CardStack,
    pub card_library: Rc<CardLibrary>,
}

impl GameState {
    /// The area of the player whose turn it is.
    pub open spec fn spec_current(self) -> PlayerArea {
        match self.current_player {
            Player::Player1 => self.player1,
            Player::Player2 => self.player2,
        }
    }

    /// The area of the other player.
    pub open spec fn spec_opponent(self) -> PlayerArea {
        match self.current_player {
            Player::Player1 => self.player2,
            Player::Player2 => self.player1,
        }
    }

    /// Every card instance in the game, over all zones and both players.
    pub open spec fn total_card_multiset(self) -> Multiset<CardRef> {
        self.player1.zone_multiset().add(self.player2.zone_multiset()).add(
            self.trade_row@.to_multiset(),
        ).add(self.scrapped@.to_multiset()).add(self.trade_row_stack@.to_multiset())
    }

    /// A fresh two-player game: both players with starter decks and five
    /// cards in hand, ten explorers, and the trade row filled to five (or
    /// fewer if the trade deck is short).
    pub fn new(card_library: Rc<CardLibrary>, starting_health: Authority) -> (r: GameState)
        requires
            card_library.wf(),
            card_library.spec_has_name("scout"@),
            card_library.spec_has_name("viper"@),
        ensures
            r.current_player is Player1,
            r.explorers == 10,
            r.scrapped@.len() == 0,
            r.card_library == card_library,
            r.player1.authority == starting_health,
            r.player2.authority == starting_health,
            r.player1.hand@.len() == 5,
            r.player2.hand@.len() == 5,
            r.player1.deck@.len() == 5,
            r.player2.deck@.len() == 5,
            r.player1.discard@.len() == 0,
            r.player2.discard@.len() == 0,
            r.player1.table@.len() == 0,
            r.player2.table@.len() == 0,
            r.player1.card_count() == 10,
            r.player2.card_count() == 10,
            r.player1.current_goods == (Goods { trade: 0, authority: 0, combat: 0 }),
            r.player2.current_goods == (Goods { trade: 0, authority: 0, combat: 0 }),
            r.trade_row@.len() + r.trade_row_stack@.len() == card_library.trade_stack@.len(),
            r.trade_row@.len() == if card_library.trade_stack@.len() >= 5 {
                5int
            } else {
                card_library.trade_stack@.len() as int
            },
    {
        let scout = match card_library.get_scout() {
            Some(c) => c,
            None => unreached(),
        };
        let viper = match card_library.get_viper() {
            Some(c) => c,
            None => unreached(),
        };
        let mut trade_row_stack = card_library.get_new_trade_stack();
        trade_row_stack.shuffle();
        let mut gs = GameState {
            player1: PlayerArea::new(scout.clone(), viper.clone(), starting_health),
            player2: PlayerArea::new(scout, viper, starting_health),
            current_player: Player::Player1,
            trade_row: SimpleStack::empty(),
            explorers: 10,
            scrapped: SimpleStack::empty(),
            trade_row_stack,
            card_library,
        };
        gs.fill_trade_row(5);
        gs
    }

    /// Refills the trade row to `num` cards from the trade deck, as far as
    /// cards remain; a row already at or above `num` is left alone.
    pub fn fill_trade_row(&mut self, num: usize)
        ensures
            final(self).player1 == old(self).player1,
            final(self).player2 == old(self).player2,
            final(self).current_player == old(self).current_player,
            final(self).explorers == old(self).explorers,
            final(self).scrapped == old(self).scrapped,
            final(self).card_library == old(self).card_library,
            final(self).trade_row@.len() + final(self).trade_row_stack@.len() == old(self).trade_row@.len() + old(self).trade_row_stack@.len(),
            final(self).trade_row@.len() == if old(self).trade_row@.len() >= num {
                old(self).trade_row@.len() as int
            } else if old(self).trade_row@.len() + old(self).trade_row_stack@.len() >= num {
                num as int
            } else {
                old(self).trade_row@.len() + old(self).trade_row_stack@.len() as int
            },
            forall|j: int| 0 <= j < old(self).trade_row@.len()
                ==> (#[trigger] final(self).trade_row@[j]) == old(self).trade_row@[j],
            final(self).trade_row@.to_multiset().add(final(self).trade_row_stack@.to_multiset())
                =~= old(self).trade_row@.to_multiset().add(
                old(self).trade_row_stack@.to_multiset()),
    {
        proof {
            broadcast use vstd::seq_lib::group_to_multiset_ensures;
        }
        while self.trade_row.len() < num && self.trade_row_stack.len() > 0
            invariant
                self.player1 == old(self).player1,
                self.player2 == old(self).player2,
                self.current_player == old(self).current_player,
                self.explorers == old(self).explorers,
                self.scrapped == old(self).scrapped,
                self.card_library == old(self).card_library,
                self.trade_row@.len() + self.trade_row_stack@.len() == old(self).trade_row@.len()
                    + old(self).trade_row_stack@.len(),
                old(self).trade_row@.len() >= num ==> self.trade_row@ == old(self).trade_row@,
                old(self).trade_row@.len() < num ==> self.trade_row@.len() <= num,
                old(self).trade_row@.len() <= self.trade_row@.len(),
                forall|j: int| 0 <= j < old(self).trade_row@.len()
                    ==> (#[trigger] self.trade_row@[j]) == old(self).trade_row@[j],
                self.trade_row@.to_multiset().add(self.trade_row_stack@.to_multiset())
                    =~= old(self).trade_row@.to_multiset().add(
                    old(self).trade_row_stack@.to_multiset()),
            decreases self.trade_row_stack@.len(),
        {
            let ghost row0 = self.trade_row@;
            let ghost stk0 = self.trade_row_stack@;
            match self.trade_row_stack.draw() {
                None => {
                    proof {
                        assert(false);
                    }
                },
                Some(id) => {
                    self.trade_row.add(id);
                    proof {
                        broadcast use vstd::seq_lib::group_to_multiset_ensures;
                        let c = stk0.last();
                        assert(stk0.drop_last().push(c) =~= stk0);
                        assert(stk0.drop_last().to_multiset().insert(c) =~= stk0.to_multiset());
                        assert(self.trade_row@.to_multiset() =~= row0.to_multiset().insert(c));
                        assert forall|j: int| 0 <= j < old(self).trade_row@.len()
                            implies (#[trigger] self.trade_row@[j]) == old(self).trade_row@[j] by {
                            assert(self.trade_row@[j] == row0[j]);
                        }
                        lemma_ms_move(
                            row0.to_multiset(),
                            stk0.drop_last().to_multiset(),
                            c,
                        );
                    }
                },
            }
        }
    }

    fn flip_turn(&mut self)
        ensures
            *final(self) == (GameState {
                current_player: if old(self).current_player is Player1 {
                    Player::Player2
                } else {
                    Player::Player1
                },
                ..*old(self)
            }),
    {
        self.current_player = match self.current_player {
            Player::Player1 => Player::Player2,
            Player::Player2 => Player::Player1,
        };
    }

    /// The absolute player a relative name refers to this turn.
    pub fn resolve_relative(&self, relative_player: &RelativePlayer) -> (r: Player)
        ensures
            *relative_player is Current ==> r == self.current_player,
            *relative_player is Opponent ==> r == self.current_player.spec_reverse(),
    {
        match relative_player {
            RelativePlayer::Current => self.current_player,
            RelativePlayer::Opponent => self.current_player.reverse(),
        }
    }

    pub fn resolve_relative_player(&self, relative_player: &RelativePlayer) -> (r: &PlayerArea)
        ensures
            *relative_player is Current ==> r == &self.spec_current(),
            *relative_player is Opponent ==> r == &self.spec_opponent(),
    {
        match relative_player {
            RelativePlayer::Current => self.get_current_player(),
            RelativePlayer::Opponent => self.get_current_opponent(),
        }
    }

    pub fn get_current_player(&self) -> (r: &PlayerArea)
        ensures
            r == &self.spec_current(),
    {
        match &self.current_player {
            Player::Player1 => &self.player1,
            Player::Player2 => &self.player2,
        }
    }

    pub fn get_current_player_mut(&mut self) -> (r: &mut PlayerArea)
        ensures
            *r == old(self).spec_current(),
            old(self).current_player is Player1 ==> *final(self) == (GameState {
                player1: *final(r),
                ..*old(self)
            }),
            old(self).current_player is Player2 ==> *final(self) == (GameState {
                player2: *final(r),
                ..*old(self)
            }),
    {
        match &self.current_player {
            Player::Player1 => &mut self.player1,
            Player::Player2 => &mut self.player2,
        }
    }

    pub fn get_current_opponent(&self) -> (r: &PlayerArea)
        ensures
            r == &self.spec_opponent(),
    {
        match &self.current_player {
            Player::Player1 => &self.player2,
            Player::Player2 => &self.player1,
        }
    }

    pub fn get_current_opponent_mut(&mut self) -> (r: &mut PlayerArea)
        ensures
            *r == old(self).spec_opponent(),
            old(self).current_player is Player1 ==> *final(self) == (GameState {
                player2: *final(r),
                ..*old(self)
            }),
            old(self).current_player is Player2 ==> *final(self) == (GameState {
                player1: *final(r),
                ..*old(self)
            }),
    {
        match &self.current_player {
            Player::Player1 => &mut self.player2,
            Player::Player2 => &mut self.player1,
        }
    }

    pub fn resolve_relative_player_mut(&mut self, relative_player: &RelativePlayer) -> (r:
        &mut PlayerArea)
        ensures
            *relative_player is Current ==> *r == old(self).spec_current(),
            *relative_player is Opponent ==> *r == old(self).spec_opponent(),
            final(self).current_player == old(self).current_player,
            final(self).trade_row == old(self).trade_row,
            final(self).explorers == old(self).explorers,
            final(self).scrapped == old(self).scrapped,
            final(self).trade_row_stack == old(self).trade_row_stack,
            final(self).card_library == old(self).card_library,
            final(self).player1 == *final(r) || final(self).player1 == old(self).player1,
            final(self).player2 == *final(r) || final(self).player2 == old(self).player2,
            final(self).player1 == *final(r) || final(self).player2 == *final(r),
    {
        match relative_player {
            RelativePlayer::Current => self.get_current_player_mut(),
            RelativePlayer::Opponent => self.get_current_opponent_mut(),
        }
    }

    pub fn turn_is_player1(&self) -> (r: bool)
        ensures
            r == (self.current_player is Player1),
    {
        match &self.current_player {
            Player::Player1 => true,
            Player::Player2 => false,
        }
    }

    pub fn turn_is_player2(&self) -> (r: bool)
        ensures
            r == (self.current_player is Player2),
    {
        !self.turn_is_player1()
    }
}

/// Moving one card from the second pile to the first preserves the union.
proof fn lemma_ms_move(a: Multiset<CardRef>, rest: Multiset<CardRef>, c: CardRef)
    ensures
        a.insert(c).add(rest) =~= a.add(rest.insert(c)),
{
}


impl GameState {
    /// The absolute player a relative name denotes.
    pub open spec fn spec_abs(self, p: RelativePlayer) -> Player {
        match p {
            RelativePlayer::Current => self.current_player,
            RelativePlayer::Opponent => self.current_player.spec_reverse(),
        }
    }

    /// The area of the player a relative name denotes.
    pub open spec fn rel_area(self, p: RelativePlayer) -> PlayerArea {
        match self.spec_abs(p) {
            Player::Player1 => self.player1,
            Player::Player2 => self.player2,
        }
    }

    /// The card references a source holds, in stack order.
    pub open spec fn spec_source(self, source: CardSource) -> Seq<CardRef> {
        match source {
            CardSource::Deck(p) => self.rel_area(p).deck@,
            CardSource::Discard(p) => self.rel_area(p).discard@,
            CardSource::Hand(p) => hand_cards(self.rel_area(p).hand@),
            CardSource::Table(p) => hand_cards(self.rel_area(p).table@),
            CardSource::TradeRow => self.trade_row@,
        }
    }

    /// A mutable borrow of the area a relative name denotes; the rest of
    /// the game state is untouched.
    pub(crate) fn resolve_area_mut(&mut self, p: RelativePlayer) -> (r: &mut PlayerArea)
        ensures
            *r == old(self).rel_area(p),
            old(self).spec_abs(p) is Player1 ==> *final(self) == (GameState {
                player1: *final(r),
                ..*old(self)
            }),
            old(self).spec_abs(p) is Player2 ==> *final(self) == (GameState {
                player2: *final(r),
                ..*old(self)
            }),
    {
        let abs = self.resolve_relative(&p);
        match abs {
            Player::Player1 => &mut self.player1,
            Player::Player2 => &mut self.player2,
        }
    }

    /// How many cards a source holds.
    pub fn source_len(&self, source: CardSource) -> (r: usize)
        ensures
            r == self.spec_source(source).len(),
    {
        match source {
            CardSource::TradeRow => self.trade_row.len(),
            CardSource::Deck(p) => self.resolve_relative_player(&p).deck.len(),
            CardSource::Discard(p) => self.resolve_relative_player(&p).discard.len(),
            CardSource::Hand(p) => self.resolve_relative_player(&p).hand.len(),
            CardSource::Table(p) => self.resolve_relative_player(&p).table.len(),
        }
    }

    /// The card at `index` of a source, shared.
    pub fn source_get(&self, source: CardSource, index: usize) -> (r: Option<CardRef>)
        ensures
            index < self.spec_source(source).len() ==> r == Some(
                self.spec_source(source)[index as int],
            ),
            index >= self.spec_source(source).len() ==> r is None,
    {
        match source {
            CardSource::TradeRow => match self.trade_row.get(index) {
                Some(c) => Some(c.clone()),
                None => None,
            },
            CardSource::Deck(p) => match self.resolve_relative_player(&p).deck.get(index) {
                Some(c) => Some(c.clone()),
                None => None,
            },
            CardSource::Discard(p) => match self.resolve_relative_player(&p).discard.get(index) {
                Some(c) => Some(c.clone()),
                None => None,
            },
            CardSource::Hand(p) => match self.resolve_relative_player(&p).hand.get(index) {
                Some(ac) => Some(ac.card.clone()),
                None => None,
            },
            CardSource::Table(p) => match self.resolve_relative_player(&p).table.get(index) {
                Some(ac) => Some(ac.card.clone()),
                None => None,
            },
        }
    }

    /// Removes the card at `index` from a source; every other zone and all
    /// non-zone state keeps its value, and no other card moves.
    pub fn source_remove(&mut self, source: CardSource, index: usize) -> (r: Option<CardRef>)
        ensures
            final(self).current_player == old(self).current_player,
            final(self).explorers == old(self).explorers,
            final(self).scrapped == old(self).scrapped,
            final(self).trade_row_stack == old(self).trade_row_stack,
            final(self).card_library == old(self).card_library,
            final(self).player1.authority == old(self).player1.authority,
            final(self).player2.authority == old(self).player2.authority,
            final(self).player1.current_goods == old(self).player1.current_goods,
            final(self).player2.current_goods == old(self).player2.current_goods,
            final(self).player1.turn_data == old(self).player1.turn_data,
            final(self).player2.turn_data == old(self).player2.turn_data,
            index >= old(self).spec_source(source).len() ==> r is None && *final(self) == *old(self),
            index < old(self).spec_source(source).len() ==> r == Some(
                old(self).spec_source(source)[index as int],
            ) && final(self).spec_source(source) == old(self).spec_source(source).remove(
                index as int,
            ) && final(self).total_card_multiset().insert(
                old(self).spec_source(source)[index as int],
            ) =~= old(self).total_card_multiset(),
            forall|s2: CardSource| s2 != source ==> final(self).spec_source(s2) == old(self).spec_source(s2),
    {
        match source {
            CardSource::TradeRow => self.source_remove_trade_row(index),
            CardSource::Deck(p) => self.source_remove_deck(p, index),
            CardSource::Discard(p) => self.source_remove_discard(p, index),
            CardSource::Hand(p) => self.source_remove_hand(p, index),
            CardSource::Table(p) => self.source_remove_table(p, index),
        }
    }

    #[verifier::rlimit(80)]
    fn source_remove_trade_row(&mut self, index: usize) -> (r: Option<CardRef>)
        ensures
            final(self).current_player == old(self).current_player,
            final(self).explorers == old(self).explorers,
            final(self).scrapped == old(self).scrapped,
            final(self).trade_row_stack == old(self).trade_row_stack,
            final(self).card_library == old(self).card_library,
            final(self).player1.authority == old(self).player1.authority,
            final(self).player2.authority == old(self).player2.authority,
            final(self).player1.current_goods == old(self).player1.current_goods,
            final(self).player2.current_goods == old(self).player2.current_goods,
            final(self).player1.turn_data == old(self).player1.turn_data,
            final(self).player2.turn_data == old(self).player2.turn_data,
            index >= old(self).spec_source((CardSource::TradeRow)).len() ==> r is None && *final(self) == *old(self),
            index < old(self).spec_source((CardSource::TradeRow)).len() ==> r == Some(
                old(self).spec_source((CardSource::TradeRow))[index as int],
            ) && final(self).spec_source((CardSource::TradeRow)) == old(self).spec_source((CardSource::TradeRow)).remove(
                index as int,
            ) && final(self).total_card_multiset().insert(
                old(self).spec_source((CardSource::TradeRow))[index as int],
            ) =~= old(self).total_card_multiset(),
            forall|s2: CardSource| s2 != (CardSource::TradeRow) ==> final(self).spec_source(s2) == old(self).spec_source(s2),
    {
        proof {
            broadcast use vstd::seq_lib::group_to_multiset_ensures;
        }
        let ghost source = CardSource::TradeRow;
        let r = self.trade_row.remove(index);
        proof {
            if index < old(self).spec_source(source).len() {
                lemma_source_remove(*old(self), *self, source, index as int);
            }
        }
        r
    }

    #[verifier::rlimit(80)]
    fn source_remove_deck(&mut self, p: RelativePlayer, index: usize) -> (r: Option<CardRef>)
        ensures
            final(self).current_player == old(self).current_player,
            final(self).explorers == old(self).explorers,
            final(self).scrapped == old(self).scrapped,
            final(self).trade_row_stack == old(self).trade_row_stack,
            final(self).card_library == old(self).card_library,
            final(self).player1.authority == old(self).player1.authority,
            final(self).player2.authority == old(self).player2.authority,
            final(self).player1.current_goods == old(self).player1.current_goods,
            final(self).player2.current_goods == old(self).player2.current_goods,
            final(self).player1.turn_data == old(self).player1.turn_data,
            final(self).player2.turn_data == old(self).player2.turn_data,
            index >= old(self).spec_source((CardSource::Deck(p))).len() ==> r is None && *final(self) == *old(self),
            index < old(self).spec_source((CardSource::Deck(p))).len() ==> r == Some(
                old(self).spec_source((CardSource::Deck(p)))[index as int],
            ) && final(self).spec_source((CardSource::Deck(p))) == old(self).spec_source((CardSource::Deck(p))).remove(
                index as int,
            ) && final(self).total_card_multiset().insert(
                old(self).spec_source((CardSource::Deck(p)))[index as int],
            ) =~= old(self).total_card_multiset(),
            forall|s2: CardSource| s2 != (CardSource::Deck(p)) ==> final(self).spec_source(s2) == old(self).spec_source(s2),
    {
        proof {
            broadcast use vstd::seq_lib::group_to_multiset_ensures;
        }
        let ghost source = CardSource::Deck(p);
        let area = self.resolve_area_mut(p);
        let r = area.deck.remove(index);
        proof {
            if index < old(self).spec_source(source).len() {
                lemma_source_remove(*old(self), *self, source, index as int);
            }
        }
        r
    }

    #[verifier::rlimit(80)]
    fn source_remove_discard(&mut self, p: RelativePlayer, index: usize) -> (r: Option<CardRef>)
        ensures
            final(self).current_player == old(self).current_player,
            final(self).explorers == old(self).explorers,
            final(self).scrapped == old(self).scrapped,
            final(self).trade_row_stack == old(self).trade_row_stack,
            final(self).card_library == old(self).card_library,
            final(self).player1.authority == old(self).player1.authority,
            final(self).player2.authority == old(self).player2.authority,
            final(self).player1.current_goods == old(self).player1.current_goods,
            final(self).player2.current_goods == old(self).player2.current_goods,
            final(self).player1.turn_data == old(self).player1.turn_data,
            final(self).player2.turn_data == old(self).player2.turn_data,
            index >= old(self).spec_source((CardSource::Discard(p))).len() ==> r is None && *final(self) == *old(self),
            index < old(self).spec_source((CardSource::Discard(p))).len() ==> r == Some(
                old(self).spec_source((CardSource::Discard(p)))[index as int],
            ) && final(self).spec_source((CardSource::Discard(p))) == old(self).spec_source((CardSource::Discard(p))).remove(
                index as int,
            ) && final(self).total_card_multiset().insert(
                old(self).spec_source((CardSource::Discard(p)))[index as int],
            ) =~= old(self).total_card_multiset(),
            forall|s2: CardSource| s2 != (CardSource::Discard(p)) ==> final(self).spec_source(s2) == old(self).spec_source(s2),
    {
        proof {
            broadcast use vstd::seq_lib::group_to_multiset_ensures;
        }
        let ghost source = CardSource::Discard(p);
        let area = self.resolve_area_mut(p);
        let r = area.discard.remove(index);
        proof {
            if index < old(self).spec_source(source).len() {
                lemma_source_remove(*old(self), *self, source, index as int);
            }
        }
        r
    }

    #[verifier::rlimit(80)]
    fn source_remove_hand(&mut self, p: RelativePlayer, index: usize) -> (r: Option<CardRef>)
        ensures
            final(self).current_player == old(self).current_player,
            final(self).explorers == old(self).explorers,
            final(self).scrapped == old(self).scrapped,
            final(self).trade_row_stack == old(self).trade_row_stack,
            final(self).card_library == old(self).card_library,
            final(self).player1.authority == old(self).player1.authority,
            final(self).player2.authority == old(self).player2.authority,
            final(self).player1.current_goods == old(self).player1.current_goods,
            final(self).player2.current_goods == old(self).player2.current_goods,
            final(self).player1.turn_data == old(self).player1.turn_data,
            final(self).player2.turn_data == old(self).player2.turn_data,
            index >= old(self).spec_source((CardSource::Hand(p))).len() ==> r is None && *final(self) == *old(self),
            index < old(self).spec_source((CardSource::Hand(p))).len() ==> r == Some(
                old(self).spec_source((CardSource::Hand(p)))[index as int],
            ) && final(self).spec_source((CardSource::Hand(p))) == old(self).spec_source((CardSource::Hand(p))).remove(
                index as int,
            ) && final(self).total_card_multiset().insert(
                old(self).spec_source((CardSource::Hand(p)))[index as int],
            ) =~= old(self).total_card_multiset(),
            forall|s2: CardSource| s2 != (CardSource::Hand(p)) ==> final(self).spec_source(s2) == old(self).spec_source(s2),
    {
        proof {
            broadcast use vstd::seq_lib::group_to_multiset_ensures;
        }
        let ghost source = CardSource::Hand(p);
        let area = self.resolve_area_mut(p);
        let r = area.hand.remove(index);
        proof {
            if index < old(self).spec_source(source).len() {
                assert(hand_cards(self.rel_area(p).hand@) =~= hand_cards(
                    old(self).rel_area(p).hand@,
                ).remove(index as int));
                lemma_source_remove(*old(self), *self, source, index as int);
            }
        }
        match r {
            Some(ac) => Some(ac.card),
            None => None,
        }
    }

    #[verifier::rlimit(80)]
    fn source_remove_table(&mut self, p: RelativePlayer, index: usize) -> (r: Option<CardRef>)
        ensures
            final(self).current_player == old(self).current_player,
            final(self).explorers == old(self).explorers,
            final(self).scrapped == old(self).scrapped,
            final(self).trade_row_stack == old(self).trade_row_stack,
            final(self).card_library == old(self).card_library,
            final(self).player1.authority == old(self).player1.authority,
            final(self).player2.authority == old(self).player2.authority,
            final(self).player1.current_goods == old(self).player1.current_goods,
            final(self).player2.current_goods == old(self).player2.current_goods,
            final(self).player1.turn_data == old(self).player1.turn_data,
            final(self).player2.turn_data == old(self).player2.turn_data,
            index >= old(self).spec_source((CardSource::Table(p))).len() ==> r is None && *final(self) == *old(self),
            index < old(self).spec_source((CardSource::Table(p))).len() ==> r == Some(
                old(self).spec_source((CardSource::Table(p)))[index as int],
            ) && final(self).spec_source((CardSource::Table(p))) == old(self).spec_source((CardSource::Table(p))).remove(
                index as int,
            ) && final(self).total_card_multiset().insert(
                old(self).spec_source((CardSource::Table(p)))[index as int],
            ) =~= old(self).total_card_multiset(),
            forall|s2: CardSource| s2 != (CardSource::Table(p)) ==> final(self).spec_source(s2) == old(self).spec_source(s2),
    {
        proof {
            broadcast use vstd::seq_lib::group_to_multiset_ensures;
        }
        let ghost source = CardSource::Table(p);
        let area = self.resolve_area_mut(p);
        let r = area.table.remove(index);
        proof {
            if index < old(self).spec_source(source).len() {
                assert(hand_cards(self.rel_area(p).table@) =~= hand_cards(
                    old(self).rel_area(p).table@,
                ).remove(index as int));
                lemma_source_remove(*old(self), *self, source, index as int);
            }
        }
        match r {
            Some(ac) => Some(ac.card),
            None => None,
        }
    }

    /// Adds a card to a source; a hand or table activates it with the
    /// defaults of a mid-turn addition.
    pub fn source_add(&mut self, source: CardSource, card: CardRef)
        ensures
            final(self).current_player == old(self).current_player,
            final(self).explorers == old(self).explorers,
            final(self).scrapped == old(self).scrapped,
            final(self).trade_row_stack == old(self).trade_row_stack,
            final(self).card_library == old(self).card_library,
            final(self).player1.authority == old(self).player1.authority,
            final(self).player2.authority == old(self).player2.authority,
            final(self).player1.current_goods == old(self).player1.current_goods,
            final(self).player2.current_goods == old(self).player2.current_goods,
            final(self).player1.turn_data == old(self).player1.turn_data,
            final(self).player2.turn_data == old(self).player2.turn_data,
            final(self).spec_source(source) == old(self).spec_source(source).push(card),
            final(self).total_card_multiset() =~= old(self).total_card_multiset().insert(card),
            forall|s2: CardSource| s2 != source ==> final(self).spec_source(s2) == old(self).spec_source(s2),
    {
        match source {
            CardSource::TradeRow => self.source_add_trade_row(card),
            CardSource::Deck(p) => self.source_add_deck(p, card),
            CardSource::Discard(p) => self.source_add_discard(p, card),
            CardSource::Hand(p) => self.source_add_hand(p, card),
            CardSource::Table(p) => self.source_add_table(p, card),
        }
    }

    #[verifier::rlimit(80)]
    fn source_add_trade_row(&mut self, card: CardRef)
        ensures
            final(self).current_player == old(self).current_player,
            final(self).explorers == old(self).explorers,
            final(self).scrapped == old(self).scrapped,
            final(self).trade_row_stack == old(self).trade_row_stack,
            final(self).card_library == old(self).card_library,
            final(self).player1.authority == old(self).player1.authority,
            final(self).player2.authority == old(self).player2.authority,
            final(self).player1.current_goods == old(self).player1.current_goods,
            final(self).player2.current_goods == old(self).player2.current_goods,
            final(self).player1.turn_data == old(self).player1.turn_data,
            final(self).player2.turn_data == old(self).player2.turn_data,
            final(self).spec_source((CardSource::TradeRow)) == old(self).spec_source((CardSource::TradeRow)).push(card),
            final(self).total_card_multiset() =~= old(self).total_card_multiset().insert(card),
            forall|s2: CardSource| s2 != (CardSource::TradeRow) ==> final(self).spec_source(s2) == old(self).spec_source(s2),
    {
        proof {
            broadcast use vstd::seq_lib::group_to_multiset_ensures;
        }
        let ghost source = CardSource::TradeRow;
        self.trade_row.add(card);
        proof {
            lemma_source_add(*old(self), *self, source, card);
        }
    }

    #[verifier::rlimit(80)]
    fn source_add_deck(&mut self, p: RelativePlayer, card: CardRef)
        ensures
            final(self).current_player == old(self).current_player,
            final(self).explorers == old(self).explorers,
            final(self).scrapped == old(self).scrapped,
            final(self).trade_row_stack == old(self).trade_row_stack,
            final(self).card_library == old(self).card_library,
            final(self).player1.authority == old(self).player1.authority,
            final(self).player2.authority == old(self).player2.authority,
            final(self).player1.current_goods == old(self).player1.current_goods,
            final(self).player2.current_goods == old(self).player2.current_goods,
            final(self).player1.turn_data == old(self).player1.turn_data,
            final(self).player2.turn_data == old(self).player2.turn_data,
            final(self).spec_source((CardSource::Deck(p))) == old(self).spec_source((CardSource::Deck(p))).push(card),
            final(self).total_card_multiset() =~= old(self).total_card_multiset().insert(card),
            forall|s2: CardSource| s2 != (CardSource::Deck(p)) ==> final(self).spec_source(s2) == old(self).spec_source(s2),
    {
        proof {
            broadcast use vstd::seq_lib::group_to_multiset_ensures;
        }
        let ghost source = CardSource::Deck(p);
        let area = self.resolve_area_mut(p);
        area.deck.add(card);
        proof {
            lemma_source_add(*old(self), *self, source, card);
        }
    }

    #[verifier::rlimit(80)]
    fn source_add_discard(&mut self, p: RelativePlayer, card: CardRef)
        ensures
            final(self).current_player == old(self).current_player,
            final(self).explorers == old(self).explorers,
            final(self).scrapped == old(self).scrapped,
            final(self).trade_row_stack == old(self).trade_row_stack,
            final(self).card_library == old(self).card_library,
            final(self).player1.authority == old(self).player1.authority,
            final(self).player2.authority == old(self).player2.authority,
            final(self).player1.current_goods == old(self).player1.current_goods,
            final(self).player2.current_goods == old(self).player2.current_goods,
            final(self).player1.turn_data == old(self).player1.turn_data,
            final(self).player2.turn_data == old(self).player2.turn_data,
            final(self).spec_source((CardSource::Discard(p))) == old(self).spec_source((CardSource::Discard(p))).push(card),
            final(self).total_card_multiset() =~= old(self).total_card_multiset().insert(card),
            forall|s2: CardSource| s2 != (CardSource::Discard(p)) ==> final(self).spec_source(s2) == old(self).spec_source(s2),
    {
        proof {
            broadcast use vstd::seq_lib::group_to_multiset_ensures;
        }
        let ghost source = CardSource::Discard(p);
        let area = self.resolve_area_mut(p);
        area.discard.add(card);
        proof {
            lemma_source_add(*old(self), *self, source, card);
        }
    }

    #[verifier::rlimit(80)]
    fn source_add_hand(&mut self, p: RelativePlayer, card: CardRef)
        ensures
            final(self).current_player == old(self).current_player,
            final(self).explorers == old(self).explorers,
            final(self).scrapped == old(self).scrapped,
            final(self).trade_row_stack == old(self).trade_row_stack,
            final(self).card_library == old(self).card_library,
            final(self).player1.authority == old(self).player1.authority,
            final(self).player2.authority == old(self).player2.authority,
            final(self).player1.current_goods == old(self).player1.current_goods,
            final(self).player2.current_goods == old(self).player2.current_goods,
            final(self).player1.turn_data == old(self).player1.turn_data,
            final(self).player2.turn_data == old(self).player2.turn_data,
            final(self).spec_source((CardSource::Hand(p))) == old(self).spec_source((CardSource::Hand(p))).push(card),
            final(self).total_card_multiset() =~= old(self).total_card_multiset().insert(card),
            forall|s2: CardSource| s2 != (CardSource::Hand(p)) ==> final(self).spec_source(s2) == old(self).spec_source(s2),
    {
        proof {
            broadcast use vstd::seq_lib::group_to_multiset_ensures;
        }
        let ghost source = CardSource::Hand(p);
        let ghost cardg = card;
        let area = self.resolve_area_mut(p);
        let ghost hand0 = area.hand@;
        area.hand.add_card(card);
        proof {
            assert(final(area).hand@.drop_last() == hand0);
            assert(hand_cards(self.rel_area(p).hand@) =~= hand_cards(hand0).push(cardg));
            lemma_source_add(*old(self), *self, source, cardg);
        }
    }

    #[verifier::rlimit(80)]
    fn source_add_table(&mut self, p: RelativePlayer, card: CardRef)
        ensures
            final(self).current_player == old(self).current_player,
            final(self).explorers == old(self).explorers,
            final(self).scrapped == old(self).scrapped,
            final(self).trade_row_stack == old(self).trade_row_stack,
            final(self).card_library == old(self).card_library,
            final(self).player1.authority == old(self).player1.authority,
            final(self).player2.authority == old(self).player2.authority,
            final(self).player1.current_goods == old(self).player1.current_goods,
            final(self).player2.current_goods == old(self).player2.current_goods,
            final(self).player1.turn_data == old(self).player1.turn_data,
            final(self).player2.turn_data == old(self).player2.turn_data,
            final(self).spec_source((CardSource::Table(p))) == old(self).spec_source((CardSource::Table(p))).push(card),
            final(self).total_card_multiset() =~= old(self).total_card_multiset().insert(card),
            forall|s2: CardSource| s2 != (CardSource::Table(p)) ==> final(self).spec_source(s2) == old(self).spec_source(s2),
    {
        proof {
            broadcast use vstd::seq_lib::group_to_multiset_ensures;
        }
        let ghost source = CardSource::Table(p);
        let ghost cardg = card;
        let area = self.resolve_area_mut(p);
        let ghost table0 = area.table@;
        area.table.add_card(card);
        proof {
            assert(final(area).table@.drop_last() == table0);
            assert(hand_cards(self.rel_area(p).table@) =~= hand_cards(table0).push(cardg));
            lemma_source_add(*old(self), *self, source, cardg);
        }
    }
}

/// When exactly one zone sequence lost the element at `index` and every
/// other zone and the players' non-zone fields kept their values, the
/// game-wide conclusions of a removal hold.
proof fn lemma_source_remove(pre: GameState, post: GameState, source: CardSource, index: int)
    requires
        0 <= index < pre.spec_source(source).len(),
        post.spec_source(source) == pre.spec_source(source).remove(index),
        forall|s2: CardSource| s2 != source ==> post.spec_source(s2) == pre.spec_source(s2),
        post.current_player == pre.current_player,
        post.scrapped == pre.scrapped,
        post.trade_row_stack == pre.trade_row_stack,
    ensures
        post.total_card_multiset().insert(pre.spec_source(source)[index])
            =~= pre.total_card_multiset(),
{
    broadcast use vstd::seq_lib::group_to_multiset_ensures;

    let c = pre.spec_source(source)[index];
    assert(pre.spec_source(source).contains(c));
    assert(pre.spec_source(source).to_multiset().count(c) > 0);
    assert(post.spec_source(source).to_multiset() =~= pre.spec_source(source).to_multiset()
        .remove(c));
    lemma_zone_sources(pre, post, source);
}

proof fn lemma_source_add(pre: GameState, post: GameState, source: CardSource, card: CardRef)
    requires
        post.spec_source(source) == pre.spec_source(source).push(card),
        forall|s2: CardSource| s2 != source ==> post.spec_source(s2) == pre.spec_source(s2),
        post.current_player == pre.current_player,
        post.scrapped == pre.scrapped,
        post.trade_row_stack == pre.trade_row_stack,
    ensures
        post.total_card_multiset() =~= pre.total_card_multiset().insert(card),
{
    broadcast use vstd::seq_lib::group_to_multiset_ensures;

    assert(post.spec_source(source).to_multiset() =~= pre.spec_source(source).to_multiset()
        .insert(card));
    lemma_zone_sources(pre, post, source);
}


/// Instantiates the unchanged-zone hypothesis at every card source, so the
/// per-field multisets of the two callers above connect to `spec_source`.
proof fn lemma_zone_sources(pre: GameState, post: GameState, source: CardSource)
    requires
        forall|s2: CardSource| s2 != source ==> post.spec_source(s2) == pre.spec_source(s2),
        post.current_player == pre.current_player,
    ensures
        source != CardSource::Deck(RelativePlayer::Current) ==> post.spec_source(
            CardSource::Deck(RelativePlayer::Current),
        ) == pre.spec_source(CardSource::Deck(RelativePlayer::Current)),
        source != CardSource::Deck(RelativePlayer::Opponent) ==> post.spec_source(
            CardSource::Deck(RelativePlayer::Opponent),
        ) == pre.spec_source(CardSource::Deck(RelativePlayer::Opponent)),
        source != CardSource::Discard(RelativePlayer::Current) ==> post.spec_source(
            CardSource::Discard(RelativePlayer::Current),
        ) == pre.spec_source(CardSource::Discard(RelativePlayer::Current)),
        source != CardSource::Discard(RelativePlayer::Opponent) ==> post.spec_source(
            CardSource::Discard(RelativePlayer::Opponent),
        ) == pre.spec_source(CardSource::Discard(RelativePlayer::Opponent)),
        source != CardSource::Hand(RelativePlayer::Current) ==> post.spec_source(
            CardSource::Hand(RelativePlayer::Current),
        ) == pre.spec_source(CardSource::Hand(RelativePlayer::Current)),
        source != CardSource::Hand(RelativePlayer::Opponent) ==> post.spec_source(
            CardSource::Hand(RelativePlayer::Opponent),
        ) == pre.spec_source(CardSource::Hand(RelativePlayer::Opponent)),
        source != CardSource::Table(RelativePlayer::Current) ==> post.spec_source(
            CardSource::Table(RelativePlayer::Current),
        ) == pre.spec_source(CardSource::Table(RelativePlayer::Current)),
        source != CardSource::Table(RelativePlayer::Opponent) ==> post.spec_source(
            CardSource::Table(RelativePlayer::Opponent),
        ) == pre.spec_source(CardSource::Table(RelativePlayer::Opponent)),
        source != CardSource::TradeRow ==> post.spec_source(CardSource::TradeRow)
            == pre.spec_source(CardSource::TradeRow),
{
}


/// Is this active card an outpost in play?
pub open spec fn is_outpost_card(ac: ActiveCard) -> bool {
    ac.card.base matches Some(Base::Outpost(_))
}

/// The defense of an active card's base; zero when it has none.
pub open spec fn spec_base_defense(ac: ActiveCard) -> int {
    match ac.card.base {
        Some(Base::Outpost(d)) => d as int,
        Some(Base::Base(d)) => d as int,
        None => 0,
    }
}

/// The index of the first outpost with minimal defense, peeling from the
/// back so a scan from the front matches it.
pub open spec fn spec_min_outpost_idx(table: Seq<ActiveCard>) -> Option<int>
    decreases table.len(),
{
    if table.len() == 0 {
        None
    } else {
        let k = table.len() - 1;
        let rest = spec_min_outpost_idx(table.drop_last());
        if is_outpost_card(table.last()) {
            match rest {
                None => Some(k as int),
                Some(j) => if spec_base_defense(table[j]) <= spec_base_defense(table.last()) {
                    Some(j)
                } else {
                    Some(k as int)
                },
            }
        } else {
            rest
        }
    }
}

/// Greedy combat allocation against outposts, weakest first: the surviving
/// table, the destroyed cards in destruction order, and the combat left.
pub open spec fn spec_combat_allocate(table: Seq<ActiveCard>, combat: int) -> (
    Seq<ActiveCard>,
    Seq<ActiveCard>,
    int,
)
    decreases table.len(),
{
    match spec_min_outpost_idx(table) {
        None => (table, Seq::<ActiveCard>::empty(), combat),
        Some(i) => {
            let d = spec_base_defense(table[i]);
            if 0 <= i < table.len() && combat >= d {
                let rec = spec_combat_allocate(table.remove(i), combat - d);
                (rec.0, seq![table[i]] + rec.1, rec.2)
            } else {
                (table, Seq::<ActiveCard>::empty(), combat)
            }
        },
    }
}

/// The cards of `row[from..to)` that survive removing the listed indices,
/// in their original order.
pub open spec fn spec_row_keep(row: Seq<CardRef>, ids: Seq<u32>, from: int, to: int) -> Seq<
    CardRef,
>
    decreases to - from,
{
    if from >= to {
        Seq::<CardRef>::empty()
    } else {
        let rest = spec_row_keep(row, ids, from + 1, to);
        if ids.contains(from as u32) {
            rest
        } else {
            seq![row[from]] + rest
        }
    }
}

/// The cards of `row[from..to)` at the listed indices, highest index
/// first, as the removal loop collects them.
pub open spec fn spec_row_removed(row: Seq<CardRef>, ids: Seq<u32>, from: int, to: int) -> Seq<
    CardRef,
>
    decreases to - from,
{
    if from >= to {
        Seq::<CardRef>::empty()
    } else {
        let rest = spec_row_removed(row, ids, from + 1, to);
        if ids.contains(from as u32) {
            rest + seq![row[from]]
        } else {
            rest
        }
    }
}

impl GameState {
    /// Removes the cards at the listed trade-row indices, largest first so
    /// indices stay meaningful, and returns exactly those cards (highest
    /// index first); out-of-range or repeated indices are ignored and the
    /// rest of the row keeps its order.
    #[verifier::loop_isolation(false)]
    pub fn remove_cards_from_trade_row(&mut self, ids: Vec<u32>) -> (r: Vec<CardRef>)
        ensures
            final(self).current_player == old(self).current_player,
            final(self).explorers == old(self).explorers,
            final(self).scrapped == old(self).scrapped,
            final(self).trade_row_stack == old(self).trade_row_stack,
            final(self).card_library == old(self).card_library,
            final(self).player1 == old(self).player1,
            final(self).player2 == old(self).player2,
            final(self).trade_row@.len() + r@.len() == old(self).trade_row@.len(),
            final(self).trade_row@.to_multiset().add(r@.to_multiset()) =~= old(self).trade_row@.to_multiset(),
            final(self).trade_row@ == spec_row_keep(
                old(self).trade_row@,
                ids@,
                0,
                old(self).trade_row@.len() as int,
            ),
            r@ == spec_row_removed(old(self).trade_row@, ids@, 0, old(self).trade_row@.len() as int),
    {
        proof {
            broadcast use vstd::seq_lib::group_to_multiset_ensures;
        }
        let ghost orig = self.trade_row@;
        let ghost n0 = self.trade_row@.len() as int;
        let mut removed: Vec<CardRef> = Vec::new();
        let mut i: usize = self.trade_row.len();
        proof {
            assert(spec_row_keep(orig, ids@, n0, n0) =~= Seq::<CardRef>::empty());
            assert(orig.take(n0) + spec_row_keep(orig, ids@, n0, n0) =~= orig);
        }
        while i > 0
            invariant
                i <= n0,
                self.current_player == old(self).current_player,
                self.explorers == old(self).explorers,
                self.scrapped == old(self).scrapped,
                self.trade_row_stack == old(self).trade_row_stack,
                self.card_library == old(self).card_library,
                self.player1 == old(self).player1,
                self.player2 == old(self).player2,
                self.trade_row@.len() + removed@.len() == old(self).trade_row@.len(),
                self.trade_row@.to_multiset().add(removed@.to_multiset()) =~= old(self).trade_row@.to_multiset(),
                self.trade_row@ == orig.take(i as int) + spec_row_keep(orig, ids@, i as int, n0),
                removed@ == spec_row_removed(orig, ids@, i as int, n0),
            decreases i,
        {
            i = i - 1;
            let ghost row0 = self.trade_row@;
            let ghost rem0 = removed@;
            if contains_u32(&ids, i as u32) {
                match self.trade_row.remove(i) {
                    Some(card) => {
                        removed.push(card);
                        proof {
                            broadcast use vstd::seq_lib::group_to_multiset_ensures;
                            let c = row0[i as int];
                            assert(c == orig[i as int]) by {
                                assert(row0 == orig.take(i + 1) + spec_row_keep(
                                    orig,
                                    ids@,
                                    i + 1,
                                    n0,
                                ));
                                assert(orig.take(i + 1)[i as int] == orig[i as int]);
                            }
                            assert(self.trade_row@.to_multiset() =~= row0.to_multiset().remove(
                                c,
                            ));
                            assert(removed@.to_multiset() =~= rem0.to_multiset().insert(c));
                            assert(row0.to_multiset().count(c) > 0);
                            assert(self.trade_row@.to_multiset().add(removed@.to_multiset())
                                =~= row0.to_multiset().add(rem0.to_multiset()));
                            assert(self.trade_row@ =~= orig.take(i as int) + spec_row_keep(
                                orig,
                                ids@,
                                i as int,
                                n0,
                            )) by {
                                assert(row0.remove(i as int) =~= orig.take(i as int)
                                    + spec_row_keep(orig, ids@, i + 1, n0));
                            }
                            assert(removed@ =~= spec_row_removed(orig, ids@, i as int, n0));
                        }
                    },
                    None => {
                        proof {
                            assert(false);
                        }
                    },
                }
            } else {
                proof {
                    assert(self.trade_row@ =~= orig.take(i as int) + spec_row_keep(
                        orig,
                        ids@,
                        i as int,
                        n0,
                    )) by {
                        assert(spec_row_keep(orig, ids@, i as int, n0) =~= seq![
                            orig[i as int],
                        ] + spec_row_keep(orig, ids@, i + 1, n0));
                        assert(orig.take(i + 1) =~= orig.take(i as int) + seq![orig[i as int]]);
                    }
                    assert(removed@ =~= spec_row_removed(orig, ids@, i as int, n0));
                }
            }
        }
        proof {
            assert(orig.take(0) + spec_row_keep(orig, ids@, 0, n0) =~= spec_row_keep(
                orig,
                ids@,
                0,
                n0,
            ));
        }
        removed
    }

    /// Buys the card at `index` of the trade row: rejected with `Invalid`
    /// feedback, changing nothing, when the index is stale or the player
    /// cannot afford the cost; on success the trade drops by the cost, the
    /// card goes to the buyer's discard pile (or where a pending trigger
    /// directs it), and the trade row refills.
    pub fn acquire_from_trade_row(&mut self, index: usize) -> (r: Result<(), Feedback>)
        ensures
            r matches Err(f) ==> f is Invalid && *final(self) == *old(self),
            (r is Ok) == (index < old(self).trade_row@.len()
                && old(self).spec_current().current_goods.trade >= old(self).trade_row@[index as int].cost),
            r is Ok ==> final(self).spec_current().current_goods.trade == old(self).spec_current().current_goods.trade - old(self).trade_row@[index as int].cost,
            r is Ok && old(self).spec_current().turn_data.triggers@.len() == 0
                ==> final(self).spec_current().discard@ == old(self).spec_current().discard@.push(
                old(self).trade_row@[index as int],
            ),
            r is Ok ==> final(self).current_player == old(self).current_player
                && final(self).explorers == old(self).explorers
                && final(self).scrapped == old(self).scrapped
                && final(self).spec_opponent().authority == old(self).spec_opponent().authority
                && final(self).spec_current().authority == old(self).spec_current().authority,
            r is Ok && old(self).spec_current().turn_data.triggers@.len() == 0
                ==> final(self).trade_row@.len() == if old(self).trade_row@.len() - 1 >= 5 {
                    old(self).trade_row@.len() - 1
                } else if old(self).trade_row@.len() - 1 + old(self).trade_row_stack@.len() >= 5 {
                    5int
                } else {
                    old(self).trade_row@.len() - 1 + old(self).trade_row_stack@.len()
                },
    {
        if index >= self.trade_row.len() {
            return Err(Feedback::Invalid(String::from_str("No such card in the trade row")));
        }
        let cost = match self.trade_row.get(index) {
            Some(c) => c.cost,
            None => unreached(),
        };
        if self.get_current_player().current_goods.trade < cost {
            return Err(Feedback::Invalid(String::from_str("Not enough trade for this card")));
        }
        let card = match self.trade_row.remove(index) {
            Some(c) => c,
            None => unreached(),
        };
        let ghost mid1 = *self;
        {
            let area = self.resolve_area_mut(RelativePlayer::Current);
            area.current_goods.trade = area.current_goods.trade - cost;
        }
        let ghost mid2 = *self;
        let destination = {
            let area = self.resolve_area_mut(RelativePlayer::Current);
            let tl = area.turn_data.triggers.len();
            if tl > 0 {
                let trigger = area.turn_data.triggers.remove(tl - 1);
                Some(trigger.destination)
            } else {
                None
            }
        };
        match destination {
            Some(dest) => {
                self.source_add(dest, card);
            },
            None => {
                let area = self.resolve_area_mut(RelativePlayer::Current);
                area.discard.add(card);
            },
        }
        self.fill_trade_row(5);
        Ok(())
    }

    /// Buys one of the special always-available explorer cards: rejected
    /// with `Invalid` feedback, changing nothing, when none remain or the
    /// player cannot afford one; on success the remaining count drops by
    /// one, the player's trade drops by the catalog explorer's cost, and
    /// that card joins the discard pile.
    pub fn buy_explorer(&mut self) -> (r: Result<(), Feedback>)
        requires
            old(self).card_library.spec_has_name("explorer"@),
        ensures
            r matches Err(f) ==> f is Invalid && *final(self) == *old(self),
            (r is Ok) == (old(self).explorers > 0
                && old(self).spec_current().current_goods.trade >= old(self).card_library.spec_card_named("explorer"@).unwrap().cost),
            r is Ok ==> final(self).explorers == old(self).explorers - 1
                && final(self).spec_current().discard@ == old(self).spec_current().discard@.push(
                old(self).card_library.spec_card_named("explorer"@).unwrap(),
            ) && final(self).spec_current().current_goods.trade == old(self).spec_current().current_goods.trade - old(self).card_library.spec_card_named(
                "explorer"@,
            ).unwrap().cost && final(self).spec_current().current_goods.authority == old(self).spec_current().current_goods.authority && final(self).spec_current().current_goods.combat == old(self).spec_current().current_goods.combat
                && final(self).spec_current().hand == old(self).spec_current().hand && final(self).spec_current().deck == old(self).spec_current().deck && final(self).spec_current().table == old(self).spec_current().table && final(self).spec_current().authority == old(self).spec_current().authority && final(self).spec_opponent() == old(self).spec_opponent() && final(self).current_player == old(self).current_player && final(self).trade_row == old(self).trade_row && final(self).trade_row_stack == old(self).trade_row_stack && final(self).scrapped == old(self).scrapped && final(self).card_library == old(self).card_library,
    {
        if self.explorers == 0 {
            return Err(Feedback::Invalid(String::from_str("No explorers are left")));
        }
        let explorer = match self.card_library.get_explorer() {
            Some(c) => c,
            None => unreached(),
        };
        let cost = explorer.cost;
        if self.get_current_player().current_goods.trade < cost {
            return Err(Feedback::Invalid(String::from_str("Not enough trade for an explorer")));
        }
        self.explorers = self.explorers - 1;
        let area = self.resolve_area_mut(RelativePlayer::Current);
        area.current_goods.trade = area.current_goods.trade - cost;
        area.discard.add(explorer);
        Ok(())
    }
}

/// Does the vector hold this value?
pub fn contains_u32(ids: &Vec<u32>, x: u32) -> (r: bool)
    ensures
        r == ids@.contains(x),
{
    let n = ids.len();
    let mut i: usize = 0;
    while i < n
        invariant
            n == ids@.len(),
            i <= n,
            forall|j: int| 0 <= j < i ==> ids@[j] != x,
        decreases n - i,
    {
        if ids[i] == x {
            return true;
        }
        i += 1;
    }
    false
}


/// The references of the cards flagged for the discard pile, in order.
pub open spec fn discards_of(s: Seq<ActiveCard>) -> Seq<CardRef>
    decreases s.len(),
{
    if s.len() == 0 {
        Seq::<CardRef>::empty()
    } else {
        let rest = discards_of(s.drop_last());
        if s.last().will_discard {
            rest.push(s.last().card)
        } else {
            rest
        }
    }
}

/// The references of the cards flagged for the scrap pile, in order.
pub open spec fn scraps_of(s: Seq<ActiveCard>) -> Seq<CardRef>
    decreases s.len(),
{
    if s.len() == 0 {
        Seq::<CardRef>::empty()
    } else {
        let rest = scraps_of(s.drop_last());
        if s.last().will_discard {
            rest
        } else {
            rest.push(s.last().card)
        }
    }
}

/// Finds the first outpost with minimal defense on a table.
fn find_min_outpost(table: &IdCardCollection) -> (r: Option<(usize, u8)>)
    ensures
        r matches Some(p) ==> spec_min_outpost_idx(table@) == Some(p.0 as int) && p.0
            < table@.len() && is_outpost_card(table@[p.0 as int]) && spec_base_defense(
            table@[p.0 as int],
        ) == p.1,
        r is None ==> spec_min_outpost_idx(table@) is None,
{
    let n = table.len();
    let mut best: Option<(usize, u8)> = None;
    let mut i: usize = 0;
    proof {
        assert(table@.take(0) =~= Seq::<ActiveCard>::empty());
    }
    while i < n
        invariant
            n == table@.len(),
            i <= n,
            best matches Some(p) ==> spec_min_outpost_idx(table@.take(i as int)) == Some(
                p.0 as int,
            ) && p.0 < i && is_outpost_card(table@[p.0 as int]) && spec_base_defense(
                table@[p.0 as int],
            ) == p.1,
            best is None ==> spec_min_outpost_idx(table@.take(i as int)) is None,
        decreases n - i,
    {
        let ghost prefix = table@.take(i as int);
        let ac = match table.get(i) {
            Some(ac) => ac,
            None => unreached(),
        };
        let is_outpost = match &ac.card.base {
            Some(b) => b.is_outpost(),
            None => false,
        };
        proof {
            assert(table@.take(i + 1).drop_last() =~= prefix);
            assert(table@.take(i + 1).last() == table@[i as int]);
        }
        if is_outpost {
            let d = match &ac.card.base {
                Some(b) => b.defense(),
                None => unreached(),
            };
            match best {
                None => {
                    best = Some((i, d));
                },
                Some(p) => {
                    if d < p.1 {
                        best = Some((i, d));
                    }
                },
            }
        }
        i += 1;
    }
    proof {
        assert(table@.take(n as int) =~= table@);
    }
    best
}

impl GameState {
    /// The combat phase. With no opposing outpost, all accrued combat goes
    /// to the opponent's authority; the result says whether that destroyed
    /// them. With outposts up, combat only destroys outposts, weakest
    /// first, while it can afford the weakest; leftover combat has no
    /// further effect, and a combat total below the weakest outpost's
    /// defense deals no damage at all.
    pub fn apply_combat(&mut self) -> (r: bool)
        ensures
            final(self).current_player == old(self).current_player,
            final(self).trade_row == old(self).trade_row,
            final(self).trade_row_stack == old(self).trade_row_stack,
            final(self).scrapped == old(self).scrapped,
            final(self).explorers == old(self).explorers,
            final(self).card_library == old(self).card_library,
            final(self).spec_current().hand == old(self).spec_current().hand,
            final(self).spec_current().table == old(self).spec_current().table,
            final(self).spec_current().deck == old(self).spec_current().deck,
            final(self).spec_current().discard == old(self).spec_current().discard,
            final(self).spec_current().authority == old(self).spec_current().authority,
            final(self).spec_current().current_goods == old(self).spec_current().current_goods,
            final(self).spec_opponent().hand == old(self).spec_opponent().hand,
            final(self).spec_opponent().deck == old(self).spec_opponent().deck,
            final(self).spec_opponent().current_goods == old(self).spec_opponent().current_goods,
            final(self).spec_opponent().turn_data == old(self).spec_opponent().turn_data,
            spec_min_outpost_idx(old(self).spec_opponent().table@) is None ==> ({
                let combat = old(self).spec_current().current_goods.combat;
                &&& final(self).spec_opponent().table == old(self).spec_opponent().table
                &&& final(self).spec_opponent().discard == old(self).spec_opponent().discard
                &&& (combat >= old(self).spec_opponent().authority ==> final(self).spec_opponent().authority == 0 && r)
                &&& (combat < old(self).spec_opponent().authority ==> final(self).spec_opponent().authority == old(self).spec_opponent().authority - combat && !r)
            }),
            spec_min_outpost_idx(old(self).spec_opponent().table@) is Some ==> ({
                let combat = old(self).spec_current().current_goods.combat as int;
                let alloc = spec_combat_allocate(old(self).spec_opponent().table@, combat);
                &&& !r
                &&& final(self).spec_opponent().authority == old(self).spec_opponent().authority
                &&& final(self).spec_opponent().table@ == alloc.0
                &&& final(self).spec_opponent().discard@ == old(self).spec_opponent().discard@
                    + hand_cards(alloc.1)
            }),
            final(self).total_card_multiset() =~= old(self).total_card_multiset(),
    {
        let combat: Combat = self.get_current_player().current_goods.combat;
        let has_outpost = {
            let opponent = self.get_current_opponent();
            find_min_outpost(&opponent.table).is_some()
        };
        if !has_outpost {
            let opponent = self.resolve_area_mut(RelativePlayer::Opponent);
            let dead = opponent.deal_damage(combat);
            proof {
                assert(self.player1.zone_multiset() =~= old(self).player1.zone_multiset());
                assert(self.player2.zone_multiset() =~= old(self).player2.zone_multiset());
            }
            dead
        } else {
            let ghost table0 = self.spec_opponent().table@;
            let ghost combat0 = combat as int;
            let mut left: Combat = combat;
            let ghost destroyed: Seq<ActiveCard> = Seq::<ActiveCard>::empty();
            let ghost disc0 = self.spec_opponent().discard@;
            proof {
                assert(hand_cards(destroyed) =~= Seq::<CardRef>::empty());
                assert(disc0 + hand_cards(destroyed) =~= disc0);
            }
            loop
                invariant_except_break
                    spec_combat_allocate(table0, combat0).0 == spec_combat_allocate(
                        self.spec_opponent().table@,
                        left as int,
                    ).0,
                    spec_combat_allocate(table0, combat0).1 =~= destroyed + spec_combat_allocate(
                        self.spec_opponent().table@,
                        left as int,
                    ).1,
                    spec_combat_allocate(table0, combat0).2 == spec_combat_allocate(
                        self.spec_opponent().table@,
                        left as int,
                    ).2,
                    self.spec_opponent().discard@ == disc0 + hand_cards(destroyed),
                    self.current_player == old(self).current_player,
                    self.trade_row == old(self).trade_row,
                    self.trade_row_stack == old(self).trade_row_stack,
                    self.scrapped == old(self).scrapped,
                    self.explorers == old(self).explorers,
                    self.card_library == old(self).card_library,
                    self.spec_current() == old(self).spec_current(),
                    self.spec_opponent().hand == old(self).spec_opponent().hand,
                    self.spec_opponent().deck == old(self).spec_opponent().deck,
                    self.spec_opponent().current_goods == old(self).spec_opponent().current_goods,
                    self.spec_opponent().turn_data == old(self).spec_opponent().turn_data,
                    self.spec_opponent().authority == old(self).spec_opponent().authority,
                    self.total_card_multiset() =~= old(self).total_card_multiset(),
                ensures
                    spec_combat_allocate(self.spec_opponent().table@, left as int).0
                        == self.spec_opponent().table@,
                    spec_combat_allocate(self.spec_opponent().table@, left as int).1
                        =~= Seq::<ActiveCard>::empty(),
                    spec_combat_allocate(self.spec_opponent().table@, left as int).2
                        == left as int,
                    self.spec_opponent().discard@ == disc0 + hand_cards(destroyed),
                    spec_combat_allocate(table0, combat0).0 == spec_combat_allocate(
                        self.spec_opponent().table@,
                        left as int,
                    ).0,
                    spec_combat_allocate(table0, combat0).1 =~= destroyed + spec_combat_allocate(
                        self.spec_opponent().table@,
                        left as int,
                    ).1,
                    self.current_player == old(self).current_player,
                    self.trade_row == old(self).trade_row,
                    self.trade_row_stack == old(self).trade_row_stack,
                    self.scrapped == old(self).scrapped,
                    self.explorers == old(self).explorers,
                    self.card_library == old(self).card_library,
                    self.spec_current() == old(self).spec_current(),
                    self.spec_opponent().hand == old(self).spec_opponent().hand,
                    self.spec_opponent().deck == old(self).spec_opponent().deck,
                    self.spec_opponent().current_goods == old(self).spec_opponent().current_goods,
                    self.spec_opponent().turn_data == old(self).spec_opponent().turn_data,
                    self.spec_opponent().authority == old(self).spec_opponent().authority,
                    self.total_card_multiset() =~= old(self).total_card_multiset(),
                decreases self.spec_opponent().table@.len(),
            {
                let next = {
                    let opponent = self.get_current_opponent();
                    find_min_outpost(&opponent.table)
                };
                match next {
                    None => {
                        break;
                    },
                    Some((idx, d)) => {
                        if left < d {
                            break;
                        }
                        let ghost tpre = self.spec_opponent().table@;
                        let ghost dpre = self.spec_opponent().discard@;
                        let ghost gpre = *self;
                        let opponent = self.resolve_area_mut(RelativePlayer::Opponent);
                        let removed = match opponent.table.remove(idx) {
                            Some(ac) => ac,
                            None => unreached(),
                        };
                        opponent.discard.add(removed.card.clone());
                        proof {
                            broadcast use vstd::seq_lib::group_to_multiset_ensures;
                            let c = removed.card;
                            assert(hand_cards(self.spec_opponent().table@) =~= hand_cards(
                                tpre,
                            ).remove(idx as int));
                            assert(hand_cards(tpre)[idx as int] == c);
                            assert(hand_cards(tpre).to_multiset().count(c) > 0);
                            assert(self.spec_opponent().discard@.to_multiset() =~= dpre
                                .to_multiset().insert(c));
                            assert forall|y: CardRef| self.spec_opponent().zone_multiset().count(
                                y,
                            ) == gpre.spec_opponent().zone_multiset().count(y) by {}
                            assert(self.spec_opponent().zone_multiset() =~= gpre.spec_opponent()
                                .zone_multiset());
                            lemma_total_ms_opponent(gpre, *self);
                        }
                        proof {
                            destroyed = destroyed.push(removed);
                            assert(hand_cards(destroyed) =~= hand_cards(destroyed.drop_last())
                                .push(removed.card));
                            assert(self.spec_opponent().discard@ =~= disc0 + hand_cards(
                                destroyed,
                            ));
                            assert(spec_combat_allocate(tpre, left as int + d).1 =~= seq![removed]
                                + spec_combat_allocate(self.spec_opponent().table@, left as int).1);
                            assert((destroyed.drop_last() + (seq![removed] + spec_combat_allocate(
                                self.spec_opponent().table@,
                                left as int,
                            ).1)) =~= destroyed + spec_combat_allocate(
                                self.spec_opponent().table@,
                                left as int,
                            ).1);
                        }
                        left = left - d;
                    },
                }
            }
            false
        }
    }
}


impl GameState {
    /// The cleanup phase: every card left in the current player's hand
    /// moves to their discard pile, except cards flagged for the scrap
    /// pile, which go there; no card disappears. The per-turn resources
    /// and bookkeeping reset.
    pub fn cleanup_phase(&mut self)
        ensures
            final(self).current_player == old(self).current_player,
            final(self).trade_row == old(self).trade_row,
            final(self).trade_row_stack == old(self).trade_row_stack,
            final(self).explorers == old(self).explorers,
            final(self).card_library == old(self).card_library,
            final(self).spec_opponent() == old(self).spec_opponent(),
            final(self).spec_current().hand@.len() == 0,
            final(self).spec_current().deck == old(self).spec_current().deck,
            final(self).spec_current().table == old(self).spec_current().table,
            final(self).spec_current().authority == old(self).spec_current().authority,
            final(self).spec_current().discard@ == old(self).spec_current().discard@
                + discards_of(old(self).spec_current().hand@),
            final(self).scrapped@ == old(self).scrapped@ + scraps_of(
                old(self).spec_current().hand@,
            ),
            final(self).spec_current().card_count() + final(self).scrapped@.len() == old(self).spec_current().card_count() + old(self).scrapped@.len(),
            final(self).spec_current().current_goods == (Goods {
                trade: 0,
                authority: 0,
                combat: 0,
            }),
            final(self).spec_current().turn_data.total_combat == 0,
            final(self).spec_current().turn_data.triggers@.len() == 0,
            final(self).total_card_multiset() =~= old(self).total_card_multiset(),
    {
        let ghost hand0 = self.spec_current().hand@;
        let ghost disc0 = self.spec_current().discard@;
        let ghost scrap0 = self.scrapped@;
        let mut k: usize = 0;
        let n = self.get_current_player().hand.len();
        proof {
            assert(hand0.take(0) =~= Seq::<ActiveCard>::empty());
            assert(disc0 + discards_of(hand0.take(0)) =~= disc0);
            assert(scrap0 + scraps_of(hand0.take(0)) =~= scrap0);
        }
        while k < n
            invariant
                k <= n,
                n == hand0.len(),
                self.current_player == old(self).current_player,
                self.trade_row == old(self).trade_row,
                self.trade_row_stack == old(self).trade_row_stack,
                self.explorers == old(self).explorers,
                self.card_library == old(self).card_library,
                self.spec_opponent() == old(self).spec_opponent(),
                hand0 == old(self).spec_current().hand@,
                disc0 == old(self).spec_current().discard@,
                scrap0 == old(self).scrapped@,
                self.spec_current().hand@ == hand0.skip(k as int),
                self.spec_current().deck == old(self).spec_current().deck,
                self.spec_current().table == old(self).spec_current().table,
                self.spec_current().authority == old(self).spec_current().authority,
                self.spec_current().current_goods == old(self).spec_current().current_goods,
                self.spec_current().turn_data == old(self).spec_current().turn_data,
                self.spec_current().discard@ == disc0 + discards_of(hand0.take(k as int)),
                self.scrapped@ == scrap0 + scraps_of(hand0.take(k as int)),
            decreases n - k,
        {
            let removed = {
                let area = self.resolve_area_mut(RelativePlayer::Current);
                area.hand.remove(0)
            };
            proof {
                assert(hand0.skip(k as int).remove(0) =~= hand0.skip(k + 1));
                assert(hand0.take(k + 1).drop_last() =~= hand0.take(k as int));
                assert(hand0.take(k + 1).last() == hand0[k as int]);
            }
            match removed {
                Some(ac) => {
                    proof {
                        assert(ac == hand0.skip(k as int)[0]);
                        assert(hand0.skip(k as int)[0] == hand0[k as int]);
                    }
                    if ac.will_discard {
                        let area = self.resolve_area_mut(RelativePlayer::Current);
                        area.discard.add(ac.card);
                        proof {
                            assert(self.spec_current().discard@ =~= disc0 + discards_of(
                                hand0.take(k + 1),
                            ));
                            assert(self.scrapped@ =~= scrap0 + scraps_of(hand0.take(k + 1)));
                        }
                    } else {
                        self.scrapped.add(ac.card);
                        proof {
                            assert(self.scrapped@ =~= scrap0 + scraps_of(hand0.take(k + 1)));
                            assert(self.spec_current().discard@ =~= disc0 + discards_of(
                                hand0.take(k + 1),
                            ));
                        }
                    }
                },
                None => {
                    proof {
                        assert(false);
                    }
                },
            }
            k += 1;
        }
        proof {
            assert(hand0.take(n as int) =~= hand0);
            assert(hand0.skip(n as int) =~= Seq::<ActiveCard>::empty());
            lemma_cleanup_count(hand0);
        }
        let area = self.resolve_area_mut(RelativePlayer::Current);
        area.current_goods = Goods { trade: 0, authority: 0, combat: 0 };
        area.turn_data.reset();
        proof {
            broadcast use vstd::seq_lib::group_to_multiset_ensures;
            lemma_cleanup_conserves_cards(hand0);
            vstd::seq_lib::lemma_multiset_commutative(
                old(self).spec_current().discard@,
                discards_of(hand0),
            );
            vstd::seq_lib::lemma_multiset_commutative(old(self).scrapped@, scraps_of(hand0));
            assert(hand_cards(self.spec_current().hand@) =~= Seq::<CardRef>::empty());
            assert(self.spec_current().zone_multiset().add(self.scrapped@.to_multiset()) =~= old(self).spec_current().zone_multiset().add(old(self).scrapped@.to_multiset()));
            lemma_total_ms_current_scrap(*old(self), *self);
        }
    }
}

/// Every hand card lands in exactly one of the two piles.
proof fn lemma_cleanup_count(s: Seq<ActiveCard>)
    ensures
        discards_of(s).len() + scraps_of(s).len() == s.len(),
    decreases s.len(),
{
    if s.len() > 0 {
        lemma_cleanup_count(s.drop_last());
    }
}

/// Cleanup conserves the player's cards: together, the discarded and the
/// scrapped cards are exactly the cards the hand held.
pub proof fn lemma_cleanup_conserves_cards(s: Seq<ActiveCard>)
    ensures
        discards_of(s).to_multiset().add(scraps_of(s).to_multiset()) =~= hand_cards(
            s,
        ).to_multiset(),
    decreases s.len(),
{
    broadcast use vstd::seq_lib::group_to_multiset_ensures;

    if s.len() > 0 {
        lemma_cleanup_conserves_cards(s.drop_last());
        assert(hand_cards(s) =~= hand_cards(s.drop_last()).push(s.last().card));
    } else {
        assert(hand_cards(s) =~= Seq::<CardRef>::empty());
    }
}


impl GameState {
    /// Sends a message to one player, with no interruption.
    pub fn message_player<C: Client>(&self, client: &mut C, player: &Player, message: StyledText) {
        let text = message.text;
        let msg: PerPlayer<Option<String>> = match player {
            Player::Player1 => PerPlayer::new(Some(text), None),
            Player::Player2 => PerPlayer::new(None, Some(text)),
        };
        let interrupt: PerPlayer<Option<Vec<String>>> = PerPlayer::new(None, None);
        let _ = client.alert(self, &msg, &interrupt, message.style);
    }

    /// Sends the same message to both players, with no interruption.
    pub fn broadcast_message<C: Client>(&self, client: &mut C, message: StyledText) {
        let msg: PerPlayer<Option<String>> = PerPlayer::new(
            Some(message.text.clone()),
            Some(message.text),
        );
        let interrupt: PerPlayer<Option<Vec<String>>> = PerPlayer::new(None, None);
        let _ = client.alert(self, &msg, &interrupt, message.style);
    }

    /// Asks the current player to choose one of `num` anonymous options;
    /// an answer out of range counts as no answer.
    pub fn anon_choice<C: Client>(&self, client: &mut C, num: usize) -> (r: Option<usize>)
        ensures
            r matches Some(i) ==> i < num,
    {
        let mut options: Vec<String> = Vec::new();
        let mut i: usize = 0;
        while i < num
            invariant
                i <= num,
            decreases num - i,
        {
            if i <= u32::MAX as usize {
                options.push(decimal_string(i as u32));
            } else {
                options.push(String::from_str("option"));
            }
            i += 1;
        }
        let msg_text = String::from_str("Choose one option");
        let (msg, interrupt): (PerPlayer<Option<String>>, PerPlayer<Option<Vec<String>>>) =
            match self.current_player {
            Player::Player1 => (
                PerPlayer::new(Some(msg_text), None),
                PerPlayer::new(Some(options), None),
            ),
            Player::Player2 => (
                PerPlayer::new(None, Some(msg_text)),
                PerPlayer::new(None, Some(options)),
            ),
        };
        match client.alert(self, &msg, &interrupt, TextStyle::plain()) {
            Some(i) => if i < num {
                Some(i)
            } else {
                None
            },
            None => None,
        }
    }

    /// Walks a query tree to the single query the client should answer: a
    /// `Disjoint` asks the current player to pick a branch, and a `Union`
    /// of queries is a caller error and is rejected.
    pub fn resolve_query_choice<'a, C: Client>(
        &self,
        client: &mut C,
        q: &'a Join<ClientActionOptionQuery>,
    ) -> (r: Result<&'a ClientActionOptionQuery, String>)
        decreases q,
    {
        match q {
            Join::Unit(query) => Ok(query),
            Join::Union(_) => Err(
                String::from_str("A union of queries cannot be resolved to one choice"),
            ),
            Join::Disjoint(queries) => {
                let n = queries.len();
                if n == 0 {
                    return Err(String::from_str("An empty choice cannot be resolved"));
                }
                match self.anon_choice(client, n) {
                    Some(i) => self.resolve_query_choice(client, &queries[i]),
                    None => Err(String::from_str("The client did not pick an option")),
                }
            },
        }
    }

    /// Obtains the client decision an actionable asks for, if it asks for
    /// one.
    pub fn query_actionable_information<C: Client>(
        &self,
        client: &mut C,
        actionable: &Actionable,
    ) -> (r: Result<Option<ClientActionOptionResponse>, String>)
        ensures
            actionable.client_query is None ==> r == Result::<
                Option<ClientActionOptionResponse>,
                String,
            >::Ok(None),
    {
        match &actionable.client_query {
            Some(query_tree) => {
                let query = match self.resolve_query_choice(client, query_tree) {
                    Ok(q) => q,
                    Err(e) => {
                        return Err(e);
                    },
                };
                let response = client.resolve_action_query(
                    ClientQuery { action_query: query.duplicate(), performer: self.current_player },
                    self,
                );
                Ok(Some(response))
            },
            None => Ok(None),
        }
    }

    /// Runs one atomic operation against the game state. Whatever the
    /// client answered, the game's cards are conserved and nobody's
    /// authority moves; a failure reports a reason and, for the
    /// configured operations, leaves the state exactly as it was.
    pub fn run_actionable(
        &mut self,
        actionable: &Actionable,
        config: Option<ClientActionOptionResponse>,
    ) -> (r: Result<(), String>)
        ensures
            final(self).current_player == old(self).current_player,
            final(self).explorers == old(self).explorers,
            final(self).card_library == old(self).card_library,
            final(self).player1.authority == old(self).player1.authority,
            final(self).player2.authority == old(self).player2.authority,
            final(self).total_card_multiset() =~= old(self).total_card_multiset(),
            actionable.op matches ActionOp::AddGoods(g) ==> r is Ok && final(self).spec_current().current_goods == old(self).spec_current().current_goods.spec_plus(g)
                && final(self).spec_opponent() == old(self).spec_opponent(),
            actionable.op is DrawCard ==> ((r is Ok) == (old(self).spec_current().deck@.len()
                + old(self).spec_current().discard@.len() > 0)) && final(self).spec_current().current_goods == old(self).spec_current().current_goods,
            actionable.op is DrawCard && r is Ok ==> final(self).spec_current().hand@.len() == old(
                self,
            ).spec_current().hand@.len() + 1,
            actionable.op is DrawCard && r is Err ==> *final(self) == *old(self),
            actionable.op is ScrapCard && (config matches Some(
                ClientActionOptionResponse::CardSelection(src, idx),
            ) && idx < old(self).spec_source(src).len()) ==> r is Ok,
            actionable.op is ScrapCard && r is Err ==> *final(self) == *old(self),
            actionable.op is ScrapCard && r is Ok ==> (config matches Some(
                ClientActionOptionResponse::CardSelection(src, idx),
            ) && idx < old(self).spec_source(src).len() && final(self).scrapped@ == old(self).scrapped@.push(old(self).spec_source(src)[idx as int]) && final(self).spec_source(
                src,
            ) == old(self).spec_source(src).remove(idx as int)),
            actionable.op is DiscardCard && (config matches Some(
                ClientActionOptionResponse::CardSelection(src, idx),
            ) && src is Hand && idx < old(self).spec_source(src).len()) ==> r is Ok,
            actionable.op is DiscardCard && r is Ok ==> (config matches Some(
                ClientActionOptionResponse::CardSelection(src, idx),
            ) && src matches CardSource::Hand(p) && idx < old(self).spec_source(src).len()
                && final(self).spec_source(src) == old(self).spec_source(src).remove(idx as int)
                && final(self).spec_source(CardSource::Discard(p)) == old(self).spec_source(
                CardSource::Discard(p),
            ).push(old(self).spec_source(src)[idx as int])),
            actionable.op is DiscardCard && r is Err ==> *final(self) == *old(self),
            actionable.op matches ActionOp::PlaceNextAcquired(dest) ==> r is Ok && final(self).spec_current().turn_data.triggers@.len() == old(self).spec_current().turn_data.triggers@.len() + 1,
    {
        match &actionable.op {
            ActionOp::AddGoods(g) => {
                let g = *g;
                let area = self.resolve_area_mut(RelativePlayer::Current);
                area.current_goods = area.current_goods.plus(g);
                let tc = area.turn_data.total_combat;
                area.turn_data.total_combat = if tc <= u8::MAX - g.combat {
                    tc + g.combat
                } else {
                    u8::MAX
                };
                proof {
                    assert(self.player1.zone_multiset() =~= old(self).player1.zone_multiset());
                    assert(self.player2.zone_multiset() =~= old(self).player2.zone_multiset());
                }
                Ok(())
            },
            ActionOp::DrawCard => {
                let area = self.resolve_area_mut(RelativePlayer::Current);
                let r = area.draw_card_into_hand();
                proof {
                    lemma_total_ms_current(*old(self), *self);
                }
                r.as_result()
            },
            ActionOp::ScrapCard => {
                match config {
                    Some(ClientActionOptionResponse::CardSelection(src, idx)) => {
                        match self.source_remove(src, idx as usize) {
                            Some(card) => {
                                let ghost mid = *self;
                                let ghost cardg = card;
                                self.scrapped.add(card);
                                proof {
                                    broadcast use vstd::seq_lib::group_to_multiset_ensures;
                                    assert(self.scrapped@.to_multiset() =~= mid.scrapped@
                                        .to_multiset().insert(cardg));
                                    assert(self.total_card_multiset() =~= mid
                                        .total_card_multiset().insert(cardg));
                                }
                                Ok(())
                            },
                            None => Err(String::from_str("Selected index is out of range")),
                        }
                    },
                    Some(_) => Err(
                        String::from_str("A card selection was expected for this action"),
                    ),
                    None => Err(String::from_str("This action needs a configuration")),
                }
            },
            ActionOp::DiscardCard => {
                match config {
                    Some(ClientActionOptionResponse::CardSelection(src, idx)) => {
                        let p = match src {
                            CardSource::Hand(p) => p,
                            _ => {
                                return Err(
                                    String::from_str("A discard must come from a hand"),
                                );
                            },
                        };
                        match self.source_remove(CardSource::Hand(p), idx as usize) {
                            Some(card) => {
                                let ghost mid = *self;
                                let ghost cardg = card;
                                self.source_add(CardSource::Discard(p), card);
                                proof {
                                    assert(self.total_card_multiset() =~= mid
                                        .total_card_multiset().insert(cardg));
                                }
                                Ok(())
                            },
                            None => Err(String::from_str("Selected index is out of range")),
                        }
                    },
                    Some(_) => Err(
                        String::from_str("A card selection was expected for this action"),
                    ),
                    None => Err(String::from_str("This action needs a configuration")),
                }
            },
            ActionOp::PlaceNextAcquired(dest) => {
                let dest = *dest;
                let area = self.resolve_area_mut(RelativePlayer::Current);
                area.turn_data.triggers.push(Trigger { destination: dest });
                proof {
                    assert(self.player1.zone_multiset() =~= old(self).player1.zone_multiset());
                    assert(self.player2.zone_multiset() =~= old(self).player2.zone_multiset());
                }
                Ok(())
            },
        }
    }
}

/// Mutating only the opposing player's area, while conserving its zone
/// multiset, conserves the game-wide card multiset.
proof fn lemma_total_ms_opponent(pre: GameState, post: GameState)
    requires
        post.current_player == pre.current_player,
        post.spec_opponent().zone_multiset() =~= pre.spec_opponent().zone_multiset(),
        post.spec_current() == pre.spec_current(),
        post.trade_row == pre.trade_row,
        post.scrapped == pre.scrapped,
        post.trade_row_stack == pre.trade_row_stack,
    ensures
        post.total_card_multiset() =~= pre.total_card_multiset(),
{
}

/// Mutating only the current player's area and the scrap pile, while
/// conserving their combined multiset, conserves the game-wide card
/// multiset.
proof fn lemma_total_ms_current_scrap(pre: GameState, post: GameState)
    requires
        post.current_player == pre.current_player,
        post.spec_current().zone_multiset().add(post.scrapped@.to_multiset()) =~= pre
            .spec_current().zone_multiset().add(pre.scrapped@.to_multiset()),
        post.spec_opponent() == pre.spec_opponent(),
        post.trade_row == pre.trade_row,
        post.trade_row_stack == pre.trade_row_stack,
    ensures
        post.total_card_multiset() =~= pre.total_card_multiset(),
{
    assert forall|y: CardRef| post.total_card_multiset().count(y) == pre.total_card_multiset()
        .count(y) by {
        assert(post.spec_current().zone_multiset().add(post.scrapped@.to_multiset()).count(y)
            == pre.spec_current().zone_multiset().add(pre.scrapped@.to_multiset()).count(y));
    }
}

/// Mutating only the current player's area, while conserving its zone
/// multiset, conserves the game-wide card multiset.
proof fn lemma_total_ms_current(pre: GameState, post: GameState)
    requires
        post.current_player == pre.current_player,
        post.spec_current().zone_multiset() =~= pre.spec_current().zone_multiset(),
        post.spec_opponent() == pre.spec_opponent(),
        post.trade_row == pre.trade_row,
        post.scrapped == pre.scrapped,
        post.trade_row_stack == pre.trade_row_stack,
    ensures
        post.total_card_multiset() =~= pre.total_card_multiset(),
{
}


impl GameState {
    /// Does a pure condition hold for the play performed by the hand card
    /// at `card_idx`?
    pub open spec fn spec_condition_holds(self, cond: Condition, card_idx: int) -> bool {
        match cond {
            Condition::Free => true,
            Condition::Scrapped => 0 <= card_idx < self.spec_current().hand@.len()
                && !self.spec_current().hand@[card_idx].will_discard,
            Condition::Synergy(f) => 0 <= card_idx < self.spec_current().hand@.len()
                && self.spec_current().hand@[card_idx].card.synergizes_with.spec_contains(f),
        }
    }

    /// Can the current player afford a sacrifice right now?
    pub open spec fn spec_can_pay(self, s: Sacrifice) -> bool
        decreases s,
    {
        match s {
            Sacrifice::ScrapThis => true,
            Sacrifice::Goods(g) => self.spec_current().current_goods.trade >= g.trade
                && self.spec_current().current_goods.authority >= g.authority
                && self.spec_current().current_goods.combat >= g.combat,
            Sacrifice::Discard(n) => self.spec_current().hand@.len() >= n,
            Sacrifice::Scrap(n, sources) => self.spec_scrap_ok(sources, n as int),
        }
    }

    /// Do the offered sources allow scrapping `n` cards: a single source
    /// must hold that many, all branches of a `Union` must, and some
    /// branch of a `Disjoint` must.
    pub open spec fn spec_scrap_ok(self, sources: Join<CardSource>, n: int) -> bool
        decreases sources,
    {
        match sources {
            Join::Unit(src) => self.spec_source(src).len() >= n,
            Join::Union(cs) => self.spec_scrap_all(cs@, n),
            Join::Disjoint(cs) => self.spec_scrap_any(cs@, n),
        }
    }

    pub open spec fn spec_scrap_all(self, s: Seq<Join<CardSource>>, n: int) -> bool
        decreases s,
    {
        if s.len() == 0 {
            true
        } else {
            self.spec_scrap_ok(s.last(), n) && self.spec_scrap_all(s.drop_last(), n)
        }
    }

    pub open spec fn spec_scrap_any(self, s: Seq<Join<CardSource>>, n: int) -> bool
        decreases s,
    {
        if s.len() == 0 {
            false
        } else {
            self.spec_scrap_ok(s.last(), n) || self.spec_scrap_any(s.drop_last(), n)
        }
    }

    /// Does a whole requirement tree hold: every branch of a `Union`, at
    /// least one branch of a `Disjoint`, and costs must be affordable.
    pub open spec fn spec_req_holds(self, tree: Join<Requirement>, card_idx: int) -> bool
        decreases tree,
    {
        match tree {
            Join::Unit(Requirement::Condition(c)) => self.spec_condition_holds(c, card_idx),
            Join::Unit(Requirement::Cost(s)) => self.spec_can_pay(s),
            Join::Union(cs) => self.spec_req_all(cs@, card_idx),
            Join::Disjoint(cs) => self.spec_req_any(cs@, card_idx),
        }
    }

    pub open spec fn spec_req_all(self, s: Seq<Join<Requirement>>, card_idx: int) -> bool
        decreases s,
    {
        if s.len() == 0 {
            true
        } else {
            self.spec_req_holds(s.last(), card_idx) && self.spec_req_all(s.drop_last(), card_idx)
        }
    }

    pub open spec fn spec_req_any(self, s: Seq<Join<Requirement>>, card_idx: int) -> bool
        decreases s,
    {
        if s.len() == 0 {
            false
        } else {
            self.spec_req_holds(s.last(), card_idx) || self.spec_req_any(s.drop_last(), card_idx)
        }
    }

    /// Evaluates a pure condition.
    pub fn eval_condition(&self, cond: &Condition, card_idx: usize) -> (r: bool)
        ensures
            r == self.spec_condition_holds(*cond, card_idx as int),
    {
        match cond {
            Condition::Free => true,
            Condition::Scrapped => {
                let hand = &self.get_current_player().hand;
                match hand.get(card_idx) {
                    Some(ac) => !ac.will_discard,
                    None => false,
                }
            },
            Condition::Synergy(f) => {
                let hand = &self.get_current_player().hand;
                match hand.get(card_idx) {
                    Some(ac) => ac.card.synergizes_with.contains(*f),
                    None => false,
                }
            },
        }
    }

    /// Can the current player afford this sacrifice?
    pub fn can_pay(&self, s: &Sacrifice) -> (r: bool)
        ensures
            r == self.spec_can_pay(*s),
        decreases s,
    {
        match s {
            Sacrifice::ScrapThis => true,
            Sacrifice::Goods(g) => {
                let goods = self.get_current_player().current_goods;
                goods.trade >= g.trade && goods.authority >= g.authority && goods.combat
                    >= g.combat
            },
            Sacrifice::Discard(n) => {
                let hl = self.get_current_player().hand.len();
                hl >= *n as usize
            },
            Sacrifice::Scrap(n, sources) => self.scrap_ok(sources, *n),
        }
    }

    #[verifier::loop_isolation(false)]
    fn scrap_ok(&self, sources: &Join<CardSource>, n: u32) -> (r: bool)
        ensures
            r == self.spec_scrap_ok(*sources, n as int),
        decreases sources,
    {
        match sources {
            Join::Unit(src) => {
                let l = self.source_len(*src);
                l >= n as usize
            },
            Join::Union(cs) => {
                let m = cs.len();
                let mut i: usize = 0;
                proof {
                    assert(self.spec_scrap_all(cs@.take(0), n as int) == true);
                }
                while i < m
                    invariant
                        m == cs@.len(),
                        i <= m,
                        self.spec_scrap_all(cs@.take(i as int), n as int),
                    decreases m - i,
                {
                    proof {
                        assert(cs@.take(i + 1).drop_last() =~= cs@.take(i as int));
                        assert(cs@.take(i + 1).last() == cs@[i as int]);
                        assert(decreases_to!(*sources => *cs));
                        assert(decreases_to!(*cs => cs@));
                        assert(decreases_to!(cs@ => cs@[i as int]));
                        assert(decreases_to!(*sources => cs@[i as int]));
                    }
                    if !self.scrap_ok(&cs[i], n) {
                        proof {
                            lemma_scrap_all_extend(*self, cs@, i as int, n as int);
                            assert(!self.spec_scrap_ok(*sources, n as int));
                        }
                        return false;
                    }
                    i += 1;
                }
                proof {
                    assert(cs@.take(m as int) =~= cs@);
                }
                true
            },
            Join::Disjoint(cs) => {
                let m = cs.len();
                let mut i: usize = 0;
                proof {
                    assert(self.spec_scrap_any(cs@.take(0), n as int) == false);
                }
                while i < m
                    invariant
                        m == cs@.len(),
                        i <= m,
                        !self.spec_scrap_any(cs@.take(i as int), n as int),
                    decreases m - i,
                {
                    proof {
                        assert(cs@.take(i + 1).drop_last() =~= cs@.take(i as int));
                        assert(cs@.take(i + 1).last() == cs@[i as int]);
                        assert(decreases_to!(*sources => *cs));
                        assert(decreases_to!(*cs => cs@));
                        assert(decreases_to!(cs@ => cs@[i as int]));
                        assert(decreases_to!(*sources => cs@[i as int]));
                    }
                    if self.scrap_ok(&cs[i], n) {
                        proof {
                            lemma_scrap_any_extend(*self, cs@, i as int, n as int);
                            assert(self.spec_scrap_ok(*sources, n as int));
                        }
                        return true;
                    }
                    i += 1;
                }
                proof {
                    assert(cs@.take(m as int) =~= cs@);
                }
                false
            },
        }
    }

    /// Evaluates a whole requirement tree, without changing anything.
    #[verifier::loop_isolation(false)]
    pub fn eval_requirement(&self, tree: &Join<Requirement>, card_idx: usize) -> (r: bool)
        ensures
            r == self.spec_req_holds(*tree, card_idx as int),
        decreases tree,
    {
        match tree {
            Join::Unit(Requirement::Condition(c)) => self.eval_condition(c, card_idx),
            Join::Unit(Requirement::Cost(s)) => self.can_pay(s),
            Join::Union(cs) => {
                let m = cs.len();
                let mut i: usize = 0;
                proof {
                    assert(self.spec_req_all(cs@.take(0), card_idx as int) == true);
                }
                while i < m
                    invariant
                        m == cs@.len(),
                        i <= m,
                        self.spec_req_all(cs@.take(i as int), card_idx as int),
                    decreases m - i,
                {
                    proof {
                        assert(cs@.take(i + 1).drop_last() =~= cs@.take(i as int));
                        assert(cs@.take(i + 1).last() == cs@[i as int]);
                        assert(decreases_to!(*tree => *cs));
                        assert(decreases_to!(*cs => cs@));
                        assert(decreases_to!(cs@ => cs@[i as int]));
                        assert(decreases_to!(*tree => cs@[i as int]));
                    }
                    if !self.eval_requirement(&cs[i], card_idx) {
                        proof {
                            lemma_req_all_extend(*self, cs@, i as int, card_idx as int);
                            assert(!self.spec_req_holds(*tree, card_idx as int));
                        }
                        return false;
                    }
                    i += 1;
                }
                proof {
                    assert(cs@.take(m as int) =~= cs@);
                }
                true
            },
            Join::Disjoint(cs) => {
                let m = cs.len();
                let mut i: usize = 0;
                proof {
                    assert(self.spec_req_any(cs@.take(0), card_idx as int) == false);
                }
                while i < m
                    invariant
                        m == cs@.len(),
                        i <= m,
                        !self.spec_req_any(cs@.take(i as int), card_idx as int),
                    decreases m - i,
                {
                    proof {
                        assert(cs@.take(i + 1).drop_last() =~= cs@.take(i as int));
                        assert(cs@.take(i + 1).last() == cs@[i as int]);
                        assert(decreases_to!(*tree => *cs));
                        assert(decreases_to!(*cs => cs@));
                        assert(decreases_to!(cs@ => cs@[i as int]));
                        assert(decreases_to!(*tree => cs@[i as int]));
                    }
                    if self.eval_requirement(&cs[i], card_idx) {
                        proof {
                            lemma_req_any_extend(*self, cs@, i as int, card_idx as int);
                            assert(self.spec_req_holds(*tree, card_idx as int));
                        }
                        return true;
                    }
                    i += 1;
                }
                proof {
                    assert(cs@.take(m as int) =~= cs@);
                }
                false
            },
        }
    }
}

/// A failing member anywhere makes every longer prefix of `spec_scrap_all`
/// fail.
proof fn lemma_scrap_all_extend(g: GameState, s: Seq<Join<CardSource>>, i: int, n: int)
    requires
        0 <= i < s.len(),
        !g.spec_scrap_ok(s[i], n),
    ensures
        !g.spec_scrap_all(s, n),
    decreases s.len(),
{
    if s.len() > 0 {
        if i == s.len() - 1 {
        } else {
            lemma_scrap_all_extend(g, s.drop_last(), i, n);
        }
    }
}

proof fn lemma_scrap_any_extend(g: GameState, s: Seq<Join<CardSource>>, i: int, n: int)
    requires
        0 <= i < s.len(),
        g.spec_scrap_ok(s[i], n),
    ensures
        g.spec_scrap_any(s, n),
    decreases s.len(),
{
    if s.len() > 0 {
        if i == s.len() - 1 {
        } else {
            lemma_scrap_any_extend(g, s.drop_last(), i, n);
        }
    }
}

proof fn lemma_req_all_extend(g: GameState, s: Seq<Join<Requirement>>, i: int, card_idx: int)
    requires
        0 <= i < s.len(),
        !g.spec_req_holds(s[i], card_idx),
    ensures
        !g.spec_req_all(s, card_idx),
    decreases s.len(),
{
    if s.len() > 0 {
        if i == s.len() - 1 {
        } else {
            lemma_req_all_extend(g, s.drop_last(), i, card_idx);
        }
    }
}

proof fn lemma_req_any_extend(g: GameState, s: Seq<Join<Requirement>>, i: int, card_idx: int)
    requires
        0 <= i < s.len(),
        g.spec_req_holds(s[i], card_idx),
    ensures
        g.spec_req_any(s, card_idx),
    decreases s.len(),
{
    if s.len() > 0 {
        if i == s.len() - 1 {
        } else {
            lemma_req_any_extend(g, s.drop_last(), i, card_idx);
        }
    }
}


impl GameState {
    /// Pays one sacrifice, asking the client to pick the cards involved.
    /// Whatever the client answers, cards are conserved and authorities
    /// are untouched; failure reports a reason.
    #[verifier::loop_isolation(false)]
    pub fn pay_sacrifice<C: Client>(
        &mut self,
        client: &mut C,
        s: &Sacrifice,
        card_idx: usize,
    ) -> (r: Result<(), String>)
        ensures
            final(self).current_player == old(self).current_player,
            final(self).explorers == old(self).explorers,
            final(self).card_library == old(self).card_library,
            final(self).player1.authority == old(self).player1.authority,
            final(self).player2.authority == old(self).player2.authority,
            final(self).total_card_multiset() =~= old(self).total_card_multiset(),
            *s matches Sacrifice::Goods(g) ==> ((r is Ok) == (
                old(self).spec_current().current_goods.trade >= g.trade && old(self).spec_current().current_goods.authority >= g.authority && old(self).spec_current().current_goods.combat >= g.combat)) && (r is Err ==> *final(self)
                == *old(self)) && (r is Ok ==> final(self).spec_current().current_goods == (
            Goods {
                trade: (old(self).spec_current().current_goods.trade - g.trade) as u8,
                authority: (old(self).spec_current().current_goods.authority
                    - g.authority) as u8,
                combat: (old(self).spec_current().current_goods.combat - g.combat) as u8,
            }) && final(self).spec_current().hand == old(self).spec_current().hand && final(self).spec_current().deck == old(self).spec_current().deck && final(self).spec_current().discard == old(self).spec_current().discard && final(self).spec_current().table == old(self).spec_current().table && final(self).spec_opponent() == old(self).spec_opponent() && final(self).trade_row == old(self).trade_row && final(self).scrapped == old(self).scrapped),
            *s is ScrapThis ==> ((r is Ok) == (card_idx < old(self).spec_current().hand@.len()))
                && (r is Err ==> *final(self) == *old(self)) && (r is Ok ==> final(self).spec_current().hand@ == old(self).spec_current().hand@.update(
                card_idx as int,
                (ActiveCard {
                    will_discard: false,
                    ..old(self).spec_current().hand@[card_idx as int]
                }),
            ) && final(self).spec_current().deck == old(self).spec_current().deck && final(self).spec_current().discard == old(self).spec_current().discard && final(self).spec_current().table == old(self).spec_current().table && final(self).spec_current().current_goods == old(self).spec_current().current_goods && final(self).spec_opponent() == old(self).spec_opponent() && final(self).trade_row == old(self).trade_row && final(self).scrapped == old(self).scrapped),
    {
        match s {
            Sacrifice::ScrapThis => {
                let area = self.resolve_area_mut(RelativePlayer::Current);
                if card_idx < area.hand.len() {
                    let flagged = match area.hand.remove(card_idx) {
                        Some(mut ac) => {
                            ac.will_discard = false;
                            ac
                        },
                        None => unreached(),
                    };
                    area.hand.insert_at(card_idx, flagged);
                    proof {
                        assert(self.rel_area(RelativePlayer::Current).hand@ =~= old(self).rel_area(
                            RelativePlayer::Current,
                        ).hand@.update(
                            card_idx as int,
                            (ActiveCard {
                                will_discard: false,
                                ..old(self).rel_area(RelativePlayer::Current).hand@[
                                    card_idx as int]
                            }),
                        ));
                        assert(hand_cards(self.rel_area(RelativePlayer::Current).hand@)
                            =~= hand_cards(old(self).rel_area(RelativePlayer::Current).hand@));
                        lemma_total_ms_current(*old(self), *self);
                    }
                    Ok(())
                } else {
                    Err(String::from_str("The performing card is no longer in the hand"))
                }
            },
            Sacrifice::Goods(g) => {
                let g = *g;
                let area = self.resolve_area_mut(RelativePlayer::Current);
                let goods = area.current_goods;
                if goods.covers(g) {
                    area.current_goods = goods.minus(g);
                    proof {
                        assert(self.player1.zone_multiset() =~= old(self).player1.zone_multiset());
                        assert(self.player2.zone_multiset() =~= old(self).player2.zone_multiset());
                    }
                    Ok(())
                } else {
                    Err(String::from_str("The cost cannot be paid from the current goods"))
                }
            },
            Sacrifice::Discard(n) => {
                let n = *n;
                let mut k: u32 = 0;
                while k < n
                    invariant
                        self.current_player == old(self).current_player,
                        self.explorers == old(self).explorers,
                        self.card_library == old(self).card_library,
                        self.player1.authority == old(self).player1.authority,
                        self.player2.authority == old(self).player2.authority,
                        self.total_card_multiset() =~= old(self).total_card_multiset(),
                    decreases n - k,
                {
                    let hand_len = self.get_current_player().hand.len();
                    if hand_len == 0 {
                        return Err(String::from_str("No cards are left to discard"));
                    }
                    let response = client.resolve_action_query(
                        ClientQuery {
                            action_query: ClientActionOptionQuery::CardSelection(
                                CardSource::Hand(RelativePlayer::Current),
                            ),
                            performer: self.current_player,
                        },
                        self,
                    );
                    let idx = match response {
                        ClientActionOptionResponse::CardSelection(
                            CardSource::Hand(RelativePlayer::Current),
                            idx,
                        ) => idx,
                        _ => {
                            return Err(String::from_str("A hand selection was expected"));
                        },
                    };
                    match self.source_remove(
                        CardSource::Hand(RelativePlayer::Current),
                        idx as usize,
                    ) {
                        Some(card) => {
                            let ghost mid = *self;
                            let ghost cardg = card;
                            self.source_add(CardSource::Discard(RelativePlayer::Current), card);
                            proof {
                                assert(self.total_card_multiset() =~= mid.total_card_multiset()
                                    .insert(cardg));
                            }
                        },
                        None => {
                            return Err(String::from_str("Selected index is out of range"));
                        },
                    }
                    k += 1;
                }
                Ok(())
            },
            Sacrifice::Scrap(n, sources) => {
                let n = *n;
                let source = match self.resolve_source_choice(client, sources) {
                    Ok(src) => src,
                    Err(e) => {
                        return Err(e);
                    },
                };
                let mut k: u32 = 0;
                while k < n
                    invariant
                        self.current_player == old(self).current_player,
                        self.explorers == old(self).explorers,
                        self.card_library == old(self).card_library,
                        self.player1.authority == old(self).player1.authority,
                        self.player2.authority == old(self).player2.authority,
                        self.total_card_multiset() =~= old(self).total_card_multiset(),
                    decreases n - k,
                {
                    let response = client.resolve_action_query(
                        ClientQuery {
                            action_query: ClientActionOptionQuery::CardSelection(source),
                            performer: self.current_player,
                        },
                        self,
                    );
                    let idx = match response {
                        ClientActionOptionResponse::CardSelection(src, idx) => {
                            if src == source {
                                idx
                            } else {
                                return Err(
                                    String::from_str("The selection names the wrong source"),
                                );
                            }
                        },
                        _ => {
                            return Err(String::from_str("A card selection was expected"));
                        },
                    };
                    match self.source_remove(source, idx as usize) {
                        Some(card) => {
                            let ghost mid = *self;
                            let ghost cardg = card;
                            self.scrapped.add(card);
                            proof {
                                broadcast use vstd::seq_lib::group_to_multiset_ensures;
                                assert(self.scrapped@.to_multiset() =~= mid.scrapped@
                                    .to_multiset().insert(cardg));
                                assert(self.total_card_multiset() =~= mid.total_card_multiset()
                                    .insert(cardg));
                            }
                        },
                        None => {
                            return Err(String::from_str("Selected index is out of range"));
                        },
                    }
                    k += 1;
                }
                Ok(())
            },
        }
    }

    /// Walks a tree of card sources to the one the client wants to use.
    fn resolve_source_choice<C: Client>(
        &self,
        client: &mut C,
        sources: &Join<CardSource>,
    ) -> (r: Result<CardSource, String>)
        decreases sources,
    {
        match sources {
            Join::Unit(src) => Ok(*src),
            Join::Union(_) => Err(
                String::from_str("A union of sources cannot be resolved to one choice"),
            ),
            Join::Disjoint(cs) => {
                let m = cs.len();
                if m == 0 {
                    return Err(String::from_str("An empty choice cannot be resolved"));
                }
                match self.anon_choice(client, m) {
                    Some(i) => {
                        proof {
                            assert(decreases_to!(*sources => *cs));
                            assert(decreases_to!(*cs => cs@));
                            assert(decreases_to!(cs@ => cs@[i as int]));
                            assert(decreases_to!(*sources => cs@[i as int]));
                        }
                        self.resolve_source_choice(client, &cs[i])
                    },
                    None => Err(String::from_str("The client did not pick an option")),
                }
            },
        }
    }

    /// Pays a whole requirement tree: every branch of a `Union`, and the
    /// branch of a `Disjoint` the client picks.
    #[verifier::loop_isolation(false)]
    pub fn pay_requirement<C: Client>(
        &mut self,
        client: &mut C,
        tree: &Join<Requirement>,
        card_idx: usize,
    ) -> (r: Result<(), String>)
        ensures
            final(self).current_player == old(self).current_player,
            final(self).explorers == old(self).explorers,
            final(self).card_library == old(self).card_library,
            final(self).player1.authority == old(self).player1.authority,
            final(self).player2.authority == old(self).player2.authority,
            final(self).total_card_multiset() =~= old(self).total_card_multiset(),
        decreases tree,
    {
        match tree {
            Join::Unit(Requirement::Condition(_)) => Ok(()),
            Join::Unit(Requirement::Cost(s)) => self.pay_sacrifice(client, s, card_idx),
            Join::Union(cs) => {
                let m = cs.len();
                let mut i: usize = 0;
                while i < m
                    invariant
                        m == cs@.len(),
                        i <= m,
                        self.current_player == old(self).current_player,
                        self.explorers == old(self).explorers,
                        self.card_library == old(self).card_library,
                        self.player1.authority == old(self).player1.authority,
                        self.player2.authority == old(self).player2.authority,
                        self.total_card_multiset() =~= old(self).total_card_multiset(),
                    decreases m - i,
                {
                    proof {
                        assert(decreases_to!(*tree => *cs));
                        assert(decreases_to!(*cs => cs@));
                        assert(decreases_to!(cs@ => cs@[i as int]));
                        assert(decreases_to!(*tree => cs@[i as int]));
                    }
                    match self.pay_requirement(client, &cs[i], card_idx) {
                        Ok(()) => {},
                        Err(e) => {
                            return Err(e);
                        },
                    }
                    i += 1;
                }
                Ok(())
            },
            Join::Disjoint(cs) => {
                let m = cs.len();
                if m == 0 {
                    return Err(String::from_str("An empty choice cannot be resolved"));
                }
                match self.anon_choice(client, m) {
                    Some(i) => {
                        proof {
                            assert(decreases_to!(*tree => *cs));
                            assert(decreases_to!(*cs => cs@));
                            assert(decreases_to!(cs@ => cs@[i as int]));
                            assert(decreases_to!(*tree => cs@[i as int]));
                        }
                        self.pay_requirement(client, &cs[i], card_idx)
                    },
                    None => Err(String::from_str("The client did not pick an option")),
                }
            },
        }
    }
}


impl GameState {
    /// Resolves an action tree depth-first: the left side of a
    /// `Sequential` runs to completion before the right side begins.
    /// Whatever the client decides, cards are conserved and authorities
    /// are untouched.
    #[verifier::loop_isolation(false)]
    pub fn handle_action<C: Client>(&mut self, client: &mut C, action: &Action) -> (r: Result<
        (),
        String,
    >)
        ensures
            final(self).current_player == old(self).current_player,
            final(self).explorers == old(self).explorers,
            final(self).card_library == old(self).card_library,
            final(self).player1.authority == old(self).player1.authority,
            final(self).player2.authority == old(self).player2.authority,
            final(self).total_card_multiset() =~= old(self).total_card_multiset(),
            spec_auto_action(*action) ==> r is Ok,
        decreases action,
    {
        match action {
            Action::Sequential(a, b) => {
                match self.handle_join_action(client, &**a) {
                    Ok(()) => self.handle_join_action(client, &**b),
                    Err(e) => Err(e),
                }
            },
            Action::Unit(join) => self.handle_join_actionable(client, join),
        }
    }

    /// Resolves a choice tree of actions: a `Union` runs every child, a
    /// `Disjoint` runs the child the client picks.
    #[verifier::loop_isolation(false)]
    fn handle_join_action<C: Client>(&mut self, client: &mut C, j: &Join<Action>) -> (r: Result<
        (),
        String,
    >)
        ensures
            final(self).current_player == old(self).current_player,
            final(self).explorers == old(self).explorers,
            final(self).card_library == old(self).card_library,
            final(self).player1.authority == old(self).player1.authority,
            final(self).player2.authority == old(self).player2.authority,
            final(self).total_card_multiset() =~= old(self).total_card_multiset(),
        decreases j,
    {
        match j {
            Join::Unit(a) => self.handle_action(client, a),
            Join::Union(cs) => {
                let m = cs.len();
                let mut i: usize = 0;
                let mut failure: Option<String> = None;
                while i < m
                    invariant
                        m == cs@.len(),
                        i <= m,
                        self.current_player == old(self).current_player,
                        self.explorers == old(self).explorers,
                        self.card_library == old(self).card_library,
                        self.player1.authority == old(self).player1.authority,
                        self.player2.authority == old(self).player2.authority,
                        self.total_card_multiset() =~= old(self).total_card_multiset(),
                    decreases m - i,
                {
                    proof {
                        assert(decreases_to!(*j => *cs));
                        assert(decreases_to!(*cs => cs@));
                        assert(decreases_to!(cs@ => cs@[i as int]));
                        assert(decreases_to!(*j => cs@[i as int]));
                    }
                    match self.handle_join_action(client, &cs[i]) {
                        Ok(()) => {},
                        Err(e) => {
                            if failure.is_none() {
                                failure = Some(e);
                            }
                        },
                    }
                    i += 1;
                }
                match failure {
                    Some(e) => Err(e),
                    None => Ok(()),
                }
            },
            Join::Disjoint(cs) => {
                let m = cs.len();
                if m == 0 {
                    return Err(String::from_str("An empty choice cannot be resolved"));
                }
                match self.anon_choice_mutless(client, m) {
                    Some(i) => {
                        proof {
                            assert(decreases_to!(*j => *cs));
                            assert(decreases_to!(*cs => cs@));
                            assert(decreases_to!(cs@ => cs@[i as int]));
                            assert(decreases_to!(*j => cs@[i as int]));
                        }
                        self.handle_join_action(client, &cs[i])
                    },
                    None => Err(String::from_str("The client did not pick an option")),
                }
            },
        }
    }

    /// `anon_choice`, callable while `self` is mutably owned.
    fn anon_choice_mutless<C: Client>(&mut self, client: &mut C, num: usize) -> (r: Option<usize>)
        ensures
            *final(self) == *old(self),
            r matches Some(i) ==> i < num,
    {
        let this: &GameState = self;
        this.anon_choice(client, num)
    }

    /// Resolves a choice tree of atomic actionables.
    #[verifier::loop_isolation(false)]
    fn handle_join_actionable<C: Client>(&mut self, client: &mut C, j: &Join<Actionable>) -> (r:
        Result<(), String>)
        ensures
            final(self).current_player == old(self).current_player,
            final(self).explorers == old(self).explorers,
            final(self).card_library == old(self).card_library,
            final(self).player1.authority == old(self).player1.authority,
            final(self).player2.authority == old(self).player2.authority,
            final(self).total_card_multiset() =~= old(self).total_card_multiset(),
            (*j matches Join::Unit(a) && spec_auto_actionable(a)) ==> r is Ok,
        decreases j,
    {
        match j {
            Join::Unit(a) => {
                let config = {
                    let this: &GameState = self;
                    match this.query_actionable_information(client, a) {
                        Ok(c) => c,
                        Err(e) => {
                            return Err(e);
                        },
                    }
                };
                self.run_actionable(a, config)
            },
            Join::Union(cs) => {
                let m = cs.len();
                let mut i: usize = 0;
                let mut failure: Option<String> = None;
                while i < m
                    invariant
                        m == cs@.len(),
                        i <= m,
                        self.current_player == old(self).current_player,
                        self.explorers == old(self).explorers,
                        self.card_library == old(self).card_library,
                        self.player1.authority == old(self).player1.authority,
                        self.player2.authority == old(self).player2.authority,
                        self.total_card_multiset() =~= old(self).total_card_multiset(),
                    decreases m - i,
                {
                    proof {
                        assert(decreases_to!(*j => *cs));
                        assert(decreases_to!(*cs => cs@));
                        assert(decreases_to!(cs@ => cs@[i as int]));
                        assert(decreases_to!(*j => cs@[i as int]));
                    }
                    match self.handle_join_actionable(client, &cs[i]) {
                        Ok(()) => {},
                        Err(e) => {
                            if failure.is_none() {
                                failure = Some(e);
                            }
                        },
                    }
                    i += 1;
                }
                match failure {
                    Some(e) => Err(e),
                    None => Ok(()),
                }
            },
            Join::Disjoint(cs) => {
                let m = cs.len();
                if m == 0 {
                    return Err(String::from_str("An empty choice cannot be resolved"));
                }
                match self.anon_choice_mutless(client, m) {
                    Some(i) => {
                        proof {
                            assert(decreases_to!(*j => *cs));
                            assert(decreases_to!(*cs => cs@));
                            assert(decreases_to!(cs@ => cs@[i as int]));
                            assert(decreases_to!(*j => cs@[i as int]));
                        }
                        self.handle_join_actionable(client, &cs[i])
                    },
                    None => Err(String::from_str("The client did not pick an option")),
                }
            },
        }
    }
}


impl GameState {
    /// Marks one successful use of a play against its exhaustion policy;
    /// stale indices change nothing.
    fn record_play_use(&mut self, card_idx: usize, play_idx: usize)
        ensures
            final(self).current_player == old(self).current_player,
            final(self).explorers == old(self).explorers,
            final(self).card_library == old(self).card_library,
            final(self).player1.authority == old(self).player1.authority,
            final(self).player2.authority == old(self).player2.authority,
            final(self).total_card_multiset() =~= old(self).total_card_multiset(),
            (card_idx < old(self).spec_current().hand@.len()
                && (old(self).spec_current().hand@[card_idx as int].content matches Some(aps)
                && play_idx < aps@.len() && aps@[play_idx as int].spec_not_exhausted())) ==> ({
                let pre = old(self).spec_current().hand@;
                let preaps = pre[card_idx as int].content.unwrap();
                &&& final(self).spec_current().hand@.len() == pre.len()
                &&& forall|j: int| 0 <= j < pre.len() && j != card_idx
                    ==> (#[trigger] final(self).spec_current().hand@[j]) == pre[j]
                &&& final(self).spec_current().hand@[card_idx as int].card
                    == pre[card_idx as int].card
                &&& final(self).spec_current().hand@[card_idx as int].will_discard
                    == pre[card_idx as int].will_discard
                &&& final(self).spec_current().hand@[card_idx as int].played_this_turn
                    == pre[card_idx as int].played_this_turn
                &&& (final(self).spec_current().hand@[card_idx as int].content matches Some(aps2)
                    && aps2@ == preaps@.update(
                    play_idx as int,
                    (ActivePlay {
                        play: preaps@[play_idx as int].play,
                        times_used: (preaps@[play_idx as int].times_used + 1) as u32,
                    }),
                ))
            }),
    {
        let area = self.resolve_area_mut(RelativePlayer::Current);
        let hand_len = area.hand.len();
        if card_idx >= hand_len {
            proof {
                assert(self.player1.zone_multiset() =~= old(self).player1.zone_multiset());
                assert(self.player2.zone_multiset() =~= old(self).player2.zone_multiset());
            }
            return;
        }
        let mut ac = match area.hand.remove(card_idx) {
            Some(ac) => ac,
            None => unreached(),
        };
        match &mut ac.content {
            Some(aps) => {
                if play_idx < aps.len() {
                    let mut ap = aps.remove(play_idx);
                    if ap.not_exhausted() {
                        ap.record_use();
                    }
                    aps.insert(play_idx, ap);
                }
            },
            None => {},
        }
        area.hand.insert_at(card_idx, ac);
        proof {
            assert(hand_cards(self.rel_area(RelativePlayer::Current).hand@) =~= hand_cards(
                old(self).rel_area(RelativePlayer::Current).hand@,
            ));
            lemma_total_ms_current(*old(self), *self);
        }
    }

    /// Resolves one selected play to completion: the requirement tree is
    /// evaluated and, if it is a cost, paid once confirmed; then the
    /// action tree runs; only on total success is the play marked used.
    /// An exhausted play is rejected without touching anything.
    pub fn resolve_play<C: Client>(
        &mut self,
        client: &mut C,
        card_idx: usize,
        play_idx: usize,
    ) -> (r: Result<(), String>)
        ensures
            final(self).current_player == old(self).current_player,
            final(self).explorers == old(self).explorers,
            final(self).card_library == old(self).card_library,
            final(self).player1.authority == old(self).player1.authority,
            final(self).player2.authority == old(self).player2.authority,
            final(self).total_card_multiset() =~= old(self).total_card_multiset(),
            (old(self).spec_current().hand@.len() > card_idx
                && (old(self).spec_current().hand@[card_idx as int].content matches Some(aps)
                && play_idx < aps@.len() && !aps@[play_idx as int].spec_not_exhausted()))
                ==> r is Err && *final(self) == *old(self),
            !(old(self).spec_current().hand@.len() > card_idx
                && (old(self).spec_current().hand@[card_idx as int].content matches Some(aps)
                && play_idx < aps@.len())) ==> r is Err && *final(self) == *old(self),
            (old(self).spec_current().hand@.len() > card_idx
                && (old(self).spec_current().hand@[card_idx as int].content matches Some(aps)
                && play_idx < aps@.len() && aps@[play_idx as int].spec_not_exhausted()
                && (aps@[play_idx as int].play.cond matches Some(cond)
                && !old(self).spec_req_holds(cond, card_idx as int))))
                ==> r is Err && *final(self) == *old(self),
            (old(self).spec_current().hand@.len() > card_idx
                && (old(self).spec_current().hand@[card_idx as int].content matches Some(aps)
                && play_idx < aps@.len() && aps@[play_idx as int].spec_not_exhausted()
                && aps@[play_idx as int].play.cond is None
                && spec_auto_action(aps@[play_idx as int].play.actn.item))) ==> r is Ok,
            r is Ok ==> (old(self).spec_current().hand@.len() > card_idx
                && (old(self).spec_current().hand@[card_idx as int].content matches Some(aps)
                && play_idx < aps@.len() && aps@[play_idx as int].spec_not_exhausted())),
    {
        let selected = {
            let hand = &self.get_current_player().hand;
            match hand.get(card_idx) {
                Some(ac) => match &ac.content {
                    Some(aps) => {
                        if play_idx < aps.len() {
                            Some((aps[play_idx].play.clone(), aps[play_idx].not_exhausted()))
                        } else {
                            None
                        }
                    },
                    None => None,
                },
                None => None,
            }
        };
        let (play, usable) = match selected {
            Some(p) => p,
            None => {
                return Err(String::from_str("The selection no longer names a play"));
            },
        };
        if !usable {
            return Err(String::from_str("This play is exhausted for this turn"));
        }
        match &play.cond {
            Some(cond) => {
                if !self.eval_requirement(cond, card_idx) {
                    return Err(String::from_str("The play's requirement is not met"));
                }
                match self.pay_requirement(client, cond, card_idx) {
                    Ok(()) => {},
                    Err(e) => {
                        return Err(e);
                    },
                }
            },
            None => {},
        }
        match self.handle_action(client, &play.actn.item) {
            Ok(()) => {},
            Err(e) => {
                return Err(e);
            },
        }
        self.record_play_use(card_idx, play_idx);
        Ok(())
    }

    /// Drives one full turn: the current player takes an action, combat
    /// applies, the hand is cleaned up, five cards are drawn, and the
    /// turn flips to the other player.
    pub fn advance<C: Client>(&mut self, client: &mut C)
        ensures
            final(self).current_player == old(self).current_player.spec_reverse(),
            final(self).explorers == old(self).explorers,
            final(self).card_library == old(self).card_library,
            final(self).spec_opponent().hand@.len() == 5 || final(self).spec_opponent().deck@.len()
                + final(self).spec_opponent().discard@.len() == 0,
            final(self).spec_opponent().hand@.len() <= 5,
            final(self).spec_opponent().current_goods == (Goods {
                trade: 0,
                authority: 0,
                combat: 0,
            }),
            final(self).spec_opponent().turn_data.total_combat == 0,
            final(self).spec_opponent().turn_data.triggers@.len() == 0,
            final(self).total_card_multiset() =~= old(self).total_card_multiset(),
    {
        // 1. take any of the actions on any of the cards, provided that
        // the client picks one
        let plays = self.gather_play_names();
        let response = client.resolve_action_query(
            ClientQuery {
                action_query: ClientActionOptionQuery::PlaySelection(plays),
                performer: self.current_player,
            },
            self,
        );
        match response {
            ClientActionOptionResponse::PlaySelection(Some((card_idx, play_idx))) => {
                let r = self.resolve_play(client, card_idx as usize, play_idx as usize);
                match r {
                    Ok(()) => {},
                    Err(reason) => {
                        let player = self.current_player;
                        self.message_player(
                            client,
                            &player,
                            StyledText { style: TextStyle::warn(), text: reason },
                        );
                    },
                }
            },
            ClientActionOptionResponse::PlaySelection(None) => {
                let player = self.current_player;
                self.message_player(
                    client,
                    &player,
                    StyledText::plain_text(
                        String::from_str("No plays left. Continuing, I guess!"),
                    ),
                );
            },
            _ => {
                self.broadcast_message(
                    client,
                    StyledText {
                        style: TextStyle::error(),
                        text: String::from_str(
                            "Client Error: Not a valid response type. Expected PlaySelection(play)",
                        ),
                    },
                );
            },
        }
        // 2. deal damage to the opponent
        let dead = self.apply_combat();
        if dead {
            let message = String::from_str("Game is over! The current player has won.");
            let mut options: Vec<String> = Vec::new();
            options.push(String::from_str("Ok"));
            let interrupt: PerPlayer<Option<Vec<String>>> = PerPlayer::new(
                Some(options.clone()),
                Some(options),
            );
            let msg: PerPlayer<Option<String>> = PerPlayer::new(
                Some(message.clone()),
                Some(message),
            );
            let res = client.alert(self, &msg, &interrupt, TextStyle::attention());
            if res.is_some() {
                self.broadcast_message(
                    client,
                    StyledText::plain_text(String::from_str("Quitting the game.")),
                );
            }
        }
        // 3. discard or scrap all cards left in hand
        self.cleanup_phase();
        // 4. draw five cards into hand
        let ghost before_draw = *self;
        {
            let area = self.resolve_area_mut(RelativePlayer::Current);
            let _ = area.draw_cards_into_hand(5);
        }
        proof {
            lemma_total_ms_current(before_draw, *self);
        }
        // 5. flip the turn
        self.flip_turn();
        proof {
            assert(self.total_card_multiset() =~= old(self).total_card_multiset());
        }
    }

    /// The play names on each card of the current player's hand, for a
    /// play-selection query: one inner list per hand card, holding that
    /// card's play names in order.
    #[verifier::loop_isolation(false)]
    fn gather_play_names(&self) -> (r: Vec<Vec<String>>)
        ensures
            r@.len() == self.spec_current().hand@.len(),
            forall|i: int| 0 <= i < r@.len() ==> ((#[trigger] r@[i])@.len()
                == match self.spec_current().hand@[i].content {
                    Some(aps) => aps@.len(),
                    None => 0,
                }),
            forall|i: int| #![trigger r@[i]] 0 <= i < r@.len()
                ==> (self.spec_current().hand@[i].content matches Some(aps) ==> forall|p: int|
                    0 <= p < aps@.len() ==> ((#[trigger] r@[i]@[p])@
                        == aps@[p].play.actn.name@)),
    {
        let hand = &self.get_current_player().hand;
        let n = hand.len();
        let mut plays: Vec<Vec<String>> = Vec::new();
        let mut i: usize = 0;
        while i < n
            invariant
                n == hand@.len(),
                i <= n,
                plays@.len() == i,
                forall|j: int| 0 <= j < i ==> ((#[trigger] plays@[j])@.len()
                    == match hand@[j].content {
                        Some(aps) => aps@.len(),
                        None => 0,
                    }),
                forall|j: int| #![trigger plays@[j]] 0 <= j < i
                    ==> (hand@[j].content matches Some(aps) ==> forall|p: int|
                        0 <= p < aps@.len() ==> ((#[trigger] plays@[j]@[p])@
                            == aps@[p].play.actn.name@)),
            decreases n - i,
        {
            let mut names: Vec<String> = Vec::new();
            match hand.get(i) {
                Some(ac) => match &ac.content {
                    Some(aps) => {
                        let m = aps.len();
                        let mut p: usize = 0;
                        while p < m
                            invariant
                                m == aps@.len(),
                                p <= m,
                                names@.len() == p,
                                forall|q: int| 0 <= q < p ==> ((#[trigger] names@[q])@
                                    == aps@[q].play.actn.name@),
                            decreases m - p,
                        {
                            names.push(aps[p].play.actn.name.clone());
                            p += 1;
                        }
                    },
                    None => {},
                },
                None => {},
            }
            plays.push(names);
            i += 1;
        }
        plays
    }
}


impl GameState {
    /// Gives the current player a one-shot card: it joins the hand marked
    /// for the scrap pile, so it vanishes at cleanup.
    pub fn give_card_to_hand_scrapped(&mut self, card: CardRef)
        ensures
            final(self).current_player == old(self).current_player,
            final(self).explorers == old(self).explorers,
            final(self).card_library == old(self).card_library,
            final(self).spec_current().hand@.len() == old(self).spec_current().hand@.len() + 1,
            final(self).spec_opponent() == old(self).spec_opponent(),
    {
        let active = ActiveCard::activate(card, false, true);
        let area = self.resolve_area_mut(RelativePlayer::Current);
        area.hand.add(active);
    }
}

} // verus!
