//! Per-card effect data: what a play requires, what it does, and how often
//! it may be used in one turn.

use vstd::prelude::*;
use std::rc::Rc;

use crate::client_comms::ClientActionOptionQuery;
use crate::components::Goods;
use crate::faction::Faction;
use crate::game::RelativePlayer;
use crate::util::{Join, Named};

verus! {

/// Number type for counting cards.
pub type CardSizeT = u32;

/// How many more times a play can run.
pub type ExhaustionLevel = u32;

/// The plays printed on one card.
pub type PlaySet = Vec<Rc<Play>>;

/// A condition, an action, and an exhaustion rule.
pub struct Play {
    /// The condition of this play; `None` means unconditionally free.
    pub cond: Option<Join<Requirement>>,
    /// The named action of this play.
    pub actn: Named<Action>,
    /// How many times this play can be executed per turn.
    pub exhaust: Exhaustibility,
}

#[derive(Copy, Clone, Debug, PartialEq, Eq, Structural)]
pub enum Exhaustibility {
    /// Usable once per turn.
    Once,
    /// Usable at most this many times per turn.
    UpTo(ExhaustionLevel),
    /// Must reach exactly this many uses to count as resolved.
    Exactly(ExhaustionLevel),
}

/// A leaf of a requirement tree: either a pure condition over game state,
/// or a cost that is paid when the play is confirmed.
pub enum Requirement {
    Condition(Condition),
    Cost(Sacrifice),
}

/// A pure predicate over game state and the performing card.
#[derive(Copy, Clone, Debug, PartialEq, Eq, Structural)]
pub enum Condition {
    /// Always holds.
    Free,
    /// The performing card has been marked for the scrap pile.
    Scrapped,
    /// The performing card shares this faction with another card in hand.
    Synergy(Faction),
}

/// A cost paid as part of resolving a play.
pub enum Sacrifice {
    /// Scrap the performing card itself.
    ScrapThis,
    /// Scrap this many cards, drawn from one of the given sources.
    Scrap(CardSizeT, Join<CardSource>),
    /// Spend the goods.
    Goods(Goods),
    /// Discard this many cards.
    Discard(CardSizeT),
}

/// A tagged reference to one of the game's card collections.
#[derive(Copy, Clone, Debug, PartialEq, Eq, Hash, Structural)]
pub enum CardSource {
    Hand(RelativePlayer),
    Table(RelativePlayer),
    Discard(RelativePlayer),
    Deck(RelativePlayer),
    TradeRow,
}

/// The processes associated with actions described on cards.
pub enum Action {
    /// One action, then another, each to completion.
    Sequential(Box<Join<Action>>, Box<Join<Action>>),
    /// A single node of the choice algebra over atomic actionables.
    Unit(Join<Actionable>),
}

/// The atomic state-mutating operations an actionable can perform. Each is
/// interpreted by the turn state machine; card data stays plain data.
#[derive(Copy, Clone, Debug, PartialEq, Eq, Structural)]
pub enum ActionOp {
    /// Add goods to the current player's turn total.
    AddGoods(Goods),
    /// The current player draws one card.
    DrawCard,
    /// Scrap the card the client selects from the offered sources.
    ScrapCard,
    /// Move the card the client selects from a hand to its owner's discard.
    DiscardCard,
    /// Remember to place the next acquired card at this destination.
    PlaceNextAcquired(CardSource),
}

/// An operation over game state, paired with the query (if any) whose
/// response configures it before it runs.
pub struct Actionable {
    /// The operation run on the game state when this action is chosen.
    pub op: ActionOp,
    /// The decision requested from the client before running; `None` means
    /// the operation runs without configuration.
    pub client_query: Option<Join<ClientActionOptionQuery>>,
}

impl Actionable {
    /// An actionable that needs no client decision.
    pub fn no_args(op: ActionOp) -> (r: Actionable)
        ensures
            r.op == op,
            r.client_query is None,
    {
        Actionable { op, client_query: None }
    }

    pub fn new(query: Join<ClientActionOptionQuery>, op: ActionOp) -> (r: Actionable)
        ensures
            r.op == op,
            r.client_query == Some(query),
    {
        Actionable { op, client_query: Some(query) }
    }
}

/// An actionable that needs no client decision and cannot fail.
pub open spec fn spec_auto_actionable(a: Actionable) -> bool {
    a.client_query is None && (a.op is AddGoods || a.op is PlaceNextAcquired)
}

/// An action tree that is one such actionable.
pub open spec fn spec_auto_action(act: Action) -> bool {
    act matches Action::Unit(Join::Unit(a)) && spec_auto_actionable(a)
}

impl Play {
    pub fn new(cond: Option<Join<Requirement>>, actn: Named<Action>, exhaust: Exhaustibility) -> (r: Play)
        ensures
            r.cond == cond,
            r.actn == actn,
            r.exhaust == exhaust,
    {
        Play { cond, actn, exhaust }
    }

    /// The number of uses this play's policy allows in one turn.
    pub open spec fn spec_use_limit(self) -> int {
        match self.exhaust {
            Exhaustibility::Once => 1,
            Exhaustibility::UpTo(n) => n as int,
            Exhaustibility::Exactly(n) => n as int,
        }
    }
}

} // verus!
