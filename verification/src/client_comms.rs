//! The client query protocol: the narrow boundary through which the engine
//! asks an external decision-maker to resolve choices.

use vstd::prelude::*;

use crate::card::CardRef;
use crate::details::{CardSizeT, CardSource};
use crate::game::{GameState, Player};

verus! {

/// Query descriptors that require the client to get data from the user.
/// Each has a corresponding variant in `ClientActionOptionResponse`.
#[derive(Clone, Debug)]
pub enum ClientActionOptionQuery {
    /// The user must choose a card from the source.
    CardSelection(CardSource),
    /// The user selects a play from the list: the outer list lines up with
    /// the stack of cards, the inner list holds that card's play names.
    PlaySelection(Vec<Vec<String>>),
}

/// A filter for cards: a card fits when every enabled bound holds.
pub struct Restriction {
    /// An upper bound on the card's cost, if any.
    pub max_cost: Option<u8>,
    /// Whether only bases (or only non-bases) fit, if constrained.
    pub must_be_base: Option<bool>,
}

impl Restriction {
    /// Does `card` fit this restriction?
    pub fn fits(&self, card: &CardRef) -> (r: bool)
        ensures
            r == ((self.max_cost matches Some(m) ==> card.cost <= m)
                && (self.must_be_base matches Some(b) ==> (card.base is Some) == b)),
    {
        let cost_ok = match self.max_cost {
            Some(m) => card.cost <= m,
            None => true,
        };
        let base_ok = match self.must_be_base {
            Some(b) => card.base.is_some() == b,
            None => true,
        };
        cost_ok && base_ok
    }
}

/// The client's answer to a query.
#[derive(Copy, Clone, Debug, PartialEq, Eq)]
pub enum ClientActionOptionResponse {
    /// The card chosen from the source, by index.
    CardSelection(CardSource, CardSizeT),
    /// The card index and play index selected, or `None` when there were
    /// no play choices.
    PlaySelection(Option<(CardSizeT, CardSizeT)>),
}

/// The umbrella query a client receives.
pub struct ClientQuery {
    pub action_query: ClientActionOptionQuery,
    pub performer: Player,
}

/// A value for each of the two players.
pub struct PerPlayer<T> {
    pub player1: T,
    pub player2: T,
}

impl<T> PerPlayer<T> {
    pub fn new(player1: T, player2: T) -> (r: PerPlayer<T>)
        ensures
            r.player1 == player1,
            r.player2 == player2,
    {
        PerPlayer { player1, player2 }
    }

    pub open spec fn spec_get(self, p: Player) -> T {
        match p {
            Player::Player1 => self.player1,
            Player::Player2 => self.player2,
        }
    }

    pub fn get(&self, p: Player) -> (r: &T)
        ensures
            r == &self.spec_get(p),
    {
        match p {
            Player::Player1 => &self.player1,
            Player::Player2 => &self.player2,
        }
    }
}

/// The same value for both players.
pub fn all_players<T: Clone>(item: T) -> (r: PerPlayer<T>)
    ensures
        vstd::pervasive::cloned(item, r.player1) || r.player1 == item,
        vstd::pervasive::cloned(item, r.player2) || r.player2 == item,
{
    PerPlayer { player1: item.clone(), player2: item }
}

/// Text paired with an abstract style the presentation layer may honour.
pub struct StyledText {
    pub style: TextStyle,
    pub text: String,
}

impl StyledText {
    /// Plain-styled text.
    pub fn plain_text(text: String) -> (r: StyledText)
        ensures
            r.text == text,
    {
        StyledText { style: TextStyle::plain(), text }
    }
}

/// A placeholder text style: it carries no data yet, so every constructor
/// returns the same value, and a presentation layer may ignore styling
/// without affecting engine behavior. The named constructors document the
/// intent of each message.
#[derive(Copy, Clone, Debug, PartialEq, Eq, Structural)]
pub struct TextStyle {}

impl TextStyle {
    pub fn new() -> (r: TextStyle)
        ensures
            r == (TextStyle {  }),
    {
        TextStyle {  }
    }

    pub fn plain() -> (r: TextStyle)
        ensures
            r == (TextStyle {  }),
    {
        TextStyle::new()
    }

    pub fn attention() -> (r: TextStyle)
        ensures
            r == (TextStyle {  }),
    {
        TextStyle::new()
    }

    pub fn warn() -> (r: TextStyle)
        ensures
            r == (TextStyle {  }),
    {
        TextStyle::new()
    }

    pub fn error() -> (r: TextStyle)
        ensures
            r == (TextStyle {  }),
    {
        TextStyle::new()
    }

    pub fn success() -> (r: TextStyle)
        ensures
            r == (TextStyle {  }),
    {
        TextStyle::new()
    }

    pub fn faint() -> (r: TextStyle)
        ensures
            r == (TextStyle {  }),
    {
        TextStyle::new()
    }
}

/// Text flagged as HTML.
pub struct HTMLText(pub String);

/// Text flagged as ANSI (color-enabled).
pub struct ANSIText(pub String);

impl HTMLText {
    pub fn to_string(&self) -> (r: String)
        ensures
            r@ == self.0@,
    {
        self.0.clone()
    }
}

impl ANSIText {
    pub fn to_string(&self) -> (r: String)
        ensures
            r@ == self.0@,
    {
        self.0.clone()
    }
}

/// A cache of the visible card stacks, updated as the client hears of
/// changes; keyed by card source.
pub struct VisibleCardStackCache {
    pub cache: Vec<(CardSource, Vec<CardRef>)>,
}

/// The most recently stored stack for `source` in the entry list.
pub open spec fn cache_get(s: Seq<(CardSource, Vec<CardRef>)>, source: CardSource) -> Option<
    Seq<CardRef>,
>
    decreases s.len(),
{
    if s.len() == 0 {
        None
    } else if s.last().0 == source {
        Some(s.last().1@)
    } else {
        cache_get(s.drop_last(), source)
    }
}

impl VisibleCardStackCache {
    pub open spec fn spec_get(self, source: CardSource) -> Option<Seq<CardRef>> {
        cache_get(self.cache@, source)
    }

    pub fn new() -> (r: VisibleCardStackCache)
        ensures
            r.cache@.len() == 0,
            forall|s: CardSource| r.spec_get(s) is None,
    {
        VisibleCardStackCache { cache: Vec::new() }
    }

    /// Overwrites the cached stack for `source`.
    pub fn update(&mut self, source: CardSource, cards: Vec<CardRef>)
        ensures
            final(self).spec_get(source) == Some(cards@),
            forall|s: CardSource| s != source
                ==> final(self).spec_get(s) == old(self).spec_get(s),
    {
        self.cache.push((source, cards));
        proof {
            assert(self.cache@.drop_last() =~= old(self).cache@);
        }
    }

    /// The cached stack for `source`; a miss tells both players through
    /// the client.
    pub fn get_or_alert<C: Client>(
        &self,
        game: &GameState,
        client: &mut C,
        source: CardSource,
    ) -> (r: Option<&Vec<CardRef>>)
        ensures
            r matches Some(v) ==> self.spec_get(source) == Some(v@),
            r is None ==> self.spec_get(source) is None,
    {
        match self.get(source) {
            None => {
                game.broadcast_message(
                    client,
                    StyledText {
                        text: String::from_str("Unable to get that cached card deck"),
                        style: TextStyle::error(),
                    },
                );
                None
            },
            Some(deck) => Some(deck),
        }
    }

    /// The cached stack for `source`, if one was stored.
    pub fn get(&self, source: CardSource) -> (r: Option<&Vec<CardRef>>)
        ensures
            r matches Some(v) ==> self.spec_get(source) == Some(v@),
            r is None ==> self.spec_get(source) is None,
    {
        let mut i: usize = self.cache.len();
        proof {
            assert(self.cache@.take(i as int) =~= self.cache@);
        }
        while i > 0
            invariant
                i <= self.cache@.len(),
                cache_get(self.cache@, source) == cache_get(self.cache@.take(i as int), source),
            decreases i,
        {
            let ghost pre = i as int;
            i = i - 1;
            if self.cache[i].0 == source {
                proof {
                    assert(self.cache@.take(pre).last() == self.cache@[i as int]);
                }
                return Some(&self.cache[i].1);
            }
            proof {
                assert(self.cache@.take(pre).last() == self.cache@[i as int]);
                assert(self.cache@.take(pre).drop_last() =~= self.cache@.take(i as int));
            }
        }
        None
    }
}


impl ClientActionOptionQuery {
    /// A fresh copy of this query, for handing to the client.
    pub fn duplicate(&self) -> (r: ClientActionOptionQuery)
        ensures
            *self matches ClientActionOptionQuery::CardSelection(s) ==> r
                == ClientActionOptionQuery::CardSelection(s),
            (*self is PlaySelection) == (r is PlaySelection),
    {
        match self {
            ClientActionOptionQuery::CardSelection(s) => ClientActionOptionQuery::CardSelection(
                *s,
            ),
            ClientActionOptionQuery::PlaySelection(v) => ClientActionOptionQuery::PlaySelection(
                v.clone(),
            ),
        }
    }
}

/// The boundary the presentation layer implements: the engine is generic
/// over any implementer, never inspects it, and checks every answer it
/// returns rather than trusting it.
pub trait Client {
    /// Answers a structured query about an action.
    fn resolve_action_query(&mut self, query: ClientQuery, game: &GameState) -> (r:
        ClientActionOptionResponse);

    /// Delivers a per-player message and, where an option list is given,
    /// waits for a choice; when both players are interrupted their answers
    /// must match, and the result is the index of the chosen option.
    fn alert(
        &mut self,
        game: &GameState,
        message: &PerPlayer<Option<String>>,
        interrupt: &PerPlayer<Option<Vec<String>>>,
        style: TextStyle,
    ) -> (r: Option<usize>);
}

} // verus!
