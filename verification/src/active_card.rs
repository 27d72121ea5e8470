//! Cards as they sit in a hand or on the table, with per-instance flags.

use vstd::prelude::*;

use crate::card::CardRef;
use crate::details::ExhaustionLevel;
use crate::in_game::ActivePlay;
use crate::stack::SimpleStack;

verus! {

/// How a card has been brought into play: the shared definition plus the
/// flags that decide where it goes at cleanup.
pub struct ActiveCard {
    pub card: CardRef,
    /// At cleanup the card goes to the discard pile when set, and to the
    /// scrap pile when cleared.
    pub will_discard: bool,
    pub played_this_turn: bool,
    /// The plays of the card with their use counters, if the card has any.
    pub content: Option<Vec<ActivePlay>>,
}

impl ActiveCard {
    /// Fresh play state for this card's definition: one zero-use counter
    /// per play of the card.
    pub open spec fn fresh_content(self) -> bool {
        match self.content {
            None => self.card.content is None,
            Some(aps) => self.card.content matches Some(ps)
                && aps@.len() == ps@.len()
                && forall|i: int| 0 <= i < aps@.len()
                    ==> (#[trigger] aps@[i]).play == ps@[i] && aps@[i].times_used == 0,
        }
    }

    /// `Some(..)` when the index addresses a play; inside, `None` when that
    /// play is exhausted, else how many uses are left.
    pub fn exhaustion(&self, index: usize) -> (r: Option<Option<ExhaustionLevel>>)
        ensures
            r is Some <==> (self.content matches Some(aps) && index < aps@.len()),
            self.content matches Some(aps) ==> (index < aps@.len() ==> r == Some(
                aps@[index as int].spec_exhaustions_left(),
            )),
    {
        match &self.content {
            None => None,
            Some(aps) => {
                if index < aps.len() {
                    Some(aps[index].exhaustions_left())
                } else {
                    None
                }
            },
        }
    }

    /// Activates a card reference with the given cleanup flags.
    pub fn activate(card: CardRef, will_discard: bool, played_this_turn: bool) -> (r: ActiveCard)
        ensures
            r.card == card,
            r.will_discard == will_discard,
            r.played_this_turn == played_this_turn,
            r.fresh_content(),
    {
        let content = match &card.content {
            None => None,
            Some(ps) => {
                let n = ps.len();
                let mut aps: Vec<ActivePlay> = Vec::new();
                let mut i: usize = 0;
                while i < n
                    invariant
                        n == ps@.len(),
                        i <= n,
                        aps@.len() == i,
                        forall|j: int| 0 <= j < i
                            ==> (#[trigger] aps@[j]).play == ps@[j] && aps@[j].times_used == 0,
                    decreases n - i,
                {
                    aps.push(ActivePlay::new(&ps[i]));
                    i += 1;
                }
                Some(aps)
            },
        };
        ActiveCard { card, will_discard, played_this_turn, content }
    }
}

/// The collection type behind hands and tables: a stack of active cards.
pub struct IdCardCollection {
    pub cards: SimpleStack<ActiveCard>,
}

impl View for IdCardCollection {
    type V = Seq<ActiveCard>;

    open spec fn view(&self) -> Seq<ActiveCard> {
        self.cards@
    }
}

impl IdCardCollection {
    pub fn new(cards: SimpleStack<ActiveCard>) -> (r: IdCardCollection)
        ensures
            r@ == cards@,
    {
        IdCardCollection { cards }
    }

    pub fn len(&self) -> (r: usize)
        ensures
            r == self@.len(),
    {
        self.cards.len()
    }

    pub fn get(&self, index: usize) -> (r: Option<&ActiveCard>)
        ensures
            index < self@.len() ==> r == Some(&self@[index as int]),
            index >= self@.len() ==> r is None,
    {
        self.cards.get(index)
    }

    pub fn add(&mut self, item: ActiveCard)
        ensures
            final(self)@ == old(self)@.push(item),
    {
        self.cards.add(item);
    }

    /// Inserts an active card at `index`.
    pub fn insert_at(&mut self, index: usize, item: ActiveCard)
        requires
            index <= old(self)@.len(),
        ensures
            final(self)@ == old(self)@.insert(index as int, item),
    {
        self.cards.insert_at(index, item);
    }

    pub fn remove(&mut self, index: usize) -> (r: Option<ActiveCard>)
        ensures
            index < old(self)@.len() ==> r == Some(old(self)@[index as int])
                && final(self)@ == old(self)@.remove(index as int),
            index >= old(self)@.len() ==> r is None && *final(self) == *old(self),
    {
        self.cards.remove(index)
    }

    /// Adds a bare card reference, activating it with the defaults a
    /// mid-turn addition gets: it will be discarded, and counts as played
    /// this turn.
    pub fn add_card(&mut self, item: CardRef)
        ensures
            final(self)@.len() == old(self)@.len() + 1,
            final(self)@.drop_last() == old(self)@,
            final(self)@.last().card == item,
            final(self)@.last().will_discard,
            final(self)@.last().played_this_turn,
            final(self)@.last().fresh_content(),
    {
        let active = ActiveCard::activate(item, true, true);
        self.cards.add(active);
        proof {
            assert(self.cards@.drop_last() =~= old(self).cards@);
        }
    }

    /// Removes the card at `index`, handing back only its reference.
    pub fn remove_card(&mut self, index: usize) -> (r: Option<CardRef>)
        ensures
            index < old(self)@.len() ==> r == Some(old(self)@[index as int].card)
                && final(self)@ == old(self)@.remove(index as int),
            index >= old(self)@.len() ==> r is None && *final(self) == *old(self),
    {
        match self.cards.remove(index) {
            Some(ac) => Some(ac.card),
            None => None,
        }
    }
}

} // verus!
