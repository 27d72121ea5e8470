//! The immutable card catalog: every card definition, addressed by id, and
//! the composition of the trade deck.

use vstd::prelude::*;
use std::rc::Rc;

use crate::card::{Card, CardRef};
use crate::game::CardStack;
use crate::stack::SimpleStack;
use crate::text::str_eq;

verus! {

/// The catalog. Ids are indices into `all_cards`.
pub struct CardLibrary {
    pub all_cards: Vec<CardRef>,
    pub trade_stack: SimpleStack<u32>,
}

/// The first card carrying `name`, scanning from the front.
pub open spec fn name_lookup(s: Seq<CardRef>, name: Seq<char>) -> Option<CardRef>
    decreases s.len(),
{
    if s.len() == 0 {
        None
    } else if s[0].name@ == name {
        Some(s[0])
    } else {
        name_lookup(s.drop_first(), name)
    }
}

/// Does some card of the sequence carry this name?
pub open spec fn seq_has_name(s: Seq<Card>, name: Seq<char>) -> bool {
    exists|i: int| 0 <= i < s.len() && (#[trigger] s[i]).name@ == name
}

impl CardLibrary {
    /// Every trade-stack id addresses a card.
    pub open spec fn wf(self) -> bool {
        forall|i: int| 0 <= i < self.trade_stack@.len()
            ==> (#[trigger] self.trade_stack@[i]) < self.all_cards@.len()
    }

    /// Does some card in the catalog carry this name?
    pub open spec fn spec_has_name(self, name: Seq<char>) -> bool {
        exists|i: int| 0 <= i < self.all_cards@.len()
            && (#[trigger] self.all_cards@[i]).name@ == name
    }

    /// The first card in the catalog carrying this name.
    pub open spec fn spec_card_named(self, name: Seq<char>) -> Option<CardRef> {
        name_lookup(self.all_cards@, name)
    }

    /// Builds the catalog from the trade cards and the miscellaneous
    /// (non-purchasable) cards: it succeeds exactly when the inputs hold
    /// the three mandatory basic cards, registering every input card under
    /// its position as id, and otherwise fails naming the first missing
    /// basic card (scout, then viper, then explorer).
    pub fn new(trade_stack: Vec<Card>, misc_cards: Vec<Card>) -> (r: Result<CardLibrary, String>)
        requires
            trade_stack@.len() + misc_cards@.len() <= u32::MAX,
        ensures
            r matches Ok(cl) ==> cl.wf()
                && cl.all_cards@.len() == trade_stack@.len() + misc_cards@.len()
                && cl.trade_stack@.len() == trade_stack@.len()
                && (forall|i: int| 0 <= i < cl.trade_stack@.len()
                    ==> (#[trigger] cl.trade_stack@[i]) == i)
                && (forall|i: int| 0 <= i < trade_stack@.len()
                    ==> (#[trigger] cl.all_cards@[i]) == trade_stack@[i])
                && (forall|i: int| 0 <= i < misc_cards@.len()
                    ==> (#[trigger] cl.all_cards@[trade_stack@.len() + i]) == misc_cards@[i])
                && cl.spec_has_name("scout"@)
                && cl.spec_has_name("viper"@)
                && cl.spec_has_name("explorer"@),
            (r is Ok) == (seq_has_name(trade_stack@ + misc_cards@, "scout"@) && seq_has_name(
                trade_stack@ + misc_cards@,
                "viper"@,
            ) && seq_has_name(trade_stack@ + misc_cards@, "explorer"@)),
            !seq_has_name(trade_stack@ + misc_cards@, "scout"@) ==> (r matches Err(e) && e@
                == "No scout available in card library!"@),
            seq_has_name(trade_stack@ + misc_cards@, "scout"@) && !seq_has_name(
                trade_stack@ + misc_cards@,
                "viper"@,
            ) ==> (r matches Err(e) && e@ == "No viper available in card library!"@),
            seq_has_name(trade_stack@ + misc_cards@, "scout"@) && seq_has_name(
                trade_stack@ + misc_cards@,
                "viper"@,
            ) && !seq_has_name(trade_stack@ + misc_cards@, "explorer"@) ==> (r matches Err(e)
                && e@ == "No explorer available in card library!"@),
    {
        let mut all_cards: Vec<CardRef> = Vec::new();
        let mut ts: SimpleStack<u32> = SimpleStack::empty();

        let mut trade_stack = trade_stack;
        let tn = trade_stack.len();
        let ghost trade0 = trade_stack@;
        let mut i: usize = 0;
        while i < tn
            invariant
                tn == trade0.len(),
                tn + misc_cards@.len() <= u32::MAX,
                i <= tn,
                trade_stack@ == trade0.skip(i as int),
                all_cards@.len() == i,
                ts@.len() == i,
                forall|j: int| 0 <= j < i ==> (#[trigger] ts@[j]) == j,
                forall|j: int| 0 <= j < i ==> (#[trigger] all_cards@[j]) == trade0[j],
            decreases tn - i,
        {
            proof {
                assert(trade0.skip(i as int)[0] == trade0[i as int]);
            }
            all_cards.push(Rc::new(trade_stack.remove(0)));
            ts.add(i as u32);
            i += 1;
        }

        let mut misc_cards = misc_cards;
        let mn = misc_cards.len();
        let ghost misc0 = misc_cards@;
        let mut k: usize = 0;
        while k < mn
            invariant
                mn == misc0.len(),
                k <= mn,
                misc_cards@ == misc0.skip(k as int),
                all_cards@.len() == tn + k,
                ts@.len() == tn,
                forall|j: int| 0 <= j < tn ==> (#[trigger] ts@[j]) == j,
                forall|j: int| 0 <= j < tn ==> (#[trigger] all_cards@[j]) == trade0[j],
                forall|j: int| 0 <= j < k ==> (#[trigger] all_cards@[tn + j]) == misc0[j],
            decreases mn - k,
        {
            proof {
                assert(misc0.skip(k as int)[0] == misc0[k as int]);
            }
            all_cards.push(Rc::new(misc_cards.remove(0)));
            k += 1;
        }

        let cl = CardLibrary { all_cards, trade_stack: ts };
        proof {
            lemma_catalog_names(cl, trade0, misc0, "scout"@);
            lemma_catalog_names(cl, trade0, misc0, "viper"@);
            lemma_catalog_names(cl, trade0, misc0, "explorer"@);
        }
        if cl.get_card_by_name("scout").is_none() {
            return Err(String::from_str("No scout available in card library!"));
        }
        if cl.get_card_by_name("viper").is_none() {
            return Err(String::from_str("No viper available in card library!"));
        }
        if cl.get_card_by_name("explorer").is_none() {
            return Err(String::from_str("No explorer available in card library!"));
        }
        Ok(cl)
    }

    /// A fresh stack of the trade cards, for a new game's trade deck.
    pub fn get_new_trade_stack(&self) -> (r: CardStack)
        requires
            self.wf(),
        ensures
            r@.len() == self.trade_stack@.len(),
            forall|i: int| 0 <= i < r@.len()
                ==> (#[trigger] r@[i]) == self.all_cards@[self.trade_stack@[i] as int],
    {
        let mut r: CardStack = SimpleStack::empty();
        let n = self.trade_stack.len();
        let mut i: usize = 0;
        while i < n
            invariant
                self.wf(),
                n == self.trade_stack@.len(),
                i <= n,
                r@.len() == i,
                forall|j: int| 0 <= j < i
                    ==> (#[trigger] r@[j]) == self.all_cards@[self.trade_stack@[j] as int],
            decreases n - i,
        {
            let id = match self.trade_stack.get(i) {
                Some(id) => *id,
                None => 0,
            };
            let card = self.all_cards[id as usize].clone();
            r.add(card);
            i += 1;
        }
        r
    }

    /// The first card carrying `name`, if any.
    #[verifier::loop_isolation(false)]
    pub fn get_card_by_name(&self, name: &str) -> (r: Option<CardRef>)
        ensures
            r == self.spec_card_named(name@),
            r matches Some(c) ==> self.spec_has_name(name@) && c.name@ == name@
                && exists|i: int| 0 <= i < self.all_cards@.len()
                    && (#[trigger] self.all_cards@[i]) == c,
            r is None ==> !self.spec_has_name(name@),
    {
        let n = self.all_cards.len();
        let mut i: usize = 0;
        proof {
            assert(self.all_cards@.skip(0) =~= self.all_cards@);
        }
        while i < n
            invariant
                n == self.all_cards@.len(),
                i <= n,
                forall|j: int| 0 <= j < i ==> (#[trigger] self.all_cards@[j]).name@ != name@,
                name_lookup(self.all_cards@, name@) == name_lookup(
                    self.all_cards@.skip(i as int),
                    name@,
                ),
            decreases n - i,
        {
            proof {
                assert(self.all_cards@.skip(i as int)[0] == self.all_cards@[i as int]);
                assert(self.all_cards@.skip(i as int).drop_first() =~= self.all_cards@.skip(
                    i + 1,
                ));
            }
            if str_eq(self.all_cards[i].name.as_str(), name) {
                return Some(self.all_cards[i].clone());
            }
            i += 1;
        }
        proof {
            assert(self.all_cards@.skip(n as int).len() == 0);
        }
        None
    }

    /// Force-get a card by id.
    pub fn as_card(&self, id: &u32) -> (r: CardRef)
        requires
            *id < self.all_cards@.len(),
        ensures
            r == self.all_cards@[*id as int],
    {
        self.all_cards[*id as usize].clone()
    }

    /// Request a card by id politely.
    pub fn get_card_by_id(&self, id: &u32) -> (r: Option<CardRef>)
        ensures
            *id < self.all_cards@.len() ==> r == Some(self.all_cards@[*id as int]),
            *id >= self.all_cards@.len() ==> r is None,
    {
        let idx = *id as usize;
        if idx < self.all_cards.len() {
            Some(self.all_cards[idx].clone())
        } else {
            None
        }
    }

    /// A fresh reference to the card with this id.
    pub fn get_new_card_by_id(&self, id: &u32) -> (r: Option<CardRef>)
        ensures
            *id < self.all_cards@.len() ==> r == Some(self.all_cards@[*id as int]),
            *id >= self.all_cards@.len() ==> r is None,
    {
        self.get_card_by_id(id)
    }

    /// The id of the first card carrying `name`, if any.
    pub fn get_card_id(&self, name: &String) -> (r: Option<u32>)
        requires
            self.all_cards@.len() <= u32::MAX,
        ensures
            r matches Some(id) ==> id < self.all_cards@.len()
                && self.all_cards@[id as int].name@ == name@,
            r is None ==> !self.spec_has_name(name@),
    {
        let n = self.all_cards.len();
        let mut i: usize = 0;
        while i < n
            invariant
                n == self.all_cards@.len(),
                n <= u32::MAX,
                i <= n,
                forall|j: int| 0 <= j < i ==> (#[trigger] self.all_cards@[j]).name@ != name@,
            decreases n - i,
        {
            if str_eq(self.all_cards[i].name.as_str(), name.as_str()) {
                return Some(i as u32);
            }
            i += 1;
        }
        None
    }

    pub fn get_scout(&self) -> (r: Option<CardRef>)
        ensures
            r == self.spec_card_named("scout"@),
            r matches Some(c) ==> c.name@ == "scout"@,
            r is None ==> !self.spec_has_name("scout"@),
    {
        self.get_card_by_name("scout")
    }

    pub fn get_viper(&self) -> (r: Option<CardRef>)
        ensures
            r == self.spec_card_named("viper"@),
            r matches Some(c) ==> c.name@ == "viper"@,
            r is None ==> !self.spec_has_name("viper"@),
    {
        self.get_card_by_name("viper")
    }

    pub fn get_explorer(&self) -> (r: Option<CardRef>)
        ensures
            r == self.spec_card_named("explorer"@),
            r matches Some(c) ==> c.name@ == "explorer"@,
            r is None ==> !self.spec_has_name("explorer"@),
    {
        self.get_card_by_name("explorer")
    }
}


/// A catalog whose entries are exactly the two input card lists holds a
/// name exactly when one of the lists does.
proof fn lemma_catalog_names(cl: CardLibrary, trade0: Seq<Card>, misc0: Seq<Card>, name: Seq<char>)
    requires
        cl.all_cards@.len() == trade0.len() + misc0.len(),
        forall|j: int| 0 <= j < trade0.len() ==> (#[trigger] cl.all_cards@[j]) == trade0[j],
        forall|j: int| 0 <= j < misc0.len() ==> (#[trigger] cl.all_cards@[trade0.len() + j])
            == misc0[j],
    ensures
        cl.spec_has_name(name) == seq_has_name(trade0 + misc0, name),
{
    let combined = trade0 + misc0;
    if cl.spec_has_name(name) {
        let i = choose|i: int| 0 <= i < cl.all_cards@.len()
            && (#[trigger] cl.all_cards@[i]).name@ == name;
        if i < trade0.len() {
            assert(cl.all_cards@[i] == trade0[i]);
            assert(combined[i] == trade0[i]);
        } else {
            let j = i - trade0.len();
            assert(cl.all_cards@[trade0.len() + j] == misc0[j]);
            assert(combined[i] == misc0[j]);
        }
        assert(combined[i].name@ == name);
    }
    if seq_has_name(combined, name) {
        let i = choose|i: int| 0 <= i < combined.len() && (#[trigger] combined[i]).name@ == name;
        if i < trade0.len() {
            assert(cl.all_cards@[i].name@ == name);
        } else {
            assert(cl.all_cards@[trade0.len() + (i - trade0.len())] == misc0[i - trade0.len()]);
            assert(cl.all_cards@[i].name@ == name);
        }
    }
}

} // verus!
