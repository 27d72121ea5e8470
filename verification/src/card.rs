//! Immutable card definitions, shared by reference, and the mutable
//! per-instance status that a holding collection owns.

use vstd::prelude::*;
use std::rc::Rc;

use crate::components::{Coin, Defense};
use crate::details::PlaySet;
use crate::faction::FactionSet;
use crate::text::{string_eq, StrMap};

verus! {

/// A card in play may be a base; an outpost must be destroyed before the
/// owner can be attacked directly.
#[derive(Copy, Clone, Debug, PartialEq, Eq, Hash, Structural)]
pub enum Base {
    Outpost(Defense),
    Base(Defense),
}

impl Base {
    pub fn is_outpost(&self) -> (r: bool)
        ensures
            r == (*self is Outpost),
    {
        match self {
            Base::Outpost(_) => true,
            _ => false,
        }
    }

    /// The combat needed to destroy this base.
    pub fn defense(&self) -> (r: Defense)
        ensures
            *self matches Base::Outpost(d) ==> r == d,
            *self matches Base::Base(d) ==> r == d,
    {
        match self {
            Base::Outpost(d) => *d,
            Base::Base(d) => *d,
        }
    }
}

/// An immutable card definition. Names are unique catalog keys.
pub struct Card {
    pub cost: Coin,
    pub name: String,
    /// `None` means the card is not a base.
    pub base: Option<Base>,
    pub synergizes_with: FactionSet,
    /// The effect names this card declares, with their configurations.
    pub effects: Effects,
    /// The compiled plays of this card, if it has any.
    pub content: Option<PlaySet>,
}

/// Cards are shared: the catalog owns each definition once and every
/// collection holds counted references.
pub type CardRef = Rc<Card>;

impl Card {
    /// Will this card provide synergy for `faction`?
    pub fn synergizes_over(&self, faction: crate::faction::Faction) -> (r: bool)
        ensures
            r == self.synergizes_with.spec_contains(faction),
    {
        self.synergizes_with.contains(faction)
    }

    /// The factions this card shares with `other`.
    pub fn synergizes_with(&self, other: &Card) -> (r: FactionSet)
        ensures
            forall|f: crate::faction::Faction| r.spec_contains(f)
                == (self.synergizes_with.spec_contains(f)
                    && other.synergizes_with.spec_contains(f)),
    {
        self.synergizes_with.intersect(&other.synergizes_with)
    }

    /// Will this card synergize with `other` at all?
    pub fn does_synergize(&self, other: &Card) -> (r: bool)
        ensures
            r == exists|f: crate::faction::Faction|
                self.synergizes_with.spec_contains(f) && other.synergizes_with.spec_contains(f),
    {
        let common = self.synergizes_with(other);
        let r = !common.is_empty();
        proof {
            if !r {
                assert forall|f: crate::faction::Faction|
                    !(self.synergizes_with.spec_contains(f)
                        && other.synergizes_with.spec_contains(f)) by {
                    assert(!common.spec_contains(f));
                }
            }
            if r {
                if common.mech {
                    assert(common.spec_contains(crate::faction::Faction::Mech));
                } else if common.star {
                    assert(common.spec_contains(crate::faction::Faction::Star));
                } else if common.blob {
                    assert(common.spec_contains(crate::faction::Faction::Blob));
                } else {
                    assert(common.spec_contains(crate::faction::Faction::Fed));
                }
            }
        }
        r
    }

    /// Field-wise identity on the catalog key fields, as the catalog
    /// compares cards: name, cost and base.
    pub fn same_card(&self, other: &Card) -> (r: bool)
        ensures
            r == (self.name@ == other.name@ && self.cost == other.cost
                && self.base == other.base),
    {
        string_eq(&self.name, &other.name) && self.cost == other.cost && match (
            &self.base,
            &other.base,
        ) {
            (None, None) => true,
            (Some(a), Some(b)) => *a == *b,
            _ => false,
        }
    }
}

/// A constant-depth configuration object for one effect.
pub type EffectConfig = StrMap;

/// A pair of configurations for a `(condition, action)` effect pair.
pub type EffectConfigPair = (StrMap, StrMap);

/// The first configuration entry keyed by the pair `(c, a)`.
pub open spec fn config_lookup(
    s: Seq<((String, String), EffectConfigPair)>,
    c: Seq<char>,
    a: Seq<char>,
) -> Option<EffectConfigPair>
    decreases s.len(),
{
    if s.len() == 0 {
        None
    } else if s[0].0.0@ == c && s[0].0.1@ == a {
        Some(s[0].1)
    } else {
        config_lookup(s.drop_first(), c, a)
    }
}

/// The `(condition, action)` effect names a card declares, with optional
/// configurations keyed by the pair.
pub struct Effects {
    /// Distinct condition/action name pairs.
    pub effects: Vec<(String, String)>,
    /// Configurations, keyed by an effect pair.
    pub configs: Vec<((String, String), EffectConfigPair)>,
}

impl Effects {
    /// Does this set declare the effect pair `(c, a)`?
    pub open spec fn spec_has_effect(self, c: Seq<char>, a: Seq<char>) -> bool {
        exists|i: int| 0 <= i < self.effects@.len()
            && (#[trigger] self.effects@[i]).0@ == c && self.effects@[i].1@ == a
    }

    pub open spec fn spec_len(self) -> int {
        self.effects@.len() as int
    }

    /// The effect pair at index `i`.
    pub open spec fn spec_effect_at(self, i: int) -> (String, String) {
        self.effects@[i]
    }

    /// Is a configuration stored for the pair `(c, a)`?
    pub open spec fn spec_has_config(self, c: Seq<char>, a: Seq<char>) -> bool {
        exists|i: int| 0 <= i < self.configs@.len()
            && (#[trigger] self.configs@[i]).0.0@ == c && self.configs@[i].0.1@ == a
    }

    /// The first configuration stored for the pair `(c, a)`.
    pub open spec fn spec_config_for(self, c: Seq<char>, a: Seq<char>) -> Option<
        EffectConfigPair,
    > {
        config_lookup(self.configs@, c, a)
    }

    pub fn new() -> (r: Effects)
        ensures
            forall|c: Seq<char>, a: Seq<char>| !r.spec_has_effect(c, a),
            r.spec_len() == 0,
    {
        Effects { effects: Vec::new(), configs: Vec::new() }
    }

    pub fn from_no_config_effects(effects: Vec<(String, String)>) -> (r: Effects)
        ensures
            r.effects@ == effects@,
            r.configs@.len() == 0,
    {
        Effects { effects, configs: Vec::new() }
    }

    pub fn get_all_effects(&self) -> (r: &Vec<(String, String)>)
        ensures
            r == &self.effects,
    {
        &self.effects
    }

    /// The effect pairs, for iteration by index.
    pub fn iter(&self) -> (r: &Vec<(String, String)>)
        ensures
            r == &self.effects,
    {
        &self.effects
    }

    /// Does this set already declare the pair?
    pub fn contains_effect(&self, c: &String, a: &String) -> (r: bool)
        ensures
            r == self.spec_has_effect(c@, a@),
    {
        let n = self.effects.len();
        let mut i: usize = 0;
        while i < n
            invariant
                n == self.effects@.len(),
                i <= n,
                forall|j: int| 0 <= j < i ==> !((#[trigger] self.effects@[j]).0@ == c@
                    && self.effects@[j].1@ == a@),
            decreases n - i,
        {
            if string_eq(&self.effects[i].0, c) && string_eq(&self.effects[i].1, a) {
                return true;
            }
            i += 1;
        }
        false
    }

    /// Declares an effect pair; a pair already present is not duplicated,
    /// and the stored configurations are untouched.
    pub fn add(&mut self, kv: (String, String))
        ensures
            forall|c: Seq<char>, a: Seq<char>| final(self).spec_has_effect(c, a)
                == (old(self).spec_has_effect(c, a) || (c == kv.0@ && a == kv.1@)),
            final(self).configs@ == old(self).configs@,
    {
        let ghost k0 = kv.0@;
        let ghost v0 = kv.1@;
        if !self.contains_effect(&kv.0, &kv.1) {
            let ghost pre = self.effects@;
            self.effects.push(kv);
            proof {
                assert forall|c: Seq<char>, a: Seq<char>| #[trigger] self.spec_has_effect(c, a)
                    == (old(self).spec_has_effect(c, a) || (c == k0 && a == v0)) by {
                    let n = pre.len() as int;
                    if old(self).spec_has_effect(c, a) {
                        let i = choose|i: int| 0 <= i < pre.len()
                            && (#[trigger] pre[i]).0@ == c && pre[i].1@ == a;
                        assert(self.effects@[i].0@ == c && self.effects@[i].1@ == a);
                    }
                    if c == k0 && a == v0 {
                        assert(self.effects@[n].0@ == c && self.effects@[n].1@ == a);
                    }
                    if self.spec_has_effect(c, a) {
                        let i = choose|i: int| 0 <= i < self.effects@.len()
                            && (#[trigger] self.effects@[i]).0@ == c && self.effects@[i].1@ == a;
                        if i < n {
                            assert(pre[i].0@ == c && pre[i].1@ == a);
                        }
                    }
                }
            }
        }
    }

    /// Declares every pair of `kvs`.
    pub fn add_effects(&mut self, kvs: &Vec<(String, String)>)
        ensures
            forall|c: Seq<char>, a: Seq<char>| old(self).spec_has_effect(c, a)
                ==> final(self).spec_has_effect(c, a),
            forall|i: int| 0 <= i < kvs@.len()
                ==> final(self).spec_has_effect((#[trigger] kvs@[i]).0@, kvs@[i].1@),
    {
        let n = kvs.len();
        let mut i: usize = 0;
        while i < n
            invariant
                n == kvs@.len(),
                i <= n,
                forall|c: Seq<char>, a: Seq<char>| old(self).spec_has_effect(c, a)
                    ==> self.spec_has_effect(c, a),
                forall|j: int| 0 <= j < i
                    ==> self.spec_has_effect((#[trigger] kvs@[j]).0@, kvs@[j].1@),
            decreases n - i,
        {
            let ghost mid = *self;
            let pair = (kvs[i].0.clone(), kvs[i].1.clone());
            self.add(pair);
            proof {
                assert(self.spec_has_effect(kvs@[i as int].0@, kvs@[i as int].1@));
                assert forall|c: Seq<char>, a: Seq<char>| mid.spec_has_effect(c, a)
                    implies #[trigger] self.spec_has_effect(c, a) by {}
            }
            i += 1;
        }
    }

    /// Stores a configuration for an effect pair.
    pub fn add_config(&mut self, key: (String, String), properties: EffectConfigPair)
        ensures
            final(self).spec_has_config(key.0@, key.1@),
            final(self).effects@ == old(self).effects@,
    {
        let ghost k0 = key.0@;
        let ghost k1 = key.1@;
        self.configs.push((key, properties));
        proof {
            let n = self.configs@.len() - 1;
            assert(self.configs@[n].0.0@ == k0 && self.configs@[n].0.1@ == k1);
        }
    }

    /// Stores every configuration of `configs`.
    pub fn add_configs(&mut self, configs: Vec<((String, String), EffectConfigPair)>)
        ensures
            final(self).effects@ == old(self).effects@,
    {
        let mut configs = configs;
        let n = configs.len();
        let mut i: usize = 0;
        while i < n
            invariant
                i <= n,
                n == configs@.len() + i,
                self.effects@ == old(self).effects@,
            decreases n - i,
        {
            let entry = configs.remove(0);
            self.add_config(entry.0, entry.1);
            i += 1;
        }
    }

    /// The pre-configuration stored for an effect pair's condition side,
    /// not yet validated.
    pub fn get_action_pre_config(&self, cond: &String, actn: &String) -> (r: Option<
        crate::effects::PreConfig,
    >)
        ensures
            (r is Some) == self.spec_has_config(cond@, actn@),
            r matches Some(pc) ==> !pc.validated && (self.spec_config_for(cond@, actn@)
                matches Some(pair) && pc.map.entries@ == pair.0.entries@),
    {
        match self.get_config(cond, actn) {
            Some(pair) => Some(crate::effects::PreConfig::create(pair.0.clone())),
            None => None,
        }
    }

    /// Looks a configuration up by effect pair: the first stored entry
    /// for the pair wins.
    #[verifier::loop_isolation(false)]
    pub fn get_config(&self, cond: &String, actn: &String) -> (r: Option<&EffectConfigPair>)
        ensures
            (r is Some) == self.spec_has_config(cond@, actn@),
            r matches Some(p) ==> self.spec_config_for(cond@, actn@) == Some(*p),
            r is None ==> self.spec_config_for(cond@, actn@) is None,
    {
        let n = self.configs.len();
        let mut i: usize = 0;
        proof {
            assert(self.configs@.skip(0) =~= self.configs@);
        }
        while i < n
            invariant
                n == self.configs@.len(),
                i <= n,
                forall|j: int| 0 <= j < i ==> !((#[trigger] self.configs@[j]).0.0@ == cond@
                    && self.configs@[j].0.1@ == actn@),
                config_lookup(self.configs@, cond@, actn@) == config_lookup(
                    self.configs@.skip(i as int),
                    cond@,
                    actn@,
                ),
            decreases n - i,
        {
            proof {
                assert(self.configs@.skip(i as int)[0] == self.configs@[i as int]);
                assert(self.configs@.skip(i as int).drop_first() =~= self.configs@.skip(i + 1));
            }
            if string_eq(&self.configs[i].0.0, cond) && string_eq(&self.configs[i].0.1, actn) {
                return Some(&self.configs[i].1);
            }
            i += 1;
        }
        proof {
            assert(self.configs@.skip(n as int).len() == 0);
        }
        None
    }
}

/// Mutable status of one card instance, owned by the collection that holds
/// the instance and never shared across collections.
#[derive(Debug)]
pub struct CardStatus {
    pub in_play: bool,
    pub effects_used: Vec<(String, String)>,
    pub scrapped: bool,
}

impl CardStatus {
    /// Has the effect pair `(c, a)` been used this active period?
    pub open spec fn spec_used(self, c: Seq<char>, a: Seq<char>) -> bool {
        exists|i: int| 0 <= i < self.effects_used@.len()
            && (#[trigger] self.effects_used@[i]).0@ == c && self.effects_used@[i].1@ == a
    }

    pub fn new() -> (r: CardStatus)
        ensures
            !r.in_play,
            !r.scrapped,
            forall|c: Seq<char>, a: Seq<char>| !r.spec_used(c, a),
    {
        CardStatus { in_play: false, effects_used: Vec::new(), scrapped: false }
    }

    /// Marks the card as revealed (in play).
    pub fn reveal_card(&mut self)
        ensures
            final(self).in_play,
            final(self).scrapped == old(self).scrapped,
            final(self).effects_used@ == old(self).effects_used@,
    {
        self.in_play = true;
    }

    /// Has this instance used the pair?
    pub fn has_used(&self, c: &String, a: &String) -> (r: bool)
        ensures
            r == self.spec_used(c@, a@),
    {
        let n = self.effects_used.len();
        let mut i: usize = 0;
        while i < n
            invariant
                n == self.effects_used@.len(),
                i <= n,
                forall|j: int| 0 <= j < i ==> !((#[trigger] self.effects_used@[j]).0@ == c@
                    && self.effects_used@[j].1@ == a@),
            decreases n - i,
        {
            if string_eq(&self.effects_used[i].0, c) && string_eq(&self.effects_used[i].1, a) {
                return true;
            }
            i += 1;
        }
        false
    }

    /// The effect pairs of `card` not used yet, in declaration order.
    pub fn unused_effects(&self, card: &Card) -> (r: Vec<(String, String)>)
        ensures
            forall|j: int| 0 <= j < r@.len()
                ==> card.effects.spec_has_effect((#[trigger] r@[j]).0@, r@[j].1@)
                    && !self.spec_used(r@[j].0@, r@[j].1@),
            forall|i: int| 0 <= i < card.effects.spec_len()
                && !self.spec_used((#[trigger] card.effects.spec_effect_at(i)).0@,
                    card.effects.spec_effect_at(i).1@)
                ==> exists|j: int| 0 <= j < r@.len()
                    && (#[trigger] r@[j]).0@ == card.effects.spec_effect_at(i).0@
                    && r@[j].1@ == card.effects.spec_effect_at(i).1@,
    {
        let all = card.effects.get_all_effects();
        let n = all.len();
        let mut out: Vec<(String, String)> = Vec::new();
        let mut i: usize = 0;
        while i < n
            invariant
                n == all@.len(),
                all == &card.effects.effects,
                i <= n,
                forall|j: int| 0 <= j < out@.len()
                    ==> card.effects.spec_has_effect((#[trigger] out@[j]).0@, out@[j].1@)
                        && !self.spec_used(out@[j].0@, out@[j].1@),
                forall|k: int| 0 <= k < i
                    && !self.spec_used((#[trigger] all@[k]).0@, all@[k].1@)
                    ==> exists|j: int| 0 <= j < out@.len()
                        && (#[trigger] out@[j]).0@ == all@[k].0@ && out@[j].1@ == all@[k].1@,
            decreases n - i,
        {
            let ghost pre = out@;
            if !self.has_used(&all[i].0, &all[i].1) {
                out.push((all[i].0.clone(), all[i].1.clone()));
                proof {
                    let m = pre.len() as int;
                    assert(out@[m].0@ == all@[i as int].0@ && out@[m].1@ == all@[i as int].1@);
                    assert(card.effects.spec_has_effect(out@[m].0@, out@[m].1@)) by {
                        assert(card.effects.effects@[i as int].0@ == out@[m].0@
                            && card.effects.effects@[i as int].1@ == out@[m].1@);
                    }
                }
            }
            proof {
                assert forall|k: int| 0 <= k < i + 1
                    && !self.spec_used((#[trigger] all@[k]).0@, all@[k].1@)
                    implies exists|j: int| 0 <= j < out@.len()
                        && (#[trigger] out@[j]).0@ == all@[k].0@ && out@[j].1@ == all@[k].1@ by {
                    if k < i {
                        let j = choose|j: int| 0 <= j < pre.len()
                            && (#[trigger] pre[j]).0@ == all@[k].0@ && pre[j].1@ == all@[k].1@;
                        assert(out@[j].0@ == all@[k].0@ && out@[j].1@ == all@[k].1@);
                    } else {
                        let m = pre.len() as int;
                        assert(out@[m].0@ == all@[k].0@ && out@[m].1@ == all@[k].1@);
                    }
                }
            }
            i += 1;
        }
        out
    }

    /// Are all of the card's declared effects used?
    pub fn all_effects_used(&self, card: &Card) -> (r: bool)
        ensures
            r == (forall|i: int| 0 <= i < card.effects.spec_len()
                ==> self.spec_used((#[trigger] card.effects.spec_effect_at(i)).0@,
                    card.effects.spec_effect_at(i).1@)),
    {
        let all = card.effects.get_all_effects();
        let n = all.len();
        let mut i: usize = 0;
        while i < n
            invariant
                n == all@.len(),
                all == &card.effects.effects,
                i <= n,
                forall|j: int| 0 <= j < i
                    ==> self.spec_used((#[trigger] all@[j]).0@, all@[j].1@),
            decreases n - i,
        {
            if !self.has_used(&all[i].0, &all[i].1) {
                proof {
                    assert(card.effects.spec_effect_at(i as int) == all@[i as int]);
                }
                return false;
            }
            i += 1;
        }
        proof {
            assert forall|k: int| 0 <= k < card.effects.spec_len()
                implies self.spec_used((#[trigger] card.effects.spec_effect_at(k)).0@,
                    card.effects.spec_effect_at(k).1@) by {
                assert(card.effects.spec_effect_at(k) == all@[k]);
                assert(self.spec_used(all@[k].0@, all@[k].1@));
            }
        }
        true
    }

    /// Is this condition name the unconditional one?
    pub fn is_free(cond: &String) -> (r: bool)
        ensures
            r == (cond@ == "any"@ || cond@ == "free"@),
    {
        crate::effects::is_free_cond(cond)
    }

    /// Protocol for resetting a base after a turn it survived: its effects
    /// come back, but it stays revealed.
    pub fn reset_base(&mut self)
        ensures
            forall|c: Seq<char>, a: Seq<char>| !final(self).spec_used(c, a),
            final(self).in_play == old(self).in_play,
            final(self).scrapped == old(self).scrapped,
    {
        self.effects_used = Vec::new();
    }

    /// Marks the pair as used, revealing the card; no other pair becomes
    /// used, and the scrapped flag keeps its value.
    pub fn use_effect(&mut self, effect: &(String, String))
        ensures
            final(self).in_play,
            final(self).scrapped == old(self).scrapped,
            forall|c: Seq<char>, a: Seq<char>| final(self).spec_used(c, a)
                == (old(self).spec_used(c, a) || (c == effect.0@ && a == effect.1@)),
    {
        self.reveal_card();
        let ghost pre = self.effects_used@;
        self.effects_used.push((effect.0.clone(), effect.1.clone()));
        proof {
            let n = pre.len() as int;
            assert(self.effects_used@[n].0@ == effect.0@ && self.effects_used@[n].1@ == effect.1@);
            assert forall|c: Seq<char>, a: Seq<char>| #[trigger] self.spec_used(c, a)
                == (old(self).spec_used(c, a) || (c == effect.0@ && a == effect.1@)) by {
                if old(self).spec_used(c, a) {
                    let i = choose|i: int| 0 <= i < pre.len()
                        && (#[trigger] pre[i]).0@ == c && pre[i].1@ == a;
                    assert(self.effects_used@[i].0@ == c && self.effects_used@[i].1@ == a);
                }
                if c == effect.0@ && a == effect.1@ {
                    assert(self.effects_used@[n].0@ == c && self.effects_used@[n].1@ == a);
                }
                if self.spec_used(c, a) {
                    let i = choose|i: int| 0 <= i < self.effects_used@.len()
                        && (#[trigger] self.effects_used@[i]).0@ == c
                        && self.effects_used@[i].1@ == a;
                    if i < n {
                        assert(pre[i].0@ == c && pre[i].1@ == a);
                    }
                }
            }
        }
    }
}

} // verus!
