//! The four factions and sets of them, used for synergy conditions.

use vstd::prelude::*;

verus! {

#[derive(Copy, Clone, Debug, PartialEq, Eq, Hash, Structural)]
pub enum Faction {
    /// The Machine Cult.
    Mech,
    /// The Star Empire.
    Star,
    /// The Blobs.
    Blob,
    /// The Trade Federation.
    Fed,
}

impl Faction {
    /// The one-letter synergy code used by card definitions.
    pub fn from_str(s: &str) -> (r: Result<Faction, String>)
        ensures
            r matches Ok(f) ==> Faction::spec_from_chars(s@) == Some(f),
            r is Err ==> Faction::spec_from_chars(s@) is None,
    {
        let n = s.unicode_len();
        if n != 1 {
            return Err(String::from_str("Not one of [m, s, y, b, f, t]"));
        }
        let c = s.get_char(0);
        match c {
            'm' => Ok(Faction::Mech),
            's' | 'y' => Ok(Faction::Star),
            'b' => Ok(Faction::Blob),
            'f' | 't' => Ok(Faction::Fed),
            _ => Err(String::from_str("Not one of [m, s, y, b, f, t]")),
        }
    }

    /// What `from_str` accepts, as a function of the characters alone.
    pub open spec fn spec_from_chars(s: Seq<char>) -> Option<Faction> {
        if s.len() == 1 {
            Faction::spec_from_char(s[0])
        } else {
            None
        }
    }

    pub open spec fn spec_from_char(c: char) -> Option<Faction> {
        match c {
            'm' => Some(Faction::Mech),
            's' | 'y' => Some(Faction::Star),
            'b' => Some(Faction::Blob),
            'f' | 't' => Some(Faction::Fed),
            _ => None,
        }
    }
}

/// All four factions, in a fixed order.
pub fn all_factions() -> (r: Vec<Faction>)
    ensures
        r@ == seq![Faction::Mech, Faction::Star, Faction::Blob, Faction::Fed],
{
    let mut v = Vec::new();
    v.push(Faction::Mech);
    v.push(Faction::Star);
    v.push(Faction::Blob);
    v.push(Faction::Fed);
    proof {
        assert(v@ =~= seq![Faction::Mech, Faction::Star, Faction::Blob, Faction::Fed]);
    }
    v
}

/// A set of factions, one membership flag per faction.
#[derive(Copy, Clone, Debug, PartialEq, Eq, Structural)]
pub struct FactionSet {
    pub mech: bool,
    pub star: bool,
    pub blob: bool,
    pub fed: bool,
}

impl FactionSet {
    pub open spec fn spec_contains(self, f: Faction) -> bool {
        match f {
            Faction::Mech => self.mech,
            Faction::Star => self.star,
            Faction::Blob => self.blob,
            Faction::Fed => self.fed,
        }
    }

    pub fn empty() -> (r: FactionSet)
        ensures
            forall|f: Faction| !r.spec_contains(f),
    {
        FactionSet { mech: false, star: false, blob: false, fed: false }
    }

    pub fn singleton(f: Faction) -> (r: FactionSet)
        ensures
            r.spec_contains(f),
            forall|g: Faction| g != f ==> !r.spec_contains(g),
    {
        let mut r = FactionSet::empty();
        r.insert(f);
        r
    }

    pub fn insert(&mut self, f: Faction)
        ensures
            final(self).spec_contains(f),
            forall|g: Faction| g != f ==> final(self).spec_contains(g) == old(self).spec_contains(g),
    {
        match f {
            Faction::Mech => { self.mech = true; },
            Faction::Star => { self.star = true; },
            Faction::Blob => { self.blob = true; },
            Faction::Fed => { self.fed = true; },
        }
    }

    pub fn contains(&self, f: Faction) -> (r: bool)
        ensures
            r == self.spec_contains(f),
    {
        match f {
            Faction::Mech => self.mech,
            Faction::Star => self.star,
            Faction::Blob => self.blob,
            Faction::Fed => self.fed,
        }
    }

    /// The factions shared with another set.
    pub fn intersect(&self, other: &FactionSet) -> (r: FactionSet)
        ensures
            forall|f: Faction| r.spec_contains(f) == (self.spec_contains(f)
                && other.spec_contains(f)),
    {
        FactionSet {
            mech: self.mech && other.mech,
            star: self.star && other.star,
            blob: self.blob && other.blob,
            fed: self.fed && other.fed,
        }
    }

    pub fn is_empty(&self) -> (r: bool)
        ensures
            r == !(self.mech || self.star || self.blob || self.fed),
    {
        !(self.mech || self.star || self.blob || self.fed)
    }
}

} // verus!
