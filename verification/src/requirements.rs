//! Requirement constructors used by card content.

use vstd::prelude::*;

use crate::details::{Condition, Requirement};
use crate::faction::Faction;

verus! {

/// The requirement that the performing card bears this faction's synergy.
pub fn synergy(faction: Faction) -> (r: Requirement)
    ensures
        r == Requirement::Condition(Condition::Synergy(faction)),
{
    Requirement::Condition(Condition::Synergy(faction))
}

} // verus!
