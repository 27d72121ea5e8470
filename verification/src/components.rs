//! Per-turn resources ("goods"): trade, authority and combat.

use vstd::prelude::*;

verus! {

/// Combat needed to destroy a base.
pub type Defense = u8;

/// The trade currency.
pub type Coin = u8;

/// A player's life total.
pub type Authority = u8;

/// Accrued attack strength.
pub type Combat = u8;

/// Resources accumulated during a turn by played cards.
#[derive(Copy, Clone, Debug, PartialEq, Eq, Structural)]
pub struct Goods {
    pub trade: Coin,
    pub authority: Authority,
    pub combat: Combat,
}

impl Goods {
    pub fn authority(auth: Authority) -> (r: Goods)
        ensures
            r == (Goods { trade: 0, authority: auth, combat: 0 }),
    {
        Goods { trade: 0, authority: auth, combat: 0 }
    }

    pub fn trade(trade: Coin) -> (r: Goods)
        ensures
            r == (Goods { trade, authority: 0, combat: 0 }),
    {
        Goods { trade, authority: 0, combat: 0 }
    }

    pub fn combat(combat: Combat) -> (r: Goods)
        ensures
            r == (Goods { trade: 0, authority: 0, combat }),
    {
        Goods { trade: 0, authority: 0, combat }
    }

    pub fn none() -> (r: Goods)
        ensures
            r == (Goods { trade: 0, authority: 0, combat: 0 }),
    {
        Goods { trade: 0, authority: 0, combat: 0 }
    }

    /// Component-wise saturating sum.
    pub open spec fn spec_plus(self, rhs: Goods) -> Goods {
        Goods {
            trade: if self.trade + rhs.trade <= u8::MAX {
                (self.trade + rhs.trade) as u8
            } else {
                u8::MAX
            },
            authority: if self.authority + rhs.authority <= u8::MAX {
                (self.authority + rhs.authority) as u8
            } else {
                u8::MAX
            },
            combat: if self.combat + rhs.combat <= u8::MAX {
                (self.combat + rhs.combat) as u8
            } else {
                u8::MAX
            },
        }
    }

    /// Component-wise sum; each component saturates at its maximum so that
    /// an extravagant turn never aborts the game.
    pub fn plus(self, rhs: Goods) -> (r: Goods)
        ensures
            r == self.spec_plus(rhs),
    {
        Goods {
            trade: saturating_add_u8(self.trade, rhs.trade),
            authority: saturating_add_u8(self.authority, rhs.authority),
            combat: saturating_add_u8(self.combat, rhs.combat),
        }
    }

    /// Component-wise comparison: can these goods pay for `cost`?
    pub fn covers(self, cost: Goods) -> (r: bool)
        ensures
            r == (self.trade >= cost.trade && self.authority >= cost.authority
                && self.combat >= cost.combat),
    {
        self.trade >= cost.trade && self.authority >= cost.authority && self.combat >= cost.combat
    }

    /// Component-wise difference, for paying a cost.
    pub fn minus(self, cost: Goods) -> (r: Goods)
        requires
            self.trade >= cost.trade,
            self.authority >= cost.authority,
            self.combat >= cost.combat,
        ensures
            r == (Goods {
                trade: (self.trade - cost.trade) as u8,
                authority: (self.authority - cost.authority) as u8,
                combat: (self.combat - cost.combat) as u8,
            }),
    {
        Goods {
            trade: self.trade - cost.trade,
            authority: self.authority - cost.authority,
            combat: self.combat - cost.combat,
        }
    }
}

fn saturating_add_u8(a: u8, b: u8) -> (r: u8)
    ensures
        r == if a + b <= u8::MAX { a + b } else { u8::MAX as int },
{
    if a <= u8::MAX - b {
        a + b
    } else {
        u8::MAX
    }
}

} // verus!
