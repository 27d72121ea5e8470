//! Mutable play state owned by a card instance while it is active.

use vstd::prelude::*;
use std::rc::Rc;

use crate::details::{CardSource, Exhaustibility, ExhaustionLevel, Play};

verus! {

/// A play on an active card, together with how often it has run this turn.
pub struct ActivePlay {
    pub play: Rc<Play>,
    pub times_used: ExhaustionLevel,
}

impl ActivePlay {
    /// Can this play still be selected under its exhaustion policy?
    pub open spec fn spec_not_exhausted(self) -> bool {
        match self.play.exhaust {
            Exhaustibility::Once => self.times_used == 0,
            Exhaustibility::UpTo(x) => self.times_used < x,
            Exhaustibility::Exactly(x) => self.times_used < x,
        }
    }

    /// What `exhaustions_left` answers: `None` when exhausted, otherwise
    /// the number of uses remaining under the policy.
    pub open spec fn spec_exhaustions_left(self) -> Option<ExhaustionLevel> {
        if self.spec_not_exhausted() {
            Some(
                (match self.play.exhaust {
                    Exhaustibility::Once => 1,
                    Exhaustibility::UpTo(n) => n - self.times_used,
                    Exhaustibility::Exactly(n) => n - self.times_used,
                }) as ExhaustionLevel,
            )
        } else {
            None
        }
    }

    pub fn new(play: &Rc<Play>) -> (r: ActivePlay)
        ensures
            r.play == play,
            r.times_used == 0,
    {
        ActivePlay { play: play.clone(), times_used: 0 }
    }

    pub fn not_exhausted(&self) -> (r: bool)
        ensures
            r == self.spec_not_exhausted(),
    {
        match self.play.exhaust {
            Exhaustibility::Once => self.times_used == 0,
            Exhaustibility::UpTo(x) => self.times_used < x,
            Exhaustibility::Exactly(x) => self.times_used < x,
        }
    }

    /// `None` when exhausted, otherwise how many uses are left.
    pub fn exhaustions_left(&self) -> (r: Option<ExhaustionLevel>)
        ensures
            r == self.spec_exhaustions_left(),
    {
        if self.not_exhausted() {
            Some(
                match self.play.exhaust {
                    Exhaustibility::Once => 1,
                    Exhaustibility::UpTo(n) => n - self.times_used,
                    Exhaustibility::Exactly(n) => n - self.times_used,
                },
            )
        } else {
            None
        }
    }

    /// Counts one successful run of the play against its policy.
    pub fn record_use(&mut self)
        requires
            old(self).spec_not_exhausted(),
        ensures
            final(self).play == old(self).play,
            final(self).times_used == old(self).times_used + 1,
    {
        self.times_used = self.times_used + 1;
    }

    /// A `Once` play that has run cannot be selected again before a reset.
    pub proof fn lemma_once_exhausted_after_use(self)
        requires
            self.play.exhaust is Once,
            self.times_used >= 1,
        ensures
            !self.spec_not_exhausted(),
    {
    }

    /// An `UpTo(n)` play rejects its `(n + 1)`-th attempt.
    pub proof fn lemma_up_to_rejects_excess(self, n: ExhaustionLevel)
        requires
            self.play.exhaust == Exhaustibility::UpTo(n),
            self.times_used >= n,
        ensures
            !self.spec_not_exhausted(),
    {
    }
}

/// A pending instruction recorded by a play, honoured later in the turn:
/// the next acquired card goes to this destination.
#[derive(Debug)]
pub struct Trigger {
    pub destination: CardSource,
}

} // verus!
