//! The reference that live progress is measured against.
use vstd::prelude::*;

verus! {

/// Which reference series drives the pace classification.
///
/// The modes form a ring in the order `PersonalBest`, `Golds`, `Average`,
/// `NoComparison`; `next` moves one step forward along it and `prev` one step back.
#[derive(Clone, Copy, PartialEq, Eq, Debug, Structural)]
pub enum Comparison {
    /// The segment durations of the best completed attempt.
    PersonalBest,
    /// The best duration ever recorded for each segment.
    Golds,
    /// The running mean duration of each segment.
    Average,
    /// No reference: nothing is classified.
    NoComparison,
}

impl Comparison {
    /// The mode that follows `self` on the ring.
    pub open spec fn successor(self) -> Comparison {
        match self {
            Comparison::PersonalBest => Comparison::Golds,
            Comparison::Golds => Comparison::Average,
            Comparison::Average => Comparison::NoComparison,
            Comparison::NoComparison => Comparison::PersonalBest,
        }
    }

    /// The mode that precedes `self` on the ring.
    pub open spec fn predecessor(self) -> Comparison {
        match self {
            Comparison::PersonalBest => Comparison::NoComparison,
            Comparison::Golds => Comparison::PersonalBest,
            Comparison::Average => Comparison::Golds,
            Comparison::NoComparison => Comparison::Average,
        }
    }

    /// Moves to the following mode, wrapping from `NoComparison` to `PersonalBest`.
    pub fn next(&mut self)
        ensures
            *final(self) == old(self).successor(),
    {
        *self = match *self {
            Comparison::PersonalBest => Comparison::Golds,
            Comparison::Golds => Comparison::Average,
            Comparison::Average => Comparison::NoComparison,
            Comparison::NoComparison => Comparison::PersonalBest,
        };
    }

    /// Moves to the preceding mode, wrapping from `PersonalBest` to `NoComparison`.
    pub fn prev(&mut self)
        ensures
            *final(self) == old(self).predecessor(),
    {
        *self = match *self {
            Comparison::PersonalBest => Comparison::NoComparison,
            Comparison::Golds => Comparison::PersonalBest,
            Comparison::Average => Comparison::Golds,
            Comparison::NoComparison => Comparison::Average,
        };
    }
}

/// Stepping forward and then back, or back and then forward, returns to the
/// mode one started from, and four steps in one direction close the ring.
pub proof fn lemma_comparison_ring(c: Comparison)
    ensures
        c.successor().predecessor() == c,
        c.predecessor().successor() == c,
        c.successor().successor().successor().successor() == c,
        c.predecessor().predecessor().predecessor().predecessor() == c,
        c.successor() != c,
        c.predecessor() != c,
{
}

} // verus!
