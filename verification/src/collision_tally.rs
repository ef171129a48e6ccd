use vstd::prelude::*;

use crate::random_walk::NeutronInteraction;

verus! {

/// Collision counters of a random walk: how many scattering and how many
/// absorption outcomes the reaction branch has produced.  Each recorded
/// interaction increments exactly one of the two counters.
#[derive(Debug, Clone, Copy, PartialEq, Eq, Structural)]
pub struct CollisionTally {
    pub scatter_count: u64,
    pub absorption_count: u64,
}

impl Default for CollisionTally {
    /// A fresh tally starts with zero counts of each kind.
    fn default() -> (tally: Self)
        ensures
            tally.scatter_count == 0,
            tally.absorption_count == 0,
    {
        Self { scatter_count: 0, absorption_count: 0 }
    }
}

impl CollisionTally {
    /// Based on the interaction type, add to the matching counter.
    ///
    /// Exactly one counter grows, and it grows by exactly one, so the sum
    /// of the two counters always equals the number of recorded
    /// interactions.
    pub fn add_interaction_to_tally(&mut self, interaction: NeutronInteraction)
        requires
            old(self).scatter_count < u64::MAX,
            old(self).absorption_count < u64::MAX,
        ensures
            final(self).scatter_count + final(self).absorption_count == old(
                self,
            ).scatter_count + old(self).absorption_count + 1,
            interaction == NeutronInteraction::Scatter ==> final(self).scatter_count == old(
                self,
            ).scatter_count + 1 && final(self).absorption_count == old(self).absorption_count,
            interaction == NeutronInteraction::Absorption ==> final(self).absorption_count == old(
                self,
            ).absorption_count + 1 && final(self).scatter_count == old(self).scatter_count,
    {
        match interaction {
            NeutronInteraction::Scatter => {
                self.add_to_scatter_count();
            },
            NeutronInteraction::Absorption => {
                self.add_to_absorption_count();
            },
        }
    }

    /// Add one to the absorption count.
    pub fn add_to_absorption_count(&mut self)
        requires
            old(self).absorption_count < u64::MAX,
        ensures
            final(self).absorption_count == old(self).absorption_count + 1,
            final(self).scatter_count == old(self).scatter_count,
    {
        self.absorption_count = self.absorption_count + 1;
    }

    /// Add one to the scatter count.
    pub fn add_to_scatter_count(&mut self)
        requires
            old(self).scatter_count < u64::MAX,
        ensures
            final(self).scatter_count == old(self).scatter_count + 1,
            final(self).absorption_count == old(self).absorption_count,
    {
        self.scatter_count = self.scatter_count + 1;
    }

    /// Reset the absorption count to zero.
    pub fn reset_absorption_count(&mut self)
        ensures
            final(self).absorption_count == 0,
            final(self).scatter_count == old(self).scatter_count,
    {
        self.absorption_count = 0;
    }

    /// Reset the scatter count to zero.
    pub fn reset_scatter_count(&mut self)
        ensures
            final(self).scatter_count == 0,
            final(self).absorption_count == old(self).absorption_count,
    {
        self.scatter_count = 0;
    }

    /// Read the absorption count.
    pub fn get_absorption_count(&self) -> (count: u64)
        ensures
            count == self.absorption_count,
    {
        self.absorption_count
    }

    /// Read the scatter count.
    pub fn get_scatter_count(&self) -> (count: u64)
        ensures
            count == self.scatter_count,
    {
        self.scatter_count
    }

    /// Merge the counts of another tally into this one by summation.
    ///
    /// Per-worker tallies are combined this way after all histories have
    /// run; `lemma_merge_is_commutative` shows that the merge order cannot
    /// change the totals.
    pub fn merge(&mut self, other: &CollisionTally)
        requires
            old(self).scatter_count + other.scatter_count <= u64::MAX,
            old(self).absorption_count + other.absorption_count <= u64::MAX,
        ensures
            final(self).scatter_count == old(self).scatter_count + other.scatter_count,
            final(self).absorption_count == old(self).absorption_count + other.absorption_count,
    {
        self.scatter_count = self.scatter_count + other.scatter_count;
        self.absorption_count = self.absorption_count + other.absorption_count;
    }

    /// The counts a merge produces, as a value.
    pub open spec fn merged_with(self, other: CollisionTally) -> (int, int) {
        (
            self.scatter_count + other.scatter_count,
            self.absorption_count + other.absorption_count,
        )
    }
}

/// Law: merging tallies is commutative.  Summing per-worker tallies in any
/// order yields the same totals, so the merge step of a parallel run is
/// order-independent.
pub proof fn lemma_merge_is_commutative(a: CollisionTally, b: CollisionTally)
    ensures
        a.merged_with(b) == b.merged_with(a),
{
}

/// Law: merging tallies is associative.  Workers may be combined pairwise
/// in any grouping without changing the totals.
pub proof fn lemma_merge_is_associative(a: CollisionTally, b: CollisionTally, c: CollisionTally)
    ensures
        (a.scatter_count + b.scatter_count) + c.scatter_count == a.scatter_count + (
        b.scatter_count + c.scatter_count),
        (a.absorption_count + b.absorption_count) + c.absorption_count == a.absorption_count + (
        b.absorption_count + c.absorption_count),
{
}

} // verus!
