use vstd::prelude::*;

use crate::collision_tally::CollisionTally;
use crate::particle_data::ParticleStatus;

verus! {

/// Outcome of one reaction-branch draw of the random walk.
#[derive(Debug, Clone, Copy, PartialEq, Eq, Structural)]
pub enum NeutronInteraction {
    Scatter,
    Absorption,
}

/// State of one particle history as the walk engine sees it: the
/// life-cycle status, the collision tally recorded so far, and, as ghost
/// bookkeeping, the number of reaction-branch draws taken.
///
/// The sampling of flight lengths, reaction branches and scattering
/// angles happens outside this type; the engine is handed each sampled
/// outcome and keeps the bookkeeping exact for every possible outcome.
pub struct HistoryState {
    pub status: ParticleStatus,
    pub tally: CollisionTally,
    pub reaction_draws: Ghost<nat>,
}

impl HistoryState {
    /// Well-formedness of a history: the recorded counts are conserved
    /// (their sum equals the number of reaction-branch draws), at most one
    /// absorption is ever recorded, and the history has terminated exactly
    /// when that absorption happened.
    pub open spec fn wf(self) -> bool {
        &&& self.tally.scatter_count + self.tally.absorption_count == self.reaction_draws@
        &&& self.tally.absorption_count <= 1
        &&& (self.status == ParticleStatus::Absorbed <==> self.tally.absorption_count == 1)
    }

    /// A fresh history: alive, with an empty tally and no draws taken.
    pub fn new() -> (history: HistoryState)
        ensures
            history.wf(),
            history.status == ParticleStatus::Alive,
            history.tally.scatter_count == 0,
            history.tally.absorption_count == 0,
            history.reaction_draws@ == 0,
    {
        HistoryState {
            status: ParticleStatus::Alive,
            tally: CollisionTally::default(),
            reaction_draws: Ghost(0),
        }
    }

    /// Record the outcome of one reaction-branch draw.
    ///
    /// Exactly one tally counter grows by one, the draw count grows by
    /// one, and the history stays alive on a scattering outcome while an
    /// absorption terminates it.
    pub fn record_interaction(&mut self, interaction: NeutronInteraction)
        requires
            old(self).wf(),
            old(self).status == ParticleStatus::Alive,
            old(self).tally.scatter_count < u64::MAX,
        ensures
            final(self).wf(),
            final(self).reaction_draws@ == old(self).reaction_draws@ + 1,
            interaction == NeutronInteraction::Scatter ==> final(self).status
                == ParticleStatus::Alive && final(self).tally.scatter_count == old(
                self,
            ).tally.scatter_count + 1 && final(self).tally.absorption_count == old(
                self,
            ).tally.absorption_count,
            interaction == NeutronInteraction::Absorption ==> final(self).status
                == ParticleStatus::Absorbed && final(self).tally.absorption_count == old(
                self,
            ).tally.absorption_count + 1 && final(self).tally.scatter_count == old(
                self,
            ).tally.scatter_count,
    {
        self.tally.add_interaction_to_tally(interaction);
        match interaction {
            NeutronInteraction::Scatter => {},
            NeutronInteraction::Absorption => {
                self.status = ParticleStatus::Absorbed;
            },
        }
        self.reaction_draws = Ghost(self.reaction_draws@ + 1);
    }
}

/// Law: tally conservation.  In every well-formed history the recorded
/// scatter and absorption counts sum to exactly the number of
/// reaction-branch draws taken, and the history has terminated exactly
/// when its single absorption was recorded.  `HistoryState::new`
/// establishes this invariant and `record_interaction` preserves it.
pub proof fn lemma_tally_conservation(history: HistoryState)
    requires
        history.wf(),
    ensures
        history.tally.scatter_count + history.tally.absorption_count == history.reaction_draws@,
        history.status == ParticleStatus::Absorbed <==> history.tally.absorption_count == 1,
        history.tally.absorption_count <= 1,
{
}

/// Drive one history through a list of pre-sampled reaction outcomes.
///
/// Outcomes are recorded in order; the walk stops at the first absorption
/// and otherwise runs the list to its end.  The returned pair holds the
/// final history state and the number of outcomes consumed: on
/// termination the consumed prefix is all scatters followed by the one
/// absorption, and the tally counts match that prefix exactly.
pub fn run_history_interactions(events: &Vec<NeutronInteraction>) -> (outcome: (
    HistoryState,
    usize,
))
    ensures
        outcome.0.wf(),
        outcome.1 <= events.len(),
        outcome.0.reaction_draws@ == outcome.1,
        forall|j: int| 0 <= j < outcome.1 - 1 ==> events@[j] == NeutronInteraction::Scatter,
        outcome.0.status == ParticleStatus::Absorbed ==> outcome.1 >= 1 && events@[outcome.1 - 1]
            == NeutronInteraction::Absorption && outcome.0.tally.scatter_count == outcome.1 - 1
            && outcome.0.tally.absorption_count == 1,
        outcome.0.status == ParticleStatus::Alive ==> outcome.1 == events.len() && (forall|j: int|
            0 <= j < events.len() ==> events@[j] == NeutronInteraction::Scatter)
            && outcome.0.tally.scatter_count == events.len()
            && outcome.0.tally.absorption_count == 0,
{
    let mut history = HistoryState::new();
    let mut consumed: usize = 0;
    while consumed < events.len()
        invariant
            history.wf(),
            consumed <= events.len(),
            history.status == ParticleStatus::Alive,
            history.tally.scatter_count == consumed,
            history.tally.absorption_count == 0,
            history.reaction_draws@ == consumed,
            forall|j: int| 0 <= j < consumed ==> events@[j] == NeutronInteraction::Scatter,
        decreases events.len() - consumed,
    {
        let interaction = events[consumed];
        consumed = consumed + 1;
        history.record_interaction(interaction);
        match interaction {
            NeutronInteraction::Scatter => {},
            NeutronInteraction::Absorption => {
                return (history, consumed);
            },
        }
    }
    (history, consumed)
}

} // verus!
