//! The phases of an encounter and the moves between them.

use crate::combat::Completion;
use vstd::prelude::*;

verus! {

/// The phase that an encounter is in. `Inactive` is where it starts and
/// where it ends up once it has been torn down.
#[derive(Clone, Copy, Debug, PartialEq, Eq, Hash, Structural)]
pub enum EncounterState {
    Inactive,
    Loading,
    Introduction,
    ActionChoice,
    ProbabilitySetup,
    OutcomeResolution,
    EncounterResolved,
}

impl Default for EncounterState {
    fn default() -> (state: Self)
        ensures
            state == EncounterState::Inactive,
    {
        EncounterState::Inactive
    }
}

/// What can move an encounter from one phase to another.
#[derive(Clone, Copy, Debug, PartialEq, Eq, Structural)]
pub enum EncounterEvent {
    /// The setup of an encounter has become available.
    SetupAvailable,
    /// The setup that loading needs is not there.
    SetupMissing,
    /// Everything that the encounter shows has been loaded.
    AssetsReady,
    /// The player has confirmed the introduction.
    Confirmed,
    /// Every participant has published its actions, the batch has been
    /// flushed, and the player goes on with what is on offer.
    ActionsChosen,
    /// The player has asked for the rolls.
    Resolve,
    /// The last outcome has been acknowledged, with the encounter standing
    /// as given.
    OutcomesAcknowledged(Completion),
    /// The resolved encounter has been cleared away.
    Teardown,
    /// The encounter is dropped, whatever phase it is in.
    Cancelled,
}

impl EncounterState {
    /// The phase that follows `self` on `event`. An event that the phase does
    /// not expect leaves it where it is.
    pub open spec fn spec_next(self, event: EncounterEvent) -> EncounterState {
        match (self, event) {
            (_, EncounterEvent::Cancelled) => EncounterState::Inactive,
            (EncounterState::Inactive, EncounterEvent::SetupAvailable) => EncounterState::Loading,
            (EncounterState::Loading, EncounterEvent::SetupMissing) => EncounterState::Inactive,
            (EncounterState::Loading, EncounterEvent::AssetsReady) => EncounterState::Introduction,
            (EncounterState::Introduction, EncounterEvent::Confirmed) => EncounterState::ActionChoice,
            (
                EncounterState::ActionChoice,
                EncounterEvent::ActionsChosen,
            ) => EncounterState::ProbabilitySetup,
            (
                EncounterState::ProbabilitySetup,
                EncounterEvent::Resolve,
            ) => EncounterState::OutcomeResolution,
            (
                EncounterState::OutcomeResolution,
                EncounterEvent::OutcomesAcknowledged(Completion::Continue),
            ) => EncounterState::ActionChoice,
            (
                EncounterState::OutcomeResolution,
                EncounterEvent::OutcomesAcknowledged(_),
            ) => EncounterState::EncounterResolved,
            (EncounterState::EncounterResolved, EncounterEvent::Teardown) => EncounterState::Inactive,
            (state, _) => state,
        }
    }

    /// Moves on `event`.
    pub fn next(self, event: EncounterEvent) -> (state: EncounterState)
        ensures
            state == self.spec_next(event),
    {
        match (self, event) {
            (_, EncounterEvent::Cancelled) => EncounterState::Inactive,
            (EncounterState::Inactive, EncounterEvent::SetupAvailable) => EncounterState::Loading,
            (EncounterState::Loading, EncounterEvent::SetupMissing) => EncounterState::Inactive,
            (EncounterState::Loading, EncounterEvent::AssetsReady) => EncounterState::Introduction,
            (EncounterState::Introduction, EncounterEvent::Confirmed) => EncounterState::ActionChoice,
            (
                EncounterState::ActionChoice,
                EncounterEvent::ActionsChosen,
            ) => EncounterState::ProbabilitySetup,
            (
                EncounterState::ProbabilitySetup,
                EncounterEvent::Resolve,
            ) => EncounterState::OutcomeResolution,
            (
                EncounterState::OutcomeResolution,
                EncounterEvent::OutcomesAcknowledged(Completion::Continue),
            ) => EncounterState::ActionChoice,
            (
                EncounterState::OutcomeResolution,
                EncounterEvent::OutcomesAcknowledged(_),
            ) => EncounterState::EncounterResolved,
            (EncounterState::EncounterResolved, EncounterEvent::Teardown) => EncounterState::Inactive,
            (state, _) => state,
        }
    }

    /// Whether the phase holds an encounter that is being played.
    pub open spec fn spec_is_running(self) -> bool {
        self != EncounterState::Inactive && self != EncounterState::EncounterResolved
    }

    /// Whether the phase holds an encounter that is being played.
    pub fn is_running(self) -> (running: bool)
        ensures
            running == self.spec_is_running(),
    {
        match self {
            EncounterState::Inactive => false,
            EncounterState::EncounterResolved => false,
            _ => true,
        }
    }
}

/// After an outcome, an encounter in which nobody is down returns to the
/// choice of actions, and one in which the player or every challenger is down
/// is resolved: it never loops back.
pub proof fn lemma_outcome_decides(completion: Completion)
    ensures
        EncounterState::OutcomeResolution.spec_next(
            EncounterEvent::OutcomesAcknowledged(completion),
        ) == if completion == Completion::Continue {
            EncounterState::ActionChoice
        } else {
            EncounterState::EncounterResolved
        },
{
}

/// The only way out of a resolved encounter is back to `Inactive`.
pub proof fn lemma_resolved_ends_inactive(event: EncounterEvent)
    ensures
        EncounterState::EncounterResolved.spec_next(event) == EncounterState::EncounterResolved
            || EncounterState::EncounterResolved.spec_next(event) == EncounterState::Inactive,
{
}

} // verus!
