use dice_encounter::combat::Completion;
use dice_encounter::sequencing::{EncounterEvent, EncounterState};

const STATES: [EncounterState; 7] = [
    EncounterState::Inactive,
    EncounterState::Loading,
    EncounterState::Introduction,
    EncounterState::ActionChoice,
    EncounterState::ProbabilitySetup,
    EncounterState::OutcomeResolution,
    EncounterState::EncounterResolved,
];

const EVENTS: [EncounterEvent; 11] = [
    EncounterEvent::SetupAvailable,
    EncounterEvent::SetupMissing,
    EncounterEvent::AssetsReady,
    EncounterEvent::Confirmed,
    EncounterEvent::ActionsChosen,
    EncounterEvent::Resolve,
    EncounterEvent::OutcomesAcknowledged(Completion::Continue),
    EncounterEvent::OutcomesAcknowledged(Completion::Failure),
    EncounterEvent::OutcomesAcknowledged(Completion::Success),
    EncounterEvent::Teardown,
    EncounterEvent::Cancelled,
];

#[test]
fn an_encounter_starts_inactive() {
    assert_eq!(EncounterState::default(), EncounterState::Inactive);
}

#[test]
fn the_phases_follow_each_other() {
    let mut state = EncounterState::Inactive;
    state = state.next(EncounterEvent::SetupAvailable);
    assert_eq!(state, EncounterState::Loading);
    state = state.next(EncounterEvent::AssetsReady);
    assert_eq!(state, EncounterState::Introduction);
    state = state.next(EncounterEvent::Confirmed);
    assert_eq!(state, EncounterState::ActionChoice);
    state = state.next(EncounterEvent::ActionsChosen);
    assert_eq!(state, EncounterState::ProbabilitySetup);
    state = state.next(EncounterEvent::Resolve);
    assert_eq!(state, EncounterState::OutcomeResolution);
    state = state.next(EncounterEvent::OutcomesAcknowledged(Completion::Continue));
    assert_eq!(state, EncounterState::ActionChoice);
}

#[test]
fn a_decided_outcome_resolves_the_encounter() {
    let state = EncounterState::OutcomeResolution;
    assert_eq!(
        state.next(EncounterEvent::OutcomesAcknowledged(Completion::Success)),
        EncounterState::EncounterResolved
    );
    assert_eq!(
        state.next(EncounterEvent::OutcomesAcknowledged(Completion::Failure)),
        EncounterState::EncounterResolved
    );
    assert_eq!(
        EncounterState::EncounterResolved.next(EncounterEvent::Teardown),
        EncounterState::Inactive
    );
}

#[test]
fn loading_without_a_setup_falls_back() {
    assert_eq!(
        EncounterState::Loading.next(EncounterEvent::SetupMissing),
        EncounterState::Inactive
    );
}

#[test]
fn cancelling_ends_every_phase() {
    for state in STATES.iter() {
        assert_eq!(state.next(EncounterEvent::Cancelled), EncounterState::Inactive);
    }
}

#[test]
fn an_event_that_does_not_fit_is_ignored() {
    let expected = [
        (EncounterState::Inactive, EncounterEvent::SetupAvailable),
        (EncounterState::Loading, EncounterEvent::SetupMissing),
        (EncounterState::Loading, EncounterEvent::AssetsReady),
        (EncounterState::Introduction, EncounterEvent::Confirmed),
        (EncounterState::ActionChoice, EncounterEvent::ActionsChosen),
        (EncounterState::ProbabilitySetup, EncounterEvent::Resolve),
        (
            EncounterState::OutcomeResolution,
            EncounterEvent::OutcomesAcknowledged(Completion::Continue),
        ),
        (
            EncounterState::OutcomeResolution,
            EncounterEvent::OutcomesAcknowledged(Completion::Failure),
        ),
        (
            EncounterState::OutcomeResolution,
            EncounterEvent::OutcomesAcknowledged(Completion::Success),
        ),
        (EncounterState::EncounterResolved, EncounterEvent::Teardown),
    ];
    for state in STATES.iter() {
        for event in EVENTS.iter() {
            if *event == EncounterEvent::Cancelled || expected.contains(&(*state, *event)) {
                continue;
            }
            assert_eq!(state.next(*event), *state);
        }
    }
}

#[test]
fn running_phases() {
    assert!(!EncounterState::Inactive.is_running());
    assert!(!EncounterState::EncounterResolved.is_running());
    assert!(EncounterState::Loading.is_running());
    assert!(EncounterState::Introduction.is_running());
    assert!(EncounterState::ActionChoice.is_running());
    assert!(EncounterState::ProbabilitySetup.is_running());
    assert!(EncounterState::OutcomeResolution.is_running());
}
