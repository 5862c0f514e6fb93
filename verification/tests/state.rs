use dice_encounter::state::{AppState, GameState, PauseState};

#[test]
fn states_start_where_the_game_starts() {
    assert_eq!(AppState::default(), AppState::LoadingMenu);
    assert_eq!(GameState::default(), GameState::Inactive);
    assert_eq!(PauseState::default(), PauseState::Inactive);
}

#[test]
fn pause_toggles() {
    assert_eq!(PauseState::Inactive.toggled(), PauseState::Paused);
    assert_eq!(PauseState::Paused.toggled(), PauseState::Inactive);
    assert_eq!(PauseState::Paused.toggled().toggled(), PauseState::Paused);
}
