//! Top-level states of the game around an encounter.

use vstd::prelude::*;

verus! {

/// Which screen of the application is showing.
#[derive(Clone, Copy, Debug, PartialEq, Eq, Hash, Structural)]
pub enum AppState {
    LoadingMenu,
    MainMenu,
    Credits,
    InGame,
}

impl Default for AppState {
    fn default() -> (state: Self)
        ensures
            state == AppState::LoadingMenu,
    {
        AppState::LoadingMenu
    }
}

/// What the player is doing while in game.
#[derive(Clone, Copy, Debug, PartialEq, Eq, Hash, Structural)]
pub enum GameState {
    Inactive,
    WorldMap,
    Mission,
    Encounter,
    Failed,
}

impl Default for GameState {
    fn default() -> (state: Self)
        ensures
            state == GameState::Inactive,
    {
        GameState::Inactive
    }
}

/// Whether the in-game update is suspended.
#[derive(Clone, Copy, Debug, PartialEq, Eq, Hash, Structural)]
pub enum PauseState {
    Inactive,
    Paused,
}

impl Default for PauseState {
    fn default() -> (state: Self)
        ensures
            state == PauseState::Inactive,
    {
        PauseState::Inactive
    }
}

impl PauseState {
    /// The state after the pause key is pressed.
    pub open spec fn spec_toggled(self) -> PauseState {
        match self {
            PauseState::Inactive => PauseState::Paused,
            PauseState::Paused => PauseState::Inactive,
        }
    }

    /// Flips between running and paused.
    pub fn toggled(self) -> (next: PauseState)
        ensures
            next == self.spec_toggled(),
    {
        match self {
            PauseState::Inactive => PauseState::Paused,
            PauseState::Paused => PauseState::Inactive,
        }
    }
}

/// The buttons of the main menu.
#[derive(Clone, Copy, Debug, PartialEq, Eq, Structural)]
pub enum MenuButton {
    Start,
    Credits,
}

impl MenuButton {
    /// The screen that the button leads to.
    pub fn leads_to(self) -> (state: AppState)
        ensures
            state == match self {
                MenuButton::Start => AppState::InGame,
                MenuButton::Credits => AppState::Credits,
            },
    {
        match self {
            MenuButton::Start => AppState::InGame,
            MenuButton::Credits => AppState::Credits,
        }
    }
}

/// What the keys of the pause screen ask for.
#[derive(Clone, Copy, Debug, PartialEq, Eq, Structural)]
pub enum PauseCommand {
    /// Nothing.
    Stay,
    /// Pause or resume.
    Switch(PauseState),
    /// Leave the game for the main menu.
    Leave,
}

/// Decides what the keys ask for: escape pauses or resumes; otherwise the
/// leave key, while paused, goes back to the main menu.
pub fn pause_command(escape: bool, leave: bool, paused: PauseState) -> (command: PauseCommand)
    ensures
        command == if escape {
            PauseCommand::Switch(paused.spec_toggled())
        } else if leave && paused == PauseState::Paused {
            PauseCommand::Leave
        } else {
            PauseCommand::Stay
        },
{
    if escape {
        PauseCommand::Switch(paused.toggled())
    } else if leave && paused == PauseState::Paused {
        PauseCommand::Leave
    } else {
        PauseCommand::Stay
    }
}

} // verus!
