//! The modes of the application, and the key presses that switch them.

use vstd::prelude::*;

verus! {

/// Whether the application shows the menu or the game.
#[derive(Clone, Copy, Debug, PartialEq, Eq, Structural)]
pub enum AppState {
    MainMenu,
    Game,
}

/// Whether the simulation runs.
#[derive(Clone, Copy, Debug, PartialEq, Eq, Structural)]
pub enum SimulationState {
    Running,
    Paused,
}

/// The states to enter after a key press that switches the mode.
#[derive(Clone, Copy, Debug, PartialEq, Eq, Structural)]
pub struct Transition {
    pub app_state: AppState,
    pub simulation_state: SimulationState,
}

/// Decides what the key for the game does: pressed outside the game, it
/// starts the game with the simulation running. Otherwise nothing changes.
pub fn transition_to_game_state(key_just_pressed: bool, app_state: AppState) -> (next: Option<
    Transition,
>)
    ensures
        next == if key_just_pressed && app_state != AppState::Game {
            Some(
                Transition { app_state: AppState::Game, simulation_state: SimulationState::Running },
            )
        } else {
            None
        },
{
    if key_just_pressed && !matches!(app_state, AppState::Game) {
        Some(Transition { app_state: AppState::Game, simulation_state: SimulationState::Running })
    } else {
        None
    }
}

/// Decides what the key for the menu does: pressed outside the menu, it
/// opens the menu and pauses the simulation. Otherwise nothing changes.
pub fn transition_to_main_menu_state(key_just_pressed: bool, app_state: AppState) -> (next: Option<
    Transition,
>)
    ensures
        next == if key_just_pressed && app_state != AppState::MainMenu {
            Some(
                Transition {
                    app_state: AppState::MainMenu,
                    simulation_state: SimulationState::Paused,
                },
            )
        } else {
            None
        },
{
    if key_just_pressed && !matches!(app_state, AppState::MainMenu) {
        Some(
            Transition { app_state: AppState::MainMenu, simulation_state: SimulationState::Paused },
        )
    } else {
        None
    }
}

} // verus!
