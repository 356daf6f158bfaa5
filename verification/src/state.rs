//! Top-level game states.

use vstd::prelude::*;

verus! {

/// The screens and modes the game moves between.
#[derive(Clone, Copy, Debug, PartialEq, Eq, Hash, Structural)]
pub enum AppState {
    Loading,
    MainMenu,
    CharacterSelect,
    World,
    Dungeon,
    Playing,
    Paused,
    GameOver,
}

/// Experience is gained only while fighting: in a dungeon or in a run.
pub fn can_gain_xp(state: AppState) -> (r: bool)
    ensures
        r == (state == AppState::Dungeon || state == AppState::Playing),
{
    match state {
        AppState::Dungeon | AppState::Playing => true,
        _ => false,
    }
}

/// Closing the upgrade tree (Escape): the state to move to, back to the
/// main menu, unless the tree was opened over the main menu or the
/// game-over screen, where the game stays (`None`).
pub fn close_upgrade_tree(state: AppState) -> (r: Option<AppState>)
    ensures
        r == if state == AppState::MainMenu || state == AppState::GameOver {
            None
        } else {
            Some(AppState::MainMenu)
        },
{
    match state {
        AppState::MainMenu | AppState::GameOver => None,
        _ => Some(AppState::MainMenu),
    }
}

} // verus!
