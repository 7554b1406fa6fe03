//! The session controller's transitions.
//!
//! The interactive session presents a fixed menu, runs the chosen action,
//! and returns to the menu — an error is displayed and returns to the menu
//! rather than ending the session. Quitting is the only way out. After every
//! completed action that could have changed the managed-game list, the list
//! is written back to disk.

use vstd::prelude::*;

verus! {

/// The actions of the main menu.
#[derive(Debug, Clone, Copy, PartialEq, Eq, Structural)]
pub enum MenuChoice {
    /// Install or update the addon-enabled injector.
    ReShade,
    /// Install or update the vanilla injector.
    ReShadeVanilla,
    /// Install or update the shader collections.
    ReShadeShaders,
    /// Install the GShade presets and shaders.
    GShadePresets,
    /// Uninstall from a managed game.
    Uninstall,
    /// End the session.
    Quit,
}

/// Where the session stands between actions.
#[derive(Debug, Clone, Copy, PartialEq, Eq, Structural)]
pub enum SessionState {
    /// Presenting the menu.
    MainMenu,
    /// The session has ended.
    Terminated,
}

/// The state after one action: quitting terminates; everything else —
/// success or a displayed error alike — returns to the menu.
pub fn next_session_state(choice: MenuChoice, failed: bool) -> (r: SessionState)
    ensures
        r == (if choice is Quit {
            SessionState::Terminated
        } else {
            SessionState::MainMenu
        }),
        failed ==> r != SessionState::Terminated || choice is Quit,
{
    if matches!(choice, MenuChoice::Quit) {
        SessionState::Terminated
    } else {
        SessionState::MainMenu
    }
}

/// Whether the managed-game list is written back after an action: after
/// every action that could have touched it, whether it succeeded or failed;
/// quitting touches nothing.
pub fn should_persist_config(choice: MenuChoice) -> (r: bool)
    ensures
        r == !(choice is Quit),
{
    !matches!(choice, MenuChoice::Quit)
}

} // verus!
