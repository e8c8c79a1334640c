//! The screens of the companion console and how a key press moves between
//! them.
use vstd::prelude::*;

verus! {

/// The screen the console shows.
#[derive(Debug, Clone, Copy, PartialEq, Eq, Structural)]
pub enum CurrentScreen {
    AppConsole,
    Installation,
    Exiting,
}

/// Whether the console still waits for the list of applications.
#[derive(Debug, Clone, Copy, PartialEq, Eq, Structural)]
pub enum UiState {
    WaitingForApps,
    AppList,
}

/// A key, as far as the console tells keys apart.
#[derive(Debug, Clone, Copy, PartialEq, Eq, Structural)]
pub enum Key {
    Char(char),
    Left,
    Right,
    Up,
    Down,
    Other,
}

/// What the console does after a key press.
#[derive(Debug, Clone, Copy, PartialEq, Eq, Structural)]
pub enum KeyAction {
    Nothing,
    SelectPreviousColumn,
    SelectNextColumn,
    SelectPrevious,
    SelectNext,
    /// Leave the console.
    Quit,
}

/// The screen and action after a key press on the app console: `q` asks
/// whether to exit, the arrows and `h`, `l`, `k`, `j` move the selection;
/// on the exit screen `q` or `y` quits.
pub open spec fn spec_key_step(screen: CurrentScreen, key: Key) -> (CurrentScreen, KeyAction) {
    match screen {
        CurrentScreen::AppConsole => match key {
            Key::Char('q') => (CurrentScreen::Exiting, KeyAction::Nothing),
            Key::Left | Key::Char('h') => (screen, KeyAction::SelectPreviousColumn),
            Key::Right | Key::Char('l') => (screen, KeyAction::SelectNextColumn),
            Key::Up | Key::Char('k') => (screen, KeyAction::SelectPrevious),
            Key::Down | Key::Char('j') => (screen, KeyAction::SelectNext),
            _ => (screen, KeyAction::Nothing),
        },
        _ => match key {
            Key::Char('q') | Key::Char('y') => (screen, KeyAction::Quit),
            _ => (screen, KeyAction::Nothing),
        },
    }
}

/// Handles a key event: releases are ignored, presses move between
/// screens as `spec_key_step` says. The installation screen takes no keys.
pub fn handle_key(screen: &mut CurrentScreen, key: Key, released: bool) -> (res: KeyAction)
    requires
        released || *old(screen) != CurrentScreen::Installation,
    ensures
        released ==> *final(screen) == *old(screen) && res == KeyAction::Nothing,
        !released ==> (*final(screen), res) == spec_key_step(*old(screen), key),
{
    if released {
        return KeyAction::Nothing;
    }
    match *screen {
        CurrentScreen::AppConsole => match key {
            Key::Char('q') => {
                *screen = CurrentScreen::Exiting;
                KeyAction::Nothing
            },
            Key::Left | Key::Char('h') => KeyAction::SelectPreviousColumn,
            Key::Right | Key::Char('l') => KeyAction::SelectNextColumn,
            Key::Up | Key::Char('k') => KeyAction::SelectPrevious,
            Key::Down | Key::Char('j') => KeyAction::SelectNext,
            _ => KeyAction::Nothing,
        },
        _ => match key {
            Key::Char('q') | Key::Char('y') => KeyAction::Quit,
            _ => KeyAction::Nothing,
        },
    }
}

} // verus!
