use tuxmate_companion::tui::{handle_key, CurrentScreen, Key, KeyAction};

#[test]
fn console_keys() {
    let mut s = CurrentScreen::AppConsole;
    assert_eq!(handle_key(&mut s, Key::Char('h'), false), KeyAction::SelectPreviousColumn);
    assert_eq!(handle_key(&mut s, Key::Right, false), KeyAction::SelectNextColumn);
    assert_eq!(handle_key(&mut s, Key::Char('k'), false), KeyAction::SelectPrevious);
    assert_eq!(handle_key(&mut s, Key::Down, false), KeyAction::SelectNext);
    assert_eq!(handle_key(&mut s, Key::Char('x'), false), KeyAction::Nothing);
    assert_eq!(s, CurrentScreen::AppConsole);
    assert_eq!(handle_key(&mut s, Key::Char('q'), true), KeyAction::Nothing);
    assert_eq!(s, CurrentScreen::AppConsole);
    assert_eq!(handle_key(&mut s, Key::Char('q'), false), KeyAction::Nothing);
    assert_eq!(s, CurrentScreen::Exiting);
    assert_eq!(handle_key(&mut s, Key::Char('n'), false), KeyAction::Nothing);
    assert_eq!(handle_key(&mut s, Key::Char('y'), false), KeyAction::Quit);
}
