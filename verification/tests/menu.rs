use rust_retro_arcade::app::{AppState, ScreenId, Transition};
use rust_retro_arcade::audio::Sfx;
use rust_retro_arcade::input::Input;
use rust_retro_arcade::screens::{dismiss, menu_target, Credits, Instructions, MenuCursor, ITEMS};

#[test]
fn index_zero_starts_pacman() {
    assert_eq!(menu_target(0), Transition::Goto(ScreenId::Pacman));
}

#[test]
fn index_one_starts_pong() {
    assert_eq!(menu_target(1), Transition::Goto(ScreenId::Pong));
}

#[test]
fn last_index_quits() {
    assert_eq!(menu_target(4), Transition::Quit);
}

#[test]
fn indexes_past_the_end_quit_too() {
    assert_eq!(menu_target(2), Transition::Goto(ScreenId::Instructions));
    assert_eq!(menu_target(3), Transition::Goto(ScreenId::Credits));
    assert_eq!(menu_target(99), Transition::Quit);
    assert_eq!(ITEMS.len(), 5);
}

#[test]
fn cursor_wraps_both_ways() {
    let mut m = MenuCursor::new();
    assert_eq!(m.selected(), 0);
    let up = Input { up: true, ..Default::default() };
    let down = Input { down: true, ..Default::default() };
    assert_eq!(m.update(&up), (None, None));
    assert_eq!(m.selected(), 4);
    assert_eq!(m.update(&down), (None, None));
    assert_eq!(m.selected(), 0);
    m.update(&down);
    m.update(&down);
    assert_eq!(m.selected(), 2);
}

#[test]
fn enter_picks_the_highlighted_entry_with_a_click() {
    let mut m = MenuCursor::new();
    let down_enter = Input { down: true, enter: true, ..Default::default() };
    assert_eq!(
        m.update(&down_enter),
        (Some(Transition::Goto(ScreenId::Pong)), Some(Sfx::Select))
    );
}

#[test]
fn digits_pick_entries_and_escape_quits() {
    let mut m = MenuCursor::new();
    let three = Input { digit: Some(3), enter: true, ..Default::default() };
    assert_eq!(m.update(&three), (Some(Transition::Goto(ScreenId::Instructions)), None));
    let zero = Input { digit: Some(0), ..Default::default() };
    assert_eq!(m.update(&zero), (Some(Transition::Goto(ScreenId::Pacman)), None));
    let nine = Input { digit: Some(9), escape: true, ..Default::default() };
    assert_eq!(m.update(&nine), (Some(Transition::Quit), None));
}

#[test]
fn info_screens_leave_on_any_key() {
    let quiet = Input::default();
    assert_eq!(dismiss(&quiet), None);
    let key = Input { any_pressed: true, ..Default::default() };
    assert_eq!(Credits::new().update(&key), Some(Transition::Goto(ScreenId::Menu)));
    assert_eq!(Instructions::new().update(&key), Some(Transition::Goto(ScreenId::Menu)));
    assert_eq!(Credits::new().id(), ScreenId::Credits);
}

#[test]
fn held_up_wraps_to_quit_and_enter_quits() {
    let mut m = MenuCursor::new();
    assert_eq!(m.update(&Input { up: true, ..Default::default() }), (None, None));
    assert_eq!(m.selected(), 4);
    assert_eq!(
        m.update(&Input { enter: true, ..Default::default() }),
        (Some(Transition::Quit), Some(Sfx::Select))
    );
    let mut m = MenuCursor::new();
    m.update(&Input { s: true, ..Default::default() });
    m.update(&Input { w: true, down: true, ..Default::default() });
    assert_eq!(m.selected(), 1);
}

#[test]
fn app_follows_transitions() {
    let mut a = AppState::new(ScreenId::Menu);
    assert_eq!(a.current_id(), ScreenId::Menu);
    assert_eq!(a.apply(Some(Transition::Goto(ScreenId::Pong))), Some(ScreenId::Pong));
    assert_eq!(a.current_id(), ScreenId::Pong);
    assert!(!a.quit);
    assert_eq!(a.apply(None), None);
    assert_eq!(a.apply(Some(Transition::Quit)), None);
    assert!(a.quit);
    assert_eq!(a.current_id(), ScreenId::Pong);
}
