use flyover::control::{
    handle_key, initial_view, input_ends_screensaver, lost_focus_given, screensaver_lost_focus, Key, KeyOutcome,
    TermEvent, ViewState, DEFAULT_ZOOM_NM, MAX_ZOOM_NM, MIN_ZOOM_NM,
};
use flyover::scope::RenderMode;

fn after(s: ViewState, k: Key) -> ViewState {
    match handle_key(s, k) {
        KeyOutcome::Continue { state, .. } => state,
        KeyOutcome::Quit => panic!("unexpected quit"),
    }
}

#[test]
fn quit_keys() {
    let s = initial_view(RenderMode::Sixel);
    assert_eq!(handle_key(s, Key::Char('q')), KeyOutcome::Quit);
    assert_eq!(handle_key(s, Key::Char('Q')), KeyOutcome::Quit);
    assert_eq!(handle_key(s, Key::Esc), KeyOutcome::Quit);
}

#[test]
fn zoom_steps_and_limits() {
    let s = initial_view(RenderMode::Sixel);
    assert_eq!(s.zoom_nm, DEFAULT_ZOOM_NM);
    assert_eq!(after(s, Key::Char('+')).zoom_nm, 35);
    assert_eq!(after(s, Key::Char('=')).zoom_nm, 35);
    assert_eq!(after(s, Key::Up).zoom_nm, 35);
    assert_eq!(after(s, Key::Char('-')).zoom_nm, 45);
    assert_eq!(after(s, Key::Char('_')).zoom_nm, 45);
    assert_eq!(after(s, Key::Down).zoom_nm, 45);
    let mut z = s;
    for _ in 0..30 {
        z = after(z, Key::Up);
    }
    assert_eq!(z.zoom_nm, MIN_ZOOM_NM);
    for _ in 0..30 {
        z = after(z, Key::Down);
    }
    assert_eq!(z.zoom_nm, MAX_ZOOM_NM);
    assert_eq!(after(z, Key::Char('0')).zoom_nm, DEFAULT_ZOOM_NM);
}

#[test]
fn zoom_clamps_from_odd_values() {
    let s = ViewState { zoom_nm: 7, mode: RenderMode::Braille };
    assert_eq!(after(s, Key::Up).zoom_nm, 5);
    let s = ViewState { zoom_nm: 98, mode: RenderMode::Braille };
    assert_eq!(after(s, Key::Down).zoom_nm, 100);
}

#[test]
fn v_toggles_mode_and_asks_to_save() {
    let s = initial_view(RenderMode::Sixel);
    assert_eq!(
        handle_key(s, Key::Char('V')),
        KeyOutcome::Continue {
            state: ViewState { zoom_nm: DEFAULT_ZOOM_NM, mode: RenderMode::Braille },
            mode_changed: true
        }
    );
}

#[test]
fn other_keys_do_nothing() {
    let s = initial_view(RenderMode::Sixel);
    assert_eq!(handle_key(s, Key::Other), KeyOutcome::Continue { state: s, mode_changed: false });
    assert_eq!(handle_key(s, Key::Char('x')), KeyOutcome::Continue { state: s, mode_changed: false });
}

#[test]
fn only_input_ends_the_screensaver() {
    assert!(input_ends_screensaver(TermEvent::Key));
    assert!(input_ends_screensaver(TermEvent::Mouse));
    assert!(!input_ends_screensaver(TermEvent::Resize));
    assert!(!input_ends_screensaver(TermEvent::FocusGained));
    assert!(!input_ends_screensaver(TermEvent::FocusLost));
    assert!(!input_ends_screensaver(TermEvent::Paste));
}

#[test]
fn focus_is_lost_once_another_window_is_active() {
    assert!(!screensaver_lost_focus(br#"{"class":"org.omarchy.screensaver","title":"flyover"}"#));
    assert!(screensaver_lost_focus(br#"{"class":"firefox","title":"x"}"#));
    assert!(screensaver_lost_focus(br#"{"title":"no class"}"#));
    assert!(screensaver_lost_focus(br#"{"class":5}"#));
    assert!(screensaver_lost_focus(b"[]"));
    // An unreadable report decides nothing.
    assert!(!screensaver_lost_focus(b""));
    assert!(!screensaver_lost_focus(b"Invalid dispatcher"));
}

#[test]
fn focus_decision_from_the_class() {
    assert!(!lost_focus_given(None));
    assert!(lost_focus_given(Some(None)));
    assert!(!lost_focus_given(Some(Some("org.omarchy.screensaver".to_string()))));
    assert!(lost_focus_given(Some(Some("org.omarchy.screensaver2".to_string()))));
}
