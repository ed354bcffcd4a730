//! Keyboard control of the interactive scope: zoom in and out between
//! fixed limits, reset the zoom, switch render mode, quit; and what ends
//! the screensaver.

use vstd::prelude::*;
use crate::scope::RenderMode;
use crate::text::str_eq;

verus! {

/// Smallest range, in nautical miles, the scope zooms in to.
pub const MIN_ZOOM_NM: u32 = 5;
/// Largest range, in nautical miles, the scope zooms out to.
pub const MAX_ZOOM_NM: u32 = 100;
/// Range change per key press.
pub const ZOOM_STEP_NM: u32 = 5;
/// Range at start-up and after a reset.
pub const DEFAULT_ZOOM_NM: u32 = 40;

/// A key press, as far as the controls tell keys apart.
#[derive(Debug, Clone, Copy, PartialEq, Eq)]
pub enum Key {
    Char(char),
    Esc,
    Up,
    Down,
    Other,
}

/// What the controls change: the displayed range and the render mode.
#[derive(Debug, Clone, Copy, PartialEq, Eq)]
pub struct ViewState {
    pub zoom_nm: u32,
    pub mode: RenderMode,
}

/// The result of a key press.
#[derive(Debug, Clone, Copy, PartialEq, Eq)]
pub enum KeyOutcome {
    Quit,
    /// Keep running with `state`; `mode_changed` asks for the new render
    /// mode to be saved.
    Continue { state: ViewState, mode_changed: bool },
}

/// `char::to_ascii_lowercase`.
pub open spec fn ascii_lower(c: char) -> char {
    if 'A' <= c <= 'Z' {
        ((c as u32) + 32) as char
    } else {
        c
    }
}

/// One step closer: the range shrinks by a step, not below the minimum.
pub open spec fn zoomed_in(z: int) -> int {
    if z - ZOOM_STEP_NM >= MIN_ZOOM_NM {
        z - ZOOM_STEP_NM
    } else {
        MIN_ZOOM_NM as int
    }
}

/// One step farther: the range grows by a step, not past the maximum.
pub open spec fn zoomed_out(z: int) -> int {
    if z + ZOOM_STEP_NM <= MAX_ZOOM_NM {
        z + ZOOM_STEP_NM
    } else {
        MAX_ZOOM_NM as int
    }
}

/// Letter keys act the same with or without Caps Lock.
pub open spec fn spec_handle_key(s: ViewState, key: Key) -> KeyOutcome {
    let key = match key {
        Key::Char(c) => Key::Char(ascii_lower(c)),
        other => other,
    };
    match key {
        Key::Char('q') | Key::Esc => KeyOutcome::Quit,
        Key::Char('+') | Key::Char('=') | Key::Up => KeyOutcome::Continue {
            state: ViewState { zoom_nm: zoomed_in(s.zoom_nm as int) as u32, mode: s.mode },
            mode_changed: false,
        },
        Key::Char('-') | Key::Char('_') | Key::Down => KeyOutcome::Continue {
            state: ViewState { zoom_nm: zoomed_out(s.zoom_nm as int) as u32, mode: s.mode },
            mode_changed: false,
        },
        Key::Char('0') => KeyOutcome::Continue {
            state: ViewState { zoom_nm: DEFAULT_ZOOM_NM, mode: s.mode },
            mode_changed: false,
        },
        Key::Char('v') => KeyOutcome::Continue {
            state: ViewState { zoom_nm: s.zoom_nm, mode: s.mode.spec_toggled() },
            mode_changed: true,
        },
        _ => KeyOutcome::Continue { state: s, mode_changed: false },
    }
}

pub fn to_ascii_lowercase(c: char) -> (r: char)
    ensures
        r == ascii_lower(c),
{
    if 'A' <= c && c <= 'Z' {
        let u: u8 = (c as u8) + 32;
        u as char
    } else {
        c
    }
}

/// The state machine of the interactive controls: `q`/Esc quits,
/// `+`/`=`/Up zooms in, `-`/`_`/Down zooms out, `0` resets the zoom, `v`
/// switches render mode (and asks for it to be saved).
pub fn handle_key(s: ViewState, key: Key) -> (r: KeyOutcome)
    ensures
        r == spec_handle_key(s, key),
{
    let key = match key {
        Key::Char(c) => Key::Char(to_ascii_lowercase(c)),
        other => other,
    };
    match key {
        Key::Char('q') | Key::Esc => KeyOutcome::Quit,
        Key::Char('+') | Key::Char('=') | Key::Up => {
            let z = if s.zoom_nm >= MIN_ZOOM_NM + ZOOM_STEP_NM {
                s.zoom_nm - ZOOM_STEP_NM
            } else {
                MIN_ZOOM_NM
            };
            KeyOutcome::Continue { state: ViewState { zoom_nm: z, mode: s.mode }, mode_changed: false }
        },
        Key::Char('-') | Key::Char('_') | Key::Down => {
            let z = if s.zoom_nm <= MAX_ZOOM_NM - ZOOM_STEP_NM {
                s.zoom_nm + ZOOM_STEP_NM
            } else {
                MAX_ZOOM_NM
            };
            KeyOutcome::Continue { state: ViewState { zoom_nm: z, mode: s.mode }, mode_changed: false }
        },
        Key::Char('0') => KeyOutcome::Continue {
            state: ViewState { zoom_nm: DEFAULT_ZOOM_NM, mode: s.mode },
            mode_changed: false,
        },
        Key::Char('v') => KeyOutcome::Continue {
            state: ViewState { zoom_nm: s.zoom_nm, mode: s.mode.toggled() },
            mode_changed: true,
        },
        _ => KeyOutcome::Continue { state: s, mode_changed: false },
    }
}

/// The state the scope starts in.
pub fn initial_view(mode: RenderMode) -> (s: ViewState)
    ensures
        s == (ViewState { zoom_nm: DEFAULT_ZOOM_NM, mode }),
{
    ViewState { zoom_nm: DEFAULT_ZOOM_NM, mode }
}

/// Whatever keys are pressed, a range within the limits stays within them.
pub proof fn lemma_zoom_stays_in_range(s: ViewState, key: Key)
    requires
        MIN_ZOOM_NM <= s.zoom_nm <= MAX_ZOOM_NM,
    ensures
        spec_handle_key(s, key) matches KeyOutcome::Continue { state, .. } ==> MIN_ZOOM_NM
            <= state.zoom_nm <= MAX_ZOOM_NM,
{
}

/// Zooming in and then out again comes back to the same range, unless
/// the first step was cut short at the minimum; and the other way round
/// at the maximum.
pub proof fn lemma_zoom_round_trip(z: int)
    ensures
        MIN_ZOOM_NM + ZOOM_STEP_NM <= z <= MAX_ZOOM_NM ==> zoomed_out(zoomed_in(z)) == z,
        MIN_ZOOM_NM <= z <= MAX_ZOOM_NM - ZOOM_STEP_NM ==> zoomed_in(zoomed_out(z)) == z,
{
}

/// Caps Lock makes no difference to what a letter key does.
pub proof fn lemma_case_insensitive(s: ViewState, c: char)
    requires
        'a' <= c <= 'z',
    ensures
        spec_handle_key(s, Key::Char(((c as u32) - 32) as char)) == spec_handle_key(s, Key::Char(c)),
{
    assert(ascii_lower(((c as u32) - 32) as char) == c);
}

/// A terminal event, as the screensaver tells them apart.
#[derive(Debug, Clone, Copy, PartialEq, Eq)]
pub enum TermEvent {
    Key,
    Mouse,
    Resize,
    FocusGained,
    FocusLost,
    Paste,
}

/// Only real keyboard or mouse input ends the screensaver; a resize (a
/// monitor change, a compositor reflow) or a focus report does not.
pub fn input_ends_screensaver(e: TermEvent) -> (r: bool)
    ensures
        r == (e == TermEvent::Key || e == TermEvent::Mouse),
{
    match e {
        TermEvent::Key | TermEvent::Mouse => true,
        _ => false,
    }
}


/// The window class of the screensaver's own terminal window.
pub const SCREENSAVER_CLASS: &'static str = "org.omarchy.screensaver";

/// The `class` reported for the active window: `None` when the report is
/// not JSON, `Some(None)` when it has no string `class`.
pub open spec fn class_view(c: Option<Option<String>>) -> Option<Option<Seq<char>>> {
    match c {
        None => None,
        Some(None) => Some(None),
        Some(Some(s)) => Some(Some(s@)),
    }
}

/// What `serde_json` makes of the window manager's active-window report:
/// `None` when the bytes are not one JSON value, else the string under the
/// top-level key `class`, if there is one.
pub uninterp spec fn json_window_class(json: Seq<u8>) -> Option<Option<Seq<char>>>;

/// Parses the report with `serde_json::from_slice` into a
/// `serde_json::Value`, then takes `Value::get("class")` and
/// `Value::as_str`. Claimed: the result is `json_window_class` of the
/// bytes, so the same bytes always give the same class. Nothing is claimed
/// of which class given bytes hold.
#[verifier::external_body]
fn window_class(json: &[u8]) -> (r: Option<Option<String>>)
    ensures
        class_view(r) == json_window_class(json@),
{
    match serde_json::from_slice::<serde_json::Value>(json) {
        Ok(v) => Some(v.get("class").and_then(|c| c.as_str()).map(str::to_string)),
        Err(_) => None,
    }
}

/// The screensaver has lost focus once the active window is anything but
/// the screensaver itself; a report that cannot be read decides nothing.
pub open spec fn spec_lost_focus(c: Option<Option<Seq<char>>>) -> bool {
    match c {
        None => false,
        Some(class) => class != Some(SCREENSAVER_CLASS@),
    }
}

/// The focus decision, given the active window's class as read from the
/// report.
pub fn lost_focus_given(class: Option<Option<String>>) -> (r: bool)
    ensures
        r == spec_lost_focus(class_view(class)),
{
    match class {
        None => false,
        Some(None) => true,
        Some(Some(s)) => !str_eq(s.as_str(), SCREENSAVER_CLASS),
    }
}

/// Whether the screensaver has lost focus, from the bytes of the window
/// manager's active-window report (`hyprctl activewindow -j`).
pub fn screensaver_lost_focus(hyprctl_stdout: &[u8]) -> (r: bool)
    ensures
        r == spec_lost_focus(json_window_class(hyprctl_stdout@)),
{
    lost_focus_given(window_class(hyprctl_stdout))
}

} // verus!
