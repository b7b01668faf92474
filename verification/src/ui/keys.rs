//! Global navigation keys: moving between panes, leaving a mode, undo / redo.

use vstd::prelude::*;

use crate::ui::app::{Mode, WindowState};

verus! {

/// The panes to the left and right of `window` in Projects ↔ Tasks ↔ Info order.
pub open spec fn neighbors(window: WindowState) -> (Option<WindowState>, Option<WindowState>) {
    match window {
        WindowState::Projects => (None, Some(WindowState::Tasks)),
        WindowState::Tasks => (Some(WindowState::Projects), Some(WindowState::Info)),
        WindowState::Info => (Some(WindowState::Tasks), None),
    }
}

/// The panes to the left and right of `window` in Projects ↔ Tasks ↔ Info order.
pub fn pane_neighbors(window: &WindowState) -> (r: (Option<WindowState>, Option<WindowState>))
    ensures
        r == neighbors(*window),
{
    match window {
        WindowState::Projects => (None, Some(WindowState::Tasks)),
        WindowState::Tasks => (Some(WindowState::Projects), Some(WindowState::Info)),
        WindowState::Info => (Some(WindowState::Tasks), None),
    }
}

/// The global navigation keys pressed this frame, each with exactly the
/// modifiers it needs (`t` and Esc bare, `H` and `L` with Shift).
#[derive(Clone, Copy, Debug, PartialEq, Eq, Structural)]
pub struct NavKeys {
    pub t: bool,
    pub shift_h: bool,
    pub shift_l: bool,
    pub esc: bool,
}

/// The key a navigation consumed, so the destination pane does not see it too.
#[derive(Clone, Copy, Debug, PartialEq, Eq, Structural)]
pub enum NavKey {
    T,
    ShiftH,
    ShiftL,
    Esc,
}

/// The pane a navigation key leads to, and the key it consumed. In Normal
/// mode only: `t` jumps to Tasks; Shift+H / Shift+L step left / right (no
/// wrap-around; the key is consumed even at the end); Esc from a pane other
/// than Tasks returns to Tasks. The first of these keys that is pressed decides.
pub open spec fn nav_target(mode: Mode, window: WindowState, keys: NavKeys) -> (Option<WindowState>, Option<NavKey>) {
    if mode != Mode::Normal {
        (None, None)
    } else if keys.t {
        (Some(WindowState::Tasks), Some(NavKey::T))
    } else if keys.shift_h {
        (neighbors(window).0, Some(NavKey::ShiftH))
    } else if keys.shift_l {
        (neighbors(window).1, Some(NavKey::ShiftL))
    } else if window != WindowState::Tasks && keys.esc {
        (Some(WindowState::Tasks), Some(NavKey::Esc))
    } else {
        (None, None)
    }
}

/// Returns the new `WindowState` triggered by a global nav key, if any, and
/// the key to consume.
pub fn set_window_state(mode: &Mode, window: &WindowState, keys: &NavKeys) -> (r: (Option<WindowState>, Option<NavKey>))
    ensures
        r == nav_target(*mode, *window, *keys),
{
    let normal = match mode {
        Mode::Normal => true,
        _ => false,
    };
    if !normal {
        return (None, None);
    }
    let (left, right) = pane_neighbors(window);
    let in_tasks = match window {
        WindowState::Tasks => true,
        _ => false,
    };
    if keys.t {
        (Some(WindowState::Tasks), Some(NavKey::T))
    } else if keys.shift_h {
        (left, Some(NavKey::ShiftH))
    } else if keys.shift_l {
        (right, Some(NavKey::ShiftL))
    } else if !in_tasks && keys.esc {
        (Some(WindowState::Tasks), Some(NavKey::Esc))
    } else {
        (None, None)
    }
}

/// Esc leaves Visual or Insert mode for Normal (and is consumed), except while
/// editing in the Info pane, which handles Esc itself.
pub open spec fn mode_after_esc(window: WindowState, mode: Mode, esc: bool) -> Option<Mode> {
    if window == WindowState::Info && mode is Insert {
        None
    } else if mode != Mode::Normal && esc {
        Some(Mode::Normal)
    } else {
        None
    }
}

/// The mode Esc switches to, if it switches (the caller consumes the Esc then).
pub fn set_mode(window: &WindowState, mode: &Mode, esc: bool) -> (r: Option<Mode>)
    ensures
        r == mode_after_esc(*window, *mode, esc),
{
    let info = match window {
        WindowState::Info => true,
        _ => false,
    };
    match mode {
        Mode::Insert(_) => {
            if info {
                None
            } else if esc {
                Some(Mode::Normal)
            } else {
                None
            }
        },
        Mode::Visual => if esc { Some(Mode::Normal) } else { None },
        Mode::Normal => None,
    }
}

/// Plain `u` asks for an undo and plain `r` for a redo; with Ctrl held they
/// are other keys (Ctrl+U pages up in the task list).
pub fn undo_redo(u: bool, r: bool, ctrl: bool) -> (out: (bool, bool))
    ensures
        out == (u && !ctrl, r && !ctrl),
{
    (u && !ctrl, r && !ctrl)
}

} // verus!
