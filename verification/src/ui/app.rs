//! The application's modes and panes: which pane has the keyboard and what
//! the keys do there.

use vstd::prelude::*;

use crate::database::models::ObjectId;

verus! {

/// Where the application runs.
#[derive(Clone, Copy, Debug, PartialEq, Eq, Structural)]
pub enum AppType {
    Native,
    Shared,
    Web,
}

/// The pane that has the keyboard.
#[derive(Clone, Copy, Debug, PartialEq, Eq, Structural)]
pub enum WindowState {
    Projects,
    Tasks,
    Info,
}

/// The editing mode.
#[derive(Clone, Copy, Debug, PartialEq, Eq, Structural)]
pub enum Mode {
    Normal,
    /// Editing a task (`Some(id)`) or a new one (`None`) in the Info pane.
    Insert(Option<ObjectId>),
    /// Single-cursor visual — move/operate on one task. Entered with `v`.
    Visual,
}

/// Which field of the task editor has the keyboard.
#[derive(Clone, Copy, Debug, PartialEq, Eq, Structural)]
pub enum EditFocus {
    Header,
    Details,
    Unfocused,
}

impl Default for EditFocus {
    fn default() -> (f: EditFocus)
        ensures
            f == EditFocus::Unfocused,
    {
        EditFocus::Unfocused
    }
}

/// The application state the key handlers read and change.
#[derive(Clone, Copy, Debug, PartialEq, Eq, Structural)]
pub struct AppState {
    pub mode: Mode,
    pub window_state: WindowState,
    pub pending_delete: Option<ObjectId>,
    pub show_detail_pane: bool,
    pub show_help: bool,
    pub always_on_top: bool,
    pub init: bool,
}

} // verus!
