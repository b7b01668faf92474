//! The keybinding help: which keys each mode and pane offers.

use vstd::prelude::*;

use crate::ui::app::{Mode, WindowState};

verus! {

/// The help rows for the Projects pane in Normal mode: a row with an empty
/// description is a section header, an empty row a gap.
pub open spec fn projects_help() -> Seq<(&'static str, &'static str)> {
    seq![
        ("Projects pane", ""),
        ("j / k", "Move cursor down / up"),
        ("Enter", "Select project, go to Tasks"),
        ("o", "New project"),
        ("e", "Rename hovered project"),
        ("d", "Delete hovered project"),
        ("", ""),
        ("View", ""),
        ("t", "Go to Tasks pane"),
        ("?", "Toggle this help"),
    ]
}

/// The help rows for the task pane (and Info) in Normal mode.
pub open spec fn normal_help() -> Seq<(&'static str, &'static str)> {
    seq![
        ("Navigation", ""),
        ("j / k", "Move cursor down / up"),
        ("", ""),
        ("Tasks", ""),
        ("o / O", "New task below / above"),
        ("i / e", "Edit selected task"),
        ("y", "Yank (copy) task"),
        ("p", "Paste yanked task below cursor (or go to Projects)"),
        ("d", "Mark complete (remove from view)"),
        ("Shift+D", "Hard delete task"),
        ("s", "Set status (popup picker)"),
        ("Tab", "Toggle task in selection set (Esc to clear)"),
        ("", ""),
        ("Modes", ""),
        ("v", "Visual mode (reorder single task)"),
        ("Shift+S", "Sort tasks (popup picker)"),
        ("", ""),
        ("View", ""),
        ("Shift+K", "Toggle detail pane"),
        ("Shift+C", "Show / hide completed tasks"),
        ("Shift+A", "Toggle always-on-top"),
        ("t", "Go to Tasks pane"),
        ("p (no clipboard)", "Go to Projects pane"),
        ("u / r", "Undo / Redo"),
        ("?", "Toggle this help"),
        ("", ""),
        ("Filter", ""),
        ("/", "Open filter bar"),
        ("Enter", "Confirm filter (bar hides, list stays narrow)"),
        ("Esc", "Clear filter / selection and close bar"),
    ]
}

/// The help rows while editing a task.
pub open spec fn insert_help() -> Seq<(&'static str, &'static str)> {
    seq![
        ("Task Editor", ""),
        ("Enter", "Save and return to Tasks"),
        ("Esc", "Discard and return to Tasks"),
    ]
}

/// The help rows in Visual mode.
pub open spec fn visual_help() -> Seq<(&'static str, &'static str)> {
    seq![
        ("Visual Mode  (single task)", ""),
        ("j / k", "Move cursor"),
        ("Shift+J", "Move task down in list"),
        ("Shift+K", "Move task up in list"),
        ("d / Shift+D", "Complete / delete task"),
        ("s", "Set status (popup picker)"),
        ("i / e", "Edit task"),
        ("Esc", "Return to Normal"),
    ]
}

/// The help rows for `mode` in `window`.
pub open spec fn help_rows(mode: Mode, window: WindowState) -> Seq<(&'static str, &'static str)> {
    match mode {
        Mode::Normal => if window == WindowState::Projects { projects_help() } else { normal_help() },
        Mode::Insert(_) => insert_help(),
        Mode::Visual => visual_help(),
    }
}

/// The keybinding rows the help popup lists for `mode` in `window`, as
/// (keys, description) pairs.
pub fn help_bindings(mode: &Mode, window: &WindowState) -> (rows: Vec<(&'static str, &'static str)>)
    ensures
        rows@ == help_rows(*mode, *window),
{
    let mut rows: Vec<(&'static str, &'static str)> = Vec::new();
    match mode {
        Mode::Normal => {
            match window {
                WindowState::Projects => {
                    rows.push(("Projects pane", ""));
                    rows.push(("j / k", "Move cursor down / up"));
                    rows.push(("Enter", "Select project, go to Tasks"));
                    rows.push(("o", "New project"));
                    rows.push(("e", "Rename hovered project"));
                    rows.push(("d", "Delete hovered project"));
                    rows.push(("", ""));
                    rows.push(("View", ""));
                    rows.push(("t", "Go to Tasks pane"));
                    rows.push(("?", "Toggle this help"));
                    assert(rows@ =~= projects_help());
                },
                _ => {
                    rows.push(("Navigation", ""));
                    rows.push(("j / k", "Move cursor down / up"));
                    rows.push(("", ""));
                    rows.push(("Tasks", ""));
                    rows.push(("o / O", "New task below / above"));
                    rows.push(("i / e", "Edit selected task"));
                    rows.push(("y", "Yank (copy) task"));
                    rows.push(("p", "Paste yanked task below cursor (or go to Projects)"));
                    rows.push(("d", "Mark complete (remove from view)"));
                    rows.push(("Shift+D", "Hard delete task"));
                    rows.push(("s", "Set status (popup picker)"));
                    rows.push(("Tab", "Toggle task in selection set (Esc to clear)"));
                    rows.push(("", ""));
                    rows.push(("Modes", ""));
                    rows.push(("v", "Visual mode (reorder single task)"));
                    rows.push(("Shift+S", "Sort tasks (popup picker)"));
                    rows.push(("", ""));
                    rows.push(("View", ""));
                    rows.push(("Shift+K", "Toggle detail pane"));
                    rows.push(("Shift+C", "Show / hide completed tasks"));
                    rows.push(("Shift+A", "Toggle always-on-top"));
                    rows.push(("t", "Go to Tasks pane"));
                    rows.push(("p (no clipboard)", "Go to Projects pane"));
                    rows.push(("u / r", "Undo / Redo"));
                    rows.push(("?", "Toggle this help"));
                    rows.push(("", ""));
                    rows.push(("Filter", ""));
                    rows.push(("/", "Open filter bar"));
                    rows.push(("Enter", "Confirm filter (bar hides, list stays narrow)"));
                    rows.push(("Esc", "Clear filter / selection and close bar"));
                    assert(rows@ =~= normal_help());
                },
            }
        },
        Mode::Insert(_) => {
            rows.push(("Task Editor", ""));
            rows.push(("Enter", "Save and return to Tasks"));
            rows.push(("Esc", "Discard and return to Tasks"));
            assert(rows@ =~= insert_help());
        },
        Mode::Visual => {
            rows.push(("Visual Mode  (single task)", ""));
            rows.push(("j / k", "Move cursor"));
            rows.push(("Shift+J", "Move task down in list"));
            rows.push(("Shift+K", "Move task up in list"));
            rows.push(("d / Shift+D", "Complete / delete task"));
            rows.push(("s", "Set status (popup picker)"));
            rows.push(("i / e", "Edit task"));
            rows.push(("Esc", "Return to Normal"));
            assert(rows@ =~= visual_help());
        },
    }
    rows
}

} // verus!
