//! Fast task manager core: task/project store with undo history, tag
//! management, fuzzy tag matching and the task-list logic behind the UI.

pub mod database;
pub mod share;
pub mod sorting;
pub mod text;
pub mod ui;
