pub mod app;
pub mod bg;
pub mod completion;
pub mod dates;
pub mod frame;
pub mod fuzzy;
pub mod help;
pub mod info;
pub mod keys;
pub mod ordering;
pub mod pickers;
pub mod project_pane;
pub mod projects;
pub mod tags;
pub mod task_keys;
pub mod task_laws;
pub mod task_ops;
pub mod task_pane;
pub mod tasks;
pub mod widgets;
