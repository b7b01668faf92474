//! Task and project storage: the models, the undo history and the store.

pub mod database;
pub mod history;
pub mod laws;
pub mod models;
pub mod state;
pub mod traits;
pub mod usage;

pub use models::{Annotation, ProjectEntry, Task};
pub use traits::{Database, ProjectManagement, TagManagement, TaskManagement};
