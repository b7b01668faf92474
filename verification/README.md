# fast_task

A keyboard-driven task manager: projects, tasks with status, priority, due
and wait dates, recurrence, tags and timestamped notes, with undo and redo.

The logic is a Verus library whose behaviour is stated in `requires` /
`ensures` contracts and proved:

- `src/database/` — the store: tasks, projects, tags, notes and the undo /
  redo history, its abstract view (`state.rs`), and the laws that relate its
  operations (`laws.rs`, `usage.rs`).
- `src/ui/` — the window's state machine: key handling per pane and mode
  (`task_pane.rs`, `project_pane.rs`, `frame.rs`, `task_keys.rs`), list
  ordering (`ordering.rs`, `../sorting.rs`), fuzzy tag completion
  (`fuzzy.rs`, `completion.rs`), the editor (`info.rs`), dates (`dates.rs`)
  and the tag manager (`tags.rs`).
- `src/share.rs` — the project filter of the local share service.
- `src/text.rs` — string helpers over character sequences.

`app/` is the program around it: the egui window, the PoloDB file, the
background threads and the HTTP share service. `tests/` exercises the library.
