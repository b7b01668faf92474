//! The application as a whole: its state, what each message from the
//! background work does to it, and the work it hands back out.

use vstd::prelude::*;

use crate::database::models::{Annotation, ObjectId, Priority, ProjectEntry, ProjectEntryView, Task};
use crate::ui::app::{AppState, AppType, Mode, WindowState};
use crate::ui::keys::{NavKey, NavKeys, mode_after_esc, nav_target, set_mode, set_window_state, undo_redo};
use crate::ui::info::follow_notes;
use crate::ui::pickers::StatusCommand;
use crate::ui::tags::{TagModeView, TagUi};
use crate::ui::projects::{ProjectManager, entry_views};
use crate::ui::tasks::{SortOrder, TaskManager, is_cleared};
use crate::ui::widgets::errors::{ErrorEntry, ErrorSeverity, ErrorUi, entry_view};

verus! {

/// Everything the window shows and edits.
pub struct FastTask {
    pub project_manager: ProjectManager,
    pub task_manager: TaskManager,
    pub app_state: AppState,
    pub app_type: AppType,
    pub local_share: bool,
    pub err_ui: ErrorUi,
    pub known_tags: Vec<String>,
    /// Annotations for the currently selected task.
    pub annotations: Vec<Annotation>,
    /// Which task's annotations are currently loaded; compared each frame to detect cursor moves.
    pub annotation_task_id: Option<ObjectId>,
    /// Draft text for a new annotation being composed.
    pub annotation_buf: String,
    /// Transient status-bar message; the window drops it after a few seconds.
    pub status_msg: Option<String>,
    /// The tag manager popup.
    pub tag_ui: TagUi,
}

/// What the background work reports back.
pub enum UpdateMessage {
    Projects(Vec<ProjectEntry>),
    CurrentProject(ProjectEntry),
    Tasks(Vec<Task>),
    KnownTags(Vec<String>),
    Annotations(ObjectId, Vec<Annotation>),
    Error(ErrorEntry),
    /// A task write finished.
    DbTransaction,
    Refresh,
    Undone,
    Redone,
}

/// The lists to load again after a message.
#[derive(Clone, Copy, Debug, PartialEq, Eq, Structural)]
pub struct Reloads {
    pub tasks: bool,
    pub projects: bool,
    pub tags: bool,
}

/// Work for the background: each is one call into the store.
pub enum TaskCommand {
    /// List the tasks of a project filter, completed ones too when the flag is set.
    LoadTasks(ProjectEntry, bool),
    /// Remember the active project filter.
    SaveCurrentProject(ProjectEntry),
    /// Set a status on one task or on several.
    Status(StatusCommand),
    /// Delete one task.
    Delete(ObjectId),
    /// Delete several tasks, stopping at the first failure.
    DeleteMany(Vec<ObjectId>),
    /// Create a copy of a task in a project at an order.
    Paste(Task, Option<ObjectId>, u64),
    /// Write each priority onto its task.
    SetPriorities(Vec<(ObjectId, Priority)>),
    /// Write each order onto its task.
    Swap((ObjectId, u64), (ObjectId, u64)),
}

/// The state a new window starts in.
pub open spec fn initial_state() -> AppState {
    AppState {
        mode: Mode::Normal,
        window_state: WindowState::Tasks,
        pending_delete: None,
        show_detail_pane: false,
        show_help: false,
        always_on_top: false,
        init: true,
    }
}

/// The loading of the task list of `p`, completed tasks shown or not.
pub open spec fn is_load(c: TaskCommand, p: ProjectEntryView, show: bool) -> bool {
    c matches TaskCommand::LoadTasks(q, s) && q@ == p && s == show
}

impl FastTask {
    /// A fresh window of kind `app_type` over the projects `listed`, on the
    /// Tasks pane in Normal mode with every project shown.
    pub fn new(app_type: AppType, listed: Vec<ProjectEntry>) -> (app: FastTask)
        ensures
            app.app_type == app_type,
            entry_views(app.project_manager.projects@) == seq![ProjectEntryView::All] + entry_views(listed@)
                + seq![ProjectEntryView::NoProject],
            app.project_manager.current_project == 0,
            app.project_manager.hovered_project == 0,
            app.app_state == initial_state(),
            app.task_manager.tasks@.len() == 0,
            app.task_manager.current is None,
            app.task_manager.selected_tasks@.len() == 0,
            app.task_manager.filter_query@.len() == 0,
            !app.task_manager.show_completed,
            app.task_manager.sort_order == SortOrder::Free,
            !app.local_share,
            app.err_ui.fatal@.len() == 0,
            app.err_ui.non_fatal@.len() == 0,
            app.known_tags@.len() == 0,
            app.annotations@.len() == 0,
            app.annotation_task_id is None,
            app.annotation_buf@.len() == 0,
            app.status_msg is None,
            !app.tag_ui.open,
            app.tag_ui.rows@.len() == 0,
    {
        FastTask {
            project_manager: ProjectManager::new(listed),
            task_manager: TaskManager::default(),
            app_state: AppState {
                mode: Mode::Normal,
                window_state: WindowState::Tasks,
                pending_delete: None,
                show_detail_pane: false,
                show_help: false,
                always_on_top: false,
                init: true,
            },
            app_type,
            local_share: false,
            err_ui: ErrorUi::default(),
            known_tags: Vec::new(),
            annotations: Vec::new(),
            annotation_task_id: None,
            annotation_buf: String::new(),
            status_msg: None,
            tag_ui: TagUi::default(),
        }
    }

    /// Take in one message from the background work, and say which lists to
    /// load again: a new project list keeps the active row unless it falls
    /// off the end; a new task list clears and closes the filter; annotations
    /// are kept only for the task they were loaded for; an error becomes a
    /// banner; a finished write clears the editor draft.
    pub fn apply_message(&mut self, msg: UpdateMessage) -> (r: Reloads)
        ensures
            match msg {
                UpdateMessage::Refresh => *final(self) == *old(self)
                    && r == (Reloads { tasks: true, projects: true, tags: false }),
                UpdateMessage::Projects(prj) => {
                    &&& final(self).project_manager.projects == prj
                    &&& final(self).project_manager.current_project == if old(self).project_manager.current_project
                        >= prj@.len() { 0 } else { old(self).project_manager.current_project }
                    &&& *final(self) == (FastTask {
                        project_manager: ProjectManager {
                            projects: prj,
                            current_project: final(self).project_manager.current_project,
                            ..old(self).project_manager
                        },
                        ..*old(self)
                    })
                    &&& r == (Reloads { tasks: true, projects: false, tags: false })
                },
                UpdateMessage::CurrentProject(entry) => {
                    &&& match old(self).project_manager.index_of_spec(entry@) {
                        Some(i) => final(self).project_manager.current_project == i
                            && final(self).project_manager.hovered_project == i,
                        None => final(self).project_manager.current_project == old(self).project_manager.current_project
                            && final(self).project_manager.hovered_project == old(self).project_manager.hovered_project,
                    }
                    &&& *final(self) == (FastTask {
                        project_manager: ProjectManager {
                            current_project: final(self).project_manager.current_project,
                            hovered_project: final(self).project_manager.hovered_project,
                            ..old(self).project_manager
                        },
                        ..*old(self)
                    })
                    &&& r == (Reloads { tasks: true, projects: false, tags: false })
                },
                UpdateMessage::Tasks(tsk) => {
                    &&& final(self).task_manager.filter_query@.len() == 0
                    &&& *final(self) == (FastTask {
                        task_manager: TaskManager {
                            tasks: tsk,
                            filter_query: final(self).task_manager.filter_query,
                            filter_open: false,
                            ..old(self).task_manager
                        },
                        ..*old(self)
                    })
                    &&& r == (Reloads { tasks: false, projects: false, tags: false })
                },
                UpdateMessage::KnownTags(tags) => *final(self) == (FastTask { known_tags: tags, ..*old(self) })
                    && r == (Reloads { tasks: false, projects: false, tags: false }),
                UpdateMessage::Annotations(id, anns) => {
                    &&& old(self).annotation_task_id == Some(id) ==> *final(self) == (FastTask {
                        annotations: anns,
                        ..*old(self)
                    })
                    &&& old(self).annotation_task_id != Some(id) ==> *final(self) == *old(self)
                    &&& r == (Reloads { tasks: false, projects: false, tags: false })
                },
                UpdateMessage::Error(e) => {
                    &&& crate::ui::widgets::errors::entry_views(final(self).err_ui.non_fatal@)
                        == crate::ui::widgets::errors::entry_views(old(self).err_ui.non_fatal@).push(entry_view(e))
                    &&& crate::ui::widgets::errors::entry_views(final(self).err_ui.fatal@)
                        == crate::ui::widgets::errors::entry_views(old(self).err_ui.fatal@)
                    &&& *final(self) == (FastTask { err_ui: final(self).err_ui, ..*old(self) })
                    &&& r == (Reloads { tasks: false, projects: false, tags: false })
                },
                UpdateMessage::DbTransaction => {
                    &&& is_cleared(final(self).task_manager.writer)
                    &&& final(self).task_manager.writer.code == old(self).task_manager.writer.code
                    &&& final(self).task_manager.writer.order == old(self).task_manager.writer.order
                    &&& *final(self) == (FastTask {
                        task_manager: TaskManager { writer: final(self).task_manager.writer, ..old(self).task_manager },
                        ..*old(self)
                    })
                    &&& r == (Reloads { tasks: true, projects: false, tags: true })
                },
                UpdateMessage::Undone => {
                    &&& final(self).status_msg matches Some(m) && m@ == "Undone"@
                    &&& *final(self) == (FastTask { status_msg: final(self).status_msg, ..*old(self) })
                    &&& r == (Reloads { tasks: true, projects: true, tags: false })
                },
                UpdateMessage::Redone => {
                    &&& final(self).status_msg matches Some(m) && m@ == "Redone"@
                    &&& *final(self) == (FastTask { status_msg: final(self).status_msg, ..*old(self) })
                    &&& r == (Reloads { tasks: true, projects: true, tags: false })
                },
            },
    {
        let none = Reloads { tasks: false, projects: false, tags: false };
        match msg {
            UpdateMessage::Refresh => Reloads { tasks: true, projects: true, tags: false },
            UpdateMessage::Projects(prj) => {
                self.project_manager.set_projects(prj);
                Reloads { tasks: true, projects: false, tags: false }
            },
            UpdateMessage::CurrentProject(entry) => {
                self.project_manager.restore_current(&entry);
                Reloads { tasks: true, projects: false, tags: false }
            },
            UpdateMessage::Tasks(tsk) => {
                self.task_manager.tasks = tsk;
                self.task_manager.filter_query = String::new();
                self.task_manager.filter_open = false;
                none
            },
            UpdateMessage::KnownTags(tags) => {
                self.known_tags = tags;
                none
            },
            UpdateMessage::Annotations(id, anns) => {
                if self.annotation_task_id == Some(id) {
                    self.annotations = anns;
                }
                none
            },
            UpdateMessage::Error(e) => {
                self.err_ui.push(e, ErrorSeverity::NonFatal);
                none
            },
            UpdateMessage::DbTransaction => {
                self.task_manager.writer.flush();
                Reloads { tasks: true, projects: false, tags: true }
            },
            UpdateMessage::Undone => {
                proof {
                    reveal_strlit("Undone");
                }
                self.status_msg = Some("Undone".to_string());
                Reloads { tasks: true, projects: true, tags: false }
            },
            UpdateMessage::Redone => {
                proof {
                    reveal_strlit("Redone");
                }
                self.status_msg = Some("Redone".to_string());
                Reloads { tasks: true, projects: true, tags: false }
            },
        }
    }

    /// Loading the task list for the active project filter, or `None` when
    /// the active row is not on the list.
    pub fn tasks_request(&self) -> (c: Option<TaskCommand>)
        ensures
            self.project_manager.current_project < self.project_manager.projects@.len() ==> (c matches Some(cmd)
                && is_load(cmd, self.project_manager.projects@[self.project_manager.current_project as int]@,
                self.task_manager.show_completed)),
            self.project_manager.current_project >= self.project_manager.projects@.len() ==> c is None,
    {
        if self.project_manager.current_project < self.project_manager.projects.len() {
            Some(TaskCommand::LoadTasks(self.project_manager.current().clone(), self.task_manager.show_completed))
        } else {
            None
        }
    }

    /// Make row `idx` the active project filter: it is remembered and its
    /// tasks are loaded. Nothing is asked of the store for a row past the end.
    pub fn select_project(&mut self, idx: usize) -> (cmds: Vec<TaskCommand>)
        ensures
            *final(self) == (FastTask {
                project_manager: ProjectManager {
                    current_project: idx,
                    hovered_project: idx,
                    ..old(self).project_manager
                },
                ..*old(self)
            }),
            idx < old(self).project_manager.projects@.len() ==> {
                let p = old(self).project_manager.projects@[idx as int]@;
                &&& cmds@.len() == 2
                &&& cmds@[0] matches TaskCommand::SaveCurrentProject(q) && q@ == p
                &&& is_load(cmds@[1], p, old(self).task_manager.show_completed)
            },
            idx >= old(self).project_manager.projects@.len() ==> cmds@.len() == 0,
    {
        let mut cmds: Vec<TaskCommand> = Vec::new();
        match self.project_manager.select(idx) {
            Some(p) => {
                cmds.push(TaskCommand::SaveCurrentProject(p.clone()));
                cmds.push(TaskCommand::LoadTasks(p, self.task_manager.show_completed));
            },
            None => {},
        }
        cmds
    }
}

/// The window-wide keys of one frame (read only while no text field has the
/// keyboard): `?`, Shift+A, the pane navigation keys, Esc, and `u` / `r`
/// with Ctrl held or not.
#[derive(Clone, Copy, Debug, PartialEq, Eq, Structural)]
pub struct GlobalKeys {
    pub question: bool,
    pub shift_a: bool,
    pub nav: NavKeys,
    pub esc: bool,
    pub u: bool,
    pub r: bool,
    pub ctrl: bool,
}

/// What the window-wide keys leave for the window to do: the key the pane
/// navigation consumed, whether Esc was consumed leaving a mode, whether
/// the window level changed, and undo / redo requests.
#[derive(Clone, Copy, Debug, PartialEq, Eq, Structural)]
pub struct GlobalOutcome {
    pub nav_consumed: Option<NavKey>,
    pub esc_consumed: bool,
    pub level_changed: bool,
    pub undo: bool,
    pub redo: bool,
}

/// The window-wide keys, in order: `?` toggles the help, Shift+A pins the
/// window above others or not, a navigation key moves between panes (Normal
/// mode), Esc leaves Visual or Insert mode (as the pane after the move
/// sees it), and plain `u` / `r` ask for an undo / a redo.
pub open spec fn global_keys_done(a: FastTask, b: FastTask, keys: GlobalKeys, out: GlobalOutcome) -> bool {
    let nav = nav_target(a.app_state.mode, a.app_state.window_state, keys.nav);
    let window = match nav.0 {
        Some(w) => w,
        None => a.app_state.window_state,
    };
    let m = mode_after_esc(window, a.app_state.mode, keys.esc);
    &&& b.app_state == (AppState {
        show_help: a.app_state.show_help != keys.question,
        always_on_top: a.app_state.always_on_top != keys.shift_a,
        window_state: window,
        mode: match m {
            Some(x) => x,
            None => a.app_state.mode,
        },
        ..a.app_state
    })
    &&& b == (FastTask { app_state: b.app_state, ..a })
    &&& out == (GlobalOutcome {
        nav_consumed: nav.1,
        esc_consumed: m is Some,
        level_changed: keys.shift_a,
        undo: keys.u && !keys.ctrl,
        redo: keys.r && !keys.ctrl,
    })
}

impl FastTask {
    /// The window-wide keys of one frame (see `global_keys_done`).
    pub fn global_keys(&mut self, keys: &GlobalKeys) -> (out: GlobalOutcome)
        ensures
            global_keys_done(*old(self), *final(self), *keys, out),
    {
        let mut st = self.app_state;
        if keys.question {
            st.show_help = !st.show_help;
        }
        if keys.shift_a {
            st.always_on_top = !st.always_on_top;
        }
        let (ws, consumed) = set_window_state(&st.mode, &st.window_state, &keys.nav);
        match ws {
            Some(w) => {
                st.window_state = w;
            },
            None => {},
        }
        let m = set_mode(&st.window_state, &st.mode, keys.esc);
        let esc_consumed = match m {
            Some(x) => {
                st.mode = x;
                true
            },
            None => false,
        };
        self.app_state = st;
        let (undo, redo) = undo_redo(keys.u, keys.r, keys.ctrl);
        GlobalOutcome { nav_consumed: consumed, esc_consumed, level_changed: keys.shift_a, undo, redo }
    }

    /// The status-bar message goes once it has shown for three seconds.
    pub fn expire_status_msg(&mut self, shown_ms: u64)
        ensures
            shown_ms >= 3000 ==> *final(self) == (FastTask { status_msg: None, ..*old(self) }),
            shown_ms < 3000 ==> *final(self) == *old(self),
    {
        if shown_ms >= 3000 {
            self.status_msg = None;
        }
    }
}

/// Esc first dismisses the newest error banner, if one shows, and is spent
/// on it; the window-wide keys (the pane navigation's Esc too) then run
/// without it.
pub open spec fn window_keys_done(a: FastTask, b: FastTask, keys: GlobalKeys, out: (GlobalOutcome, bool)) -> bool {
    let banner = keys.esc && a.err_ui.non_fatal@.len() > 0;
    &&& out.1 == banner
    &&& banner ==> crate::ui::widgets::errors::entry_views(b.err_ui.non_fatal@)
        == crate::ui::widgets::errors::entry_views(a.err_ui.non_fatal@).drop_last()
    &&& !banner ==> b.err_ui == a.err_ui
    &&& crate::ui::widgets::errors::entry_views(b.err_ui.fatal@) == crate::ui::widgets::errors::entry_views(a.err_ui.fatal@)
    &&& global_keys_done(
        FastTask { err_ui: b.err_ui, ..a },
        b,
        GlobalKeys { esc: keys.esc && !banner, nav: NavKeys { esc: keys.nav.esc && !banner, ..keys.nav }, ..keys },
        out.0,
    )
}

/// In the Info pane outside the editor, `e` / `i` opens the task under the
/// cursor for editing.
pub open spec fn info_keys_done(a: FastTask, b: FastTask, edit: bool) -> bool {
    if edit && !(a.app_state.mode is Insert) && a.task_manager.current_index() is Some {
        let id = a.task_manager.tasks@[a.task_manager.current_index()->0 as int].id;
        &&& b.app_state == (AppState { mode: Mode::Insert(Some(id)), window_state: WindowState::Info, ..a.app_state })
        &&& b == (FastTask { app_state: b.app_state, ..a })
    } else {
        b == a
    }
}

impl FastTask {
    /// The window-wide keys of one frame, an error banner taking Esc first
    /// (see `window_keys_done`); `r.1` tells whether Esc was spent on it.
    pub fn window_keys(&mut self, keys: &GlobalKeys) -> (r: (GlobalOutcome, bool))
        ensures
            window_keys_done(*old(self), *final(self), *keys, r),
    {
        let spent = if keys.esc { self.err_ui.escape() } else { false };
        let masked = GlobalKeys { esc: keys.esc && !spent, nav: NavKeys { esc: keys.nav.esc && !spent, ..keys.nav }, ..*keys };
        let out = self.global_keys(&masked);
        (out, spent)
    }

    /// The Info pane's keys outside the editor (see `info_keys_done`).
    pub fn info_keys(&mut self, edit: bool)
        ensures
            info_keys_done(*old(self), *final(self), edit),
    {
        let editing = match self.app_state.mode {
            Mode::Insert(_) => true,
            _ => false,
        };
        if edit && !editing {
            match self.task_manager.get_current_task() {
                Some(t) => {
                    self.app_state = AppState { mode: Mode::Insert(Some(t.id)), window_state: WindowState::Info, ..self.app_state };
                },
                None => {},
            }
        }
    }
}

/// The task whose notes the Info pane shows: the one being edited, or,
/// outside the editor, the one under the cursor.
pub open spec fn notes_task(a: FastTask) -> Option<ObjectId> {
    match a.app_state.mode {
        Mode::Insert(Some(id)) => Some(id),
        Mode::Insert(None) => None,
        _ => match a.task_manager.current_index() {
            Some(ri) => Some(a.task_manager.tasks@[ri as int].id),
            None => None,
        },
    }
}

impl FastTask {
    /// Shift+T opens the tag manager (its rows are to be loaded: `r.1`);
    /// while it is open it takes all of the frame's keys (`r.0`).
    pub fn tag_gate(&mut self, shift_t: bool) -> (r: (bool, bool))
        ensures
            old(self).tag_ui.open ==> r == (true, false) && *final(self) == *old(self),
            !old(self).tag_ui.open && shift_t ==> r == (true, true) && final(self).tag_ui.open
                && final(self).tag_ui.mode@ == TagModeView::Browse
                && final(self).tag_ui.rows == old(self).tag_ui.rows
                && final(self).tag_ui.cursor == old(self).tag_ui.cursor
                && *final(self) == (FastTask { tag_ui: final(self).tag_ui, ..*old(self) }),
            !old(self).tag_ui.open && !shift_t ==> r == (false, false) && *final(self) == *old(self),
    {
        if self.tag_ui.open {
            (true, false)
        } else if shift_t {
            self.tag_ui.open();
            (true, true)
        } else {
            (false, false)
        }
    }

    /// The Info pane follows the task whose notes it shows (see
    /// `notes_task`): when that task changes, the notes and the draft note
    /// are dropped and the task's notes are to be fetched (its id comes back).
    pub fn notes_target(&mut self) -> (fetch: Option<ObjectId>)
        ensures
            match notes_task(*old(self)) {
                None => fetch is None && *final(self) == *old(self),
                Some(id) => {
                    &&& final(self).annotation_task_id == Some(id)
                    &&& old(self).annotation_task_id == Some(id) ==> fetch is None && *final(self) == *old(self)
                    &&& old(self).annotation_task_id != Some(id) ==> fetch == Some(id)
                        && final(self).annotations@.len() == 0 && final(self).annotation_buf@.len() == 0
                        && *final(self) == (FastTask {
                            annotation_task_id: Some(id),
                            annotations: final(self).annotations,
                            annotation_buf: final(self).annotation_buf,
                            ..*old(self)
                        })
                },
            },
    {
        let target = match self.app_state.mode {
            Mode::Insert(Some(id)) => Some(id),
            Mode::Insert(None) => None,
            _ => match self.task_manager.get_current_task() {
                Some(t) => Some(t.id),
                None => None,
            },
        };
        match target {
            None => None,
            Some(id) => {
                let changed = follow_notes(&mut self.annotation_task_id, id, &mut self.annotations, &mut self.annotation_buf);
                if changed { Some(id) } else { None }
            },
        }
    }
}

} // verus!
