//! The project pane's keys, clicks and forms: what they do to the window,
//! and the project changes they ask of the store.

use vstd::prelude::*;

use crate::database::models::{ObjectId, Project, ProjectEntryView, ProjectView};
use crate::text::trim;
use crate::ui::app::{AppState, EditFocus, Mode, WindowState};
use crate::ui::frame::{FastTask, TaskCommand, is_load};
use crate::ui::projects::{ProjectKeys, ProjectManager, ProjectWriter, created_name, first_project_with, project_at};

verus! {

/// A project change for the store.
pub enum ProjectCommand {
    /// Create a project with this (trimmed) name.
    Create(String),
    /// Store the project under its new name.
    Rename(Project),
    /// Delete the project and its tasks.
    Delete(ObjectId),
}

/// The project pane's keys and list clicks of one frame: a row clicked, and
/// a project's delete icon clicked.
#[derive(Clone, Copy, Debug, PartialEq, Eq, Structural)]
pub struct ProjectInput {
    pub keys: ProjectKeys,
    pub clicked: Option<usize>,
    pub trash: Option<ObjectId>,
}

/// In Normal mode the name draft is cleared.
#[verifier::opaque]
pub open spec fn project_draft_flushed(a: FastTask, b: FastTask) -> bool {
    if a.app_state.mode == Mode::Normal {
        &&& b.project_manager.writer.single_line_buffer@.len() == 0
        &&& b.project_manager.writer.has_focus == EditFocus::Unfocused
        &&& b.project_manager == (ProjectManager { writer: b.project_manager.writer, ..a.project_manager })
        &&& b == (FastTask { project_manager: b.project_manager, ..a })
    } else {
        b == a
    }
}

/// The project pane's keys (Normal mode only): `o` starts a new project, `e`
/// renames the hovered project (its name in the draft), `d` asks to delete
/// it, j / k move the hover within the list, and Enter picks the hovered row.
#[verifier::opaque]
pub open spec fn project_keys_done(a: FastTask, b: FastTask, keys: ProjectKeys, pick: Option<usize>) -> bool {
    let pm = a.project_manager;
    if a.app_state.mode != Mode::Normal {
        b == a && pick is None
    } else {
        let h0 = pm.hovered_project as int;
        let n = pm.projects@.len() as int;
        let last = if n > 0 { n - 1 } else { 0 };
        let hovered = project_at(pm.projects@, h0);
        let h1 = if keys.j { if h0 + 1 < last { h0 + 1 } else { last } } else { h0 };
        let h2 = if keys.k { if h1 > 0 { h1 - 1 } else { 0 } } else { h1 };
        let renaming = keys.e && hovered is Some;
        &&& pick == if keys.enter { Some(h2 as usize) } else { None::<usize> }
        &&& b.app_state == (AppState {
            mode: if renaming { Mode::Insert(Some(hovered->0.id)) } else if keys.o { Mode::Insert(None) } else { Mode::Normal },
            pending_delete: if keys.d && hovered is Some { Some(hovered->0.id) } else { a.app_state.pending_delete },
            ..a.app_state
        })
        &&& renaming ==> b.project_manager.writer.single_line_buffer@ == hovered->0.name
            && b.project_manager.writer.has_focus == EditFocus::Unfocused
        &&& !renaming ==> b.project_manager.writer == pm.writer
        &&& b.project_manager == (ProjectManager {
            hovered_project: h2 as usize,
            writer: b.project_manager.writer,
            ..pm
        })
        &&& b == (FastTask { project_manager: b.project_manager, app_state: b.app_state, ..a })
    }
}

/// A row picked: that project becomes the filter (remembered and listed,
/// see `select_project`) and the Tasks pane opens.
#[verifier::opaque]
pub open spec fn project_confirmed(a: FastTask, b: FastTask, idx: usize, cs: Seq<TaskCommand>) -> bool {
    &&& b.project_manager == (ProjectManager { current_project: idx, hovered_project: idx, ..a.project_manager })
    &&& b.app_state == (AppState { window_state: WindowState::Tasks, ..a.app_state })
    &&& b == (FastTask { project_manager: b.project_manager, app_state: b.app_state, ..a })
    &&& idx < a.project_manager.projects@.len() ==> cs.len() == 2
        && (cs[0] matches TaskCommand::SaveCurrentProject(q) && q@ == a.project_manager.projects@[idx as int]@)
        && is_load(cs[1], a.project_manager.projects@[idx as int]@, a.task_manager.show_completed)
    &&& idx >= a.project_manager.projects@.len() ==> cs.len() == 0
}

/// The steps of a project-list frame through the states `m1` to `m4`: the
/// draft cleared in Normal mode, then the keys (a picked row confirmed,
/// commands `c1`), then a clicked row confirmed (commands `c2`), then a
/// delete icon asking to delete its project.
pub open spec fn project_list_steps(
    input: ProjectInput,
    a: FastTask,
    m1: FastTask,
    m2: FastTask,
    m3: FastTask,
    m4: FastTask,
    pick: Option<usize>,
    c1: Seq<TaskCommand>,
    c2: Seq<TaskCommand>,
    b: FastTask,
    cmds: Seq<TaskCommand>,
) -> bool {
    &&& project_draft_flushed(a, m1)
    &&& project_keys_done(m1, m2, input.keys, pick)
    &&& match pick {
        Some(i) => project_confirmed(m2, m3, i, c1),
        None => m3 == m2 && c1.len() == 0,
    }
    &&& match input.clicked {
        Some(i) => project_confirmed(m3, m4, i, c2),
        None => m4 == m3 && c2.len() == 0,
    }
    &&& match input.trash {
        Some(id) => b == (FastTask { app_state: AppState { pending_delete: Some(id), ..m4.app_state }, ..m4 }),
        None => b == m4,
    }
    &&& cmds == c1 + c2
}

/// One frame of the project list's keys and clicks takes the window from
/// `a` to `b` asking `cmds` of the store (see `project_list_steps`).
pub open spec fn project_list_done(input: ProjectInput, a: FastTask, b: FastTask, cmds: Seq<TaskCommand>) -> bool {
    exists|m1: FastTask, m2: FastTask, m3: FastTask, m4: FastTask, pick: Option<usize>, c1: Seq<TaskCommand>, c2: Seq<TaskCommand>|
        #[trigger] project_list_steps(input, a, m1, m2, m3, m4, pick, c1, c2, b, cmds)
}

/// `c` creates a project named `name`.
pub open spec fn is_create(c: ProjectCommand, name: Seq<char>) -> bool {
    c matches ProjectCommand::Create(s) && s@ == name
}

/// `c` stores project `p` under the name `name`.
pub open spec fn is_rename(c: ProjectCommand, p: ProjectView, name: Seq<char>) -> bool {
    c matches ProjectCommand::Rename(q) && q@ == (ProjectView { name, ..p })
}

/// The project forms of one frame. Enter in the new-project form creates a
/// project with the trimmed name (none for a blank name); Enter in the
/// rename form renames the project being edited (not for a blank name or a
/// project no longer listed); either way the draft is cleared and the mode
/// goes back to Normal. Then a pending deletion that is confirmed is asked
/// of the store (the filter falls back to `All` when it was that project)
/// and one that is cancelled is dropped.
pub open spec fn project_forms_done(a: FastTask, b: FastTask, enter: bool, confirm: bool, cancel: bool, cmds: Seq<ProjectCommand>) -> bool {
    let pm = a.project_manager;
    let submits = enter && a.app_state.mode is Insert;
    let name = trim(pm.writer.single_line_buffer@);
    let target = match a.app_state.mode {
        Mode::Insert(Some(eid)) => first_project_with(pm.projects@, eid, pm.projects@.len() as int),
        _ => None,
    };
    let made = submits && name.len() > 0 && (a.app_state.mode == Mode::Insert(None) || target is Some);
    let k: int = if made { 1 } else { 0 };
    let deletes = a.app_state.pending_delete is Some && confirm;
    let hit = pm.projects@[pm.current_project as int]@ matches ProjectEntryView::Project(p)
        && Some(p.id) == a.app_state.pending_delete;
    &&& submits ==> b.project_manager.writer.single_line_buffer@.len() == 0
        && b.project_manager.writer.has_focus == EditFocus::Unfocused && b.app_state.mode == Mode::Normal
    &&& !submits ==> b.project_manager.writer == pm.writer && b.app_state.mode == a.app_state.mode
    &&& b.app_state.pending_delete == if a.app_state.pending_delete is Some && (confirm || cancel) {
        None
    } else {
        a.app_state.pending_delete
    }
    &&& b.app_state == (AppState { mode: b.app_state.mode, pending_delete: b.app_state.pending_delete, ..a.app_state })
    &&& deletes && hit ==> b.project_manager.current_project == 0 && b.project_manager.hovered_project == 0
    &&& !(deletes && hit) ==> b.project_manager.current_project == pm.current_project
        && b.project_manager.hovered_project == pm.hovered_project
    &&& b.project_manager == (ProjectManager {
        writer: b.project_manager.writer,
        current_project: b.project_manager.current_project,
        hovered_project: b.project_manager.hovered_project,
        ..pm
    })
    &&& b == (FastTask { project_manager: b.project_manager, app_state: b.app_state, ..a })
    &&& cmds.len() == k + if deletes { 1int } else { 0 }
    &&& made && a.app_state.mode == Mode::Insert(None) ==> is_create(cmds[0], name)
    &&& made && a.app_state.mode != Mode::Insert(None) ==> is_rename(cmds[0], target->0, name)
    &&& deletes ==> cmds[k] == ProjectCommand::Delete(a.app_state.pending_delete->0)
}

impl FastTask {
    /// Clear the name draft in Normal mode.
    fn flush_project_draft(&mut self)
        ensures
            project_draft_flushed(*old(self), *final(self)),
    {
        reveal(project_draft_flushed);
        if self.app_state.mode == Mode::Normal {
            self.project_manager.writer.flush();
        }
    }

    /// The project pane's keys (see `project_keys_done`).
    fn project_keys(&mut self, keys: &ProjectKeys) -> (pick: Option<usize>)
        requires
            old(self).project_manager.hovered_project < usize::MAX,
        ensures
            project_keys_done(*old(self), *final(self), *keys, pick),
    {
        reveal(project_keys_done);
        self.project_manager.handle_keys(keys, &mut self.app_state.mode, &mut self.app_state.pending_delete)
    }

    /// Pick row `idx`: it becomes the filter and the Tasks pane opens.
    pub fn confirm_project(&mut self, idx: usize) -> (cs: Vec<TaskCommand>)
        ensures
            project_confirmed(*old(self), *final(self), idx, cs@),
    {
        reveal(project_confirmed);
        let cs = self.select_project(idx);
        self.app_state = AppState { window_state: WindowState::Tasks, ..self.app_state };
        cs
    }

    /// One frame of the project list's keys and clicks (see `project_list_done`).
    pub fn project_list_frame(&mut self, input: &ProjectInput) -> (cmds: Vec<TaskCommand>)
        requires
            old(self).project_manager.hovered_project < usize::MAX,
        ensures
            project_list_done(*input, *old(self), *final(self), cmds@),
    {
        let ghost a = *self;
        self.flush_project_draft();
        let ghost m1 = *self;
        proof {
            reveal(project_draft_flushed);
        }
        let pick = self.project_keys(&input.keys);
        let ghost m2 = *self;
        let mut c1 = match pick {
            Some(i) => self.confirm_project(i),
            None => Vec::new(),
        };
        let ghost m3 = *self;
        let ghost g1 = c1@;
        let mut c2 = match input.clicked {
            Some(i) => self.confirm_project(i),
            None => Vec::new(),
        };
        let ghost m4 = *self;
        let ghost g2 = c2@;
        match input.trash {
            Some(id) => {
                self.app_state = AppState { pending_delete: Some(id), ..self.app_state };
            },
            None => {},
        }
        c1.append(&mut c2);
        assert(project_list_steps(*input, a, m1, m2, m3, m4, pick, g1, g2, *self, c1@));
        c1
    }

    /// The project forms of one frame (see `project_forms_done`), after the
    /// name field has taken this frame's typing.
    pub fn project_forms(&mut self, enter: bool, confirm: bool, cancel: bool) -> (cmds: Vec<ProjectCommand>)
        requires
            old(self).project_manager.current_project < old(self).project_manager.projects@.len(),
        ensures
            project_forms_done(*old(self), *final(self), enter, confirm, cancel, cmds@),
    {
        let mut cmds: Vec<ProjectCommand> = Vec::new();
        match self.app_state.mode {
            Mode::Insert(None) => {
                if enter {
                    match created_name(self.project_manager.writer.single_line_buffer.as_str()) {
                        Some(name) => cmds.push(ProjectCommand::Create(name)),
                        None => {},
                    }
                    self.project_manager.writer.flush();
                    self.app_state = AppState { mode: Mode::Normal, ..self.app_state };
                }
            },
            Mode::Insert(Some(edit_id)) => {
                if enter {
                    match self.project_manager.rename_target(edit_id) {
                        Some(p) => cmds.push(ProjectCommand::Rename(p)),
                        None => {},
                    }
                    self.project_manager.writer.flush();
                    self.app_state = AppState { mode: Mode::Normal, ..self.app_state };
                }
            },
            _ => {},
        }
        match self.app_state.pending_delete {
            Some(id) => {
                if confirm {
                    self.project_manager.on_delete_confirmed(id);
                    cmds.push(ProjectCommand::Delete(id));
                    self.app_state = AppState { pending_delete: None, ..self.app_state };
                } else if cancel {
                    self.app_state = AppState { pending_delete: None, ..self.app_state };
                }
            },
            None => {},
        }
        cmds
    }
}

} // verus!
