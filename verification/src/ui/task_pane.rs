//! What the task pane's keys and row icons do to the window, and the store
//! work each hands out. Every key is one step below; the frame handlers run
//! the steps of the keys pressed, in a fixed order.

use vstd::prelude::*;

use crate::database::models::{ORDER_GAP, ObjectId, Task, TaskStatus, TaskView};
use crate::ui::app::{AppState, EditFocus, Mode, WindowState};
use crate::ui::frame::{FastTask, TaskCommand, is_load};
use crate::ui::ordering::{lemma_max_order, max_order, max_task_order, orders, paste_defined, paste_orders, paste_values};
use crate::ui::pickers::{PickerKeys, StatusCommand, sort_choice, sort_keys_done, status_keys_done};
use crate::ui::projects::ProjectManager;
use crate::ui::task_keys::{
    CursorKeys, clamped, cursor_after, cursor_row, distinct_ids, has_id, new_order_defined, new_order_value, new_row_index,
    pending_after, priority_changes, priority_message, selected_rows, targets, with_priorities, yank_message,
};
use crate::ui::tasks::{SortOrder, TaskManager, TaskWriter, is_cleared, views};

verus! {

/// The task orders leave room for every order the task pane's keys can make
/// in one frame: twice the largest order, plus one gap for each task, each
/// visible row, each yanked task and two more, stays within `u64`.
pub open spec fn orders_have_room(tm: TaskManager, visible: Seq<usize>) -> bool {
    2 * max_order(orders(tm.tasks@)) + (tm.tasks@.len() + visible.len() + tm.clipboard@.len() + 2) * ORDER_GAP
        <= u64::MAX
}

/// The task under the cursor, by id.
pub open spec fn cursor_task(tm: TaskManager, visible: Seq<usize>) -> Option<ObjectId> {
    match cursor_row(tm.tasks@, visible, tm.current) {
        Some(ri) => Some(tm.tasks@[ri as int].id),
        None => None,
    }
}

/// The task list, the cursor, the clipboard and the project list are as before.
pub open spec fn lists_kept(a: FastTask, b: FastTask) -> bool {
    &&& b.task_manager.tasks == a.task_manager.tasks
    &&& b.task_manager.current == a.task_manager.current
    &&& b.task_manager.clipboard == a.task_manager.clipboard
    &&& b.project_manager == a.project_manager
}

/// The project id pasted tasks get: that of the active filter's project.
pub open spec fn active_project_id(pm: ProjectManager) -> Option<ObjectId> {
    crate::database::models::entry_id(pm.projects@[pm.current_project as int]@)
}

/// `Shift+C`: completed tasks shown or hidden, and the list loaded again.
#[verifier::opaque]
pub open spec fn completed_toggled(a: FastTask, b: FastTask, cs: Seq<TaskCommand>) -> bool {
    &&& b.task_manager == (TaskManager { show_completed: !a.task_manager.show_completed, ..a.task_manager })
    &&& b == (FastTask { task_manager: b.task_manager, ..a })
    &&& cs.len() == 1
    &&& is_load(cs[0], a.project_manager.projects@[a.project_manager.current_project as int]@,
        !a.task_manager.show_completed)
}

/// `o` / `O`: a new task is drafted in the Info pane, ordered below / above
/// the cursor's row.
#[verifier::opaque]
pub open spec fn new_task_opened(a: FastTask, b: FastTask, visible: Seq<usize>, above: bool) -> bool {
    &&& b.task_manager.writer.order == new_order_value(a.task_manager.tasks@, visible, a.task_manager.current, above)
    &&& b.task_manager.writer == (TaskWriter { order: b.task_manager.writer.order, ..a.task_manager.writer })
    &&& b.task_manager == (TaskManager { writer: b.task_manager.writer, ..a.task_manager })
    &&& b.app_state == (AppState { mode: Mode::Insert(None), window_state: WindowState::Info, ..a.app_state })
    &&& b == (FastTask { task_manager: b.task_manager, app_state: b.app_state, ..a })
}

/// `y`: the targets are copied into the clipboard, the selection cleared and
/// the count shown; nothing happens without targets.
#[verifier::opaque]
pub open spec fn yanked(a: FastTask, b: FastTask, visible: Seq<usize>) -> bool {
    let ts = targets(a.task_manager.tasks@, visible, a.task_manager.selected_tasks@, a.task_manager.current);
    &&& ts.len() == 0 ==> b == a
    &&& ts.len() > 0 ==> {
        &&& views(b.task_manager.clipboard@) == ts
        &&& b.task_manager.selected_tasks@.len() == 0
        &&& b.status_msg matches Some(m) && m@ == yank_message(ts)
        &&& b.task_manager == (TaskManager {
            clipboard: b.task_manager.clipboard,
            selected_tasks: b.task_manager.selected_tasks,
            ..a.task_manager
        })
        &&& b == (FastTask { task_manager: b.task_manager, status_msg: b.status_msg, ..a })
    }
}

/// The message of a paste with nothing yanked.
pub open spec fn nothing_yanked() -> Seq<char> {
    "Nothing yanked — press y on a task first"@
}

/// `c` pastes a copy of `t` into project `pid` at order `o`.
pub open spec fn is_paste(c: TaskCommand, t: Task, pid: Option<ObjectId>, o: int) -> bool {
    c matches TaskCommand::Paste(t2, p2, o2) && t2@ == t@ && p2 == pid && o2 == o
}

/// `p` / `Shift+P`: each yanked task is pasted into the active project,
/// below / above the cursor's row, in order; with nothing yanked only a
/// message shows.
#[verifier::opaque]
pub open spec fn pasted(a: FastTask, b: FastTask, visible: Seq<usize>, above: bool, cs: Seq<TaskCommand>) -> bool {
    let clip = a.task_manager.clipboard@;
    let n = clip.len();
    let vals = paste_values(orders(a.task_manager.tasks@),
        cursor_row(a.task_manager.tasks@, visible, a.task_manager.current), above, n as int);
    &&& n == 0 ==> b == (FastTask { status_msg: b.status_msg, ..a }) && cs.len() == 0
        && (b.status_msg matches Some(m) && m@ == nothing_yanked())
    &&& n > 0 ==> b == a && cs.len() == n
        && forall|k: int| 0 <= k < n ==> is_paste(#[trigger] cs[k], clip[k], active_project_id(a.project_manager), vals[k])
}

/// `+` / `-`: the targets' priorities move one step up / down in the list,
/// the changes go to the store and a message shows; nothing happens when no
/// target can move.
#[verifier::opaque]
pub open spec fn priority_shifted(a: FastTask, b: FastTask, visible: Seq<usize>, up: bool, cs: Seq<TaskCommand>) -> bool {
    let ups = priority_changes(
        targets(a.task_manager.tasks@, visible, a.task_manager.selected_tasks@, a.task_manager.current),
        up,
    );
    &&& ups.len() == 0 ==> b == a && cs.len() == 0
    &&& ups.len() > 0 ==> {
        &&& views(b.task_manager.tasks@) == with_priorities(views(a.task_manager.tasks@), ups)
        &&& b.status_msg matches Some(m) && m@ == priority_message(ups, up)
        &&& b.task_manager == (TaskManager { tasks: b.task_manager.tasks, ..a.task_manager })
        &&& b == (FastTask { task_manager: b.task_manager, status_msg: b.status_msg, ..a })
        &&& cs.len() == 1
        &&& cs[0] matches TaskCommand::SetPriorities(v) && v@ == ups
    }
}

/// `[` / `]` to row `idx`: that project becomes the filter, remembered and
/// listed, with the cursor on the first row (nothing is asked of the store
/// for a row off the list).
#[verifier::opaque]
pub open spec fn project_jumped(a: FastTask, b: FastTask, idx: usize, cs: Seq<TaskCommand>) -> bool {
    &&& b.project_manager == (ProjectManager {
        current_project: idx,
        hovered_project: idx,
        ..a.project_manager
    })
    &&& b.task_manager == (TaskManager { current: Some(0), ..a.task_manager })
    &&& b == (FastTask { project_manager: b.project_manager, task_manager: b.task_manager, ..a })
    &&& idx < a.project_manager.projects@.len() ==> cs.len() == 2
        && (cs[0] matches TaskCommand::SaveCurrentProject(q) && q@ == a.project_manager.projects@[idx as int]@)
        && is_load(cs[1], a.project_manager.projects@[idx as int]@, a.task_manager.show_completed)
    &&& idx >= a.project_manager.projects@.len() ==> cs.len() == 0
}

/// `c` deletes the tasks `ids`.
pub open spec fn is_delete_many(c: TaskCommand, ids: Seq<ObjectId>) -> bool {
    c matches TaskCommand::DeleteMany(v) && v@ == ids
}

/// `c` completes the tasks `ids`.
pub open spec fn is_complete_many(c: TaskCommand, ids: Seq<ObjectId>) -> bool {
    c matches TaskCommand::Status(StatusCommand::Many(v, s)) && v@ == ids && s == TaskStatus::Completed
}

/// The message after deleting a task.
pub open spec fn deleted_message() -> Seq<char> {
    "Deleted — u to undo"@
}

/// The cursor one row up, or none from the first row.
pub open spec fn row_above(cur: Option<usize>) -> Option<usize> {
    match cur {
        Some(i) => if i == 0 { None } else { Some((i - 1) as usize) },
        None => None,
    }
}

/// Normal-mode `d` / `Shift+D` on task `id`: the selection, if any, is
/// completed / deleted and cleared; otherwise task `id` is, and the cursor
/// moves up a row (a deletion says how to undo it).
#[verifier::opaque]
pub open spec fn removed(a: FastTask, b: FastTask, id: ObjectId, hard: bool, cs: Seq<TaskCommand>) -> bool {
    let sel = a.task_manager.selected_tasks@;
    &&& sel.len() > 0 ==> {
        &&& b.task_manager.selected_tasks@.len() == 0
        &&& b.task_manager == (TaskManager { selected_tasks: b.task_manager.selected_tasks, ..a.task_manager })
        &&& b == (FastTask { task_manager: b.task_manager, ..a })
        &&& cs.len() == 1
        &&& hard ==> is_delete_many(cs[0], sel)
        &&& !hard ==> is_complete_many(cs[0], sel)
    }
    &&& sel.len() == 0 ==> {
        &&& b.task_manager == (TaskManager { current: row_above(a.task_manager.current), ..a.task_manager })
        &&& b == (FastTask { task_manager: b.task_manager, status_msg: b.status_msg, ..a })
        &&& cs.len() == 1
        &&& hard ==> cs[0] == TaskCommand::Delete(id) && (b.status_msg matches Some(m) && m@ == deleted_message())
        &&& !hard ==> cs[0] == TaskCommand::Status(StatusCommand::One(id, TaskStatus::Completed))
            && b.status_msg == a.status_msg
    }
}

/// `s` on task `id`: the status picker opens on its first row, for the
/// selection if there is one, else for task `id`.
#[verifier::opaque]
pub open spec fn status_opened(a: FastTask, b: FastTask, id: ObjectId) -> bool {
    &&& a.task_manager.selected_tasks@.len() > 0 ==> b.task_manager.status_picker_ids@ == a.task_manager.selected_tasks@
        && b.task_manager.status_picker_task_id is None
    &&& a.task_manager.selected_tasks@.len() == 0 ==> b.task_manager.status_picker_ids@.len() == 0
        && b.task_manager.status_picker_task_id == Some(id)
    &&& b.task_manager == (TaskManager {
        status_picker_cursor: 0,
        status_picker_open: true,
        status_picker_ids: b.task_manager.status_picker_ids,
        status_picker_task_id: b.task_manager.status_picker_task_id,
        ..a.task_manager
    })
    &&& b == (FastTask { task_manager: b.task_manager, ..a })
}

/// `e` / `i` on task `id`: it opens for editing in the Info pane.
#[verifier::opaque]
pub open spec fn edit_opened(a: FastTask, b: FastTask, id: ObjectId) -> bool {
    &&& b.app_state == (AppState { mode: Mode::Insert(Some(id)), window_state: WindowState::Info, ..a.app_state })
    &&& b == (FastTask { app_state: b.app_state, ..a })
}

/// Esc peels back one layer: the selection, else the filter, else the task
/// pane itself (back to Projects).
#[verifier::opaque]
pub open spec fn escaped(a: FastTask, b: FastTask) -> bool {
    let sel = a.task_manager.selected_tasks@;
    let q = a.task_manager.filter_query@;
    &&& sel.len() > 0 ==> b.task_manager.selected_tasks@.len() == 0
        && b.task_manager.filter_query == a.task_manager.filter_query && b.app_state == a.app_state
    &&& sel.len() == 0 && q.len() > 0 ==> b.task_manager.selected_tasks == a.task_manager.selected_tasks
        && b.task_manager.filter_query@.len() == 0 && b.app_state == a.app_state
    &&& sel.len() == 0 && q.len() == 0 ==> b.task_manager == a.task_manager
        && b.app_state == (AppState { window_state: WindowState::Projects, ..a.app_state })
    &&& b.task_manager == (TaskManager {
        selected_tasks: b.task_manager.selected_tasks,
        filter_query: b.task_manager.filter_query,
        ..a.task_manager
    })
    &&& b == (FastTask { task_manager: b.task_manager, app_state: b.app_state, ..a })
}

/// `Shift+S`: the sort picker opens with its cursor on the active order.
#[verifier::opaque]
pub open spec fn sort_picker_opened(a: FastTask, b: FastTask) -> bool {
    &&& b.task_manager.sort_picker_cursor < 5
    &&& sort_choice(b.task_manager.sort_picker_cursor as int) == a.task_manager.sort_order
    &&& b.task_manager == (TaskManager {
        sort_picker_open: true,
        sort_picker_cursor: b.task_manager.sort_picker_cursor,
        ..a.task_manager
    })
    &&& b == (FastTask { task_manager: b.task_manager, ..a })
}

/// Tab: the task under the cursor goes into the selection, or out of it.
#[verifier::opaque]
pub open spec fn tab_toggled(a: FastTask, b: FastTask, visible: Seq<usize>) -> bool {
    &&& distinct_ids(b.task_manager.selected_tasks@)
    &&& match cursor_row(a.task_manager.tasks@, visible, a.task_manager.current) {
        None => b == a,
        Some(ri) => forall|id: ObjectId| #[trigger] has_id(b.task_manager.selected_tasks@, id)
            <==> (has_id(a.task_manager.selected_tasks@, id) != (id == a.task_manager.tasks@[ri as int].id)),
    }
    &&& b.task_manager == (TaskManager { selected_tasks: b.task_manager.selected_tasks, ..a.task_manager })
    &&& b == (FastTask { task_manager: b.task_manager, ..a })
}

/// The cursor keys move the cursor over `n` rows.
#[verifier::opaque]
pub open spec fn cursor_moved(a: FastTask, b: FastTask, keys: CursorKeys, n: int, shift_jk: bool) -> bool {
    &&& b.task_manager == (TaskManager {
        current: cursor_after(keys, shift_jk, n, a.task_manager.current, a.task_manager.pending_g),
        pending_g: pending_after(keys, a.task_manager.pending_g),
        ..a.task_manager
    })
    &&& b == (FastTask { task_manager: b.task_manager, ..a })
}

proof fn lemma_selected_rows_len(tasks: Seq<Task>, visible: Seq<usize>, sel: Seq<ObjectId>)
    ensures
        selected_rows(tasks, visible, sel).len() <= visible.len(),
    decreases visible.len(),
{
    if visible.len() > 0 {
        lemma_selected_rows_len(tasks, visible.drop_last(), sel);
    }
}

/// At most one target per visible row.
proof fn lemma_targets_len(tm: TaskManager, visible: Seq<usize>)
    ensures
        targets(tm.tasks@, visible, tm.selected_tasks@, tm.current).len() <= visible.len(),
{
    lemma_selected_rows_len(tm.tasks@, visible, tm.selected_tasks@);
}

/// Room for the orders makes the new-task order defined.
proof fn lemma_room_new_order(tm: TaskManager, visible: Seq<usize>, above: bool)
    requires
        orders_have_room(tm, visible),
    ensures
        new_order_defined(tm.tasks@, visible, tm.current, above),
{
    reveal(new_order_defined);
    let os = orders(tm.tasks@);
    lemma_max_order(os);
    if os.len() > 0 {
        let ri = new_row_index(tm.tasks@.len() as int, visible, tm.current);
        assert(0 <= ri < os.len());
        assert(os[ri] <= max_order(os));
        assert(os.last() <= max_order(os));
        if ri > 0 {
            assert(os[ri - 1] <= max_order(os));
        }
        if ri + 1 < os.len() {
            assert(os[ri + 1] <= max_order(os));
        }
    }
}

/// Room for the orders of `tm0` makes the paste orders defined for `tm`:
/// the same tasks, any cursor, and a clipboard at most a visible row per
/// task longer.
proof fn lemma_room_paste(tm0: TaskManager, tm: TaskManager, visible: Seq<usize>, above: bool)
    requires
        orders_have_room(tm0, visible),
        tm.tasks == tm0.tasks,
        tm.clipboard@.len() <= tm0.clipboard@.len() + visible.len(),
    ensures
        paste_defined(orders(tm.tasks@), cursor_row(tm.tasks@, visible, tm.current), above,
            tm.clipboard@.len() as int),
{
    let os = orders(tm.tasks@);
    lemma_max_order(os);
    match cursor_row(tm.tasks@, visible, tm.current) {
        Some(i) => {
            assert(os[i as int] <= max_order(os));
        },
        None => {},
    }
}

/// The draft's order set to `o` and the Info pane opened in Insert mode,
/// with `o` the new-task order.
proof fn lemma_new_task_opened(a: FastTask, b: FastTask, visible: Seq<usize>, above: bool, o: u64)
    requires
        o == new_order_value(a.task_manager.tasks@, visible, a.task_manager.current, above),
        b.task_manager.writer == (TaskWriter { order: o, ..a.task_manager.writer }),
        b.task_manager == (TaskManager { writer: b.task_manager.writer, ..a.task_manager }),
        b.app_state == (AppState { mode: Mode::Insert(None), window_state: WindowState::Info, ..a.app_state }),
        b == (FastTask { task_manager: b.task_manager, app_state: b.app_state, ..a }),
    ensures
        new_task_opened(a, b, visible, above),
        lists_kept(a, b),
{
    reveal(new_task_opened);
}

impl TaskManager {
    /// `/`: open the filter bar and give it the keyboard.
    fn open_filter(&mut self)
        ensures
            *final(self) == (TaskManager { filter_open: true, filter_just_opened: true, ..*old(self) }),
    {
        self.filter_open = true;
        self.filter_just_opened = true;
    }

    /// Give the draft the order `o`.
    fn set_draft_order(&mut self, o: u64)
        ensures
            final(self).writer == (TaskWriter { order: o, ..old(self).writer }),
            *final(self) == (TaskManager { writer: final(self).writer, ..*old(self) }),
    {
        self.writer.order = o;
    }
}

impl FastTask {
    /// `Shift+C`: show or hide completed tasks, and load the list again.
    pub fn toggle_completed(&mut self) -> (cs: Vec<TaskCommand>)
        requires
            old(self).project_manager.current_project < old(self).project_manager.projects@.len(),
        ensures
            completed_toggled(*old(self), *final(self), cs@),
            lists_kept(*old(self), *final(self)),
    {
        reveal(completed_toggled);
        self.task_manager.show_completed = !self.task_manager.show_completed;
        let mut cs: Vec<TaskCommand> = Vec::new();
        cs.push(TaskCommand::LoadTasks(self.project_manager.current().clone(), self.task_manager.show_completed));
        cs
    }

    /// `o` / `O`: draft a new task below / above the cursor's row in the Info pane.
    #[verifier::spinoff_prover]
    #[verifier::rlimit(40)]
    pub fn open_new_task(&mut self, visible: &Vec<usize>, above: bool)
        requires
            new_order_defined(old(self).task_manager.tasks@, visible@, old(self).task_manager.current, above),
        ensures
            new_task_opened(*old(self), *final(self), visible@, above),
            lists_kept(*old(self), *final(self)),
    {
        let ghost a = *self;
        let o = self.task_manager.new_task_order(visible.as_slice(), above);
        self.task_manager.set_draft_order(o);
        self.app_state = AppState { mode: Mode::Insert(None), window_state: WindowState::Info, ..self.app_state };
        proof {
            lemma_new_task_opened(a, *self, visible@, above, o);
        }
    }

    /// `y`: yank the selection (or the task under the cursor).
    pub fn yank_key(&mut self, visible: &Vec<usize>)
        ensures
            yanked(*old(self), *final(self), visible@),
            final(self).task_manager.tasks == old(self).task_manager.tasks,
            final(self).project_manager == old(self).project_manager,
            final(self).task_manager.clipboard@.len() <= old(self).task_manager.clipboard@.len() + visible@.len(),
    {
        reveal(yanked);
        proof {
            lemma_targets_len(self.task_manager, visible@);
        }
        match self.task_manager.yank(visible.as_slice()) {
            Some(m) => {
                self.status_msg = Some(m);
            },
            None => {},
        }
    }

    /// `p` / `Shift+P`: paste every yanked task below / above the cursor's row.
    pub fn paste(&mut self, visible: &Vec<usize>, above: bool) -> (cs: Vec<TaskCommand>)
        requires
            old(self).project_manager.current_project < old(self).project_manager.projects@.len(),
            paste_defined(orders(old(self).task_manager.tasks@),
                cursor_row(old(self).task_manager.tasks@, visible@, old(self).task_manager.current), above,
                old(self).task_manager.clipboard@.len() as int),
        ensures
            pasted(*old(self), *final(self), visible@, above, cs@),
            final(self).task_manager == old(self).task_manager,
            final(self).project_manager == old(self).project_manager,
    {
        reveal(pasted);
        let mut cs: Vec<TaskCommand> = Vec::new();
        let n = self.task_manager.clipboard.len();
        if n == 0 {
            proof {
                reveal_strlit("Nothing yanked — press y on a task first");
            }
            self.status_msg = Some("Nothing yanked — press y on a task first".to_string());
            return cs;
        }
        let idx = self.task_manager.cursor_task_index(visible.as_slice());
        let os = paste_orders(self.task_manager.tasks.as_slice(), idx, above, n);
        let pid = self.project_manager.current().get_id();
        let ghost vals = paste_values(orders(self.task_manager.tasks@), idx, above, n as int);
        let mut k: usize = 0;
        while k < n
            invariant
                k <= n,
                n == self.task_manager.clipboard@.len(),
                os@.len() == n,
                forall|j: int| 0 <= j < n ==> os@[j] as int == #[trigger] vals[j],
                pid == active_project_id(self.project_manager),
                cs@.len() == k,
                forall|j: int| 0 <= j < k ==> is_paste(#[trigger] cs@[j], self.task_manager.clipboard@[j], pid, vals[j]),
            decreases n - k,
        {
            cs.push(TaskCommand::Paste(self.task_manager.clipboard[k].clone(), pid, os[k]));
            assert(is_paste(cs@[k as int], self.task_manager.clipboard@[k as int], pid, vals[k as int]));
            k = k + 1;
        }
        cs
    }

    /// `+` / `-`: move the targets' priorities one step up / down.
    pub fn priority_key(&mut self, visible: &Vec<usize>, up: bool) -> (cs: Vec<TaskCommand>)
        ensures
            priority_shifted(*old(self), *final(self), visible@, up, cs@),
            final(self).project_manager == old(self).project_manager,
    {
        reveal(priority_shifted);
        let (ups, msg) = self.task_manager.shift_priority(visible.as_slice(), up);
        let mut cs: Vec<TaskCommand> = Vec::new();
        if ups.len() > 0 {
            self.status_msg = msg;
            cs.push(TaskCommand::SetPriorities(ups));
        }
        cs
    }

    /// `[` / `]`: make row `idx` the project filter, cursor on the first row.
    pub fn jump_to_project(&mut self, idx: usize) -> (cs: Vec<TaskCommand>)
        ensures
            project_jumped(*old(self), *final(self), idx, cs@),
    {
        reveal(project_jumped);
        let cs = self.select_project(idx);
        self.task_manager.current = Some(0);
        cs
    }

    /// Normal-mode `d` / `Shift+D` on task `id` (the one under the cursor).
    pub fn remove_key(&mut self, id: ObjectId, hard: bool) -> (cs: Vec<TaskCommand>)
        ensures
            removed(*old(self), *final(self), id, hard, cs@),
    {
        reveal(removed);
        let mut cs: Vec<TaskCommand> = Vec::new();
        if self.task_manager.selected_tasks.len() > 0 {
            let ids = self.task_manager.selected_tasks.clone();
            if hard {
                cs.push(TaskCommand::DeleteMany(ids));
            } else {
                cs.push(TaskCommand::Status(StatusCommand::Many(ids, TaskStatus::Completed)));
            }
            self.task_manager.selected_tasks.clear();
        } else {
            if hard {
                cs.push(TaskCommand::Delete(id));
                proof {
                    reveal_strlit("Deleted — u to undo");
                }
                self.status_msg = Some("Deleted — u to undo".to_string());
            } else {
                cs.push(TaskCommand::Status(StatusCommand::One(id, TaskStatus::Completed)));
            }
            self.task_manager.current = match self.task_manager.current {
                Some(i) => if i == 0 { None } else { Some(i - 1) },
                None => None,
            };
        }
        cs
    }

    /// `s` on task `id`: open the status picker for the selection or the task.
    pub fn open_status_picker(&mut self, id: ObjectId)
        ensures
            status_opened(*old(self), *final(self), id),
    {
        reveal(status_opened);
        self.task_manager.status_picker_cursor = 0;
        self.task_manager.status_picker_open = true;
        if self.task_manager.selected_tasks.len() > 0 {
            self.task_manager.status_picker_ids = self.task_manager.selected_tasks.clone();
            self.task_manager.status_picker_task_id = None;
        } else {
            self.task_manager.status_picker_ids.clear();
            self.task_manager.status_picker_task_id = Some(id);
        }
    }

    /// Esc in the task list: drop the selection, else the filter, else go to Projects.
    pub fn escape_key(&mut self)
        ensures
            escaped(*old(self), *final(self)),
            lists_kept(*old(self), *final(self)),
            distinct_ids(old(self).task_manager.selected_tasks@) ==> distinct_ids(final(self).task_manager.selected_tasks@),
    {
        reveal(escaped);
        self.task_manager.escape(&mut self.app_state.window_state);
    }

    /// `Shift+S`: open the sort picker.
    pub fn sort_key(&mut self)
        ensures
            sort_picker_opened(*old(self), *final(self)),
            lists_kept(*old(self), *final(self)),
            final(self).task_manager.selected_tasks == old(self).task_manager.selected_tasks,
    {
        reveal(sort_picker_opened);
        self.task_manager.open_sort_picker();
    }

    /// Tab: toggle the task under the cursor in the selection.
    pub fn tab_key(&mut self, visible: &Vec<usize>)
        requires
            distinct_ids(old(self).task_manager.selected_tasks@),
        ensures
            tab_toggled(*old(self), *final(self), visible@),
            lists_kept(*old(self), *final(self)),
    {
        reveal(tab_toggled);
        self.task_manager.toggle_selected(visible.as_slice());
    }

    /// Move the cursor over `n` rows; `shift_jk` lets j/k move with Shift held.
    pub fn cursor_key(&mut self, keys: &CursorKeys, n: usize, shift_jk: bool)
        ensures
            cursor_moved(*old(self), *final(self), *keys, n as int, shift_jk),
    {
        reveal(cursor_moved);
        self.task_manager.move_cursor(keys, n, shift_jk);
    }

    /// `e` / `i` on task `id`: edit it in the Info pane.
    pub fn edit_task(&mut self, id: ObjectId)
        ensures
            edit_opened(*old(self), *final(self), id),
    {
        reveal(edit_opened);
        self.app_state.mode = Mode::Insert(Some(id));
        self.app_state.window_state = WindowState::Info;
    }
}

/// The Normal-mode keys pressed this frame, with the modifiers held:
/// `edit` is `e` or `i`, `plus` is `+` or `=`; the cursor keys are the same
/// presses seen by the cursor.
#[derive(Clone, Copy, Debug, PartialEq, Eq, Structural)]
pub struct NormalKeys {
    pub esc: bool,
    pub v: bool,
    pub s: bool,
    pub tab: bool,
    pub k: bool,
    pub c: bool,
    pub slash: bool,
    pub o: bool,
    pub y: bool,
    pub p: bool,
    pub enter: bool,
    pub plus: bool,
    pub minus: bool,
    pub open_bracket: bool,
    pub close_bracket: bool,
    pub d: bool,
    pub edit: bool,
    pub shift: bool,
    pub ctrl: bool,
    pub cursor: CursorKeys,
}

/// Nothing changes and nothing is asked of the store.
pub open spec fn kept(a: FastTask, b: FastTask, cs: Seq<TaskCommand>) -> bool {
    b == a && cs.len() == 0
}

/// Step `i` (below 16) of a Normal-mode frame, from `a` to `b` asking `cs`
/// of the store. The steps, in order: Esc, `v`, `Shift+S`, Tab, `Shift+K`,
/// `Shift+C`, `/`, `o`, `y`, `p`, Enter, `+`, `-`, `[`, `]`, the cursor keys;
/// `[` and `]` count from `pm0`, the project list at the frame's start.
#[verifier::opaque]
pub open spec fn normal_step(
    i: int,
    keys: NormalKeys,
    visible: Seq<usize>,
    pm0: ProjectManager,
    a: FastTask,
    b: FastTask,
    cs: Seq<TaskCommand>,
) -> bool {
    let cur = pm0.current_project;
    if i == 0 {
        if keys.esc { escaped(a, b) && cs.len() == 0 } else { kept(a, b, cs) }
    } else if i == 1 {
        if keys.v && !keys.shift {
            b.app_state == (AppState { mode: Mode::Visual, ..a.app_state }) && b == (FastTask {
                app_state: b.app_state,
                ..a
            }) && cs.len() == 0
        } else {
            kept(a, b, cs)
        }
    } else if i == 2 {
        if keys.s && keys.shift { sort_picker_opened(a, b) && cs.len() == 0 } else { kept(a, b, cs) }
    } else if i == 3 {
        if keys.tab { tab_toggled(a, b, visible) && cs.len() == 0 } else { kept(a, b, cs) }
    } else if i == 4 {
        if keys.shift && keys.k {
            b.app_state == (AppState { show_detail_pane: !a.app_state.show_detail_pane, ..a.app_state }) && b == (
            FastTask { app_state: b.app_state, ..a }) && cs.len() == 0
        } else {
            kept(a, b, cs)
        }
    } else if i == 5 {
        if keys.shift && keys.c { completed_toggled(a, b, cs) } else { kept(a, b, cs) }
    } else if i == 6 {
        if keys.slash {
            b.task_manager == (TaskManager { filter_open: true, filter_just_opened: true, ..a.task_manager }) && b == (
            FastTask { task_manager: b.task_manager, ..a }) && cs.len() == 0
        } else {
            kept(a, b, cs)
        }
    } else if i == 7 {
        if keys.o { new_task_opened(a, b, visible, keys.shift) && cs.len() == 0 } else { kept(a, b, cs) }
    } else if i == 8 {
        if keys.y { yanked(a, b, visible) && cs.len() == 0 } else { kept(a, b, cs) }
    } else if i == 9 {
        if keys.p { pasted(a, b, visible, keys.shift, cs) } else { kept(a, b, cs) }
    } else if i == 10 {
        if keys.enter && a.task_manager.current is Some && visible.len() > 0 {
            b.app_state == (AppState { window_state: WindowState::Info, ..a.app_state }) && b == (FastTask {
                app_state: b.app_state,
                ..a
            }) && cs.len() == 0
        } else {
            kept(a, b, cs)
        }
    } else if i == 11 {
        if keys.plus { priority_shifted(a, b, visible, true, cs) } else { kept(a, b, cs) }
    } else if i == 12 {
        if keys.minus { priority_shifted(a, b, visible, false, cs) } else { kept(a, b, cs) }
    } else if i == 13 {
        if keys.open_bracket && cur > 0 { project_jumped(a, b, (cur - 1) as usize, cs) } else { kept(a, b, cs) }
    } else if i == 14 {
        if keys.close_bracket && cur + 1 < pm0.projects@.len() {
            project_jumped(a, b, (cur + 1) as usize, cs)
        } else {
            kept(a, b, cs)
        }
    } else {
        cursor_moved(a, b, keys.cursor, visible.len() as int, true) && cs.len() == 0
    }
}

/// The last steps of a Normal-mode frame, on `ct`, the task under the cursor
/// once it has moved: `d` (step 16), `s` (17) and `e` (18).
#[verifier::opaque]
pub open spec fn task_step(i: int, keys: NormalKeys, ct: Option<ObjectId>, a: FastTask, b: FastTask, cs: Seq<TaskCommand>) -> bool {
    if i == 16 {
        match ct {
            Some(id) => if keys.d && !keys.ctrl { removed(a, b, id, keys.shift, cs) } else { kept(a, b, cs) },
            None => kept(a, b, cs),
        }
    } else if i == 17 {
        match ct {
            Some(id) => if keys.s { status_opened(a, b, id) && cs.len() == 0 } else { kept(a, b, cs) },
            None => kept(a, b, cs),
        }
    } else {
        match ct {
            Some(id) => if keys.edit { edit_opened(a, b, id) && cs.len() == 0 } else { kept(a, b, cs) },
            None => kept(a, b, cs),
        }
    }
}

/// Step `i` of a Normal-mode frame within its states `s` and commands `c`.
pub open spec fn normal_step_at(
    i: int,
    keys: NormalKeys,
    visible: Seq<usize>,
    s: Seq<FastTask>,
    c: Seq<Seq<TaskCommand>>,
) -> bool {
    if i < 16 {
        normal_step(i, keys, visible, s[0].project_manager, s[i], s[i + 1], c[i])
    } else {
        task_step(i, keys, cursor_task(s[16].task_manager, visible), s[i], s[i + 1], c[i])
    }
}

/// A Normal-mode frame with `keys` takes the window from `a` to `b` and asks
/// `cmds` of the store: the nineteen steps, run in order, each on the state
/// the one before left, their commands in the same order.
pub open spec fn normal_frame(keys: NormalKeys, visible: Seq<usize>, a: FastTask, b: FastTask, cmds: Seq<TaskCommand>) -> bool {
    exists|s: Seq<FastTask>, c: Seq<Seq<TaskCommand>>|
        #![trigger s[19], c.flatten()]
        {
            &&& s.len() == 20
            &&& c.len() == 19
            &&& s[0] == a
            &&& s[19] == b
            &&& cmds == c.flatten()
            &&& forall|i: int| 0 <= i < 19 ==> #[trigger] normal_step_at(i, keys, visible, s, c)
        }
}

/// A Normal-mode frame from the nineteen steps, each shown on its own states.
#[verifier::spinoff_prover]
proof fn lemma_normal_frame(
    keys: NormalKeys,
    visible: Seq<usize>,
    s0: FastTask, s1: FastTask, s2: FastTask, s3: FastTask, s4: FastTask, s5: FastTask, s6: FastTask,
    s7: FastTask, s8: FastTask, s9: FastTask, s10: FastTask, s11: FastTask, s12: FastTask, s13: FastTask,
    s14: FastTask, s15: FastTask, s16: FastTask, s17: FastTask, s18: FastTask, s19: FastTask,
    c5: Seq<TaskCommand>, c9: Seq<TaskCommand>, c11: Seq<TaskCommand>, c12: Seq<TaskCommand>,
    c13: Seq<TaskCommand>, c14: Seq<TaskCommand>, c16: Seq<TaskCommand>,
    cmds: Seq<TaskCommand>,
)
    requires
        normal_step(0, keys, visible, s0.project_manager, s0, s1, Seq::empty()),
        normal_step(1, keys, visible, s0.project_manager, s1, s2, Seq::empty()),
        normal_step(2, keys, visible, s0.project_manager, s2, s3, Seq::empty()),
        normal_step(3, keys, visible, s0.project_manager, s3, s4, Seq::empty()),
        normal_step(4, keys, visible, s0.project_manager, s4, s5, Seq::empty()),
        normal_step(5, keys, visible, s0.project_manager, s5, s6, c5),
        normal_step(6, keys, visible, s0.project_manager, s6, s7, Seq::empty()),
        normal_step(7, keys, visible, s0.project_manager, s7, s8, Seq::empty()),
        normal_step(8, keys, visible, s0.project_manager, s8, s9, Seq::empty()),
        normal_step(9, keys, visible, s0.project_manager, s9, s10, c9),
        normal_step(10, keys, visible, s0.project_manager, s10, s11, Seq::empty()),
        normal_step(11, keys, visible, s0.project_manager, s11, s12, c11),
        normal_step(12, keys, visible, s0.project_manager, s12, s13, c12),
        normal_step(13, keys, visible, s0.project_manager, s13, s14, c13),
        normal_step(14, keys, visible, s0.project_manager, s14, s15, c14),
        normal_step(15, keys, visible, s0.project_manager, s15, s16, Seq::empty()),
        task_step(16, keys, cursor_task(s16.task_manager, visible), s16, s17, c16),
        task_step(17, keys, cursor_task(s16.task_manager, visible), s17, s18, Seq::empty()),
        task_step(18, keys, cursor_task(s16.task_manager, visible), s18, s19, Seq::empty()),
        cmds == c5 + c9 + c11 + c12 + c13 + c14 + c16,
    ensures
        normal_frame(keys, visible, s0, s19, cmds),
{
    let e: Seq<TaskCommand> = Seq::empty();
    let ss = seq![s0, s1, s2, s3, s4, s5, s6, s7, s8, s9, s10, s11, s12, s13, s14, s15, s16, s17, s18, s19];
    let cc = seq![e, e, e, e, e, c5, e, e, e, c9, e, c11, c12, c13, c14, e, c16, e, e];
    assert(ss[0] == s0 && ss[1] == s1 && ss[2] == s2 && ss[3] == s3 && ss[4] == s4 && ss[5] == s5);
    assert(ss[6] == s6 && ss[7] == s7 && ss[8] == s8 && ss[9] == s9 && ss[10] == s10 && ss[11] == s11);
    assert(ss[12] == s12 && ss[13] == s13 && ss[14] == s14 && ss[15] == s15 && ss[16] == s16);
    assert(ss[17] == s17 && ss[18] == s18 && ss[19] == s19);
    assert(cc[0] == e && cc[1] == e && cc[2] == e && cc[3] == e && cc[4] == e && cc[5] == c5);
    assert(cc[6] == e && cc[7] == e && cc[8] == e && cc[9] == c9 && cc[10] == e && cc[11] == c11);
    assert(cc[12] == c12 && cc[13] == c13 && cc[14] == c14 && cc[15] == e && cc[16] == c16);
    assert(cc[17] == e && cc[18] == e);
    assert forall|i: int| 0 <= i < 19 implies #[trigger] normal_step_at(i, keys, visible, ss, cc) by {
    }
    assert(cmds == cc.flatten()) by {
        cc.lemma_flatten_and_flatten_alt_are_equivalent();
        reveal_with_fuel(Seq::flatten_alt, 20);
        assert(e + c5 + e =~= c5);
    }
}

impl TaskManager {
    /// Whether the task orders leave room for this frame's keys (see
    /// `orders_have_room`).
    pub fn orders_room(&self, visible: &Vec<usize>) -> (b: bool)
        ensures
            b == orders_have_room(*self, visible@),
    {
        let m = max_task_order(self.tasks.as_slice()) as u128;
        let n = self.tasks.len() as u128 + visible.len() as u128 + self.clipboard.len() as u128 + 2;
        assert(n * 1000 <= 0x1_0000_0000_0000_0000_0000 * 1000) by (nonlinear_arith)
            requires
                n <= 0x1_0000_0000_0000_0000_0000,
        ;
        2 * m + n * (ORDER_GAP as u128) <= u64::MAX as u128
    }
}

impl FastTask {
    /// The task under the cursor, by id.
    fn cursor_task_id(&self, visible: &Vec<usize>) -> (r: Option<ObjectId>)
        ensures
            r == cursor_task(self.task_manager, visible@),
    {
        match self.task_manager.cursor_task_index(visible.as_slice()) {
            Some(ri) => Some(self.task_manager.tasks[ri].id),
            None => None,
        }
    }

    /// Steps 0 to 6 of a Normal-mode frame; `r.1` holds the states after
    /// each of steps 0 to 5.
    #[verifier::spinoff_prover]
    #[verifier::rlimit(40)]
    fn view_keys(&mut self, keys: &NormalKeys, visible: &Vec<usize>) -> (r: (Vec<TaskCommand>, Ghost<Seq<FastTask>>))
        requires
            distinct_ids(old(self).task_manager.selected_tasks@),
            old(self).project_manager.current_project < old(self).project_manager.projects@.len(),
        ensures
            r.1@.len() == 6,
            normal_step(0, *keys, visible@, old(self).project_manager, *old(self), r.1@[0], Seq::empty()),
            normal_step(1, *keys, visible@, old(self).project_manager, r.1@[0], r.1@[1], Seq::empty()),
            normal_step(2, *keys, visible@, old(self).project_manager, r.1@[1], r.1@[2], Seq::empty()),
            normal_step(3, *keys, visible@, old(self).project_manager, r.1@[2], r.1@[3], Seq::empty()),
            normal_step(4, *keys, visible@, old(self).project_manager, r.1@[3], r.1@[4], Seq::empty()),
            normal_step(5, *keys, visible@, old(self).project_manager, r.1@[4], r.1@[5], r.0@),
            normal_step(6, *keys, visible@, old(self).project_manager, r.1@[5], *final(self), Seq::empty()),
            final(self).task_manager.tasks == old(self).task_manager.tasks,
            final(self).task_manager.current == old(self).task_manager.current,
            final(self).task_manager.clipboard == old(self).task_manager.clipboard,
            final(self).project_manager == old(self).project_manager,
    {
        let ghost s0 = *self;
        if keys.esc {
            self.escape_key();
        }
        let ghost s1 = *self;
        assert(normal_step(0, *keys, visible@, s0.project_manager, s0, s1, Seq::empty())) by {
            reveal(normal_step);
        }
        if keys.v && !keys.shift {
            self.app_state = AppState { mode: Mode::Visual, ..self.app_state };
        }
        let ghost s2 = *self;
        assert(normal_step(1, *keys, visible@, s0.project_manager, s1, s2, Seq::empty())) by {
            reveal(normal_step);
        }
        if keys.s && keys.shift {
            self.sort_key();
        }
        let ghost s3 = *self;
        assert(normal_step(2, *keys, visible@, s0.project_manager, s2, s3, Seq::empty())) by {
            reveal(normal_step);
        }
        if keys.tab {
            self.tab_key(visible);
        }
        let ghost s4 = *self;
        assert(normal_step(3, *keys, visible@, s0.project_manager, s3, s4, Seq::empty())) by {
            reveal(normal_step);
        }
        if keys.shift && keys.k {
            self.app_state = AppState { show_detail_pane: !self.app_state.show_detail_pane, ..self.app_state };
        }
        let ghost s5 = *self;
        assert(normal_step(4, *keys, visible@, s0.project_manager, s4, s5, Seq::empty())) by {
            reveal(normal_step);
        }
        let cs = if keys.shift && keys.c { self.toggle_completed() } else { Vec::new() };
        let ghost s6 = *self;
        assert(normal_step(5, *keys, visible@, s0.project_manager, s5, s6, cs@)) by {
            reveal(normal_step);
        }
        if keys.slash {
            self.task_manager.open_filter();
        }
        let ghost s7 = *self;
        assert(normal_step(6, *keys, visible@, s0.project_manager, s6, s7, Seq::empty())) by {
            reveal(normal_step);
        }
        let ghost states_v = seq![s1, s2, s3, s4, s5, s6];
        let states: Ghost<Seq<FastTask>>= Ghost(states_v);
        (cs, states)
    }

    /// Steps 7 to 12 of a Normal-mode frame; `r.1` holds the states after
    /// each of steps 7 to 11.
    #[verifier::spinoff_prover]
    #[verifier::rlimit(40)]
    fn edit_keys(&mut self, keys: &NormalKeys, visible: &Vec<usize>, Ghost(pm0): Ghost<ProjectManager>) -> (r: (Vec<TaskCommand>, Ghost<Seq<FastTask>>, Ghost<Seq<Seq<TaskCommand>>>))
        requires
            orders_have_room(old(self).task_manager, visible@),
            old(self).project_manager.current_project < old(self).project_manager.projects@.len(),
        ensures
            r.1@.len() == 5,
            r.2@.len() == 3,
            r.0@ == r.2@[0] + r.2@[1] + r.2@[2],
            normal_step(7, *keys, visible@, pm0, *old(self), r.1@[0], Seq::empty()),
            normal_step(8, *keys, visible@, pm0, r.1@[0], r.1@[1], Seq::empty()),
            normal_step(9, *keys, visible@, pm0, r.1@[1], r.1@[2], r.2@[0]),
            normal_step(10, *keys, visible@, pm0, r.1@[2], r.1@[3], Seq::empty()),
            normal_step(11, *keys, visible@, pm0, r.1@[3], r.1@[4], r.2@[1]),
            normal_step(12, *keys, visible@, pm0, r.1@[4], *final(self), r.2@[2]),
            final(self).project_manager == old(self).project_manager,
    {
        let ghost s7 = *self;
        if keys.o {
            proof {
                lemma_room_new_order(s7.task_manager, visible@, keys.shift);
            }
            self.open_new_task(visible, keys.shift);
        }
        let ghost s8 = *self;
        assert(normal_step(7, *keys, visible@, pm0, s7, s8, Seq::empty())) by {
            reveal(normal_step);
        }
        if keys.y {
            self.yank_key(visible);
        }
        let ghost s9 = *self;
        assert(normal_step(8, *keys, visible@, pm0, s8, s9, Seq::empty())) by {
            reveal(normal_step);
        }
        proof {
            lemma_targets_len(s8.task_manager, visible@);
        }
        let mut c9 = if keys.p {
            proof {
                lemma_room_paste(s7.task_manager, s9.task_manager, visible@, keys.shift);
            }
            self.paste(visible, keys.shift)
        } else {
            Vec::new()
        };
        let ghost g9 = c9@;
        let ghost s10 = *self;
        assert(normal_step(9, *keys, visible@, pm0, s9, s10, g9)) by {
            reveal(normal_step);
        }
        if keys.enter && self.task_manager.current.is_some() && visible.len() > 0 {
            self.app_state = AppState { window_state: WindowState::Info, ..self.app_state };
        }
        let ghost s11 = *self;
        assert(normal_step(10, *keys, visible@, pm0, s10, s11, Seq::empty())) by {
            reveal(normal_step);
        }
        let mut c11 = if keys.plus { self.priority_key(visible, true) } else { Vec::new() };
        let ghost g11 = c11@;
        let ghost s12 = *self;
        assert(normal_step(11, *keys, visible@, pm0, s11, s12, g11)) by {
            reveal(normal_step);
        }
        let mut c12 = if keys.minus { self.priority_key(visible, false) } else { Vec::new() };
        let ghost g12 = c12@;
        let ghost s13 = *self;
        assert(normal_step(12, *keys, visible@, pm0, s12, s13, g12)) by {
            reveal(normal_step);
        }
        c9.append(&mut c11);
        c9.append(&mut c12);
        let ghost states_v = seq![s8, s9, s10, s11, s12];
        let states: Ghost<Seq<FastTask>>= Ghost(states_v);
        let ghost chunks_v = seq![g9, g11, g12];
        let chunks: Ghost<Seq<Seq<TaskCommand>>>= Ghost(chunks_v);
        (c9, states, chunks)
    }

    /// Steps 13 to 15 of a Normal-mode frame; `r.1` holds the states after
    /// steps 13 and 14.
    #[verifier::spinoff_prover]
    #[verifier::rlimit(40)]
    fn move_keys(&mut self, keys: &NormalKeys, visible: &Vec<usize>) -> (r: (Vec<TaskCommand>, Ghost<Seq<FastTask>>, Ghost<Seq<Seq<TaskCommand>>>))
        ensures
            r.1@.len() == 2,
            r.2@.len() == 2,
            r.0@ == r.2@[0] + r.2@[1],
            normal_step(13, *keys, visible@, old(self).project_manager, *old(self), r.1@[0], r.2@[0]),
            normal_step(14, *keys, visible@, old(self).project_manager, r.1@[0], r.1@[1], r.2@[1]),
            normal_step(15, *keys, visible@, old(self).project_manager, r.1@[1], *final(self), Seq::empty()),
    {
        let ghost s13 = *self;
        let cur = self.project_manager.current_project;
        let n = self.project_manager.projects.len();
        let mut c13 = if keys.open_bracket && cur > 0 { self.jump_to_project(cur - 1) } else { Vec::new() };
        let ghost g13 = c13@;
        let ghost s14 = *self;
        assert(normal_step(13, *keys, visible@, s13.project_manager, s13, s14, g13)) by {
            reveal(normal_step);
        }
        let mut c14 = if keys.close_bracket && cur < n && cur + 1 < n {
            self.jump_to_project(cur + 1)
        } else {
            Vec::new()
        };
        let ghost g14 = c14@;
        let ghost s15 = *self;
        assert(normal_step(14, *keys, visible@, s13.project_manager, s14, s15, g14)) by {
            reveal(normal_step);
        }
        self.cursor_key(&keys.cursor, visible.len(), true);
        let ghost s16 = *self;
        assert(normal_step(15, *keys, visible@, s13.project_manager, s15, s16, Seq::empty())) by {
            reveal(normal_step);
        }
        c13.append(&mut c14);
        let ghost states_v = seq![s14, s15];
        let states: Ghost<Seq<FastTask>>= Ghost(states_v);
        let ghost chunks_v = seq![g13, g14];
        let chunks: Ghost<Seq<Seq<TaskCommand>>>= Ghost(chunks_v);
        (c13, states, chunks)
    }

    /// Steps 16 to 18 of a Normal-mode frame, on the task under the cursor;
    /// `r.1` holds the states after steps 16 and 17.
    #[verifier::spinoff_prover]
    #[verifier::rlimit(40)]
    fn cursor_task_keys(&mut self, keys: &NormalKeys, visible: &Vec<usize>) -> (r: (Vec<TaskCommand>, Ghost<Seq<FastTask>>))
        ensures
            r.1@.len() == 2,
            task_step(16, *keys, cursor_task(old(self).task_manager, visible@), *old(self), r.1@[0], r.0@),
            task_step(17, *keys, cursor_task(old(self).task_manager, visible@), r.1@[0], r.1@[1], Seq::empty()),
            task_step(18, *keys, cursor_task(old(self).task_manager, visible@), r.1@[1], *final(self), Seq::empty()),
    {
        let ghost s16 = *self;
        let ct = self.cursor_task_id(visible);
        let c16 = match ct {
            Some(id) => if keys.d && !keys.ctrl { self.remove_key(id, keys.shift) } else { Vec::new() },
            None => Vec::new(),
        };
        let ghost s17 = *self;
        assert(task_step(16, *keys, ct, s16, s17, c16@)) by {
            reveal(task_step);
        }
        match ct {
            Some(id) => if keys.s {
                self.open_status_picker(id);
            },
            None => {},
        }
        let ghost s18 = *self;
        assert(task_step(17, *keys, ct, s17, s18, Seq::empty())) by {
            reveal(task_step);
        }
        match ct {
            Some(id) => if keys.edit {
                self.edit_task(id);
            },
            None => {},
        }
        let ghost s19 = *self;
        assert(task_step(18, *keys, ct, s18, s19, Seq::empty())) by {
            reveal(task_step);
        }
        let ghost states_v = seq![s17, s18];
        let states: Ghost<Seq<FastTask>>= Ghost(states_v);
        (c16, states)
    }

    /// The Normal-mode keys of one frame in the task pane (see `normal_step`
    /// and `task_step` for what each does, and in which order).
    #[verifier::spinoff_prover]
    #[verifier::rlimit(40)]
    pub fn normal_mode_keys(&mut self, keys: &NormalKeys, visible: &Vec<usize>) -> (cmds: Vec<TaskCommand>)
        requires
            distinct_ids(old(self).task_manager.selected_tasks@),
            orders_have_room(old(self).task_manager, visible@),
            old(self).project_manager.current_project < old(self).project_manager.projects@.len(),
        ensures
            normal_frame(*keys, visible@, *old(self), *final(self), cmds@),
    {
        let ghost s0 = *self;
        let (mut cmds, ga) = self.view_keys(keys, visible);
        let ghost s7 = *self;
        let (mut cb, gb, hb) = self.edit_keys(keys, visible, Ghost(s0.project_manager));
        let ghost s13 = *self;
        let (mut cc, gc, hc) = self.move_keys(keys, visible);
        let ghost s16 = *self;
        let (mut cd, gd) = self.cursor_task_keys(keys, visible);
        let ghost s19 = *self;
        let ghost g5 = cmds@;
        let ghost g16 = cd@;
        cmds.append(&mut cb);
        cmds.append(&mut cc);
        cmds.append(&mut cd);
        proof {
            let a = ga@;
            let b = gb@;
            let c = gc@;
            let d = gd@;
            assert(cmds@ =~= g5 + hb@[0] + hb@[1] + hb@[2] + hc@[0] + hc@[1] + g16);
            lemma_normal_frame(*keys, visible@, s0, a[0], a[1], a[2], a[3], a[4], a[5], s7, b[0], b[1], b[2], b[3],
                b[4], s13, c[0], c[1], s16, d[0], d[1], s19, g5, hb@[0], hb@[1], hb@[2], hc@[0], hc@[1], g16, cmds@);
        }
        cmds
    }
}

/// The Visual-mode keys pressed this frame, with the modifiers held:
/// `edit` is `e` or `i`; Shift+J / Shift+K reorder (the cursor's `j` / `k`).
#[derive(Clone, Copy, Debug, PartialEq, Eq, Structural)]
pub struct VisualKeys {
    pub esc: bool,
    pub y: bool,
    pub p: bool,
    pub d: bool,
    pub s: bool,
    pub edit: bool,
    pub shift: bool,
    pub ctrl: bool,
    pub cursor: CursorKeys,
}

/// The tasks after rows `x` and `y` trade places and orders.
pub open spec fn swapped_rows(ts: Seq<TaskView>, x: int, y: int) -> Seq<TaskView> {
    ts.update(x, TaskView { order: ts[x].order, ..ts[y] }).update(y, TaskView { order: ts[y].order, ..ts[x] })
}

/// Visual-mode Shift+J / Shift+K: with the list in free order and no filter,
/// the row under the cursor trades places (and orders) with the next /
/// previous one, the cursor follows it and both orders go to the store;
/// nothing happens otherwise.
#[verifier::opaque]
pub open spec fn reordered(a: FastTask, b: FastTask, keys: VisualKeys, cs: Seq<TaskCommand>) -> bool {
    let tm = a.task_manager;
    let ok = tm.sort_order == SortOrder::Free && tm.filter_query@.len() == 0 && tm.current is Some;
    let x = tm.current->0 as int;
    let n = tm.tasks@.len();
    let down = ok && keys.shift && keys.cursor.j && x + 1 < n;
    let up = ok && !down && keys.shift && keys.cursor.k && 0 < x < n;
    let y = if down { x + 1 } else { x - 1 };
    &&& !down && !up ==> kept(a, b, cs)
    &&& down || up ==> {
        let tx = tm.tasks@[x]@;
        let ty = tm.tasks@[y]@;
        &&& views(b.task_manager.tasks@) == swapped_rows(views(tm.tasks@), x, y)
        &&& b.task_manager == (TaskManager {
            tasks: b.task_manager.tasks,
            current: Some(y as usize),
            ..tm
        })
        &&& b == (FastTask { task_manager: b.task_manager, ..a })
        &&& cs == seq![TaskCommand::Swap((tx.id, ty.order), (ty.id, tx.order))]
    }
}

/// Visual-mode `d` / `Shift+D` on task `id`: it is completed / deleted and
/// the mode goes back to Normal.
#[verifier::opaque]
pub open spec fn visual_removed(a: FastTask, b: FastTask, id: ObjectId, hard: bool, cs: Seq<TaskCommand>) -> bool {
    &&& b.app_state == (AppState { mode: Mode::Normal, ..a.app_state })
    &&& b == (FastTask { app_state: b.app_state, ..a })
    &&& hard ==> cs == seq![TaskCommand::Delete(id)]
    &&& !hard ==> cs == seq![TaskCommand::Status(StatusCommand::One(id, TaskStatus::Completed))]
}

/// Visual-mode `s` on task `id`: the status picker opens on its first row
/// for task `id`.
#[verifier::opaque]
pub open spec fn visual_status_opened(a: FastTask, b: FastTask, id: ObjectId) -> bool {
    &&& b.task_manager == (TaskManager {
        status_picker_open: true,
        status_picker_task_id: Some(id),
        status_picker_cursor: 0,
        ..a.task_manager
    })
    &&& b == (FastTask { task_manager: b.task_manager, ..a })
}

/// Step `i` (below 5) of a Visual-mode frame: Esc, the cursor keys, `y`,
/// `p`, then Shift+J / Shift+K.
#[verifier::opaque]
pub open spec fn visual_step(i: int, keys: VisualKeys, visible: Seq<usize>, a: FastTask, b: FastTask, cs: Seq<TaskCommand>) -> bool {
    if i == 0 {
        if keys.esc {
            b.app_state == (AppState { mode: Mode::Normal, ..a.app_state }) && b == (FastTask {
                app_state: b.app_state,
                ..a
            }) && cs.len() == 0
        } else {
            kept(a, b, cs)
        }
    } else if i == 1 {
        cursor_moved(a, b, keys.cursor, visible.len() as int, false) && cs.len() == 0
    } else if i == 2 {
        if keys.y { yanked(a, b, visible) && cs.len() == 0 } else { kept(a, b, cs) }
    } else if i == 3 {
        if keys.p { pasted(a, b, visible, keys.shift, cs) } else { kept(a, b, cs) }
    } else {
        reordered(a, b, keys, cs)
    }
}

/// The last steps of a Visual-mode frame, on `ct`, the task under the
/// cursor after the reordering: `d` (step 5), `s` (6) and `e` (7).
#[verifier::opaque]
pub open spec fn visual_task_step(i: int, keys: VisualKeys, ct: Option<ObjectId>, a: FastTask, b: FastTask, cs: Seq<TaskCommand>) -> bool {
    if i == 5 {
        match ct {
            Some(id) => if keys.d && !keys.ctrl { visual_removed(a, b, id, keys.shift, cs) } else { kept(a, b, cs) },
            None => kept(a, b, cs),
        }
    } else if i == 6 {
        match ct {
            Some(id) => if keys.s { visual_status_opened(a, b, id) && cs.len() == 0 } else { kept(a, b, cs) },
            None => kept(a, b, cs),
        }
    } else {
        match ct {
            Some(id) => if keys.edit { edit_opened(a, b, id) && cs.len() == 0 } else { kept(a, b, cs) },
            None => kept(a, b, cs),
        }
    }
}

/// Step `i` of a Visual-mode frame within its states `s` and commands `c`.
pub open spec fn visual_step_at(i: int, keys: VisualKeys, visible: Seq<usize>, s: Seq<FastTask>, c: Seq<Seq<TaskCommand>>) -> bool {
    if i < 5 {
        visual_step(i, keys, visible, s[i], s[i + 1], c[i])
    } else {
        visual_task_step(i, keys, cursor_task(s[5].task_manager, visible), s[i], s[i + 1], c[i])
    }
}

/// A Visual-mode frame with `keys` takes the window from `a` to `b` and asks
/// `cmds` of the store: the eight steps, run in order, each on the state the
/// one before left, their commands in the same order.
pub open spec fn visual_frame(keys: VisualKeys, visible: Seq<usize>, a: FastTask, b: FastTask, cmds: Seq<TaskCommand>) -> bool {
    exists|s: Seq<FastTask>, c: Seq<Seq<TaskCommand>>|
        #![trigger s[8], c.flatten()]
        {
            &&& s.len() == 9
            &&& c.len() == 8
            &&& s[0] == a
            &&& s[8] == b
            &&& cmds == c.flatten()
            &&& forall|i: int| 0 <= i < 8 ==> #[trigger] visual_step_at(i, keys, visible, s, c)
        }
}

/// A Visual-mode frame from its eight steps, each shown on its own states.
proof fn lemma_visual_frame(
    keys: VisualKeys,
    visible: Seq<usize>,
    s0: FastTask, s1: FastTask, s2: FastTask, s3: FastTask, s4: FastTask, s5: FastTask, s6: FastTask,
    s7: FastTask, s8: FastTask,
    c3: Seq<TaskCommand>, c4: Seq<TaskCommand>, c5: Seq<TaskCommand>,
    cmds: Seq<TaskCommand>,
)
    requires
        visual_step(0, keys, visible, s0, s1, Seq::empty()),
        visual_step(1, keys, visible, s1, s2, Seq::empty()),
        visual_step(2, keys, visible, s2, s3, Seq::empty()),
        visual_step(3, keys, visible, s3, s4, c3),
        visual_step(4, keys, visible, s4, s5, c4),
        visual_task_step(5, keys, cursor_task(s5.task_manager, visible), s5, s6, c5),
        visual_task_step(6, keys, cursor_task(s5.task_manager, visible), s6, s7, Seq::empty()),
        visual_task_step(7, keys, cursor_task(s5.task_manager, visible), s7, s8, Seq::empty()),
        cmds == c3 + c4 + c5,
    ensures
        visual_frame(keys, visible, s0, s8, cmds),
{
    let e: Seq<TaskCommand> = Seq::empty();
    let ss = seq![s0, s1, s2, s3, s4, s5, s6, s7, s8];
    let cc = seq![e, e, e, c3, c4, c5, e, e];
    assert(ss[0] == s0 && ss[1] == s1 && ss[2] == s2 && ss[3] == s3 && ss[4] == s4 && ss[5] == s5);
    assert(ss[6] == s6 && ss[7] == s7 && ss[8] == s8);
    assert(cc[0] == e && cc[1] == e && cc[2] == e && cc[3] == c3 && cc[4] == c4 && cc[5] == c5);
    assert(cc[6] == e && cc[7] == e);
    assert forall|i: int| 0 <= i < 8 implies #[trigger] visual_step_at(i, keys, visible, ss, cc) by {}
    assert(cmds == cc.flatten()) by {
        cc.lemma_flatten_and_flatten_alt_are_equivalent();
        reveal_with_fuel(Seq::flatten_alt, 9);
        assert(e + c3 =~= c3);
    }
}

/// The filter bar's keys: Esc clears the filter and closes the bar, Enter
/// closes it and keeps the filter.
pub open spec fn filter_keys_done(a: FastTask, b: FastTask, esc: bool, enter: bool) -> bool {
    &&& esc ==> b.task_manager.filter_query@.len() == 0
    &&& !esc ==> b.task_manager.filter_query == a.task_manager.filter_query
    &&& b.task_manager == (TaskManager {
        filter_query: b.task_manager.filter_query,
        filter_open: if esc || enter { false } else { a.task_manager.filter_open },
        ..a.task_manager
    })
    &&& b == (FastTask { task_manager: b.task_manager, ..a })
}

/// An action a mouse user triggered from a task row's hover icons (or the
/// clickable status glyph): the same as the keys that do it.
#[derive(Clone, Copy, Debug, PartialEq, Eq, Structural)]
pub enum RowAction {
    Edit(ObjectId),
    Complete(ObjectId),
    Delete(ObjectId),
    Status(ObjectId),
}

/// What a row action does: edit opens the task in the Info pane; complete
/// and delete go to the store (a deletion says how to undo it); status opens
/// the picker for that task alone.
pub open spec fn row_action_done(a: FastTask, b: FastTask, act: RowAction, cs: Seq<TaskCommand>) -> bool {
    match act {
        RowAction::Edit(id) => edit_opened(a, b, id) && cs.len() == 0,
        RowAction::Complete(id) => b == a && cs == seq![TaskCommand::Status(StatusCommand::One(id, TaskStatus::Completed))],
        RowAction::Delete(id) => b == (FastTask { status_msg: b.status_msg, ..a })
            && (b.status_msg matches Some(m) && m@ == deleted_message())
            && cs == seq![TaskCommand::Delete(id)],
        RowAction::Status(id) => {
            &&& b.task_manager.status_picker_ids@.len() == 0
            &&& b.task_manager == (TaskManager {
                status_picker_cursor: 0,
                status_picker_open: true,
                status_picker_ids: b.task_manager.status_picker_ids,
                status_picker_task_id: Some(id),
                ..a.task_manager
            })
            &&& b == (FastTask { task_manager: b.task_manager, ..a })
            &&& cs.len() == 0
        },
    }
}

impl FastTask {
    /// Visual-mode Shift+J / Shift+K.
    pub fn reorder_key(&mut self, keys: &VisualKeys) -> (cs: Vec<TaskCommand>)
        ensures
            reordered(*old(self), *final(self), *keys, cs@),
    {
        reveal(reordered);
        let mut cs: Vec<TaskCommand> = Vec::new();
        if self.task_manager.sort_order == SortOrder::Free && self.task_manager.filter_query.unicode_len() == 0 {
            match self.task_manager.current {
                Some(x) => {
                    let n = self.task_manager.tasks.len();
                    let down = keys.shift && keys.cursor.j && x < n && x + 1 < n;
                    if down || (keys.shift && keys.cursor.k && x > 0 && x < n) {
                        let y = if down { x + 1 } else { x - 1 };
                        match self.task_manager.swap_tasks(x, y) {
                            Some(ups) => {
                                self.task_manager.current = Some(y);
                                cs.push(TaskCommand::Swap(ups.0, ups.1));
                                assert(cs@ =~= seq![TaskCommand::Swap(ups.0, ups.1)]);
                            },
                            None => {},
                        }
                    }
                },
                None => {},
            }
        }
        cs
    }

    /// Visual-mode `d` / `Shift+D` on task `id`.
    pub fn visual_remove_key(&mut self, id: ObjectId, hard: bool) -> (cs: Vec<TaskCommand>)
        ensures
            visual_removed(*old(self), *final(self), id, hard, cs@),
    {
        reveal(visual_removed);
        let mut cs: Vec<TaskCommand> = Vec::new();
        if hard {
            cs.push(TaskCommand::Delete(id));
        } else {
            cs.push(TaskCommand::Status(StatusCommand::One(id, TaskStatus::Completed)));
        }
        self.app_state = AppState { mode: Mode::Normal, ..self.app_state };
        cs
    }

    /// Visual-mode `s` on task `id`.
    pub fn visual_status_key(&mut self, id: ObjectId)
        ensures
            visual_status_opened(*old(self), *final(self), id),
    {
        reveal(visual_status_opened);
        self.task_manager.open_status_for(id);
    }

    /// Steps 0 to 4 of a Visual-mode frame; `r.1` holds the states after
    /// each of steps 0 to 3.
    #[verifier::spinoff_prover]
    #[verifier::rlimit(40)]
    fn visual_list_keys(&mut self, keys: &VisualKeys, visible: &Vec<usize>) -> (r: (Vec<TaskCommand>, Ghost<Seq<FastTask>>, Ghost<Seq<Seq<TaskCommand>>>))
        requires
            orders_have_room(old(self).task_manager, visible@),
            old(self).project_manager.current_project < old(self).project_manager.projects@.len(),
        ensures
            r.1@.len() == 4,
            r.2@.len() == 2,
            r.0@ == r.2@[0] + r.2@[1],
            visual_step(0, *keys, visible@, *old(self), r.1@[0], Seq::empty()),
            visual_step(1, *keys, visible@, r.1@[0], r.1@[1], Seq::empty()),
            visual_step(2, *keys, visible@, r.1@[1], r.1@[2], Seq::empty()),
            visual_step(3, *keys, visible@, r.1@[2], r.1@[3], r.2@[0]),
            visual_step(4, *keys, visible@, r.1@[3], *final(self), r.2@[1]),
    {
        let ghost s0 = *self;
        if keys.esc {
            self.app_state = AppState { mode: Mode::Normal, ..self.app_state };
        }
        let ghost s1 = *self;
        assert(visual_step(0, *keys, visible@, s0, s1, Seq::empty())) by {
            reveal(visual_step);
        }
        self.cursor_key(&keys.cursor, visible.len(), false);
        let ghost s2 = *self;
        assert(visual_step(1, *keys, visible@, s1, s2, Seq::empty())) by {
            reveal(visual_step);
        }
        proof {
            reveal(cursor_moved);
        }
        if keys.y {
            self.yank_key(visible);
        }
        let ghost s3 = *self;
        assert(visual_step(2, *keys, visible@, s2, s3, Seq::empty())) by {
            reveal(visual_step);
        }
        let mut c3 = if keys.p {
            proof {
                lemma_room_paste(s0.task_manager, s3.task_manager, visible@, keys.shift);
            }
            self.paste(visible, keys.shift)
        } else {
            Vec::new()
        };
        let ghost g3 = c3@;
        let ghost s4 = *self;
        assert(visual_step(3, *keys, visible@, s3, s4, g3)) by {
            reveal(visual_step);
        }
        let mut c4 = self.reorder_key(keys);
        let ghost g4 = c4@;
        let ghost s5 = *self;
        assert(visual_step(4, *keys, visible@, s4, s5, g4)) by {
            reveal(visual_step);
        }
        c3.append(&mut c4);
        let ghost states_v = seq![s1, s2, s3, s4];
        let states: Ghost<Seq<FastTask>> = Ghost(states_v);
        let ghost chunks_v = seq![g3, g4];
        let chunks: Ghost<Seq<Seq<TaskCommand>>> = Ghost(chunks_v);
        (c3, states, chunks)
    }

    /// Steps 5 to 7 of a Visual-mode frame, on the task under the cursor;
    /// `r.1` holds the states after steps 5 and 6.
    #[verifier::spinoff_prover]
    fn visual_task_keys(&mut self, keys: &VisualKeys, visible: &Vec<usize>) -> (r: (Vec<TaskCommand>, Ghost<Seq<FastTask>>))
        ensures
            r.1@.len() == 2,
            visual_task_step(5, *keys, cursor_task(old(self).task_manager, visible@), *old(self), r.1@[0], r.0@),
            visual_task_step(6, *keys, cursor_task(old(self).task_manager, visible@), r.1@[0], r.1@[1], Seq::empty()),
            visual_task_step(7, *keys, cursor_task(old(self).task_manager, visible@), r.1@[1], *final(self), Seq::empty()),
    {
        let ghost s5 = *self;
        let ct = self.cursor_task_id(visible);
        let c5 = match ct {
            Some(id) => if keys.d && !keys.ctrl { self.visual_remove_key(id, keys.shift) } else { Vec::new() },
            None => Vec::new(),
        };
        let ghost s6 = *self;
        assert(visual_task_step(5, *keys, ct, s5, s6, c5@)) by {
            reveal(visual_task_step);
        }
        match ct {
            Some(id) => if keys.s {
                self.visual_status_key(id);
            },
            None => {},
        }
        let ghost s7 = *self;
        assert(visual_task_step(6, *keys, ct, s6, s7, Seq::empty())) by {
            reveal(visual_task_step);
        }
        match ct {
            Some(id) => if keys.edit {
                self.edit_task(id);
            },
            None => {},
        }
        let ghost s8 = *self;
        assert(visual_task_step(7, *keys, ct, s7, s8, Seq::empty())) by {
            reveal(visual_task_step);
        }
        let ghost states_v = seq![s6, s7];
        let states: Ghost<Seq<FastTask>> = Ghost(states_v);
        (c5, states)
    }

    /// The Visual-mode keys of one frame in the task pane (see `visual_step`
    /// and `visual_task_step` for what each does, and in which order).
    pub fn visual_mode_keys(&mut self, keys: &VisualKeys, visible: &Vec<usize>) -> (cmds: Vec<TaskCommand>)
        requires
            orders_have_room(old(self).task_manager, visible@),
            old(self).project_manager.current_project < old(self).project_manager.projects@.len(),
        ensures
            visual_frame(*keys, visible@, *old(self), *final(self), cmds@),
    {
        let ghost s0 = *self;
        let (mut cmds, ga, ha) = self.visual_list_keys(keys, visible);
        let ghost s5 = *self;
        let (mut cb, gb) = self.visual_task_keys(keys, visible);
        let ghost s8 = *self;
        let ghost g5 = cb@;
        cmds.append(&mut cb);
        proof {
            let a = ga@;
            let b = gb@;
            lemma_visual_frame(*keys, visible@, s0, a[0], a[1], a[2], a[3], s5, b[0], b[1], s8, ha@[0], ha@[1], g5,
                cmds@);
        }
        cmds
    }

    /// The filter bar's keys: Esc clears the filter and closes the bar;
    /// Enter closes it, the filter kept.
    pub fn filter_mode_keys(&mut self, esc: bool, enter: bool)
        ensures
            filter_keys_done(*old(self), *final(self), esc, enter),
    {
        self.task_manager.filter_keys(esc, enter);
    }

    /// A row's icon clicked: the same as the key that does it.
    pub fn row_action(&mut self, act: RowAction) -> (cs: Vec<TaskCommand>)
        ensures
            row_action_done(*old(self), *final(self), act, cs@),
    {
        let mut cs: Vec<TaskCommand> = Vec::new();
        match act {
            RowAction::Edit(id) => {
                self.edit_task(id);
                proof {
                    reveal(edit_opened);
                }
            },
            RowAction::Complete(id) => {
                cs.push(TaskCommand::Status(StatusCommand::One(id, TaskStatus::Completed)));
            },
            RowAction::Delete(id) => {
                cs.push(TaskCommand::Delete(id));
                proof {
                    reveal_strlit("Deleted — u to undo");
                }
                self.status_msg = Some("Deleted — u to undo".to_string());
            },
            RowAction::Status(id) => {
                self.task_manager.open_status_alone(id);
            },
        }
        cs
    }
}

impl TaskManager {
    /// Open the status picker on its first row for task `id`.
    fn open_status_for(&mut self, id: ObjectId)
        ensures
            *final(self) == (TaskManager {
                status_picker_open: true,
                status_picker_task_id: Some(id),
                status_picker_cursor: 0,
                ..*old(self)
            }),
    {
        self.status_picker_cursor = 0;
        self.status_picker_open = true;
        self.status_picker_task_id = Some(id);
    }

    /// Open the status picker on its first row for task `id` alone.
    fn open_status_alone(&mut self, id: ObjectId)
        ensures
            final(self).status_picker_ids@.len() == 0,
            *final(self) == (TaskManager {
                status_picker_cursor: 0,
                status_picker_open: true,
                status_picker_ids: final(self).status_picker_ids,
                status_picker_task_id: Some(id),
                ..*old(self)
            }),
    {
        self.status_picker_cursor = 0;
        self.status_picker_open = true;
        self.status_picker_ids.clear();
        self.status_picker_task_id = Some(id);
    }

    /// The filter bar's keys.
    fn filter_keys(&mut self, esc: bool, enter: bool)
        ensures
            esc ==> final(self).filter_query@.len() == 0,
            !esc ==> final(self).filter_query == old(self).filter_query,
            *final(self) == (TaskManager {
                filter_query: final(self).filter_query,
                filter_open: if esc || enter { false } else { old(self).filter_open },
                ..*old(self)
            }),
    {
        if esc {
            self.filter_query = String::new();
            self.filter_open = false;
        }
        if enter {
            self.filter_open = false;
        }
    }
}

/// The task pane's keys of one frame: those the pickers read, those of
/// Normal and of Visual mode, and the filter bar's Esc and Enter.
#[derive(Clone, Copy, Debug, PartialEq, Eq, Structural)]
pub struct PaneKeys {
    pub picker: PickerKeys,
    pub normal: NormalKeys,
    pub visual: VisualKeys,
    pub filter_esc: bool,
    pub filter_enter: bool,
}

/// The editor draft is cleared (its code flag and order kept).
pub open spec fn draft_cleared(a: FastTask, b: FastTask) -> bool {
    &&& is_cleared(b.task_manager.writer)
    &&& b.task_manager.writer.code == a.task_manager.writer.code
    &&& b.task_manager.writer.order == a.task_manager.writer.order
    &&& b.task_manager == (TaskManager { writer: b.task_manager.writer, ..a.task_manager })
    &&& b == (FastTask { task_manager: b.task_manager, ..a })
}

/// The editor draft loses the keyboard.
pub open spec fn focus_dropped(a: FastTask, b: FastTask) -> bool {
    &&& b.task_manager.writer == (TaskWriter { has_focus: EditFocus::Unfocused, ..a.task_manager.writer })
    &&& b.task_manager == (TaskManager { writer: b.task_manager.writer, ..a.task_manager })
    &&& b == (FastTask { task_manager: b.task_manager, ..a })
}

/// One frame of the task pane's keys: an open sort picker, else an open
/// status picker, takes them all; otherwise Normal mode clears the draft,
/// runs the filter bar's keys (when it is open) or the Normal-mode keys,
/// and leaves the draft without the keyboard; Visual mode runs its keys;
/// Insert mode (the editor is in the Info pane) does nothing here.
pub open spec fn pane_done(keys: PaneKeys, visible: Seq<usize>, a: FastTask, b: FastTask, cmds: Seq<TaskCommand>) -> bool {
    if a.task_manager.sort_picker_open {
        &&& sort_keys_done(a.task_manager, b.task_manager, keys.picker)
        &&& b == (FastTask { task_manager: b.task_manager, ..a })
        &&& cmds.len() == 0
    } else if a.task_manager.status_picker_open {
        exists|cmd: Option<StatusCommand>|
            #[trigger] status_keys_done(a.task_manager, b.task_manager, keys.picker, cmd)
            && b == (FastTask { task_manager: b.task_manager, ..a })
            && match cmd {
                Some(c) => cmds == seq![TaskCommand::Status(c)],
                None => cmds.len() == 0,
            }
    } else {
        match a.app_state.mode {
            Mode::Normal => exists|m1: FastTask, m2: FastTask|
                #![trigger draft_cleared(a, m1), focus_dropped(m2, b)]
                {
                    &&& draft_cleared(a, m1)
                    &&& if a.task_manager.filter_open {
                        filter_keys_done(m1, m2, keys.filter_esc, keys.filter_enter) && cmds.len() == 0
                    } else {
                        normal_frame(keys.normal, visible, m1, m2, cmds)
                    }
                    &&& focus_dropped(m2, b)
                },
            Mode::Visual => visual_frame(keys.visual, visible, a, b, cmds),
            Mode::Insert(_) => kept(a, b, cmds),
        }
    }
}

impl FastTask {
    /// The start of a task-pane frame: the project hover goes back to the
    /// active project, and the cursor is kept on the visible rows, which are
    /// returned.
    pub fn begin_task_frame(&mut self) -> (visible: Vec<usize>)
        ensures
            visible@ == old(self).task_manager.visible_cache@,
            final(self).project_manager == (ProjectManager {
                hovered_project: old(self).project_manager.current_project,
                ..old(self).project_manager
            }),
            final(self).task_manager == (TaskManager {
                current: clamped(old(self).task_manager.current, visible@.len() as int),
                ..old(self).task_manager
            }),
            *final(self) == (FastTask {
                project_manager: final(self).project_manager,
                task_manager: final(self).task_manager,
                ..*old(self)
            }),
    {
        self.project_manager.sync_hover();
        let mut visible: Vec<usize> = Vec::new();
        let mut k: usize = 0;
        while k < self.task_manager.visible_cache.len()
            invariant
                k <= self.task_manager.visible_cache@.len(),
                visible@ == self.task_manager.visible_cache@.subrange(0, k as int),
            decreases self.task_manager.visible_cache@.len() - k,
        {
            visible.push(self.task_manager.visible_cache[k]);
            k = k + 1;
        }
        assert(visible@ =~= self.task_manager.visible_cache@);
        self.task_manager.clamp_cursor(visible.len());
        visible
    }

    /// "Edit" in the detail pane: the task under the cursor, if any, opens
    /// for editing.
    pub fn detail_edit(&mut self, visible: &Vec<usize>)
        ensures
            match cursor_task(old(self).task_manager, visible@) {
                Some(id) => edit_opened(*old(self), *final(self), id),
                None => *final(self) == *old(self),
            },
    {
        match self.cursor_task_id(visible) {
            Some(id) => self.edit_task(id),
            None => {},
        }
    }

    /// Leave the draft without the keyboard.
    fn drop_focus(&mut self)
        ensures
            focus_dropped(*old(self), *final(self)),
    {
        self.task_manager.writer.has_focus = EditFocus::Unfocused;
    }

    /// Clear the editor draft.
    fn clear_draft(&mut self)
        ensures
            draft_cleared(*old(self), *final(self)),
    {
        self.task_manager.writer.flush();
    }

    /// The task pane's keys of one frame (see `pane_done`).
    pub fn task_pane_keys(&mut self, keys: &PaneKeys, visible: &Vec<usize>) -> (cmds: Vec<TaskCommand>)
        requires
            keys.picker.number matches Some(i) ==> i < 5,
            old(self).task_manager.status_picker_open && !old(self).task_manager.sort_picker_open
                ==> (keys.picker.number matches Some(i) ==> i < 4),
            distinct_ids(old(self).task_manager.selected_tasks@),
            orders_have_room(old(self).task_manager, visible@),
            old(self).project_manager.current_project < old(self).project_manager.projects@.len(),
        ensures
            pane_done(*keys, visible@, *old(self), *final(self), cmds@),
    {
        let mut cmds: Vec<TaskCommand> = Vec::new();
        if self.task_manager.sort_picker_open {
            self.task_manager.sort_picker_keys(&keys.picker);
        } else if self.task_manager.status_picker_open {
            let cmd = self.task_manager.status_picker_keys(&keys.picker);
            let ghost g = cmd;
            match cmd {
                Some(c) => {
                    cmds.push(TaskCommand::Status(c));
                },
                None => {},
            }
            assert(match g {
                Some(c) => cmds@ == seq![TaskCommand::Status(c)],
                None => cmds@.len() == 0,
            });
        } else {
            match self.app_state.mode {
                Mode::Normal => {
                    let ghost a = *self;
                    self.clear_draft();
                    let ghost m1 = *self;
                    if self.task_manager.filter_open {
                        self.filter_mode_keys(keys.filter_esc, keys.filter_enter);
                    } else {
                        cmds = self.normal_mode_keys(&keys.normal, visible);
                    }
                    let ghost m2 = *self;
                    self.drop_focus();
                    assert(draft_cleared(a, m1) && focus_dropped(m2, *self));
                },
                Mode::Visual => {
                    cmds = self.visual_mode_keys(&keys.visual, visible);
                },
                Mode::Insert(_) => {},
            }
        }
        cmds
    }
}

} // verus!
