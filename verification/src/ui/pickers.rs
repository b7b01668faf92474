//! The status and sort pickers: small modal lists driven by j/k, Enter,
//! number keys and Esc.

use vstd::prelude::*;

use crate::database::models::{ObjectId, TaskStatus};
use crate::ui::tasks::{SortOrder, TaskManager};

verus! {

/// The statuses the status picker offers, in its order.
pub open spec fn status_choice(i: int) -> TaskStatus {
    if i == 0 { TaskStatus::NotStarted }
    else if i == 1 { TaskStatus::InProgress }
    else if i == 2 { TaskStatus::OnHold }
    else { TaskStatus::Completed }
}

/// The sort orders the sort picker offers, in its order.
pub open spec fn sort_choice(i: int) -> SortOrder {
    if i == 0 { SortOrder::Free }
    else if i == 1 { SortOrder::DueDate }
    else if i == 2 { SortOrder::Modified }
    else if i == 3 { SortOrder::Status }
    else { SortOrder::Tags }
}

fn status_at(i: usize) -> (s: TaskStatus)
    ensures
        s == status_choice(i as int),
{
    if i == 0 { TaskStatus::NotStarted }
    else if i == 1 { TaskStatus::InProgress }
    else if i == 2 { TaskStatus::OnHold }
    else { TaskStatus::Completed }
}

fn sort_at(i: usize) -> (s: SortOrder)
    ensures
        s == sort_choice(i as int),
{
    if i == 0 { SortOrder::Free }
    else if i == 1 { SortOrder::DueDate }
    else if i == 2 { SortOrder::Modified }
    else if i == 3 { SortOrder::Status }
    else { SortOrder::Tags }
}

/// The picker keys of one frame: j/↓, k/↑, Enter, the dismiss keys and the
/// number key pressed (0 for `1`), if any.
#[derive(Clone, Copy, Debug, PartialEq, Eq, Structural)]
pub struct PickerKeys {
    pub down: bool,
    pub up: bool,
    pub enter: bool,
    pub dismiss: bool,
    pub number: Option<usize>,
}

/// A status change the picker asks for.
pub enum StatusCommand {
    /// Set the status on each of these tasks (the selection).
    Many(Vec<ObjectId>, TaskStatus),
    /// Set the status on one task.
    One(ObjectId, TaskStatus),
}

/// The cursor after j / k in a list of `n` rows.
pub open spec fn picker_cursor(c: usize, keys: PickerKeys, n: int) -> usize {
    let c1: int = if keys.down { if c + 1 < n - 1 { c + 1 } else { n - 1 } } else { c as int };
    (if keys.up { if c1 > 0 { c1 - 1 } else { 0 } } else { c1 }) as usize
}

/// The row picked: Enter picks the cursor's row, else a number key its row.
pub open spec fn picked(cursor: usize, keys: PickerKeys) -> Option<usize> {
    if keys.enter { Some(cursor) } else { keys.number }
}

/// The cursor after j / k in a list of `n` rows.
fn move_picker(c: usize, keys: &PickerKeys, n: usize) -> (r: usize)
    requires
        n > 0,
    ensures
        r == picker_cursor(c, *keys, n as int),
{
    let c1 = if keys.down { if c >= n - 1 || c + 1 >= n - 1 { n - 1 } else { c + 1 } } else { c };
    if keys.up { if c1 > 0 { c1 - 1 } else { 0 } } else { c1 }
}

/// What the status picker's keys do. Dismiss closes it, forgetting its
/// targets. Otherwise j / k move the cursor over the four statuses; Enter
/// (the cursor's row) or a number key picks a status, which goes to the
/// picker's tasks (the selection, which is then cleared, or the one task)
/// and closes the picker.
pub open spec fn status_keys_done(a: TaskManager, b: TaskManager, keys: PickerKeys, cmd: Option<StatusCommand>) -> bool {
    let closed = !b.status_picker_open && b.status_picker_ids@.len() == 0 && b.status_picker_task_id is None;
    if keys.dismiss {
        &&& cmd is None
        &&& closed
        &&& b == (TaskManager {
            status_picker_open: b.status_picker_open,
            status_picker_ids: b.status_picker_ids,
            status_picker_task_id: b.status_picker_task_id,
            ..a
        })
    } else {
        let c = picker_cursor(a.status_picker_cursor, keys, 4);
        match picked(c, keys) {
            None => cmd is None && b == (TaskManager { status_picker_cursor: c, ..a }),
            Some(i) => {
                &&& closed
                &&& a.status_picker_ids@.len() > 0 ==> (cmd matches Some(StatusCommand::Many(ids, s))
                    && ids@ == a.status_picker_ids@ && s == status_choice(i as int))
                    && b.selected_tasks@.len() == 0
                &&& a.status_picker_ids@.len() == 0 ==> match a.status_picker_task_id {
                    Some(id) => cmd matches Some(StatusCommand::One(t, s)) && t == id && s == status_choice(i as int),
                    None => cmd is None,
                } && b.selected_tasks == a.selected_tasks
                &&& b == (TaskManager {
                    status_picker_cursor: c,
                    status_picker_open: b.status_picker_open,
                    status_picker_ids: b.status_picker_ids,
                    status_picker_task_id: b.status_picker_task_id,
                    selected_tasks: b.selected_tasks,
                    ..a
                })
            },
        }
    }
}

/// What the sort picker's keys do. Dismiss closes it. Otherwise j / k move
/// the cursor over the five orders; Enter (the cursor's row) or a number key
/// picks an order, which becomes the list's order, and closes the picker.
pub open spec fn sort_keys_done(a: TaskManager, b: TaskManager, keys: PickerKeys) -> bool {
    if keys.dismiss {
        b == (TaskManager { sort_picker_open: false, ..a })
    } else {
        let c = picker_cursor(a.sort_picker_cursor, keys, 5);
        match picked(c, keys) {
            None => b == (TaskManager { sort_picker_cursor: c, ..a }),
            Some(i) => b == (TaskManager {
                sort_picker_cursor: c,
                sort_order: sort_choice(i as int),
                sort_picker_open: false,
                ..a
            }),
        }
    }
}

impl TaskManager {
    /// The command for status row `i` when more than `min_many` targets are
    /// listed (the selection) or else the one task; the picker closes.
    fn take_status_command(&mut self, i: usize, min_many: usize) -> (cmd: Option<StatusCommand>)
        ensures
            !final(self).status_picker_open,
            final(self).status_picker_task_id is None,
            final(self).status_picker_ids@.len() == 0,
            *final(self) == (TaskManager {
                status_picker_open: final(self).status_picker_open,
                status_picker_ids: final(self).status_picker_ids,
                status_picker_task_id: final(self).status_picker_task_id,
                selected_tasks: final(self).selected_tasks,
                ..*old(self)
            }),
            old(self).status_picker_ids@.len() > min_many ==> (cmd matches Some(StatusCommand::Many(ids, s))
                && ids@ == old(self).status_picker_ids@ && s == status_choice(i as int)
                && final(self).selected_tasks@.len() == 0),
            old(self).status_picker_ids@.len() <= min_many ==> match old(self).status_picker_task_id {
                Some(id) => cmd matches Some(StatusCommand::One(t, s)) && t == id && s == status_choice(i as int),
                None => cmd is None,
            } && final(self).selected_tasks == old(self).selected_tasks,
    {
        let status = status_at(i);
        let cmd = if self.status_picker_ids.len() > min_many {
            let mut ids: Vec<ObjectId> = Vec::new();
            std::mem::swap(&mut ids, &mut self.status_picker_ids);
            self.selected_tasks.clear();
            Some(StatusCommand::Many(ids, status))
        } else {
            match self.status_picker_task_id {
                Some(id) => Some(StatusCommand::One(id, status)),
                None => None,
            }
        };
        self.close_status_picker();
        cmd
    }

    /// Close the status picker and forget its targets.
    fn close_status_picker(&mut self)
        ensures
            !final(self).status_picker_open,
            final(self).status_picker_task_id is None,
            final(self).status_picker_ids@.len() == 0,
            *final(self) == (TaskManager {
                status_picker_open: final(self).status_picker_open,
                status_picker_ids: final(self).status_picker_ids,
                status_picker_task_id: final(self).status_picker_task_id,
                ..*old(self)
            }),
    {
        self.status_picker_open = false;
        self.status_picker_task_id = None;
        self.status_picker_ids.clear();
    }

    /// The status picker's keys. Dismiss closes it. Otherwise j / k move the
    /// cursor over the four statuses; Enter (the cursor's row) or a number
    /// key picks a status, which goes to the picker's tasks (the selection,
    /// which is then cleared, or the one task) and closes the picker.
    pub fn status_picker_keys(&mut self, keys: &PickerKeys) -> (cmd: Option<StatusCommand>)
        requires
            keys.number matches Some(i) ==> i < 4,
        ensures
            status_keys_done(*old(self), *final(self), *keys, cmd),
    {
        if keys.dismiss {
            self.close_status_picker();
            return None;
        }
        self.status_picker_cursor = move_picker(self.status_picker_cursor, keys, 4);
        let chosen = if keys.enter { Some(self.status_picker_cursor) } else { keys.number };
        match chosen {
            None => None,
            Some(i) => self.take_status_command(i, 0),
        }
    }

    /// A click on status row `i` of the picker: more than one target task
    /// sets it on all of them (clearing the selection); otherwise the one task
    /// gets it. The picker closes.
    pub fn status_picker_click(&mut self, i: usize) -> (cmd: Option<StatusCommand>)
        ensures
            !final(self).status_picker_open,
            final(self).status_picker_task_id is None,
            final(self).status_picker_ids@.len() == 0,
            *final(self) == (TaskManager {
                status_picker_open: final(self).status_picker_open,
                status_picker_ids: final(self).status_picker_ids,
                status_picker_task_id: final(self).status_picker_task_id,
                selected_tasks: final(self).selected_tasks,
                ..*old(self)
            }),
            old(self).status_picker_ids@.len() > 1 ==> (cmd matches Some(StatusCommand::Many(ids, s))
                && ids@ == old(self).status_picker_ids@ && s == status_choice(i as int)
                && final(self).selected_tasks@.len() == 0),
            old(self).status_picker_ids@.len() <= 1 ==> match old(self).status_picker_task_id {
                Some(id) => cmd matches Some(StatusCommand::One(t, s)) && t == id && s == status_choice(i as int),
                None => cmd is None,
            } && final(self).selected_tasks == old(self).selected_tasks,
    {
        self.take_status_command(i, 1)
    }

    /// The sort picker's keys. Dismiss closes it. Otherwise j / k move the
    /// cursor over the five orders; Enter (the cursor's row) or a number key
    /// picks an order, which becomes the list's order, and closes the picker.
    pub fn sort_picker_keys(&mut self, keys: &PickerKeys)
        requires
            keys.number matches Some(i) ==> i < 5,
        ensures
            sort_keys_done(*old(self), *final(self), *keys),
    {
        if keys.dismiss {
            self.sort_picker_open = false;
            return;
        }
        self.sort_picker_cursor = move_picker(self.sort_picker_cursor, keys, 5);
        let chosen = if keys.enter { Some(self.sort_picker_cursor) } else { keys.number };
        if let Some(i) = chosen {
            self.sort_order = sort_at(i);
            self.sort_picker_open = false;
        }
    }

    /// A click on sort row `i`: that order applies and the picker closes.
    pub fn sort_picker_click(&mut self, i: usize)
        ensures
            *final(self) == (TaskManager { sort_order: sort_choice(i as int), sort_picker_open: false, ..*old(self) }),
    {
        self.sort_order = sort_at(i);
        self.sort_picker_open = false;
    }

    /// Shift+S opens the sort picker with its cursor on the active order.
    pub fn open_sort_picker(&mut self)
        ensures
            final(self).sort_picker_open,
            sort_choice(final(self).sort_picker_cursor as int) == old(self).sort_order,
            final(self).sort_picker_cursor < 5,
            *final(self) == (TaskManager {
                sort_picker_open: true,
                sort_picker_cursor: final(self).sort_picker_cursor,
                ..*old(self)
            }),
    {
        self.sort_picker_open = true;
        self.sort_picker_cursor = match self.sort_order {
            SortOrder::Free => 0,
            SortOrder::DueDate => 1,
            SortOrder::Modified => 2,
            SortOrder::Status => 3,
            SortOrder::Tags => 4,
        };
    }
}

} // verus!
