//! What holds of status changes and recurrence across calls.

use vstd::prelude::*;

use crate::database::database::DbError;
use crate::database::models::{ObjectId, TaskStatus, TaskView};
use crate::database::state::{DbView, after_update_task, task_index, with_fields};
use crate::ui::task_ops::{
    base_date_ok, is_next_occurrence, occurrence_date, scheduled_next, status_applied,
};

verus! {

proof fn lemma_index_found(s: DbView, id: ObjectId)
    requires
        task_index(s.tasks, id) >= 0,
    ensures
        task_index(s.tasks, id) < s.tasks.len(),
        s.tasks[task_index(s.tasks, id)].id == id,
{
    crate::database::state::lemma_id_index(crate::database::state::task_ids(s.tasks), id);
    assert(crate::database::state::task_ids(s.tasks)[task_index(s.tasks, id)] == s.tasks[task_index(s.tasks, id)].id);
}

proof fn lemma_update_keeps_len(s: DbView, t: TaskView)
    ensures
        after_update_task(s, t).tasks.len() == s.tasks.len(),
{
    crate::database::state::lemma_id_index(crate::database::state::task_ids(s.tasks), t.id);
}

/// Completing a task that is already completed adds no task and succeeds:
/// only its status is written again, so completing twice schedules at most
/// one next occurrence.
pub proof fn law_complete_again_adds_nothing(s: DbView, id: ObjectId, after: DbView, r: Result<Option<ObjectId>, DbError>)
    requires
        task_index(s.tasks, id) >= 0,
        s.tasks[task_index(s.tasks, id)].status == TaskStatus::Completed,
        status_applied(s, id, TaskStatus::Completed, after, r),
    ensures
        after.tasks.len() == s.tasks.len(),
        r == Ok::<Option<ObjectId>, DbError>(Some(id)),
{
    let t0 = s.tasks[task_index(s.tasks, id)];
    lemma_update_keeps_len(s, TaskView { status: TaskStatus::Completed, ..t0 });
}

/// Completing a recurring task that was not completed adds at most one task;
/// when one is added it comes last, repeats the task one period on and is
/// not started; the completed task keeps its place with status Completed.
pub proof fn law_complete_recurring_adds_one(s: DbView, id: ObjectId, after: DbView, r: Result<Option<ObjectId>, DbError>)
    requires
        task_index(s.tasks, id) >= 0,
        s.tasks[task_index(s.tasks, id)].status != TaskStatus::Completed,
        s.tasks[task_index(s.tasks, id)].recurrence is Some,
        status_applied(s, id, TaskStatus::Completed, after, r),
    ensures
        after.tasks.len() == s.tasks.len() || after.tasks.len() == s.tasks.len() + 1,
        after.tasks[task_index(s.tasks, id)].status == TaskStatus::Completed,
        after.tasks[task_index(s.tasks, id)].id == id,
        after.tasks.len() == s.tasks.len() + 1 ==> {
            let n = after.tasks.last();
            &&& n.status == TaskStatus::NotStarted
            &&& exists|base: (i16, i8, i8), d: (i16, i8, i8)| base_date_ok(s.tasks[task_index(s.tasks, id)], base)
                && occurrence_date(s.tasks[task_index(s.tasks, id)], base) == Some(d)
                && is_next_occurrence(s.tasks[task_index(s.tasks, id)], d, n)
        },
{
    lemma_index_found(s, id);
    let i = task_index(s.tasks, id);
    let t0 = s.tasks[i];
    let tv = TaskView { status: TaskStatus::Completed, ..t0 };
    let s1 = after_update_task(s, tv);
    assert(s1.tasks == s.tasks.update(i, with_fields(s.tasks[i], tv)));
    let err = choose|err: Option<DbError>| {
        &&& scheduled_next(s1, t0, after, err)
        &&& r == match err {
            None => Ok::<Option<ObjectId>, DbError>(Some(id)),
            Some(e) => Err::<Option<ObjectId>, DbError>(e),
        }
    };
    let base = choose|base: (i16, i8, i8)| base_date_ok(t0, base) && match occurrence_date(t0, base) {
        None => after == s1 && err is None,
        Some(d) => exists|n: TaskView| {
            &&& is_next_occurrence(t0, d, n)
            &&& crate::database::state::can_create_task(s1, n) ==> after == crate::database::state::after_create_task(s1, n) && err is None
            &&& !crate::database::state::can_create_task(s1, n) ==> after == s1 && err == Some(DbError::DuplicateId)
        },
    };
    match occurrence_date(t0, base) {
        None => {},
        Some(d) => {
            let n = choose|n: TaskView| {
                &&& is_next_occurrence(t0, d, n)
                &&& crate::database::state::can_create_task(s1, n) ==> after == crate::database::state::after_create_task(s1, n) && err is None
                &&& !crate::database::state::can_create_task(s1, n) ==> after == s1 && err == Some(DbError::DuplicateId)
            };
            if crate::database::state::can_create_task(s1, n) {
                assert(after.tasks == s1.tasks.push(n));
                assert(after.tasks[i] == s1.tasks[i]);
                assert(after.tasks.last() == n);
            }
        },
    }
}

} // verus!
