//! What the task pane writes to the store: new tasks from the editor, edits,
//! pasted copies, status changes and the next occurrence of a recurring task.

use vstd::prelude::*;

use crate::database::database::{Db, DbError};
use crate::database::models::{
    DateTime, ORDER_GAP, ObjectId, Priority, ProjectEntry, Task, TaskStatus, TaskView, entry_id, tags_view,
};
use crate::database::state::{
    DbView, after_create_task, after_delete_task, after_update_task, can_create_task, listed, sorted_listing, task_index,
};
use crate::ui::dates::{add_period, date_after, midnight_of, midnight_utc, today, utc_date, utc_date_of};
use crate::ui::tasks::{TaskWriter, parse_tags, parsed_tags, views};

verus! {

// ---- the next occurrence of a recurring task ----

/// The date one recurrence period after `base`, for a recurring task.
pub open spec fn occurrence_date(src: TaskView, base: (i16, i8, i8)) -> Option<(i16, i8, i8)> {
    match src.recurrence {
        None => None,
        Some(r) => date_after(base, r),
    }
}

/// `n` repeats `src` on `date`: the same title, details, priority, tags,
/// code flag, project, recurrence and wait date; due at midnight UTC of
/// `date`; one order gap after `src`; not started.
pub open spec fn is_next_occurrence(src: TaskView, date: (i16, i8, i8), n: TaskView) -> bool {
    &&& n.title == src.title
    &&& n.details == src.details
    &&& n.priority == src.priority
    &&& n.tags == src.tags
    &&& n.code == src.code
    &&& n.project_id == src.project_id
    &&& n.recurrence == src.recurrence
    &&& n.wait_until == src.wait_until
    &&& n.due == midnight_of(date)
    &&& n.order == src.order + ORDER_GAP
    &&& n.status == TaskStatus::NotStarted
}

/// The next occurrence of `task` counted from the date `base`, or `None`
/// when the task does not recur or the date cannot be moved.
pub fn next_occurrence_from(task: &Task, base: (i16, i8, i8)) -> (r: Option<Task>)
    requires
        occurrence_date(task@, base) is Some ==> task.order + ORDER_GAP <= u64::MAX,
    ensures
        match occurrence_date(task@, base) {
            None => r is None,
            Some(d) => r matches Some(n) && is_next_occurrence(task@, d, n@),
        },
{
    match task.recurrence {
        None => None,
        Some(rec) => match add_period(base, rec) {
            None => None,
            Some(next_date) => {
                let due = match midnight_utc(next_date) {
                    Some(m) => Some(DateTime::from_millis(m)),
                    None => None,
                };
                let mut n = Task::default();
                n.title = task.title.clone();
                n.details = task.details.clone();
                n.priority = task.priority;
                n.tags = crate::database::models::copy_tags(&task.tags);
                n.code = task.code;
                n.project_id = task.project_id;
                n.recurrence = task.recurrence;
                n.wait_until = task.wait_until;
                n.due = due;
                n.order = task.get_next_gap();
                Some(n)
            },
        },
    }
}

/// `base` is the date a next occurrence counts from: the due date's UTC day
/// where the task has one that `jiff` can read.
pub open spec fn base_date_ok(src: TaskView, base: (i16, i8, i8)) -> bool {
    (src.due matches Some(d) && utc_date(d.millis) is Some) ==> Some(base) == utc_date(src.due->0.millis)
}

/// The next instance of a recurring `task`, due one period after its due
/// date (or after today, read from the clock, if it has none).
pub fn next_occurrence(task: &Task) -> (r: Option<Task>)
    requires
        task.recurrence is Some ==> task.order + ORDER_GAP <= u64::MAX,
    ensures
        exists|base: (i16, i8, i8)| base_date_ok(task@, base) && match occurrence_date(task@, base) {
            None => r is None,
            Some(d) => r matches Some(n) && is_next_occurrence(task@, d, n@),
        },
{
    let from_due = match task.due {
        Some(d) => utc_date_of(d.millis),
        None => None,
    };
    let base = match from_due {
        Some(b) => b,
        None => today(),
    };
    let r = next_occurrence_from(task, base);
    assert(base_date_ok(task@, base));
    r
}

/// After scheduling: the store is `s`, or `s` with a next occurrence of
/// `done` added; `err` tells a refused insert (an id already taken).
pub open spec fn scheduled_next(s: DbView, done: TaskView, after: DbView, err: Option<DbError>) -> bool {
    exists|base: (i16, i8, i8)| base_date_ok(done, base) && match occurrence_date(done, base) {
        None => after == s && err is None,
        Some(d) => exists|n: TaskView| {
            &&& is_next_occurrence(done, d, n)
            &&& can_create_task(s, n) ==> after == after_create_task(s, n) && err is None
            &&& !can_create_task(s, n) ==> after == s && err == Some(DbError::DuplicateId)
        },
    }
}

/// Create the next occurrence of the just-completed `done`, if it has one.
fn schedule_next(db: &mut Db, done: &Task) -> (err: Option<DbError>)
    requires
        old(db).wf(),
        done.recurrence is Some ==> done.order + ORDER_GAP <= u64::MAX,
    ensures
        final(db).wf(),
        scheduled_next(old(db)@, done@, final(db)@, err),
{
    let next = next_occurrence(done);
    match next {
        None => None,
        Some(n) => {
            let ghost nv = n@;
            match db.create_task(n) {
                Ok(_) => None,
                Err(e) => Some(e),
            }
        },
    }
}

// ---- editing ----

/// `task` with the editor's fields written onto it: title, details, code,
/// status, due and wait dates, priority, tags (parsed from the tag text) and
/// recurrence.
pub open spec fn edited(task: TaskView, w: TaskWriter) -> TaskView {
    TaskView {
        title: w.title_buffer@,
        details: w.details_buffer@,
        code: w.code,
        status: w.status,
        due: w.duedate,
        wait_until: w.wait_until,
        priority: w.priority,
        tags: parsed_tags(w.tags_buffer@),
        recurrence: w.recurrence,
        ..task
    }
}

/// Write the editor's fields onto `task`.
pub fn apply_writer(task: Task, writer: &TaskWriter) -> (t: Task)
    ensures
        t@ == edited(task@, *writer),
{
    let mut t = task;
    t.title = writer.title_buffer.clone();
    t.details = writer.details_buffer.clone();
    t.code = writer.code;
    t.status = writer.status;
    t.due = writer.duedate;
    t.wait_until = writer.wait_until;
    t.priority = writer.priority;
    t.tags = parse_tags(writer.tags_buffer.as_str());
    t.recurrence = writer.recurrence;
    t
}

/// Saving the draft completes a recurring task that was not completed.
pub open spec fn edit_completes(before: TaskView, w: TaskWriter) -> bool {
    w.status == TaskStatus::Completed && before.status != TaskStatus::Completed && w.recurrence is Some
}

/// Saving the draft `w` onto task `task_id` took store `before` to `after`
/// with answers `r`: a missing task gives `Ok(None)` and changes nothing;
/// otherwise the editor's fields are written (`Ok(Some(task_id))`) and,
/// when the save completes a recurring task, its next occurrence is
/// scheduled (`r.1` tells a refused one).
pub open spec fn edit_saved(
    before: DbView,
    after: DbView,
    w: TaskWriter,
    task_id: ObjectId,
    r: (Result<Option<ObjectId>, DbError>, Option<DbError>),
) -> bool {
    &&& task_index(before.tasks, task_id) < 0 ==> r == (Ok::<Option<ObjectId>, DbError>(None), None::<DbError>) && after == before
    &&& task_index(before.tasks, task_id) >= 0 ==> {
        let t0 = before.tasks[task_index(before.tasks, task_id)];
        let e = edited(t0, w);
        let s1 = after_update_task(before, e);
        &&& r.0 == Ok::<Option<ObjectId>, DbError>(Some(task_id))
        &&& edit_completes(t0, w) ==> scheduled_next(s1, e, after, r.1)
        &&& !edit_completes(t0, w) ==> after == s1 && r.1 is None
    }
}

/// The store has room for the next occurrence that saving `w` onto task
/// `task_id` would schedule (only a save that completes a recurring task
/// schedules one).
pub open spec fn edit_room(s: DbView, w: TaskWriter, task_id: ObjectId) -> bool {
    task_index(s.tasks, task_id) >= 0 && edit_completes(s.tasks[task_index(s.tasks, task_id)], w)
        ==> s.tasks[task_index(s.tasks, task_id)].order + ORDER_GAP <= u64::MAX
}

/// Apply the editor's draft to task `task_id` as one read-modify-write: only
/// the editor's fields change. Saving a recurring task as completed (when it
/// was not) also schedules its next occurrence, built from the saved values.
/// The second result tells a refused next occurrence.
pub fn task_submit_edit(db: &mut Db, writer: &TaskWriter, task_id: ObjectId) -> (r: (Result<Option<ObjectId>, DbError>, Option<DbError>))
    requires
        old(db).wf(),
        edit_room(old(db)@, *writer, task_id),
    ensures
        final(db).wf(),
        edit_saved(old(db)@, final(db)@, *writer, task_id, r),
{
    match db.one_task(task_id) {
        Ok(Some(t)) => {
            let ghost t0 = t@;
            let was_completed = t.status == TaskStatus::Completed;
            let e = apply_writer(t, writer);
            let ghost ev = e@;
            assert(ev.id == task_id) by {
                crate::database::state::lemma_id_index(crate::database::state::task_ids(old(db)@.tasks), task_id);
                assert(crate::database::state::task_ids(old(db)@.tasks)[task_index(old(db)@.tasks, task_id)] == old(db)@.tasks[task_index(old(db)@.tasks, task_id)].id);
            }
            let done = e.clone();
            let _ = db.update_task(e);
            let mut follow: Option<DbError> = None;
            if writer.status == TaskStatus::Completed && !was_completed && writer.recurrence.is_some() {
                follow = schedule_next(db, &done);
            }
            (Ok(Some(task_id)), follow)
        },
        _ => (Ok(None), None),
    }
}

// ---- new tasks ----

/// A task built from the editor's draft under the project `pid`: the draft's
/// title, details, priority, dates, tags (parsed), order, code flag, status
/// and recurrence.
pub open spec fn from_writer(w: TaskWriter, pid: Option<ObjectId>, t: TaskView) -> bool {
    &&& t.title == w.title_buffer@
    &&& t.details == w.details_buffer@
    &&& t.project_id == pid
    &&& t.priority == w.priority
    &&& t.due == w.duedate
    &&& t.tags == parsed_tags(w.tags_buffer@)
    &&& t.order == w.order
    &&& t.code == w.code
    &&& t.status == w.status
    &&& t.wait_until == w.wait_until
    &&& t.recurrence == w.recurrence
}

/// The new task the editor's draft describes, under `project`.
pub fn task_from_writer(writer: &TaskWriter, project: &ProjectEntry) -> (t: Task)
    ensures
        from_writer(*writer, entry_id(project@), t@),
{
    let mut t = Task::default();
    t.title = writer.title_buffer.clone();
    t.details = writer.details_buffer.clone();
    t.project_id = project.get_id();
    t.priority = writer.priority;
    t.due = writer.duedate;
    t.tags = parse_tags(writer.tags_buffer.as_str());
    t.order = writer.order;
    t.code = writer.code;
    t.status = writer.status;
    t.wait_until = writer.wait_until;
    t.recurrence = writer.recurrence;
    t
}

/// The draft `w` was saved as new task `t` under project `pid`, taking store
/// `before` to `after` with answer `r`: `t` carries the draft's fields and,
/// when its (random) id was free, it is stored; otherwise the store is
/// unchanged and the id is refused.
pub open spec fn created_as(before: DbView, after: DbView, w: TaskWriter, pid: Option<ObjectId>, t: TaskView, r: Result<ObjectId, DbError>) -> bool {
    &&& from_writer(w, pid, t)
    &&& can_create_task(before, t) ==> r == Ok::<ObjectId, DbError>(t.id) && after == after_create_task(before, t)
    &&& !can_create_task(before, t) ==> r == Err::<ObjectId, DbError>(DbError::DuplicateId) && after == before
}

/// Create a new task from `writer` under `project`.
pub fn task_submit_create(db: &mut Db, writer: &TaskWriter, project: &ProjectEntry) -> (r: Result<ObjectId, DbError>)
    requires
        old(db).wf(),
    ensures
        final(db).wf(),
        exists|t: TaskView| #[trigger] created_as(old(db)@, final(db)@, *writer, entry_id(project@), t, r),
{
    let t = task_from_writer(writer, project);
    let ghost tv = t@;
    let ghost s0 = db@;
    let r = db.create_task(t);
    assert(created_as(s0, db@, *writer, entry_id(project@), tv, r));
    r
}

/// A pasted copy of `src` under `pid` at `order`: its title, details,
/// priority, due date, tags, code flag and wait date; not started, no
/// recurrence.
pub open spec fn is_pasted(src: TaskView, pid: Option<ObjectId>, order: u64, t: TaskView) -> bool {
    &&& t.title == src.title
    &&& t.details == src.details
    &&& t.priority == src.priority
    &&& t.due == src.due
    &&& t.tags == src.tags
    &&& t.code == src.code
    &&& t.wait_until == src.wait_until
    &&& t.project_id == pid
    &&& t.order == order
    &&& t.status == TaskStatus::NotStarted
    &&& t.recurrence is None
}

/// Paste a yanked task as a new task, resetting id, order, status, and modify_date.
pub fn task_submit_paste(db: &mut Db, source: Task, project_id: Option<ObjectId>, order: u64) -> (r: Result<ObjectId, DbError>)
    requires
        old(db).wf(),
    ensures
        final(db).wf(),
        exists|t: TaskView| {
            &&& is_pasted(source@, project_id, order, t)
            &&& can_create_task(old(db)@, t) ==> r == Ok::<ObjectId, DbError>(t.id) && final(db)@ == after_create_task(old(db)@, t)
            &&& !can_create_task(old(db)@, t) ==> r == Err::<ObjectId, DbError>(DbError::DuplicateId) && final(db)@ == old(db)@
        },
{
    let mut t = Task::default();
    t.title = source.title;
    t.details = source.details;
    t.priority = source.priority;
    t.due = source.due;
    t.tags = source.tags;
    t.code = source.code;
    t.wait_until = source.wait_until;
    t.project_id = project_id;
    t.order = order;
    let ghost tv = t@;
    db.create_task(t)
}

// ---- status ----

/// Setting `status` completes a recurring task that was not completed.
pub open spec fn status_completes(before: TaskView, status: TaskStatus) -> bool {
    status == TaskStatus::Completed && before.status != TaskStatus::Completed && before.recurrence is Some
}

/// The store after `apply_status(id, status)` answered `r`.
pub open spec fn status_applied(s: DbView, id: ObjectId, status: TaskStatus, after: DbView, r: Result<Option<ObjectId>, DbError>) -> bool {
    if task_index(s.tasks, id) < 0 {
        r == Ok::<Option<ObjectId>, DbError>(None) && after == s
    } else {
        let t0 = s.tasks[task_index(s.tasks, id)];
        let s1 = after_update_task(s, TaskView { status, ..t0 });
        if status_completes(t0, status) {
            exists|err: Option<DbError>| {
                &&& scheduled_next(s1, t0, after, err)
                &&& r == match err {
                    None => Ok::<Option<ObjectId>, DbError>(Some(id)),
                    Some(e) => Err::<Option<ObjectId>, DbError>(e),
                }
            }
        } else {
            after == s1 && r == Ok::<Option<ObjectId>, DbError>(Some(id))
        }
    }
}

/// Set one task's status as an atomic read-modify-write. Completing a recurring
/// task (that wasn't already completed) also creates its next occurrence.
pub fn apply_status(db: &mut Db, task_id: ObjectId, status: TaskStatus) -> (r: Result<Option<ObjectId>, DbError>)
    requires
        old(db).wf(),
        task_index(old(db)@.tasks, task_id) >= 0
            && status_completes(old(db)@.tasks[task_index(old(db)@.tasks, task_id)], status)
            ==> old(db)@.tasks[task_index(old(db)@.tasks, task_id)].order + ORDER_GAP <= u64::MAX,
    ensures
        final(db).wf(),
        status_applied(old(db)@, task_id, status, final(db)@, r),
{
    match db.one_task(task_id) {
        Ok(Some(t)) => {
            let ghost t0 = t@;
            assert(t0.id == task_id) by {
                crate::database::state::lemma_id_index(crate::database::state::task_ids(old(db)@.tasks), task_id);
                assert(crate::database::state::task_ids(old(db)@.tasks)[task_index(old(db)@.tasks, task_id)] == old(db)@.tasks[task_index(old(db)@.tasks, task_id)].id);
            }
            let completes = status == TaskStatus::Completed && t.status != TaskStatus::Completed && t.recurrence.is_some();
            let before = t.clone();
            let mut u = t;
            u.status = status;
            assert(u@ == TaskView { status, ..t0 });
            let _ = db.update_task(u);
            if completes {
                let err = schedule_next(db, &before);
                match err {
                    None => Ok(Some(task_id)),
                    Some(e) => Err(e),
                }
            } else {
                Ok(Some(task_id))
            }
        },
        _ => Ok(None),
    }
}

// ---- listing ----

/// The tasks that stay in the list: all of them, or those not completed.
pub open spec fn kept_tasks(ts: Seq<TaskView>, show_completed: bool) -> Seq<TaskView>
    decreases ts.len(),
{
    if ts.len() == 0 {
        Seq::empty()
    } else {
        let k = kept_tasks(ts.drop_last(), show_completed);
        if show_completed || ts.last().status != TaskStatus::Completed { k.push(ts.last()) } else { k }
    }
}

/// Law: with completed tasks shown the listing keeps every task, in order;
/// otherwise it keeps exactly the tasks that are not completed, in order.
pub proof fn law_completed_shown_or_hidden(all: Seq<TaskView>)
    ensures
        kept_tasks(all, true) == all,
        kept_tasks(all, false) == all.filter(|t: TaskView| t.status != TaskStatus::Completed),
    decreases all.len(),
{
    reveal(Seq::filter);
    if all.len() > 0 {
        law_completed_shown_or_hidden(all.drop_last());
        assert(all.drop_last().push(all.last()) =~= all);
    } else {
        assert(all =~= Seq::<TaskView>::empty());
    }
}

/// Drop completed tasks unless `show_completed`.
pub fn keep_tasks(tasks: Vec<Task>, show_completed: bool) -> (v: Vec<Task>)
    ensures
        views(v@) == kept_tasks(views(tasks@), show_completed),
{
    let ghost tv = views(tasks@);
    let mut out: Vec<Task> = Vec::new();
    let mut i: usize = 0;
    assert(tv.subrange(0, 0) =~= Seq::<TaskView>::empty());
    assert(views(out@) =~= Seq::<TaskView>::empty());
    while i < tasks.len()
        invariant
            tv == views(tasks@),
            i <= tv.len(),
            views(out@) == kept_tasks(tv.subrange(0, i as int), show_completed),
        decreases tv.len() - i,
    {
        assert(tv.subrange(0, i + 1).drop_last() =~= tv.subrange(0, i as int));
        assert(tv.subrange(0, i + 1).last() == tasks@[i as int]@);
        if show_completed || tasks[i].status != TaskStatus::Completed {
            let ghost before = views(out@);
            out.push(tasks[i].clone());
            assert(views(out@) =~= before.push(tasks@[i as int]@));
        }
        i = i + 1;
    }
    assert(tv.subrange(0, tv.len() as int) =~= tv);
    out
}

/// The tasks to list for `lookup`: the store's answer, with completed tasks
/// dropped unless `show_completed`.
pub fn get_tasks(db: &Db, lookup: ProjectEntry, show_completed: bool) -> (r: Result<Vec<Task>, DbError>)
    ensures
        r matches Ok(v) && exists|all: Seq<TaskView>| sorted_listing(db@.tasks, lookup@, all)
            && views(v@) == kept_tasks(all, show_completed),
{
    match db.get_tasks(lookup) {
        Ok(all) => {
            let ghost av = views(all@);
            assert(av == crate::database::database::task_views(all@));
            Ok(keep_tasks(all, show_completed))
        },
        Err(e) => Err(e),
    }
}

} // verus!

verus! {

// ---- single-field writes and batches ----

/// The store after writing `p` as the priority of task `id`, and the answer.
pub open spec fn priority_written(s: DbView, id: ObjectId, p: Priority) -> (DbView, Option<ObjectId>) {
    if task_index(s.tasks, id) < 0 {
        (s, None)
    } else {
        (after_update_task(s, TaskView { priority: p, ..s.tasks[task_index(s.tasks, id)] }), Some(id))
    }
}

/// The store after writing `order` as the order of task `id`, and the answer.
pub open spec fn order_written(s: DbView, id: ObjectId, order: u64) -> (DbView, Option<ObjectId>) {
    if task_index(s.tasks, id) < 0 {
        (s, None)
    } else {
        (after_update_task(s, TaskView { order, ..s.tasks[task_index(s.tasks, id)] }), Some(id))
    }
}

proof fn lemma_found_id(s: DbView, id: ObjectId)
    requires
        task_index(s.tasks, id) >= 0,
    ensures
        task_index(s.tasks, id) < s.tasks.len(),
        s.tasks[task_index(s.tasks, id)].id == id,
{
    crate::database::state::lemma_id_index(crate::database::state::task_ids(s.tasks), id);
    assert(crate::database::state::task_ids(s.tasks)[task_index(s.tasks, id)] == s.tasks[task_index(s.tasks, id)].id);
}

/// Write only the priority of task `id`, onto a fresh read of it.
pub fn write_priority(db: &mut Db, id: ObjectId, p: Priority) -> (r: Result<Option<ObjectId>, DbError>)
    requires
        old(db).wf(),
    ensures
        final(db).wf(),
        r == Ok::<Option<ObjectId>, DbError>(priority_written(old(db)@, id, p).1),
        final(db)@ == priority_written(old(db)@, id, p).0,
{
    let f = move |t: Task| -> (u: Task)
        ensures
            u@ == (TaskView { priority: p, ..t@ }),
    {
        let mut u = t;
        u.priority = p;
        u
    };
    let r = db.modify_task(id, f);
    proof {
        if task_index(old(db)@.tasks, id) >= 0 {
            lemma_found_id(old(db)@, id);
        }
    }
    r
}

/// Write only the order of task `id`, onto a fresh read of it.
pub fn write_order(db: &mut Db, id: ObjectId, order: u64) -> (r: Result<Option<ObjectId>, DbError>)
    requires
        old(db).wf(),
    ensures
        final(db).wf(),
        r == Ok::<Option<ObjectId>, DbError>(order_written(old(db)@, id, order).1),
        final(db)@ == order_written(old(db)@, id, order).0,
{
    let f = move |t: Task| -> (u: Task)
        ensures
            u@ == (TaskView { order, ..t@ }),
    {
        let mut u = t;
        u.order = order;
        u
    };
    let r = db.modify_task(id, f);
    proof {
        if task_index(old(db)@.tasks, id) >= 0 {
            lemma_found_id(old(db)@, id);
        }
    }
    r
}

/// The store after writing each priority of `ups` in turn.
pub open spec fn priorities_written(s: DbView, ups: Seq<(ObjectId, Priority)>) -> DbView
    decreases ups.len(),
{
    if ups.len() == 0 {
        s
    } else {
        let prev = priorities_written(s, ups.drop_last());
        priority_written(prev, ups.last().0, ups.last().1).0
    }
}

/// Write each priority change in turn; the answers come back in order.
pub fn write_priorities(db: &mut Db, ups: &Vec<(ObjectId, Priority)>) -> (r: Vec<Option<ObjectId>>)
    requires
        old(db).wf(),
    ensures
        final(db).wf(),
        final(db)@ == priorities_written(old(db)@, ups@),
        r@.len() == ups@.len(),
        forall|k: int| 0 <= k < ups@.len() ==> #[trigger] r@[k]
            == priority_written(priorities_written(old(db)@, ups@.subrange(0, k)), ups@[k].0, ups@[k].1).1,
{
    let mut out: Vec<Option<ObjectId>> = Vec::new();
    let mut i: usize = 0;
    assert(ups@.subrange(0, 0) =~= Seq::<(ObjectId, Priority)>::empty());
    while i < ups.len()
        invariant
            db.wf(),
            i <= ups@.len(),
            out@.len() == i,
            db@ == priorities_written(old(db)@, ups@.subrange(0, i as int)),
            forall|k: int| 0 <= k < i ==> #[trigger] out@[k]
                == priority_written(priorities_written(old(db)@, ups@.subrange(0, k)), ups@[k].0, ups@[k].1).1,
        decreases ups@.len() - i,
    {
        assert(ups@.subrange(0, i + 1).drop_last() =~= ups@.subrange(0, i as int));
        assert(ups@.subrange(0, i + 1).last() == ups@[i as int]);
        let (id, p) = ups[i];
        let r = write_priority(db, id, p);
        out.push(match r {
            Ok(x) => x,
            Err(_) => None,
        });
        i = i + 1;
    }
    assert(ups@.subrange(0, ups@.len() as int) =~= ups@);
    out
}

/// Write the two orders a swap gives, in turn; the answers come back in order.
pub fn write_swap(db: &mut Db, first: (ObjectId, u64), second: (ObjectId, u64)) -> (r: (Option<ObjectId>, Option<ObjectId>))
    requires
        old(db).wf(),
    ensures
        final(db).wf(),
        final(db)@ == order_written(order_written(old(db)@, first.0, first.1).0, second.0, second.1).0,
        r.0 == order_written(old(db)@, first.0, first.1).1,
        r.1 == order_written(order_written(old(db)@, first.0, first.1).0, second.0, second.1).1,
{
    let a = write_order(db, first.0, first.1);
    let b = write_order(db, second.0, second.1);
    (
        match a {
            Ok(x) => x,
            Err(_) => None,
        },
        match b {
            Ok(x) => x,
            Err(_) => None,
        },
    )
}

/// The store after deleting the tasks `ids` in turn, stopping at the first
/// that is missing, and the answer.
pub open spec fn deleted_all(s: DbView, ids: Seq<ObjectId>) -> (DbView, Result<(), DbError>)
    decreases ids.len(),
{
    if ids.len() == 0 {
        (s, Ok(()))
    } else if task_index(s.tasks, ids[0]) < 0 {
        (s, Err(DbError::TaskNotFound))
    } else {
        deleted_all(after_delete_task(s, ids[0]), ids.drop_first())
    }
}

/// Delete the tasks `ids` in turn; the first missing one stops the run.
pub fn delete_many(db: &mut Db, ids: &Vec<ObjectId>) -> (r: Result<(), DbError>)
    requires
        old(db).wf(),
    ensures
        final(db).wf(),
        (final(db)@, r) == deleted_all(old(db)@, ids@),
{
    let mut i: usize = 0;
    assert(ids@.subrange(0, ids@.len() as int) =~= ids@);
    while i < ids.len()
        invariant
            db.wf(),
            i <= ids@.len(),
            deleted_all(db@, ids@.subrange(i as int, ids@.len() as int)) == deleted_all(old(db)@, ids@),
        decreases ids@.len() - i,
    {
        let ghost rest = ids@.subrange(i as int, ids@.len() as int);
        assert(rest[0] == ids@[i as int]);
        assert(rest.drop_first() =~= ids@.subrange(i + 1, ids@.len() as int));
        match db.delete_task(ids[i]) {
            Ok(_) => {},
            Err(e) => {
                return Err(e);
            },
        }
        i = i + 1;
    }
    assert(ids@.subrange(ids@.len() as int, ids@.len() as int) =~= Seq::<ObjectId>::empty());
    Ok(())
}

} // verus!

verus! {

/// Every recurring task that is not completed (one that completing could
/// repeat) has an order of at most `limit`.
pub open spec fn open_orders_at_most(ts: Seq<TaskView>, limit: int) -> bool {
    forall|k: int| 0 <= k < ts.len() && (#[trigger] ts[k]).recurrence is Some && ts[k].status != TaskStatus::Completed
        ==> ts[k].order <= limit
}

/// The store after setting `status` on each task of `ids` in turn, stopping
/// at the first refused write, with the answer `r`.
pub open spec fn statuses_applied(s: DbView, ids: Seq<ObjectId>, status: TaskStatus, after: DbView, r: Result<(), DbError>) -> bool
    decreases ids.len(),
{
    if ids.len() == 0 {
        after == s && r == Ok::<(), DbError>(())
    } else {
        exists|mid: DbView, r1: Result<Option<ObjectId>, DbError>| {
            &&& #[trigger] status_applied(s, ids[0], status, mid, r1)
            &&& match r1 {
                Err(e) => after == mid && r == Err::<(), DbError>(e),
                Ok(_) => statuses_applied(mid, ids.drop_first(), status, after, r),
            }
        }
    }
}

proof fn lemma_status_orders(s: DbView, id: ObjectId, status: TaskStatus, after: DbView, r: Result<Option<ObjectId>, DbError>, limit: int)
    requires
        status_applied(s, id, status, after, r),
        status == TaskStatus::Completed,
        open_orders_at_most(s.tasks, limit),
    ensures
        open_orders_at_most(after.tasks, limit + ORDER_GAP),
{
    if task_index(s.tasks, id) >= 0 {
        lemma_found_id(s, id);
        let i = task_index(s.tasks, id);
        let t0 = s.tasks[i];
        let tv = TaskView { status, ..t0 };
        let s1 = after_update_task(s, tv);
        assert(s1.tasks == s.tasks.update(i, crate::database::state::with_fields(s.tasks[i], tv)));
        assert(open_orders_at_most(s1.tasks, limit)) by {
            assert forall|k: int| 0 <= k < s1.tasks.len() && (#[trigger] s1.tasks[k]).recurrence is Some
                && s1.tasks[k].status != TaskStatus::Completed implies s1.tasks[k].order <= limit by {
                if k != i {
                    assert(s1.tasks[k] == s.tasks[k]);
                }
            }
        }
        if status_completes(t0, status) {
            let err = choose|err: Option<DbError>| {
                &&& scheduled_next(s1, t0, after, err)
                &&& r == match err {
                    None => Ok::<Option<ObjectId>, DbError>(Some(id)),
                    Some(e) => Err::<Option<ObjectId>, DbError>(e),
                }
            };
            let base = choose|base: (i16, i8, i8)| base_date_ok(t0, base) && match occurrence_date(t0, base) {
                None => after == s1 && err is None,
                Some(d) => exists|n: TaskView| {
                    &&& is_next_occurrence(t0, d, n)
                    &&& can_create_task(s1, n) ==> after == after_create_task(s1, n) && err is None
                    &&& !can_create_task(s1, n) ==> after == s1 && err == Some(DbError::DuplicateId)
                },
            };
            match occurrence_date(t0, base) {
                None => {},
                Some(d) => {
                    let n = choose|n: TaskView| {
                        &&& is_next_occurrence(t0, d, n)
                        &&& can_create_task(s1, n) ==> after == after_create_task(s1, n) && err is None
                        &&& !can_create_task(s1, n) ==> after == s1 && err == Some(DbError::DuplicateId)
                    };
                    if can_create_task(s1, n) {
                        assert(after.tasks == s1.tasks.push(n));
                        assert forall|k: int| 0 <= k < after.tasks.len() && (#[trigger] after.tasks[k]).recurrence is Some
                            && after.tasks[k].status != TaskStatus::Completed implies after.tasks[k].order <= limit + ORDER_GAP by {
                            if k < s1.tasks.len() {
                                assert(after.tasks[k] == s1.tasks[k]);
                            }
                        }
                    }
                },
            }
        }
    }
}

/// Set `status` on each task of `ids` in turn (completing recurring tasks
/// schedules their next occurrences); the first refused write stops the run.
pub fn set_status_many(db: &mut Db, ids: &Vec<ObjectId>, status: TaskStatus) -> (r: Result<(), DbError>)
    requires
        old(db).wf(),
        status == TaskStatus::Completed ==> open_orders_at_most(old(db)@.tasks, u64::MAX - ORDER_GAP * (ids@.len() + 1)),
    ensures
        final(db).wf(),
        statuses_applied(old(db)@, ids@, status, final(db)@, r),
{
    let ghost s0 = db@;
    let ghost n = ids@.len() as int;
    let mut i: usize = 0;
    assert(ids@.subrange(0, n) =~= ids@);
    while i < ids.len()
        invariant
            db.wf(),
            s0 == old(db)@,
            n == ids@.len(),
            i <= n,
            status == TaskStatus::Completed ==> open_orders_at_most(db@.tasks, u64::MAX - ORDER_GAP * (n + 1) + ORDER_GAP * i),
            forall|a: DbView, rr: Result<(), DbError>| #[trigger] statuses_applied(db@, ids@.subrange(i as int, n), status, a, rr)
                ==> statuses_applied(s0, ids@, status, a, rr),
        decreases n - i,
    {
        let ghost cur = db@;
        let ghost rest = ids@.subrange(i as int, n);
        assert(rest[0] == ids@[i as int]);
        assert(rest.drop_first() =~= ids@.subrange(i + 1, n));
        let id = ids[i];
        proof {
            if task_index(cur.tasks, id) >= 0 && status_completes(cur.tasks[task_index(cur.tasks, id)], status) {
                lemma_found_id(cur, id);
                assert(cur.tasks[task_index(cur.tasks, id)].order <= u64::MAX - ORDER_GAP * (n + 1) + ORDER_GAP * i);
                assert(ORDER_GAP * (n + 1) - ORDER_GAP * i >= 2 * ORDER_GAP) by (nonlinear_arith)
                    requires i < n;
            }
        }
        let r1 = apply_status(db, id, status);
        proof {
            if status == TaskStatus::Completed {
                lemma_status_orders(cur, id, status, db@, r1, u64::MAX - ORDER_GAP * (n + 1) + ORDER_GAP * i);
            }
        }
        match r1 {
            Err(e) => {
                proof {
                    assert(status_applied(cur, rest[0], status, db@, r1));
                    assert(statuses_applied(cur, rest, status, db@, Err::<(), DbError>(e)));
                }
                return Err(e);
            },
            Ok(_) => {
                proof {
                    assert forall|a: DbView, rr: Result<(), DbError>| statuses_applied(db@, ids@.subrange(i + 1, n), status, a, rr)
                        implies statuses_applied(s0, ids@, status, a, rr) by {
                        assert(status_applied(cur, rest[0], status, db@, r1));
                        assert(statuses_applied(cur, rest, status, a, rr));
                    }
                }
            },
        }
        i = i + 1;
    }
    proof {
        assert(ids@.subrange(n, n) =~= Seq::<ObjectId>::empty());
        assert(statuses_applied(db@, ids@.subrange(n, n), status, db@, Ok::<(), DbError>(())));
    }
    Ok(())
}

} // verus!
