//! The store as a mathematical value, and what each operation does to it.

use vstd::prelude::*;

use crate::database::history::{EventView, ItemView};
use crate::database::models::{
    AnnotationView, ObjectId, ProjectEntryView, ProjectView, TaskView, entry_matches,
};
use crate::sorting::is_stable_order;
use crate::text::{lowercase, trim};

verus! {

/// The whole store: tasks and projects in storage order, the normalized tag
/// store, the undo history (oldest first), the redo stack (next redo last),
/// annotations, and the remembered project filter.
pub struct DbView {
    pub tasks: Seq<TaskView>,
    pub projects: Seq<ProjectView>,
    pub tags: Seq<Seq<char>>,
    pub history: Seq<EventView>,
    pub redo: Seq<EventView>,
    pub annotations: Seq<AnnotationView>,
    pub recent: Option<ProjectEntryView>,
}

/// Index of `id` in `ids` (its last occurrence), or -1.
pub open spec fn id_index(ids: Seq<ObjectId>, id: ObjectId) -> int
    decreases ids.len(),
{
    if ids.len() == 0 {
        -1
    } else if ids.last() == id {
        ids.len() - 1
    } else {
        id_index(ids.drop_last(), id)
    }
}

/// No id occurs twice.
pub open spec fn unique_ids(ids: Seq<ObjectId>) -> bool {
    forall|i: int, j: int| 0 <= i < j < ids.len() ==> ids[i] != ids[j]
}

pub open spec fn task_ids(ts: Seq<TaskView>) -> Seq<ObjectId> {
    ts.map_values(|t: TaskView| t.id)
}

pub open spec fn project_ids(ps: Seq<ProjectView>) -> Seq<ObjectId> {
    ps.map_values(|p: ProjectView| p.id)
}

pub open spec fn annotation_ids(a: Seq<AnnotationView>) -> Seq<ObjectId> {
    a.map_values(|x: AnnotationView| x.id)
}

/// Index of the task with id `id`, or -1.
pub open spec fn task_index(ts: Seq<TaskView>, id: ObjectId) -> int {
    id_index(task_ids(ts), id)
}

/// Index of the project with id `id`, or -1.
pub open spec fn project_index(ps: Seq<ProjectView>, id: ObjectId) -> int {
    id_index(project_ids(ps), id)
}

/// `old` with every field an update writes taken from `new`: all but the id,
/// the project and the modification date.
pub open spec fn with_fields(old: TaskView, new: TaskView) -> TaskView {
    TaskView {
        id: old.id,
        project_id: old.project_id,
        modify_date: old.modify_date,
        title: new.title,
        details: new.details,
        code: new.code,
        status: new.status,
        due: new.due,
        wait_until: new.wait_until,
        order: new.order,
        priority: new.priority,
        tags: new.tags,
        recurrence: new.recurrence,
    }
}

/// The stored task with `t`'s id, if any, updated from `t`.
pub open spec fn set_task(ts: Seq<TaskView>, t: TaskView) -> Seq<TaskView> {
    let i = task_index(ts, t.id);
    if i < 0 {
        ts
    } else {
        ts.update(i, with_fields(ts[i], t))
    }
}

/// The tasks without the one with id `id`.
pub open spec fn drop_task(ts: Seq<TaskView>, id: ObjectId) -> Seq<TaskView> {
    let i = task_index(ts, id);
    if i < 0 {
        ts
    } else {
        ts.remove(i)
    }
}

/// `old` renamed and retagged from `new`.
pub open spec fn with_project_fields(old: ProjectView, new: ProjectView) -> ProjectView {
    ProjectView { id: old.id, name: new.name, tags: new.tags }
}

pub open spec fn set_project(ps: Seq<ProjectView>, p: ProjectView) -> Seq<ProjectView> {
    let i = project_index(ps, p.id);
    if i < 0 {
        ps
    } else {
        ps.update(i, with_project_fields(ps[i], p))
    }
}

pub open spec fn drop_project(ps: Seq<ProjectView>, id: ObjectId) -> Seq<ProjectView> {
    let i = project_index(ps, id);
    if i < 0 {
        ps
    } else {
        ps.remove(i)
    }
}

/// The normalized form of a tag: trimmed, then lowercased.
pub open spec fn norm(t: Seq<char>) -> Seq<char> {
    lowercase(trim(t))
}

/// The tag store after storing `tag` (nothing for a blank or known tag).
pub open spec fn upsert_one(store: Seq<Seq<char>>, tag: Seq<char>) -> Seq<Seq<char>> {
    let n = norm(tag);
    if n.len() == 0 || store.contains(n) {
        store
    } else {
        store.push(n)
    }
}

/// The tag store after storing each of `tags`, in order.
pub open spec fn upsert(store: Seq<Seq<char>>, tags: Seq<Seq<char>>) -> Seq<Seq<char>>
    decreases tags.len(),
{
    if tags.len() == 0 {
        store
    } else {
        upsert_one(upsert(store, tags.drop_last()), tags.last())
    }
}

pub open spec fn upsert_opt(store: Seq<Seq<char>>, tags: Option<Seq<Seq<char>>>) -> Seq<Seq<char>> {
    match tags {
        Some(t) => upsert(store, t),
        None => store,
    }
}

/// `s` with the tag store replaced.
pub open spec fn with_tags(s: DbView, tags: Seq<Seq<char>>) -> DbView {
    DbView { tags, ..s }
}

/// `s` with the tasks replaced.
pub open spec fn with_tasks(s: DbView, tasks: Seq<TaskView>) -> DbView {
    DbView { tasks, ..s }
}

/// `s` with the projects replaced.
pub open spec fn with_projects(s: DbView, projects: Seq<ProjectView>) -> DbView {
    DbView { projects, ..s }
}

/// The store after recording event `e`: history grows, redo is cleared.
pub open spec fn record(s: DbView, e: EventView) -> DbView {
    DbView { history: s.history.push(e), redo: Seq::empty(), ..s }
}

/// Ids are unique among tasks, among projects and among annotations.
pub open spec fn view_wf(s: DbView) -> bool {
    &&& unique_ids(task_ids(s.tasks))
    &&& unique_ids(project_ids(s.projects))
    &&& unique_ids(annotation_ids(s.annotations))
}

// ---- tasks ----

/// `create_task(t)` succeeds: no task has `t`'s id yet.
pub open spec fn can_create_task(s: DbView, t: TaskView) -> bool {
    task_index(s.tasks, t.id) < 0
}

pub open spec fn after_create_task(s: DbView, t: TaskView) -> DbView {
    record(
        DbView { tasks: s.tasks.push(t), tags: upsert_opt(s.tags, t.tags), ..s },
        EventView::Create(ItemView::Task(t)),
    )
}

/// `update_task(t)`: the stored task with `t`'s id takes `t`'s fields, `t`'s
/// tags are stored, and the change is recorded when the task existed.
pub open spec fn after_update_task(s: DbView, t: TaskView) -> DbView {
    let i = task_index(s.tasks, t.id);
    let s1 = DbView { tasks: set_task(s.tasks, t), tags: upsert_opt(s.tags, t.tags), ..s };
    if i >= 0 {
        record(s1, EventView::Update { before: ItemView::Task(s.tasks[i]), after: ItemView::Task(t) })
    } else {
        s1
    }
}

/// `delete_task(id)` for a stored task.
pub open spec fn after_delete_task(s: DbView, id: ObjectId) -> DbView {
    let i = task_index(s.tasks, id);
    record(DbView { tasks: s.tasks.remove(i), ..s }, EventView::Delete(ItemView::Task(s.tasks[i])))
}

// ---- projects ----

pub open spec fn can_create_project(s: DbView, p: ProjectView) -> bool {
    project_index(s.projects, p.id) < 0
}

pub open spec fn after_create_project(s: DbView, p: ProjectView) -> DbView {
    record(DbView { projects: s.projects.push(p), ..s }, EventView::Create(ItemView::Project(p)))
}

pub open spec fn after_update_project(s: DbView, p: ProjectView) -> DbView {
    let i = project_index(s.projects, p.id);
    let s1 = DbView { projects: set_project(s.projects, p), ..s };
    if i >= 0 {
        record(s1, EventView::Update { before: ItemView::Project(s.projects[i]), after: ItemView::Project(p) })
    } else {
        s1
    }
}

/// The task belongs to project `pid`.
pub open spec fn in_project(t: TaskView, pid: ObjectId) -> bool {
    t.project_id == Some(pid)
}

/// The tasks of project `pid`, in storage order.
pub open spec fn tasks_in(ts: Seq<TaskView>, pid: ObjectId) -> Seq<TaskView>
    decreases ts.len(),
{
    if ts.len() == 0 {
        Seq::empty()
    } else if in_project(ts.last(), pid) {
        tasks_in(ts.drop_last(), pid).push(ts.last())
    } else {
        tasks_in(ts.drop_last(), pid)
    }
}

/// The tasks not in project `pid`, in storage order.
pub open spec fn tasks_not_in(ts: Seq<TaskView>, pid: ObjectId) -> Seq<TaskView>
    decreases ts.len(),
{
    if ts.len() == 0 {
        Seq::empty()
    } else if in_project(ts.last(), pid) {
        tasks_not_in(ts.drop_last(), pid)
    } else {
        tasks_not_in(ts.drop_last(), pid).push(ts.last())
    }
}

/// A delete event for each task, in order.
pub open spec fn delete_events(ts: Seq<TaskView>) -> Seq<EventView> {
    ts.map_values(|t: TaskView| EventView::Delete(ItemView::Task(t)))
}

/// The first half of `delete_project(pid)`: every task of the project is
/// deleted, each with its own history record.
pub open spec fn after_project_tasks_deleted(s: DbView, pid: ObjectId) -> DbView {
    let gone = tasks_in(s.tasks, pid);
    DbView {
        tasks: tasks_not_in(s.tasks, pid),
        history: s.history + delete_events(gone),
        redo: if gone.len() > 0 { Seq::empty() } else { s.redo },
        ..s
    }
}

/// `delete_project(pid)`: the project's tasks go first; then, when the project
/// exists, the project itself, recorded last.
pub open spec fn after_delete_project(s: DbView, pid: ObjectId) -> DbView {
    let s1 = after_project_tasks_deleted(s, pid);
    let j = project_index(s.projects, pid);
    if j >= 0 {
        record(DbView { projects: s1.projects.remove(j), ..s1 }, EventView::Delete(ItemView::Project(s.projects[j])))
    } else {
        s1
    }
}

// ---- undo / redo ----

/// Undoing `e` re-inserts an item whose id is free (or undo has nothing to insert).
pub open spec fn inverse_ok(s: DbView, e: EventView) -> bool {
    match e {
        EventView::Delete(ItemView::Task(t)) => task_index(s.tasks, t.id) < 0,
        EventView::Delete(ItemView::Project(p)) => project_index(s.projects, p.id) < 0,
        _ => true,
    }
}

/// The stores with the change `e` reverted.
pub open spec fn inverse_applied(s: DbView, e: EventView) -> DbView {
    match e {
        EventView::Create(ItemView::Task(t)) => DbView { tasks: drop_task(s.tasks, t.id), ..s },
        EventView::Create(ItemView::Project(p)) => DbView { projects: drop_project(s.projects, p.id), ..s },
        EventView::Update { before: ItemView::Task(b), .. } => DbView { tasks: set_task(s.tasks, b), ..s },
        EventView::Update { before: ItemView::Project(b), .. } => DbView { projects: set_project(s.projects, b), ..s },
        EventView::Delete(ItemView::Task(t)) => DbView { tasks: s.tasks.push(t), ..s },
        EventView::Delete(ItemView::Project(p)) => DbView { projects: s.projects.push(p), ..s },
    }
}

/// `undo` succeeds: nothing to undo, or the newest change can be reverted.
pub open spec fn undo_ok(s: DbView) -> bool {
    s.history.len() == 0 || inverse_ok(s, s.history.last())
}

/// `undo`: the newest change is reverted and moves from the history to the redo stack.
pub open spec fn after_undo(s: DbView) -> DbView {
    if s.history.len() == 0 {
        s
    } else {
        let e = s.history.last();
        DbView { history: s.history.drop_last(), redo: s.redo.push(e), ..inverse_applied(s, e) }
    }
}

/// Redoing `e` inserts an item whose id is free (or redo has nothing to insert).
pub open spec fn forward_ok(s: DbView, e: EventView) -> bool {
    match e {
        EventView::Create(ItemView::Task(t)) => task_index(s.tasks, t.id) < 0,
        EventView::Create(ItemView::Project(p)) => project_index(s.projects, p.id) < 0,
        _ => true,
    }
}

/// The stores with the change `e` applied again.
pub open spec fn forward_applied(s: DbView, e: EventView) -> DbView {
    match e {
        EventView::Create(ItemView::Task(t)) => DbView { tasks: s.tasks.push(t), ..s },
        EventView::Create(ItemView::Project(p)) => DbView { projects: s.projects.push(p), ..s },
        EventView::Update { after: ItemView::Task(a), .. } => DbView { tasks: set_task(s.tasks, a), ..s },
        EventView::Update { after: ItemView::Project(a), .. } => DbView { projects: set_project(s.projects, a), ..s },
        EventView::Delete(ItemView::Task(t)) => DbView { tasks: drop_task(s.tasks, t.id), ..s },
        EventView::Delete(ItemView::Project(p)) => DbView { projects: drop_project(s.projects, p.id), ..s },
    }
}

/// `redo` succeeds: nothing to redo, or the change can be applied.
pub open spec fn redo_ok(s: DbView) -> bool {
    s.redo.len() == 0 || forward_ok(s, s.redo.last())
}

/// `redo`: the most recently undone change is applied again and goes back on
/// the history, the redo stack otherwise kept. When it cannot be applied
/// (an id it would insert is taken) it is dropped from the redo stack.
pub open spec fn after_redo(s: DbView) -> DbView {
    if s.redo.len() == 0 {
        s
    } else {
        let e = s.redo.last();
        if forward_ok(s, e) {
            DbView { history: s.history.push(e), redo: s.redo.drop_last(), ..forward_applied(s, e) }
        } else {
            DbView { redo: s.redo.drop_last(), ..s }
        }
    }
}

// ---- task listing ----

/// The tasks listed under `lookup`, in storage order.
pub open spec fn listed(ts: Seq<TaskView>, lookup: ProjectEntryView) -> Seq<TaskView>
    decreases ts.len(),
{
    if ts.len() == 0 {
        Seq::empty()
    } else if entry_matches(lookup, ts.last().project_id) {
        listed(ts.drop_last(), lookup).push(ts.last())
    } else {
        listed(ts.drop_last(), lookup)
    }
}

// ---- facts about ids ----

/// What `id_index` finds: a matching position, or none at all; with unique
/// ids, the one position holding the id.
pub proof fn lemma_id_index(ids: Seq<ObjectId>, id: ObjectId)
    ensures
        -1 <= id_index(ids, id) < ids.len(),
        id_index(ids, id) >= 0 ==> ids[id_index(ids, id)] == id,
        id_index(ids, id) < 0 ==> forall|i: int| 0 <= i < ids.len() ==> ids[i] != id,
        unique_ids(ids) ==> forall|i: int| 0 <= i < ids.len() && ids[i] == id ==> id_index(ids, id) == i,
    decreases ids.len(),
{
    if ids.len() > 0 {
        lemma_id_index(ids.drop_last(), id);
        if unique_ids(ids) {
            assert(unique_ids(ids.drop_last()));
            assert forall|i: int| 0 <= i < ids.len() && ids[i] == id implies id_index(ids, id) == i by {
                if i < ids.len() - 1 {
                    assert(ids.drop_last()[i] == ids[i]);
                    assert(ids[i] != ids.last());
                }
            }
        }
        if id_index(ids, id) < 0 {
            assert forall|i: int| 0 <= i < ids.len() implies ids[i] != id by {
                if i < ids.len() - 1 {
                    assert(ids.drop_last()[i] == ids[i]);
                }
            }
        }
    }
}

pub proof fn lemma_task_ids_push(ts: Seq<TaskView>, t: TaskView)
    ensures
        task_ids(ts.push(t)) == task_ids(ts).push(t.id),
{
    assert(task_ids(ts.push(t)) =~= task_ids(ts).push(t.id));
}

pub proof fn lemma_task_ids_remove(ts: Seq<TaskView>, i: int)
    requires
        0 <= i < ts.len(),
    ensures
        task_ids(ts.remove(i)) == task_ids(ts).remove(i),
{
    assert(task_ids(ts.remove(i)) =~= task_ids(ts).remove(i));
}

pub proof fn lemma_task_ids_update(ts: Seq<TaskView>, i: int, t: TaskView)
    requires
        0 <= i < ts.len(),
    ensures
        task_ids(ts.update(i, t)) == task_ids(ts).update(i, t.id),
{
    assert(task_ids(ts.update(i, t)) =~= task_ids(ts).update(i, t.id));
}

pub proof fn lemma_project_ids_push(ps: Seq<ProjectView>, p: ProjectView)
    ensures
        project_ids(ps.push(p)) == project_ids(ps).push(p.id),
{
    assert(project_ids(ps.push(p)) =~= project_ids(ps).push(p.id));
}

pub proof fn lemma_project_ids_remove(ps: Seq<ProjectView>, i: int)
    requires
        0 <= i < ps.len(),
    ensures
        project_ids(ps.remove(i)) == project_ids(ps).remove(i),
{
    assert(project_ids(ps.remove(i)) =~= project_ids(ps).remove(i));
}

pub proof fn lemma_project_ids_update(ps: Seq<ProjectView>, i: int, p: ProjectView)
    requires
        0 <= i < ps.len(),
    ensures
        project_ids(ps.update(i, p)) == project_ids(ps).update(i, p.id),
{
    assert(project_ids(ps.update(i, p)) =~= project_ids(ps).update(i, p.id));
}

/// Unique ids stay unique when a fresh id is appended, one is removed, or
/// one is overwritten by itself.
pub proof fn lemma_unique_ops(ids: Seq<ObjectId>)
    requires
        unique_ids(ids),
    ensures
        forall|x: ObjectId| id_index(ids, x) < 0 ==> #[trigger] unique_ids(ids.push(x)),
        forall|i: int| 0 <= i < ids.len() ==> #[trigger] unique_ids(ids.remove(i)),
        forall|i: int| 0 <= i < ids.len() ==> #[trigger] unique_ids(ids.update(i, ids[i])),
{
    assert forall|x: ObjectId| id_index(ids, x) < 0 implies #[trigger] unique_ids(ids.push(x)) by {
        lemma_id_index(ids, x);
        let n = ids.push(x);
        assert forall|a: int, b: int| 0 <= a < b < n.len() implies n[a] != n[b] by {
            if b == ids.len() {
                assert(ids[a] != x);
            } else {
                assert(n[a] == ids[a] && n[b] == ids[b]);
            }
        }
    }
    assert forall|i: int| 0 <= i < ids.len() implies #[trigger] unique_ids(ids.remove(i)) by {
        let n = ids.remove(i);
        assert forall|a: int, b: int| 0 <= a < b < n.len() implies n[a] != n[b] by {
            let a2 = if a < i { a } else { a + 1 };
            let b2 = if b < i { b } else { b + 1 };
            assert(n[a] == ids[a2] && n[b] == ids[b2]);
        }
    }
    assert forall|i: int| 0 <= i < ids.len() implies #[trigger] unique_ids(ids.update(i, ids[i])) by {
        assert(ids.update(i, ids[i]) =~= ids);
    }
}

pub proof fn lemma_project_ids_unique_ops(ps: Seq<ProjectView>)
    requires
        unique_ids(project_ids(ps)),
    ensures
        forall|p: ProjectView| project_index(ps, p.id) < 0 ==> #[trigger] unique_ids(project_ids(ps.push(p))),
        forall|i: int| 0 <= i < ps.len() ==> #[trigger] unique_ids(project_ids(ps.remove(i))),
        forall|i: int, p: ProjectView| 0 <= i < ps.len() && p.id == ps[i].id ==> #[trigger] unique_ids(project_ids(ps.update(i, p))),
{
    lemma_unique_ops(project_ids(ps));
    assert forall|p: ProjectView| project_index(ps, p.id) < 0 implies #[trigger] unique_ids(project_ids(ps.push(p))) by {
        lemma_project_ids_push(ps, p);
    }
    assert forall|i: int| 0 <= i < ps.len() implies #[trigger] unique_ids(project_ids(ps.remove(i))) by {
        lemma_project_ids_remove(ps, i);
    }
    assert forall|i: int, p: ProjectView| 0 <= i < ps.len() && p.id == ps[i].id implies #[trigger] unique_ids(project_ids(ps.update(i, p))) by {
        lemma_project_ids_update(ps, i, p);
        assert(project_ids(ps)[i] == p.id);
    }
}

pub proof fn lemma_task_ids_unique_ops(ts: Seq<TaskView>)
    requires
        unique_ids(task_ids(ts)),
    ensures
        forall|t: TaskView| task_index(ts, t.id) < 0 ==> #[trigger] unique_ids(task_ids(ts.push(t))),
        forall|i: int| 0 <= i < ts.len() ==> #[trigger] unique_ids(task_ids(ts.remove(i))),
        forall|i: int, t: TaskView| 0 <= i < ts.len() && t.id == ts[i].id ==> #[trigger] unique_ids(task_ids(ts.update(i, t))),
{
    lemma_unique_ops(task_ids(ts));
    assert forall|t: TaskView| task_index(ts, t.id) < 0 implies #[trigger] unique_ids(task_ids(ts.push(t))) by {
        lemma_task_ids_push(ts, t);
    }
    assert forall|i: int| 0 <= i < ts.len() implies #[trigger] unique_ids(task_ids(ts.remove(i))) by {
        lemma_task_ids_remove(ts, i);
    }
    assert forall|i: int, t: TaskView| 0 <= i < ts.len() && t.id == ts[i].id implies #[trigger] unique_ids(task_ids(ts.update(i, t))) by {
        lemma_task_ids_update(ts, i, t);
        assert(task_ids(ts)[i] == t.id);
    }
}

/// The tasks kept by a project delete are tasks of the store, with unique ids.
pub proof fn lemma_tasks_not_in(ts: Seq<TaskView>, pid: ObjectId)
    requires
        unique_ids(task_ids(ts)),
    ensures
        unique_ids(task_ids(tasks_not_in(ts, pid))),
        forall|k: int| 0 <= k < tasks_not_in(ts, pid).len() ==> ts.contains(#[trigger] tasks_not_in(ts, pid)[k]),
        forall|k: int| 0 <= k < tasks_not_in(ts, pid).len() ==> !in_project(#[trigger] tasks_not_in(ts, pid)[k], pid),
    decreases ts.len(),
{
    if ts.len() > 0 {
        let init = ts.drop_last();
        assert(unique_ids(task_ids(init))) by {
            assert forall|a: int, b: int| 0 <= a < b < task_ids(init).len() implies task_ids(init)[a] != task_ids(init)[b] by {
                assert(task_ids(init)[a] == task_ids(ts)[a]);
                assert(task_ids(init)[b] == task_ids(ts)[b]);
            }
        }
        lemma_tasks_not_in(init, pid);
        let r0 = tasks_not_in(init, pid);
        assert forall|k: int| 0 <= k < r0.len() implies ts.contains(#[trigger] r0[k]) by {
            let j = choose|j: int| 0 <= j < init.len() && init[j] == r0[k];
            assert(ts[j] == r0[k]);
        }
        if !in_project(ts.last(), pid) {
            let r = r0.push(ts.last());
            lemma_task_ids_push(r0, ts.last());
            assert forall|a: int, b: int| 0 <= a < b < task_ids(r).len() implies task_ids(r)[a] != task_ids(r)[b] by {
                if b == r0.len() {
                    let j = choose|j: int| 0 <= j < init.len() && init[j] == r0[a];
                    assert(task_ids(ts)[j] == r0[a].id);
                    assert(task_ids(ts)[ts.len() - 1] == ts.last().id);
                } else {
                    assert(task_ids(r)[a] == task_ids(r0)[a]);
                    assert(task_ids(r)[b] == task_ids(r0)[b]);
                }
            }
            assert forall|k: int| 0 <= k < r.len() implies ts.contains(#[trigger] r[k]) by {
                if k < r0.len() {
                    assert(r[k] == r0[k]);
                } else {
                    assert(ts[ts.len() - 1] == r[k]);
                }
            }
        }
    }
}

/// Sort keys of tasks by their order.
pub open spec fn order_keys(ts: Seq<TaskView>) -> Seq<(int, Seq<char>)> {
    ts.map_values(|t: TaskView| (t.order as int, Seq::<char>::empty()))
}

/// `out` is the task query's answer for `lookup`: the listed tasks sorted by
/// order, tasks of equal order in storage order.
pub open spec fn sorted_listing(ts: Seq<TaskView>, lookup: ProjectEntryView, out: Seq<TaskView>) -> bool {
    let l = listed(ts, lookup);
    exists|perm: Seq<usize>| {
        &&& is_stable_order(order_keys(l), perm)
        &&& out.len() == perm.len()
        &&& forall|k: int| 0 <= k < out.len() ==> out[k] == l[perm[k] as int]
    }
}

// ---- annotations ----

/// The annotations of task `task_id`, in storage order.
pub open spec fn notes_of(a: Seq<AnnotationView>, task_id: ObjectId) -> Seq<AnnotationView>
    decreases a.len(),
{
    if a.len() == 0 {
        Seq::empty()
    } else if a.last().task_id == task_id {
        notes_of(a.drop_last(), task_id).push(a.last())
    } else {
        notes_of(a.drop_last(), task_id)
    }
}

/// Sort keys of annotations by id.
pub open spec fn id_keys(a: Seq<AnnotationView>) -> Seq<(int, Seq<char>)> {
    a.map_values(|x: AnnotationView| (x.id.spec_value(), Seq::<char>::empty()))
}

/// `out` is task `task_id`'s annotations ordered by id.
pub open spec fn notes_listing(a: Seq<AnnotationView>, task_id: ObjectId, out: Seq<AnnotationView>) -> bool {
    let l = notes_of(a, task_id);
    exists|perm: Seq<usize>| {
        &&& is_stable_order(id_keys(l), perm)
        &&& out.len() == perm.len()
        &&& forall|k: int| 0 <= k < out.len() ==> out[k] == l[perm[k] as int]
    }
}

/// Index of the annotation with id `id`, or -1.
pub open spec fn annotation_index(a: Seq<AnnotationView>, id: ObjectId) -> int {
    id_index(annotation_ids(a), id)
}

/// `s` with the annotations replaced.
pub open spec fn with_annotations(s: DbView, annotations: Seq<AnnotationView>) -> DbView {
    DbView { annotations, ..s }
}

// ---- tag rewriting ----

/// Some tag of `tags` normalizes to `n`.
pub open spec fn has_tag_norm(tags: Seq<Seq<char>>, n: Seq<char>) -> bool {
    exists|k: int| 0 <= k < tags.len() && norm(tags[k]) == n
}

/// `out` with `tag` appended unless a tag with the same normalized form is there.
pub open spec fn push_unique(out: Seq<Seq<char>>, tag: Seq<char>) -> Seq<Seq<char>> {
    if has_tag_norm(out, norm(tag)) {
        out
    } else {
        out.push(tag)
    }
}

/// `tags` with every tag normalizing to `from` replaced by `to` (or dropped
/// when `to` is `None`), keeping the first of tags that normalize alike.
pub open spec fn rewrite_tags(tags: Seq<Seq<char>>, from: Seq<char>, to: Option<Seq<char>>) -> Seq<Seq<char>>
    decreases tags.len(),
{
    if tags.len() == 0 {
        Seq::empty()
    } else {
        let out = rewrite_tags(tags.drop_last(), from, to);
        if norm(tags.last()) == from {
            match to {
                Some(t) => push_unique(out, t),
                None => out,
            }
        } else {
            push_unique(out, tags.last())
        }
    }
}

/// The task carries a tag normalizing to `from`.
pub open spec fn needs_rewrite(t: TaskView, from: Seq<char>) -> bool {
    t.tags matches Some(ts) && has_tag_norm(ts, from)
}

/// The task with its tags rewritten; an emptied list becomes `None`.
pub open spec fn rewritten(t: TaskView, from: Seq<char>, to: Option<Seq<char>>) -> TaskView {
    let out = rewrite_tags(t.tags.unwrap(), from, to);
    TaskView { tags: if out.len() == 0 { None } else { Some(out) }, ..t }
}

/// The store after rewriting the tags of the first `k` tasks of `ts0`, each
/// change made (and recorded) as a task update.
pub open spec fn after_rewrite(s: DbView, ts0: Seq<TaskView>, from: Seq<char>, to: Option<Seq<char>>, k: nat) -> DbView
    decreases k,
{
    if k == 0 {
        s
    } else {
        let s1 = after_rewrite(s, ts0, from, to, (k - 1) as nat);
        let t = ts0[k - 1];
        if needs_rewrite(t, from) {
            after_update_task(s1, rewritten(t, from, to))
        } else {
            s1
        }
    }
}

/// How many of the first `k` tasks of `ts0` carry a tag normalizing to `from`.
pub open spec fn rewrite_count(ts0: Seq<TaskView>, from: Seq<char>, k: nat) -> nat
    decreases k,
{
    if k == 0 {
        0
    } else {
        rewrite_count(ts0, from, (k - 1) as nat) + if needs_rewrite(ts0[k - 1], from) { 1nat } else { 0nat }
    }
}

/// The tag store without `name`.
pub open spec fn without_tag(tags: Seq<Seq<char>>, name: Seq<char>) -> Seq<Seq<char>>
    decreases tags.len(),
{
    if tags.len() == 0 {
        Seq::empty()
    } else if tags.last() == name {
        without_tag(tags.drop_last(), name)
    } else {
        without_tag(tags.drop_last(), name).push(tags.last())
    }
}

/// `rename_tag(from, to)` (with `from`, `to` normalized and different, `to`
/// not blank): tasks rewritten, `from` dropped from the store, `to` stored.
pub open spec fn after_rename_tag(s: DbView, from: Seq<char>, to: Seq<char>) -> DbView {
    let s1 = after_rewrite(s, s.tasks, from, Some(to), s.tasks.len());
    let s2 = with_tags(s1, without_tag(s1.tags, from));
    with_tags(s2, upsert(s2.tags, seq![to]))
}

/// `delete_tag(name)` with `name` normalized: tasks rewritten, the tag dropped from the store.
pub open spec fn after_delete_tag(s: DbView, name: Seq<char>) -> DbView {
    let s1 = after_rewrite(s, s.tasks, name, None, s.tasks.len());
    with_tags(s1, without_tag(s1.tags, name))
}

} // verus!
