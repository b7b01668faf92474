//! Laws of the store: what undo and redo give back, and what every write
//! keeps.

use vstd::prelude::*;

use crate::database::history::{EventView, ItemView};
use crate::database::models::{ObjectId, ProjectEntryView, ProjectView, TaskView, entry_matches};
use crate::database::state::{listed, order_keys, sorted_listing};
use crate::database::state::{
    DbView, after_create_project, after_create_task, after_delete_project, after_delete_task,
    after_redo, after_undo, after_update_project, after_update_task, lemma_project_ids_remove,
    lemma_project_ids_update, with_project_fields, can_create_project, can_create_task, id_index,
    in_project, lemma_id_index, lemma_project_ids_push, lemma_task_ids_push, lemma_task_ids_remove,
    lemma_task_ids_update, lemma_tasks_not_in, lemma_unique_ops, project_ids, project_index,
    redo_ok, task_ids, task_index, undo_ok, view_wf, with_fields,
};

verus! {

proof fn lemma_index_of_pushed_task(ts: Seq<TaskView>, t: TaskView)
    ensures
        task_index(ts.push(t), t.id) == ts.len(),
{
    lemma_task_ids_push(ts, t);
    assert(task_ids(ts.push(t)).last() == t.id);
}

proof fn lemma_index_after_remove(ts: Seq<TaskView>, i: int)
    requires
        unique_ids(task_ids(ts)),
        0 <= i < ts.len(),
    ensures
        task_index(ts.remove(i), ts[i].id) < 0,
{
    lemma_task_ids_remove(ts, i);
    let ids = task_ids(ts);
    lemma_id_index(ids.remove(i), ts[i].id);
    assert forall|k: int| 0 <= k < ids.remove(i).len() implies ids.remove(i)[k] != ts[i].id by {
        let k2 = if k < i { k } else { k + 1 };
        assert(ids.remove(i)[k] == ids[k2]);
        assert(ids[i] == ts[i].id);
    }
    if id_index(ids.remove(i), ts[i].id) >= 0 {
        let k = id_index(ids.remove(i), ts[i].id);
        assert(ids.remove(i)[k] == ts[i].id);
    }
}

use crate::database::state::unique_ids;

/// Law: a task read back right after it is created is the task written.
pub proof fn law_read_after_create(s: DbView, t: TaskView)
    requires
        view_wf(s),
        can_create_task(s, t),
    ensures
        task_index(after_create_task(s, t).tasks, t.id) >= 0,
        after_create_task(s, t).tasks[task_index(after_create_task(s, t).tasks, t.id)] == t,
{
    lemma_index_of_pushed_task(s.tasks, t);
}

/// Law: a task read back right after an update carries every field the
/// update writes, and keeps its id, project and modification date.
pub proof fn law_read_after_update(s: DbView, t: TaskView)
    requires
        view_wf(s),
        task_index(s.tasks, t.id) >= 0,
    ensures
        task_index(after_update_task(s, t).tasks, t.id) == task_index(s.tasks, t.id),
        after_update_task(s, t).tasks[task_index(s.tasks, t.id)]
            == with_fields(s.tasks[task_index(s.tasks, t.id)], t),
{
    let i = task_index(s.tasks, t.id);
    lemma_id_index(task_ids(s.tasks), t.id);
    let w = with_fields(s.tasks[i], t);
    lemma_task_ids_update(s.tasks, i, w);
    assert(task_ids(s.tasks)[i] == s.tasks[i].id);
    assert(task_ids(s.tasks).update(i, w.id) =~= task_ids(s.tasks));
}

/// Law: a deleted task reads back as absent.
pub proof fn law_read_after_delete(s: DbView, id: ObjectId)
    requires
        view_wf(s),
        task_index(s.tasks, id) >= 0,
    ensures
        task_index(after_delete_task(s, id).tasks, id) < 0,
{
    let i = task_index(s.tasks, id);
    lemma_id_index(task_ids(s.tasks), id);
    lemma_index_after_remove(s.tasks, i);
}

/// Law: undoing a task creation removes the task again and restores the history.
pub proof fn law_undo_create_task(s: DbView, t: TaskView)
    requires
        view_wf(s),
        can_create_task(s, t),
    ensures
        undo_ok(after_create_task(s, t)),
        after_undo(after_create_task(s, t)).tasks == s.tasks,
        after_undo(after_create_task(s, t)).history == s.history,
        after_undo(after_create_task(s, t)).redo == seq![EventView::Create(ItemView::Task(t))],
{
    let s1 = after_create_task(s, t);
    lemma_index_of_pushed_task(s.tasks, t);
    assert(s1.history.last() == EventView::Create(ItemView::Task(t)));
    assert(s.tasks.push(t).remove(s.tasks.len() as int) =~= s.tasks);
    assert(s1.history.drop_last() =~= s.history);
    assert(Seq::<EventView>::empty().push(EventView::Create(ItemView::Task(t))) =~= seq![EventView::Create(ItemView::Task(t))]);
}

/// Law: undoing an update of a stored task restores every task as it was.
pub proof fn law_undo_update_task(s: DbView, t: TaskView)
    requires
        view_wf(s),
        task_index(s.tasks, t.id) >= 0,
    ensures
        undo_ok(after_update_task(s, t)),
        after_undo(after_update_task(s, t)).tasks == s.tasks,
        after_undo(after_update_task(s, t)).history == s.history,
{
    let i = task_index(s.tasks, t.id);
    lemma_id_index(task_ids(s.tasks), t.id);
    let b = s.tasks[i];
    let w = with_fields(b, t);
    let ts1 = s.tasks.update(i, w);
    lemma_task_ids_update(s.tasks, i, w);
    assert(task_ids(s.tasks)[i] == b.id);
    assert(task_ids(s.tasks).update(i, w.id) =~= task_ids(s.tasks));
    assert(task_index(ts1, b.id) == i);
    assert(with_fields(w, b) == b);
    assert(ts1.update(i, b) =~= s.tasks);
    assert(after_update_task(s, t).history.drop_last() =~= s.history);
}

/// Law: undoing a task deletion brings the task back (it is stored last).
pub proof fn law_undo_delete_task(s: DbView, id: ObjectId)
    requires
        view_wf(s),
        task_index(s.tasks, id) >= 0,
    ensures
        undo_ok(after_delete_task(s, id)),
        after_undo(after_delete_task(s, id)).tasks
            == s.tasks.remove(task_index(s.tasks, id)).push(s.tasks[task_index(s.tasks, id)]),
        after_undo(after_delete_task(s, id)).history == s.history,
{
    let i = task_index(s.tasks, id);
    lemma_id_index(task_ids(s.tasks), id);
    lemma_index_after_remove(s.tasks, i);
    assert(after_delete_task(s, id).history.drop_last() =~= s.history);
}

/// Law: redo after undo of a creation re-creates the task, and the history
/// and redo stack are as right after the creation.
pub proof fn law_redo_create_task(s: DbView, t: TaskView)
    requires
        view_wf(s),
        can_create_task(s, t),
    ensures
        redo_ok(after_undo(after_create_task(s, t))),
        after_redo(after_undo(after_create_task(s, t))).tasks == after_create_task(s, t).tasks,
        after_redo(after_undo(after_create_task(s, t))).history == after_create_task(s, t).history,
        after_redo(after_undo(after_create_task(s, t))).redo.len() == 0,
{
    law_undo_create_task(s, t);
    let s2 = after_undo(after_create_task(s, t));
    assert(s2.redo.last() == EventView::Create(ItemView::Task(t)));
    assert(s2.redo.drop_last() =~= Seq::<EventView>::empty());
}

/// Law: redo after undo of an update re-applies it.
pub proof fn law_redo_update_task(s: DbView, t: TaskView)
    requires
        view_wf(s),
        task_index(s.tasks, t.id) >= 0,
    ensures
        after_redo(after_undo(after_update_task(s, t))).tasks == after_update_task(s, t).tasks,
        after_redo(after_undo(after_update_task(s, t))).history == after_update_task(s, t).history,
{
    law_undo_update_task(s, t);
    let s1 = after_update_task(s, t);
    let s2 = after_undo(s1);
    assert(s2.redo.last() == s1.history.last());
    assert(s2.history.push(s1.history.last()) =~= s1.history);
}

/// Law: redo after undo of a deletion deletes the task again.
pub proof fn law_redo_delete_task(s: DbView, id: ObjectId)
    requires
        view_wf(s),
        task_index(s.tasks, id) >= 0,
    ensures
        after_redo(after_undo(after_delete_task(s, id))).tasks == after_delete_task(s, id).tasks,
        after_redo(after_undo(after_delete_task(s, id))).history == after_delete_task(s, id).history,
{
    law_undo_delete_task(s, id);
    let i = task_index(s.tasks, id);
    let t = s.tasks[i];
    let s1 = after_delete_task(s, id);
    let s2 = after_undo(s1);
    lemma_index_of_pushed_task(s.tasks.remove(i), t);
    assert(s.tasks.remove(i).push(t).remove(s.tasks.remove(i).len() as int) =~= s.tasks.remove(i));
    assert(s2.history.push(s1.history.last()) =~= s1.history);
}

/// Law: undoing a rename (update) of a stored project gives every project
/// back as it was, with the history as before the update.
pub proof fn law_undo_update_project(s: DbView, p: ProjectView)
    requires
        view_wf(s),
        project_index(s.projects, p.id) >= 0,
    ensures
        undo_ok(after_update_project(s, p)),
        after_undo(after_update_project(s, p)).projects == s.projects,
        after_undo(after_update_project(s, p)).tasks == s.tasks,
        after_undo(after_update_project(s, p)).history == s.history,
{
    let i = project_index(s.projects, p.id);
    lemma_id_index(project_ids(s.projects), p.id);
    let b = s.projects[i];
    let w = with_project_fields(b, p);
    let ps1 = s.projects.update(i, w);
    lemma_project_ids_update(s.projects, i, w);
    assert(project_ids(s.projects)[i] == b.id);
    assert(project_ids(s.projects).update(i, w.id) =~= project_ids(s.projects));
    assert(project_index(ps1, b.id) == i);
    assert(with_project_fields(w, b) == b);
    assert(ps1.update(i, b) =~= s.projects);
    assert(after_update_project(s, p).history.drop_last() =~= s.history);
}

/// Law: redo after undoing a project update applies the update again.
pub proof fn law_redo_update_project(s: DbView, p: ProjectView)
    requires
        view_wf(s),
        project_index(s.projects, p.id) >= 0,
    ensures
        after_redo(after_undo(after_update_project(s, p))).projects == after_update_project(s, p).projects,
        after_redo(after_undo(after_update_project(s, p))).history == after_update_project(s, p).history,
{
    law_undo_update_project(s, p);
    let s1 = after_update_project(s, p);
    let s2 = after_undo(s1);
    assert(s2.redo.last() == s1.history.last());
    assert(s2.history.push(s1.history.last()) =~= s1.history);
}

/// Law: undoing a project creation removes the project again.
pub proof fn law_undo_create_project(s: DbView, p: ProjectView)
    requires
        view_wf(s),
        can_create_project(s, p),
    ensures
        undo_ok(after_create_project(s, p)),
        after_undo(after_create_project(s, p)).projects == s.projects,
        after_undo(after_create_project(s, p)).tasks == s.tasks,
        after_undo(after_create_project(s, p)).history == s.history,
{
    let s1 = after_create_project(s, p);
    lemma_project_ids_push(s.projects, p);
    assert(project_ids(s.projects.push(p)).last() == p.id);
    lemma_id_index(project_ids(s.projects), p.id);
    lemma_id_index(project_ids(s.projects.push(p)), p.id);
    let k = project_index(s.projects.push(p), p.id);
    if k < s.projects.len() {
        assert(project_ids(s.projects.push(p))[k] == project_ids(s.projects)[k]);
    }
    assert(k == s.projects.len());
    assert(s.projects.push(p).remove(s.projects.len() as int) =~= s.projects);
    assert(s1.history.drop_last() =~= s.history);
}

/// Law: redo after undoing a project creation creates the project again.
pub proof fn law_redo_create_project(s: DbView, p: ProjectView)
    requires
        view_wf(s),
        can_create_project(s, p),
    ensures
        redo_ok(after_undo(after_create_project(s, p))),
        after_redo(after_undo(after_create_project(s, p))).projects == after_create_project(s, p).projects,
        after_redo(after_undo(after_create_project(s, p))).history == after_create_project(s, p).history,
{
    law_undo_create_project(s, p);
    let s1 = after_create_project(s, p);
    let s2 = after_undo(s1);
    assert(s2.redo.last() == s1.history.last());
    assert(s2.history.push(s1.history.last()) =~= s1.history);
}

proof fn lemma_project_index_after_remove(ps: Seq<ProjectView>, i: int)
    requires
        unique_ids(project_ids(ps)),
        0 <= i < ps.len(),
    ensures
        project_index(ps.remove(i), ps[i].id) < 0,
{
    lemma_project_ids_remove(ps, i);
    let ids = project_ids(ps);
    lemma_id_index(ids.remove(i), ps[i].id);
    assert forall|k: int| 0 <= k < ids.remove(i).len() implies ids.remove(i)[k] != ps[i].id by {
        let k2 = if k < i { k } else { k + 1 };
        assert(ids.remove(i)[k] == ids[k2]);
        assert(ids[i] == ps[i].id);
    }
    if id_index(ids.remove(i), ps[i].id) >= 0 {
        let k = id_index(ids.remove(i), ps[i].id);
        assert(ids.remove(i)[k] == ps[i].id);
    }
}

/// Law: undoing a project deletion brings the project back (it is stored
/// last); its tasks, deleted first, come back with the undos after it.
pub proof fn law_undo_delete_project(s: DbView, pid: ObjectId)
    requires
        view_wf(s),
        project_index(s.projects, pid) >= 0,
    ensures
        undo_ok(after_delete_project(s, pid)),
        after_undo(after_delete_project(s, pid)).projects
            == s.projects.remove(project_index(s.projects, pid)).push(s.projects[project_index(s.projects, pid)]),
{
    let j = project_index(s.projects, pid);
    lemma_id_index(project_ids(s.projects), pid);
    assert(project_ids(s.projects)[j] == s.projects[j].id);
    lemma_project_index_after_remove(s.projects, j);
}

/// Law: every recorded write starts a new branch of history — the redo stack is empty after it.
pub proof fn law_write_clears_redo(s: DbView, t: TaskView, p: ProjectView, id: ObjectId)
    ensures
        after_create_task(s, t).redo.len() == 0,
        task_index(s.tasks, t.id) >= 0 ==> after_update_task(s, t).redo.len() == 0,
        task_index(s.tasks, id) >= 0 ==> after_delete_task(s, id).redo.len() == 0,
        after_create_project(s, p).redo.len() == 0,
        project_index(s.projects, id) >= 0 ==> after_delete_project(s, id).redo.len() == 0,
{
}

/// Law: deleting a project leaves no task of that project.
pub proof fn law_delete_project_cascades(s: DbView, pid: ObjectId)
    requires
        view_wf(s),
    ensures
        forall|k: int| 0 <= k < after_delete_project(s, pid).tasks.len()
            ==> !in_project(#[trigger] after_delete_project(s, pid).tasks[k], pid),
        project_index(after_delete_project(s, pid).projects, pid) < 0,
{
    lemma_tasks_not_in(s.tasks, pid);
    let j = project_index(s.projects, pid);
    lemma_id_index(project_ids(s.projects), pid);
    if j >= 0 {
        let ps = s.projects.remove(j);
        assert(project_ids(ps) =~= project_ids(s.projects).remove(j));
        lemma_id_index(project_ids(ps), pid);
        if project_index(ps, pid) >= 0 {
            let k = project_index(ps, pid);
            let k2 = if k < j { k } else { k + 1 };
            assert(project_ids(ps)[k] == project_ids(s.projects)[k2]);
            assert(project_ids(s.projects)[j] == pid);
        }
    }
}

proof fn lemma_listed_members(ts: Seq<TaskView>, lookup: ProjectEntryView, x: TaskView)
    ensures
        listed(ts, lookup).contains(x) <==> (ts.contains(x) && entry_matches(lookup, x.project_id)),
    decreases ts.len(),
{
    if ts.len() > 0 {
        let front = ts.drop_last();
        lemma_listed_members(front, lookup, x);
        let l0 = listed(front, lookup);
        assert(ts =~= front.push(ts.last()));
        if ts.contains(x) && x != ts.last() {
            let i = choose|i: int| 0 <= i < ts.len() && ts[i] == x;
            assert(front[i] == x);
        }
        if front.contains(x) {
            let i = choose|i: int| 0 <= i < front.len() && front[i] == x;
            assert(ts[i] == x);
        }
        if entry_matches(lookup, ts.last().project_id) {
            let l1 = l0.push(ts.last());
            if l1.contains(x) && x != ts.last() {
                let i = choose|i: int| 0 <= i < l1.len() && l1[i] == x;
                assert(i < l0.len());
                assert(l0[i] == x);
            }
            if l0.contains(x) {
                let i = choose|i: int| 0 <= i < l0.len() && l0[i] == x;
                assert(l1[i] == x);
            }
            assert(l1[l0.len() as int] == ts.last());
        }
        assert(ts[ts.len() - 1] == ts.last());
    }
}

/// Law: the task query answers with exactly the stored tasks of the filter
/// — every task for `All`, the tasks without a project for `None`, the
/// project's own tasks for a project — sorted by their order.
pub proof fn law_task_listing(ts: Seq<TaskView>, lookup: ProjectEntryView, out: Seq<TaskView>)
    requires
        sorted_listing(ts, lookup, out),
    ensures
        forall|x: TaskView| #[trigger] out.contains(x) <==> ts.contains(x) && match lookup {
            ProjectEntryView::All => true,
            ProjectEntryView::NoProject => x.project_id is None,
            ProjectEntryView::Project(p) => x.project_id == Some(p.id),
        },
        forall|a: int, b: int| 0 <= a < b < out.len() ==> #[trigger] out[a].order <= #[trigger] out[b].order,
{
    let l = listed(ts, lookup);
    let keys = order_keys(l);
    let perm = choose|perm: Seq<usize>| {
        &&& crate::sorting::is_stable_order(keys, perm)
        &&& out.len() == perm.len()
        &&& forall|k: int| 0 <= k < out.len() ==> out[k] == l[perm[k] as int]
    };
    assert forall|x: TaskView| #[trigger] out.contains(x) <==> ts.contains(x) && match lookup {
        ProjectEntryView::All => true,
        ProjectEntryView::NoProject => x.project_id is None,
        ProjectEntryView::Project(p) => x.project_id == Some(p.id),
    } by {
        lemma_listed_members(ts, lookup, x);
        if out.contains(x) {
            let k = choose|k: int| 0 <= k < out.len() && out[k] == x;
            assert(l[perm[k] as int] == x);
            assert(l.contains(x));
        }
        if l.contains(x) {
            let j = choose|j: int| 0 <= j < l.len() && l[j] == x;
            crate::sorting::lemma_distinct_below_covers(perm, keys.len() as int);
            assert(crate::sorting::in_list(perm, j));
            let k = choose|k: int| 0 <= k < perm.len() && perm[k] as int == j;
            assert(out[k] == x);
        }
    }
    assert forall|a: int, b: int| 0 <= a < b < out.len() implies #[trigger] out[a].order <= #[trigger] out[b].order by {
        assert(crate::sorting::before(keys, perm[a] as int, perm[b] as int));
        assert(keys[perm[a] as int] == (out[a].order as int, Seq::<char>::empty()));
        assert(keys[perm[b] as int] == (out[b].order as int, Seq::<char>::empty()));
    }
}

} // verus!
