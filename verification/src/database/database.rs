//! The task store: tasks, projects, tags, annotations and the undo history.

use vstd::prelude::*;

use crate::database::history::{Event, EventView, HistoryRecord, ItemView, SaveableItem};
use crate::database::models::{
    Annotation, DateTime, ObjectId, Project, ProjectEntry, Task, str_views, tags_view,
};
use crate::database::state::{
    DbView, after_create_project, after_create_task, after_delete_project, after_delete_task,
    after_project_tasks_deleted, after_redo, after_undo, after_update_project, after_update_task,
    annotation_ids, can_create_project, can_create_task, delete_events, drop_project, drop_task,
    forward_applied, forward_ok, id_index, inverse_applied, inverse_ok, lemma_id_index,
    lemma_project_ids_push, lemma_project_ids_remove, lemma_project_ids_update, lemma_task_ids_push,
    lemma_task_ids_remove, lemma_task_ids_update, lemma_unique_ops, listed, norm, project_ids,
    project_index, record, redo_ok, set_project, set_task, task_ids, task_index, tasks_in,
    tasks_not_in, undo_ok, unique_ids, upsert, upsert_one, upsert_opt, view_wf, with_fields,
    with_project_fields, with_tags, order_keys, sorted_listing, notes_of, id_keys, notes_listing,
    annotation_index, with_annotations, has_tag_norm, push_unique, rewrite_tags, needs_rewrite, rewritten,
    after_rewrite, rewrite_count, without_tag, after_rename_tag, after_delete_tag, with_tasks, with_projects, lemma_task_ids_unique_ops,
    lemma_project_ids_unique_ops, lemma_tasks_not_in, in_project,
};
use crate::sorting::{SortKey, key_seq, stable_order};
use crate::text::{chars_of, to_lower, trim_str};

verus! {

/// Why a store operation was refused.
#[derive(Clone, Copy, Debug, PartialEq, Eq, Structural)]
pub enum DbError {
    /// An insert found its id already taken.
    DuplicateId,
    /// No task has the requested id.
    TaskNotFound,
    /// No project has the requested id.
    ProjectNotFound,
    /// A tag was renamed to a blank name.
    EmptyTagName,
}

impl DbError {
    /// The message shown to the user.
    pub fn message(&self) -> (s: &'static str)
        ensures
            *self == DbError::DuplicateId ==> s@ == "Duplicate id"@,
            *self == DbError::TaskNotFound ==> s@ == "Task not found"@,
            *self == DbError::ProjectNotFound ==> s@ == "Project not found"@,
            *self == DbError::EmptyTagName ==> s@ == "Tag name can't be empty"@,
    {
        match self {
            DbError::DuplicateId => "Duplicate id",
            DbError::TaskNotFound => "Task not found",
            DbError::ProjectNotFound => "Project not found",
            DbError::EmptyTagName => "Tag name can't be empty",
        }
    }
}

/// The store. Every logical write (an operation and its history record) is
/// one `&mut self` call, so writes cannot interleave.
pub struct Db {
    tasks: Vec<Task>,
    projects: Vec<Project>,
    tags: Vec<String>,
    history: Vec<HistoryRecord>,
    redo_stack: Vec<Event>,
    annotations: Vec<Annotation>,
    recent: Option<ProjectEntry>,
}

/// The views of tasks.
pub open spec fn task_views(v: Seq<Task>) -> Seq<crate::database::models::TaskView> {
    v.map_values(|t: Task| t@)
}

pub open spec fn project_views(v: Seq<Project>) -> Seq<crate::database::models::ProjectView> {
    v.map_values(|p: Project| p@)
}

pub open spec fn record_events(v: Seq<HistoryRecord>) -> Seq<EventView> {
    v.map_values(|r: HistoryRecord| r.event@)
}

pub open spec fn event_views(v: Seq<Event>) -> Seq<EventView> {
    v.map_values(|e: Event| e@)
}

pub open spec fn annotation_views(v: Seq<Annotation>) -> Seq<crate::database::models::AnnotationView> {
    v.map_values(|a: Annotation| a@)
}

impl View for Db {
    type V = DbView;

    closed spec fn view(&self) -> DbView {
        DbView {
            tasks: task_views(self.tasks@),
            projects: project_views(self.projects@),
            tags: str_views(self.tags@),
            history: record_events(self.history@),
            redo: event_views(self.redo_stack@),
            annotations: annotation_views(self.annotations@),
            recent: match self.recent {
                Some(e) => Some(e@),
                None => None,
            },
        }
    }
}

impl Db {
    /// The store's invariant: ids are unique among tasks, projects and annotations.
    pub open spec fn wf(&self) -> bool {
        view_wf(self@)
    }

    /// An empty store.
    pub fn new() -> (db: Db)
        ensures
            db.wf(),
            db@.tasks.len() == 0,
            db@.projects.len() == 0,
            db@.tags.len() == 0,
            db@.history.len() == 0,
            db@.redo.len() == 0,
            db@.annotations.len() == 0,
            db@.recent is None,
    {
        let db = Db {
            tasks: Vec::new(),
            projects: Vec::new(),
            tags: Vec::new(),
            history: Vec::new(),
            redo_stack: Vec::new(),
            annotations: Vec::new(),
            recent: None,
        };
        proof {
            assert(db@.tasks =~= Seq::empty());
            assert(db@.projects =~= Seq::empty());
            assert(db@.annotations =~= Seq::empty());
        }
        db
    }

    /// Position of the task with id `id`.
    fn task_pos(&self, id: ObjectId) -> (r: Option<usize>)
        ensures
            r matches Some(i) ==> i as int == task_index(self@.tasks, id) && i < self@.tasks.len(),
            r is None ==> task_index(self@.tasks, id) < 0,
    {
        let ghost ids = task_ids(self@.tasks);
        let mut i: usize = self.tasks.len();
        proof {
            assert(ids.subrange(0, i as int) =~= ids);
        }
        while i > 0
            invariant
                ids == task_ids(self@.tasks),
                i <= self.tasks@.len(),
                id_index(ids, id) == id_index(ids.subrange(0, i as int), id),
            decreases i,
        {
            assert(ids.subrange(0, i as int).drop_last() =~= ids.subrange(0, i - 1));
            if self.tasks[i - 1].id == id {
                return Some(i - 1);
            }
            i = i - 1;
        }
        None
    }

    /// Position of the project with id `id`.
    fn project_pos(&self, id: ObjectId) -> (r: Option<usize>)
        ensures
            r matches Some(i) ==> i as int == project_index(self@.projects, id) && i < self@.projects.len(),
            r is None ==> project_index(self@.projects, id) < 0,
    {
        let ghost ids = project_ids(self@.projects);
        let mut i: usize = self.projects.len();
        proof {
            assert(ids.subrange(0, i as int) =~= ids);
        }
        while i > 0
            invariant
                ids == project_ids(self@.projects),
                i <= self.projects@.len(),
                id_index(ids, id) == id_index(ids.subrange(0, i as int), id),
            decreases i,
        {
            assert(ids.subrange(0, i as int).drop_last() =~= ids.subrange(0, i - 1));
            if self.projects[i - 1].id == id {
                return Some(i - 1);
            }
            i = i - 1;
        }
        None
    }

    /// Record `event` in the history; this clears the redo stack.
    pub fn append_history(&mut self, event: Event) -> (r: Result<(), DbError>)
        ensures
            r is Ok,
            final(self)@ == record(old(self)@, event@),
    {
        let rec = HistoryRecord { id: ObjectId::new(), timestamp: DateTime::now(), event };
        self.redo_stack.clear();
        self.history.push(rec);
        proof {
            assert(self@.history =~= old(self)@.history.push(event@));
            assert(self@.redo =~= Seq::<EventView>::empty());
            assert(self@ == record(old(self)@, event@));
        }
        Ok(())
    }
}

/// Tags are stored lowercased and trimmed; task tags keep the user's casing, so
/// every comparison goes through this.
pub fn normalize_tag(tag: &str) -> (r: String)
    ensures
        r@ == norm(tag@),
{
    let t = trim_str(tag);
    to_lower(t.as_str())
}

/// Whether `v` holds a string with the characters of `s`.
pub fn contains_string(v: &Vec<String>, s: &String) -> (b: bool)
    ensures
        b == str_views(v@).contains(s@),
{
    let mut i: usize = 0;
    while i < v.len()
        invariant
            i <= v@.len(),
            forall|k: int| 0 <= k < i ==> v@[k]@ != s@,
        decreases v@.len() - i,
    {
        if v[i] == *s {
            assert(str_views(v@)[i as int] == s@);
            return true;
        }
        i = i + 1;
    }
    assert forall|k: int| 0 <= k < str_views(v@).len() implies str_views(v@)[k] != s@ by {
        assert(str_views(v@)[k] == v@[k]@);
    }
    false
}

impl Db {
    /// Store each tag's normalized form, skipping blank and known ones.
    pub fn upsert_tags(&mut self, tags: &[String]) -> (r: Result<(), DbError>)
        ensures
            r is Ok,
            final(self)@ == with_tags(old(self)@, upsert(old(self)@.tags, str_views(tags@))),
    {
        let ghost tv = str_views(tags@);
        let mut i: usize = 0;
        proof {
            assert(tv.subrange(0, 0) =~= Seq::<Seq<char>>::empty());
        }
        while i < tags.len()
            invariant
                tv == str_views(tags@),
                i <= tags@.len(),
                self@ == with_tags(old(self)@, upsert(old(self)@.tags, tv.subrange(0, i as int))),
            decreases tags@.len() - i,
        {
            let normalized = normalize_tag(tags[i].as_str());
            proof {
                assert(tv.subrange(0, i + 1).drop_last() =~= tv.subrange(0, i as int));
                assert(tv.subrange(0, i + 1).last() == tags@[i as int]@);
            }
            if normalized.unicode_len() == 0 {
            } else if contains_string(&self.tags, &normalized) {
            } else {
                self.tags.push(normalized);
                proof {
                    assert(str_views(self.tags@) =~= upsert(old(self)@.tags, tv.subrange(0, i as int)).push(norm(tags@[i as int]@)));
                }
            }
            i = i + 1;
        }
        proof {
            assert(tv.subrange(0, tags@.len() as int) =~= tv);
        }
        Ok(())
    }

    fn upsert_opt_tags(&mut self, tags: &Option<Vec<String>>)
        ensures
            final(self)@ == with_tags(old(self)@, upsert_opt(old(self)@.tags, tags_view(*tags))),
    {
        match tags {
            Some(v) => {
                let _ = self.upsert_tags(v.as_slice());
            },
            None => {},
        }
    }
}

impl Db {
    /// The task with id `task_id`.
    pub fn one_task(&self, task_id: ObjectId) -> (r: Result<Option<Task>, DbError>)
        ensures
            task_index(self@.tasks, task_id) >= 0 ==> (r matches Ok(Some(t)) && t@ == self@.tasks[task_index(self@.tasks, task_id)]),
            task_index(self@.tasks, task_id) < 0 ==> r matches Ok(None),
    {
        match self.task_pos(task_id) {
            Some(i) => Ok(Some(self.tasks[i].clone())),
            None => Ok(None),
        }
    }

    /// Insert `task` (its id must be free) and record the creation.
    pub fn create_task(&mut self, task: Task) -> (r: Result<ObjectId, DbError>)
        requires
            old(self).wf(),
        ensures
            final(self).wf(),
            can_create_task(old(self)@, task@) ==> r == Ok::<ObjectId, DbError>(task.id)
                && final(self)@ == after_create_task(old(self)@, task@),
            !can_create_task(old(self)@, task@) ==> r == Err::<ObjectId, DbError>(DbError::DuplicateId)
                && final(self)@ == old(self)@,
    {
        if self.task_pos(task.id).is_some() {
            return Err(DbError::DuplicateId);
        }
        let id = task.id;
        let copy = task.clone();
        let ghost s0 = self@;
        self.tasks.push(task);
        proof {
            assert(task_views(self.tasks@) =~= s0.tasks.push(copy@));
            lemma_task_ids_push(s0.tasks, copy@);
            lemma_unique_ops(task_ids(s0.tasks));
            assert(self@ == DbView { tasks: s0.tasks.push(copy@), ..s0 });
        }
        self.upsert_opt_tags(&copy.tags);
        let _ = self.append_history(Event::Create(SaveableItem::Task(copy)));
        Ok(id)
    }

    /// Write `task`'s fields onto the stored task with its id (all but the id,
    /// project and modification date), store its tags, and record the change.
    pub fn update_task(&mut self, task: Task) -> (r: Result<ObjectId, DbError>)
        requires
            old(self).wf(),
        ensures
            final(self).wf(),
            r == Ok::<ObjectId, DbError>(task.id),
            final(self)@ == after_update_task(old(self)@, task@),
    {
        let id = task.id;
        let ghost s0 = self@;
        match self.task_pos(id) {
            Some(i) => {
                let before = self.tasks[i].clone();
                let updated = Task {
                    id: before.id,
                    project_id: before.project_id,
                    title: task.title.clone(),
                    details: task.details.clone(),
                    code: task.code,
                    status: task.status,
                    due: task.due,
                    wait_until: task.wait_until,
                    priority: task.priority,
                    tags: crate::database::models::copy_tags(&task.tags),
                    modify_date: before.modify_date,
                    order: task.order,
                    recurrence: task.recurrence,
                };
                assert(updated@ == with_fields(s0.tasks[i as int], task@));
                self.tasks.set(i, updated);
                proof {
                    assert(task_views(self.tasks@) =~= s0.tasks.update(i as int, with_fields(s0.tasks[i as int], task@)));
                    lemma_task_ids_update(s0.tasks, i as int, with_fields(s0.tasks[i as int], task@));
                    lemma_unique_ops(task_ids(s0.tasks));
                    assert(task_ids(s0.tasks).update(i as int, task_ids(s0.tasks)[i as int]) == task_ids(self@.tasks));
                    assert(self@ == DbView { tasks: set_task(s0.tasks, task@), ..s0 });
                }
                self.upsert_opt_tags(&task.tags);
                let _ = self.append_history(
                    Event::Update { before: SaveableItem::Task(before), after: SaveableItem::Task(task) },
                );
            },
            None => {
                self.upsert_opt_tags(&task.tags);
            },
        }
        Ok(id)
    }

    /// Remove the task with id `task_id`, record the deletion and hand the task back.
    pub fn delete_task(&mut self, task_id: ObjectId) -> (r: Result<Task, DbError>)
        requires
            old(self).wf(),
        ensures
            final(self).wf(),
            task_index(old(self)@.tasks, task_id) >= 0 ==> (r matches Ok(t)
                && t@ == old(self)@.tasks[task_index(old(self)@.tasks, task_id)]
                && final(self)@ == after_delete_task(old(self)@, task_id)),
            task_index(old(self)@.tasks, task_id) < 0 ==> r == Err::<Task, DbError>(DbError::TaskNotFound)
                && final(self)@ == old(self)@,
    {
        let ghost s0 = self@;
        match self.task_pos(task_id) {
            None => Err(DbError::TaskNotFound),
            Some(i) => {
                let t = self.tasks.remove(i);
                let copy = t.clone();
                proof {
                    assert(task_views(self.tasks@) =~= s0.tasks.remove(i as int));
                    lemma_task_ids_remove(s0.tasks, i as int);
                    lemma_unique_ops(task_ids(s0.tasks));
                    assert(self@ == DbView { tasks: s0.tasks.remove(i as int), ..s0 });
                }
                let _ = self.append_history(Event::Delete(SaveableItem::Task(copy)));
                Ok(t)
            },
        }
    }

    /// Every task, in storage order.
    pub fn all_tasks(&self) -> (r: Result<Vec<Task>, DbError>)
        ensures
            r matches Ok(v) && task_views(v@) == self@.tasks,
    {
        let mut v: Vec<Task> = Vec::new();
        let mut i: usize = 0;
        while i < self.tasks.len()
            invariant
                i <= self.tasks@.len(),
                v@.len() == i,
                forall|k: int| 0 <= k < i ==> (#[trigger] v@[k])@ == self.tasks@[k]@,
            decreases self.tasks@.len() - i,
        {
            v.push(self.tasks[i].clone());
            i = i + 1;
        }
        assert(task_views(v@) =~= self@.tasks);
        Ok(v)
    }
}

impl Db {
    /// Remove the task with id `id`, if any.
    fn drop_task_by_id(&mut self, id: ObjectId)
        requires
            old(self).wf(),
        ensures
            final(self).wf(),
            final(self)@ == with_tasks(old(self)@, drop_task(old(self)@.tasks, id)),
    {
        let ghost s0 = self@;
        proof { lemma_task_ids_unique_ops(s0.tasks); }
        match self.task_pos(id) {
            Some(i) => {
                let _ = self.tasks.remove(i);
                assert(task_views(self.tasks@) =~= s0.tasks.remove(i as int));
            },
            None => {},
        }
    }

    /// Write `t`'s fields onto the stored task with its id, if any.
    fn set_task_fields(&mut self, t: &Task)
        requires
            old(self).wf(),
        ensures
            final(self).wf(),
            final(self)@ == with_tasks(old(self)@, set_task(old(self)@.tasks, t@)),
    {
        let ghost s0 = self@;
        proof { lemma_task_ids_unique_ops(s0.tasks); }
        match self.task_pos(t.id) {
            Some(i) => {
                let updated = Task {
                    id: self.tasks[i].id,
                    project_id: self.tasks[i].project_id,
                    title: t.title.clone(),
                    details: t.details.clone(),
                    code: t.code,
                    status: t.status,
                    due: t.due,
                    wait_until: t.wait_until,
                    priority: t.priority,
                    tags: crate::database::models::copy_tags(&t.tags),
                    modify_date: self.tasks[i].modify_date,
                    order: t.order,
                    recurrence: t.recurrence,
                };
                assert(updated@ == with_fields(s0.tasks[i as int], t@));
                self.tasks.set(i, updated);
                assert(task_views(self.tasks@) =~= s0.tasks.update(i as int, with_fields(s0.tasks[i as int], t@)));
            },
            None => {},
        }
    }

    /// Insert `t` if its id is free; false when it is taken.
    fn insert_task(&mut self, t: Task) -> (ok: bool)
        requires
            old(self).wf(),
        ensures
            final(self).wf(),
            ok == (task_index(old(self)@.tasks, t.id) < 0),
            ok ==> final(self)@ == with_tasks(old(self)@, old(self)@.tasks.push(t@)),
            !ok ==> final(self)@ == old(self)@,
    {
        let ghost s0 = self@;
        let ghost tv = t@;
        proof { lemma_task_ids_unique_ops(s0.tasks); }
        if self.task_pos(t.id).is_some() {
            return false;
        }
        self.tasks.push(t);
        assert(task_views(self.tasks@) =~= s0.tasks.push(tv));
        true
    }

    fn drop_project_by_id(&mut self, id: ObjectId)
        requires
            old(self).wf(),
        ensures
            final(self).wf(),
            final(self)@ == with_projects(old(self)@, drop_project(old(self)@.projects, id)),
    {
        let ghost s0 = self@;
        proof { lemma_project_ids_unique_ops(s0.projects); }
        match self.project_pos(id) {
            Some(i) => {
                let _ = self.projects.remove(i);
                assert(project_views(self.projects@) =~= s0.projects.remove(i as int));
            },
            None => {},
        }
    }

    fn set_project_fields(&mut self, p: &Project)
        requires
            old(self).wf(),
        ensures
            final(self).wf(),
            final(self)@ == with_projects(old(self)@, set_project(old(self)@.projects, p@)),
    {
        let ghost s0 = self@;
        proof { lemma_project_ids_unique_ops(s0.projects); }
        match self.project_pos(p.id) {
            Some(i) => {
                let updated = Project {
                    id: self.projects[i].id,
                    name: p.name.clone(),
                    tags: crate::database::models::copy_tags(&p.tags),
                };
                assert(updated@ == with_project_fields(s0.projects[i as int], p@));
                self.projects.set(i, updated);
                assert(project_views(self.projects@) =~= s0.projects.update(i as int, with_project_fields(s0.projects[i as int], p@)));
            },
            None => {},
        }
    }

    fn insert_project(&mut self, p: Project) -> (ok: bool)
        requires
            old(self).wf(),
        ensures
            final(self).wf(),
            ok == (project_index(old(self)@.projects, p.id) < 0),
            ok ==> final(self)@ == with_projects(old(self)@, old(self)@.projects.push(p@)),
            !ok ==> final(self)@ == old(self)@,
    {
        let ghost s0 = self@;
        let ghost pv = p@;
        proof { lemma_project_ids_unique_ops(s0.projects); }
        if self.project_pos(p.id).is_some() {
            return false;
        }
        self.projects.push(p);
        assert(project_views(self.projects@) =~= s0.projects.push(pv));
        true
    }

    /// Every project, as filter entries, in storage order.
    pub fn all_projects(&self) -> (r: Result<Vec<ProjectEntry>, DbError>)
        ensures
            r matches Ok(v) && v@.len() == self@.projects.len()
                && forall|k: int| 0 <= k < v@.len() ==> (#[trigger] v@[k])@ == crate::database::models::ProjectEntryView::Project(self@.projects[k]),
    {
        let mut v: Vec<ProjectEntry> = Vec::new();
        let mut i: usize = 0;
        while i < self.projects.len()
            invariant
                i <= self.projects@.len(),
                v@.len() == i,
                forall|k: int| 0 <= k < i ==> (#[trigger] v@[k])@ == crate::database::models::ProjectEntryView::Project(self.projects@[k]@),
            decreases self.projects@.len() - i,
        {
            v.push(ProjectEntry::Project(self.projects[i].clone()));
            i = i + 1;
        }
        Ok(v)
    }

    /// The project with id `project_id`, as a filter entry.
    pub fn one_project(&self, project_id: ObjectId) -> (r: Result<Option<ProjectEntry>, DbError>)
        ensures
            project_index(self@.projects, project_id) >= 0 ==> (r matches Ok(Some(e))
                && e@ == crate::database::models::ProjectEntryView::Project(self@.projects[project_index(self@.projects, project_id)])),
            project_index(self@.projects, project_id) < 0 ==> r matches Ok(None),
    {
        match self.project_pos(project_id) {
            Some(i) => Ok(Some(ProjectEntry::Project(self.projects[i].clone()))),
            None => Ok(None),
        }
    }

    /// Insert `project` (its id must be free) and record the creation.
    pub fn create_project(&mut self, project: Project) -> (r: Result<ObjectId, DbError>)
        requires
            old(self).wf(),
        ensures
            final(self).wf(),
            can_create_project(old(self)@, project@) ==> r == Ok::<ObjectId, DbError>(project.id)
                && final(self)@ == after_create_project(old(self)@, project@),
            !can_create_project(old(self)@, project@) ==> r == Err::<ObjectId, DbError>(DbError::DuplicateId)
                && final(self)@ == old(self)@,
    {
        let id = project.id;
        let copy = project.clone();
        if !self.insert_project(project) {
            return Err(DbError::DuplicateId);
        }
        let _ = self.append_history(Event::Create(SaveableItem::Project(copy)));
        Ok(id)
    }

    /// Rename and retag the stored project with `project`'s id, recording the change.
    pub fn update_project(&mut self, project: Project) -> (r: Result<ObjectId, DbError>)
        requires
            old(self).wf(),
        ensures
            final(self).wf(),
            r == Ok::<ObjectId, DbError>(project.id),
            final(self)@ == after_update_project(old(self)@, project@),
    {
        let id = project.id;
        match self.project_pos(id) {
            Some(i) => {
                let before = self.projects[i].clone();
                self.set_project_fields(&project);
                let _ = self.append_history(
                    Event::Update { before: SaveableItem::Project(before), after: SaveableItem::Project(project) },
                );
            },
            None => {
                self.set_project_fields(&project);
            },
        }
        Ok(id)
    }

    /// Delete every task of the project (each recorded, so undo can restore
    /// them one by one), then the project itself, recorded last.
    pub fn delete_project(&mut self, project_id: ObjectId) -> (r: Result<(), DbError>)
        requires
            old(self).wf(),
        ensures
            final(self).wf(),
            final(self)@ == after_delete_project(old(self)@, project_id),
            r is Ok <==> project_index(old(self)@.projects, project_id) >= 0,
            r is Err ==> r == Err::<(), DbError>(DbError::ProjectNotFound),
    {
        let ghost s0 = self@;
        let mut old_tasks: Vec<Task> = Vec::new();
        std::mem::swap(&mut old_tasks, &mut self.tasks);
        let ghost ots = task_views(old_tasks@);
        assert(ots == s0.tasks);
        let mut kept: Vec<Task> = Vec::new();
        let mut i: usize = 0;
        proof {
            assert(ots.subrange(0, 0) =~= Seq::<crate::database::models::TaskView>::empty());
            assert(task_views(self.tasks@) =~= Seq::<crate::database::models::TaskView>::empty());
            assert(delete_events(Seq::<crate::database::models::TaskView>::empty()) =~= Seq::<EventView>::empty());
            assert(self@.history =~= s0.history + delete_events(tasks_in(ots.subrange(0, 0), project_id)));
            assert(task_views(kept@) =~= tasks_not_in(ots.subrange(0, 0), project_id));
        }
        while i < old_tasks.len()
            invariant
                ots == task_views(old_tasks@),
                ots == s0.tasks,
                i <= ots.len(),
                self@.tasks.len() == 0,
                self@.projects == s0.projects,
                self@.tags == s0.tags,
                self@.annotations == s0.annotations,
                self@.recent == s0.recent,
                self@.history == s0.history + delete_events(tasks_in(ots.subrange(0, i as int), project_id)),
                self@.redo == (if tasks_in(ots.subrange(0, i as int), project_id).len() > 0 { Seq::empty() } else { s0.redo }),
                task_views(kept@) == tasks_not_in(ots.subrange(0, i as int), project_id),
                view_wf(s0),
                self.wf(),
            decreases ots.len() - i,
        {
            let ghost pre = ots.subrange(0, i as int);
            let ghost nxt = ots.subrange(0, i + 1);
            assert(nxt.drop_last() =~= pre);
            assert(nxt.last() == ots[i as int]);
            let t = old_tasks[i].clone();
            let belongs = match t.project_id {
                Some(p) => p == project_id,
                None => false,
            };
            if belongs {
                let ghost h0 = self@.history;
                let _ = self.append_history(Event::Delete(SaveableItem::Task(t)));
                proof {
                    assert(delete_events(tasks_in(nxt, project_id)) =~= delete_events(tasks_in(pre, project_id)).push(EventView::Delete(ItemView::Task(ots[i as int]))));
                    assert(self@.history =~= s0.history + delete_events(tasks_in(nxt, project_id)));
                }
            } else {
                let ghost kv = task_views(kept@);
                kept.push(t);
                proof {
                    assert(task_views(kept@) =~= kv.push(ots[i as int]));
                }
            }
            i = i + 1;
        }
        proof {
            assert(ots.subrange(0, ots.len() as int) =~= ots);
            lemma_tasks_not_in(ots, project_id);
        }
        self.tasks = kept;
        assert(self@ == after_project_tasks_deleted(s0, project_id));
        let ghost s1 = self@;
        match self.project_pos(project_id) {
            None => Err(DbError::ProjectNotFound),
            Some(j) => {
                let p = self.projects.remove(j);
                proof {
                    lemma_project_ids_unique_ops(s1.projects);
                    assert(project_views(self.projects@) =~= s1.projects.remove(j as int));
                }
                let _ = self.append_history(Event::Delete(SaveableItem::Project(p)));
                Ok(())
            },
        }
    }
}

impl Db {
    /// Revert the newest recorded change and move it to the redo stack. With
    /// an empty history nothing happens. Fails, changing nothing, when the
    /// change was a deletion whose id has been taken since.
    pub fn undo(&mut self) -> (r: Result<(), DbError>)
        requires
            old(self).wf(),
        ensures
            final(self).wf(),
            undo_ok(old(self)@) ==> r is Ok && final(self)@ == after_undo(old(self)@),
            !undo_ok(old(self)@) ==> r == Err::<(), DbError>(DbError::DuplicateId) && final(self)@ == old(self)@,
    {
        let ghost s0 = self@;
        let n = self.history.len();
        if n == 0 {
            return Ok(());
        }
        let ev = self.history[n - 1].event.clone();
        assert(ev@ == s0.history.last());
        match &ev {
            Event::Create(SaveableItem::Task(t)) => {
                self.drop_task_by_id(t.id);
            },
            Event::Create(SaveableItem::Project(p)) => {
                self.drop_project_by_id(p.id);
            },
            Event::Update { before: SaveableItem::Task(b), .. } => {
                self.set_task_fields(b);
            },
            Event::Update { before: SaveableItem::Project(b), .. } => {
                self.set_project_fields(b);
            },
            Event::Delete(SaveableItem::Task(t)) => {
                if !self.insert_task(t.clone()) {
                    return Err(DbError::DuplicateId);
                }
            },
            Event::Delete(SaveableItem::Project(p)) => {
                if !self.insert_project(p.clone()) {
                    return Err(DbError::DuplicateId);
                }
            },
        }
        assert(self@ == inverse_applied(s0, ev@));
        let ghost s1 = self@;
        let _ = self.history.pop();
        self.redo_stack.push(ev);
        proof {
            assert(self@.history =~= s0.history.drop_last());
            assert(self@.redo =~= s0.redo.push(s0.history.last()));
        }
        Ok(())
    }

    /// Apply the most recently undone change again and put it back on the
    /// history. With nothing to redo nothing happens. When the change would
    /// insert an id that has been taken since, it is dropped and the call fails.
    pub fn redo(&mut self) -> (r: Result<(), DbError>)
        requires
            old(self).wf(),
        ensures
            final(self).wf(),
            final(self)@ == after_redo(old(self)@),
            redo_ok(old(self)@) ==> r is Ok,
            !redo_ok(old(self)@) ==> r == Err::<(), DbError>(DbError::DuplicateId),
    {
        let ghost s0 = self@;
        let ev = match self.redo_stack.pop() {
            None => {
                return Ok(());
            },
            Some(e) => e,
        };
        proof {
            assert(self@.redo =~= s0.redo.drop_last());
            assert(ev@ == s0.redo.last());
        }
        let ghost s1 = self@;
        match &ev {
            Event::Create(SaveableItem::Task(t)) => {
                if !self.insert_task(t.clone()) {
                    return Err(DbError::DuplicateId);
                }
            },
            Event::Create(SaveableItem::Project(p)) => {
                if !self.insert_project(p.clone()) {
                    return Err(DbError::DuplicateId);
                }
            },
            Event::Update { after: SaveableItem::Task(a), .. } => {
                self.set_task_fields(a);
            },
            Event::Update { after: SaveableItem::Project(a), .. } => {
                self.set_project_fields(a);
            },
            Event::Delete(SaveableItem::Task(t)) => {
                self.drop_task_by_id(t.id);
            },
            Event::Delete(SaveableItem::Project(p)) => {
                self.drop_project_by_id(p.id);
            },
        }
        let rec = HistoryRecord { id: ObjectId::new(), timestamp: DateTime::now(), event: ev };
        self.history.push(rec);
        proof {
            assert(self@.history =~= s0.history.push(s0.redo.last()));
        }
        Ok(())
    }

    /// The history records, oldest first.
    pub fn load_history(&self) -> (r: Result<Vec<HistoryRecord>, DbError>)
        ensures
            r matches Ok(v) && record_events(v@) == self@.history,
    {
        let mut v: Vec<HistoryRecord> = Vec::new();
        let mut i: usize = 0;
        while i < self.history.len()
            invariant
                i <= self.history@.len(),
                v@.len() == i,
                forall|k: int| 0 <= k < i ==> (#[trigger] v@[k]).event@ == self.history@[k].event@,
            decreases self.history@.len() - i,
        {
            v.push(self.history[i].clone());
            i = i + 1;
        }
        assert(record_events(v@) =~= self@.history);
        Ok(v)
    }

    /// Remember the selected project filter.
    pub fn save_current_project(&mut self, project: ProjectEntry) -> (r: Result<(), DbError>)
        ensures
            r is Ok,
            final(self)@ == (DbView { recent: Some(project@), ..old(self)@ }),
    {
        self.recent = Some(project);
        Ok(())
    }

    /// The remembered project filter, if one was saved.
    pub fn get_recent_project(&self) -> (r: Option<ProjectEntry>)
        ensures
            r matches Some(e) ==> self@.recent == Some(e@),
            r is None ==> self@.recent is None,
    {
        match &self.recent {
            Some(e) => Some(e.clone()),
            None => None,
        }
    }
}

impl Db {
    /// The tasks listed under `lookup`, sorted by order (ties in storage order).
    pub fn get_tasks(&self, lookup: ProjectEntry) -> (r: Result<Vec<Task>, DbError>)
        ensures
            r matches Ok(v) && sorted_listing(self@.tasks, lookup@, task_views(v@)),
    {
        let ghost ts = self@.tasks;
        let mut lst: Vec<Task> = Vec::new();
        let mut i: usize = 0;
        proof {
            assert(ts.subrange(0, 0) =~= Seq::<crate::database::models::TaskView>::empty());
            assert(task_views(lst@) =~= Seq::<crate::database::models::TaskView>::empty());
        }
        while i < self.tasks.len()
            invariant
                ts == self@.tasks,
                i <= ts.len(),
                task_views(lst@) == listed(ts.subrange(0, i as int), lookup@),
            decreases ts.len() - i,
        {
            let ghost pre = ts.subrange(0, i as int);
            assert(ts.subrange(0, i + 1).drop_last() =~= pre);
            assert(ts.subrange(0, i + 1).last() == self.tasks@[i as int]@);
            if lookup.matches(self.tasks[i].project_id) {
                let ghost lv = task_views(lst@);
                lst.push(self.tasks[i].clone());
                assert(task_views(lst@) =~= lv.push(self.tasks@[i as int]@));
            }
            i = i + 1;
        }
        assert(ts.subrange(0, ts.len() as int) =~= ts);
        let ghost l = listed(ts, lookup@);
        let mut keys: Vec<SortKey> = Vec::new();
        let mut k: usize = 0;
        while k < lst.len()
            invariant
                task_views(lst@) == l,
                k <= lst@.len(),
                keys@.len() == k,
                forall|m: int| 0 <= m < k ==> (#[trigger] keys@[m]).spec_key() == (l[m].order as int, Seq::<char>::empty()),
            decreases lst@.len() - k,
        {
            assert(lst@[k as int]@ == l[k as int]);
            keys.push(SortKey { num: lst[k].order as i128, text: Vec::new() });
            k = k + 1;
        }
        assert(key_seq(keys@) =~= order_keys(l));
        let perm = stable_order(&keys);
        let mut out: Vec<Task> = Vec::new();
        let mut j: usize = 0;
        while j < perm.len()
            invariant
                task_views(lst@) == l,
                perm@.len() == l.len(),
                forall|a: int| 0 <= a < perm@.len() ==> #[trigger] perm@[a] < l.len(),
                j <= perm@.len(),
                out@.len() == j,
                forall|m: int| 0 <= m < j ==> (#[trigger] out@[m])@ == l[perm@[m] as int],
            decreases perm@.len() - j,
        {
            let p = perm[j];
            assert(lst@[p as int]@ == l[p as int]);
            out.push(lst[p].clone());
            j = j + 1;
        }
        proof {
            let ov = task_views(out@);
            assert(ov.len() == perm@.len());
            assert forall|m: int| 0 <= m < ov.len() implies ov[m] == l[perm@[m] as int] by {
                assert(ov[m] == out@[m]@);
            }
        }
        Ok(out)
    }

    /// Re-read the task, apply `f` to it and save the result as
    /// `update_task` does. `Ok(None)` if the task is gone.
    pub fn modify_task<F: Fn(Task) -> Task>(&mut self, task_id: ObjectId, f: F) -> (r: Result<Option<ObjectId>, DbError>)
        requires
            old(self).wf(),
            forall|t: Task| f.requires((t,)),
        ensures
            final(self).wf(),
            task_index(old(self)@.tasks, task_id) < 0 ==> r == Ok::<Option<ObjectId>, DbError>(None)
                && final(self)@ == old(self)@,
            task_index(old(self)@.tasks, task_id) >= 0 ==> exists|a: Task, b: Task| {
                &&& a@ == old(self)@.tasks[task_index(old(self)@.tasks, task_id)]
                &&& f.ensures((a,), b)
                &&& r == Ok::<Option<ObjectId>, DbError>(Some(b.id))
                &&& final(self)@ == after_update_task(old(self)@, b@)
            },
    {
        match self.task_pos(task_id) {
            None => Ok(None),
            Some(i) => {
                let a = self.tasks[i].clone();
                let ghost av = a;
                let b = f(a);
                let id = b.id;
                let ghost bv = b;
                let _ = self.update_task(b);
                assert(av@ == old(self)@.tasks[task_index(old(self)@.tasks, task_id)]);
                Ok(Some(id))
            },
        }
    }
}

/// The view of an optional string.
pub open spec fn opt_view(s: Option<String>) -> Option<Seq<char>> {
    match s {
        Some(x) => Some(x@),
        None => None,
    }
}

/// Whether some tag of `tags` normalizes to `n`.
pub(crate) fn has_norm(tags: &Vec<String>, n: &String) -> (b: bool)
    ensures
        b == has_tag_norm(str_views(tags@), n@),
{
    let mut i: usize = 0;
    while i < tags.len()
        invariant
            i <= tags@.len(),
            forall|k: int| 0 <= k < i ==> norm(tags@[k]@) != n@,
        decreases tags@.len() - i,
    {
        let t = normalize_tag(tags[i].as_str());
        if t == *n {
            assert(str_views(tags@)[i as int] == tags@[i as int]@);
            return true;
        }
        i = i + 1;
    }
    assert forall|k: int| 0 <= k < str_views(tags@).len() implies norm(str_views(tags@)[k]) != n@ by {
        assert(str_views(tags@)[k] == tags@[k]@);
    }
    false
}

/// `tags` with tags normalizing to `from` replaced by `to` or dropped, deduplicated.
fn rewrite_tag_list(tags: &Vec<String>, from: &String, to: &Option<String>) -> (out: Vec<String>)
    ensures
        str_views(out@) == rewrite_tags(str_views(tags@), from@, opt_view(*to)),
{
    let ghost tv = str_views(tags@);
    let mut out: Vec<String> = Vec::new();
    let mut i: usize = 0;
    proof {
        assert(tv.subrange(0, 0) =~= Seq::<Seq<char>>::empty());
        assert(str_views(out@) =~= Seq::<Seq<char>>::empty());
    }
    while i < tags.len()
        invariant
            tv == str_views(tags@),
            i <= tags@.len(),
            str_views(out@) == rewrite_tags(tv.subrange(0, i as int), from@, opt_view(*to)),
        decreases tags@.len() - i,
    {
        let ghost pre = tv.subrange(0, i as int);
        assert(tv.subrange(0, i + 1).drop_last() =~= pre);
        assert(tv.subrange(0, i + 1).last() == tags@[i as int]@);
        let n = normalize_tag(tags[i].as_str());
        let candidate: Option<String> = if n == *from {
            match to {
                Some(t) => Some(t.clone()),
                None => None,
            }
        } else {
            Some(tags[i].clone())
        };
        match candidate {
            Some(c) => {
                let cn = normalize_tag(c.as_str());
                if !has_norm(&out, &cn) {
                    let ghost ov = str_views(out@);
                    out.push(c);
                    assert(str_views(out@) =~= ov.push(c@));
                }
            },
            None => {},
        }
        i = i + 1;
    }
    assert(tv.subrange(0, tags@.len() as int) =~= tv);
    out
}

impl Db {
    /// Replace (or with `to = None`, drop) tag `from` on every task that has
    /// it, de-duplicating in place. Each change goes through `update_task`, so
    /// it lands in the undo history. Returns how many tasks changed.
    fn rewrite_task_tags(&mut self, from: &String, to: &Option<String>) -> (changed: usize)
        requires
            old(self).wf(),
        ensures
            final(self).wf(),
            final(self)@ == after_rewrite(old(self)@, old(self)@.tasks, from@, opt_view(*to), old(self)@.tasks.len()),
            changed == rewrite_count(old(self)@.tasks, from@, old(self)@.tasks.len()),
    {
        let ghost s0 = self@;
        let snapshot = match self.all_tasks() {
            Ok(v) => v,
            Err(_) => Vec::new(),
        };
        let ghost ts0 = task_views(snapshot@);
        assert(ts0 == s0.tasks);
        let mut changed: usize = 0;
        let mut i: usize = 0;
        while i < snapshot.len()
            invariant
                ts0 == task_views(snapshot@),
                ts0 == s0.tasks,
                i <= ts0.len(),
                changed <= i,
                self.wf(),
                self@ == after_rewrite(s0, ts0, from@, opt_view(*to), i as nat),
                changed == rewrite_count(ts0, from@, i as nat),
            decreases ts0.len() - i,
        {
            let t = &snapshot[i];
            assert(t@ == ts0[i as int]);
            match &t.tags {
                None => {},
                Some(tags) => {
                    if has_norm(tags, from) {
                        let out = rewrite_tag_list(tags, from, to);
                        let mut nt = t.clone();
                        nt.tags = if out.len() == 0 { None } else { Some(out) };
                        assert(nt@ == rewritten(ts0[i as int], from@, opt_view(*to)));
                        let _ = self.update_task(nt);
                        changed = changed + 1;
                    }
                },
            }
            i = i + 1;
        }
        changed
    }

    /// Drop `name` from the tag store.
    fn remove_stored_tag(&mut self, name: &String)
        ensures
            final(self)@ == with_tags(old(self)@, without_tag(old(self)@.tags, name@)),
    {
        let ghost s0 = self@;
        let mut old_tags: Vec<String> = Vec::new();
        std::mem::swap(&mut old_tags, &mut self.tags);
        let ghost tv = str_views(old_tags@);
        let mut i: usize = 0;
        proof {
            assert(tv.subrange(0, 0) =~= Seq::<Seq<char>>::empty());
            assert(str_views(self.tags@) =~= Seq::<Seq<char>>::empty());
        }
        while i < old_tags.len()
            invariant
                tv == str_views(old_tags@),
                tv == s0.tags,
                i <= tv.len(),
                self@ == with_tags(s0, without_tag(tv.subrange(0, i as int), name@)),
            decreases tv.len() - i,
        {
            assert(tv.subrange(0, i + 1).drop_last() =~= tv.subrange(0, i as int));
            assert(tv.subrange(0, i + 1).last() == old_tags@[i as int]@);
            if old_tags[i] != *name {
                let ghost cur = str_views(self.tags@);
                self.tags.push(old_tags[i].clone());
                assert(str_views(self.tags@) =~= cur.push(old_tags@[i as int]@));
            }
            i = i + 1;
        }
        assert(tv.subrange(0, tv.len() as int) =~= tv);
    }

    /// Every stored tag, in storage order.
    pub fn all_tags(&self) -> (r: Result<Vec<String>, DbError>)
        ensures
            r matches Ok(v) && str_views(v@) == self@.tags,
    {
        Ok(crate::database::models::copy_strings(&self.tags))
    }

    /// Rename `from` to `to` in the tag store and on every task that has it.
    /// Returns the number of tasks changed.
    pub fn rename_tag(&mut self, from: &str, to: &str) -> (r: Result<usize, DbError>)
        requires
            old(self).wf(),
        ensures
            final(self).wf(),
            norm(to@).len() == 0 ==> r == Err::<usize, DbError>(DbError::EmptyTagName) && final(self)@ == old(self)@,
            norm(to@).len() > 0 && norm(from@) == norm(to@) ==> r == Ok::<usize, DbError>(0) && final(self)@ == old(self)@,
            norm(to@).len() > 0 && norm(from@) != norm(to@) ==> r == Ok::<usize, DbError>(
                rewrite_count(old(self)@.tasks, norm(from@), old(self)@.tasks.len()) as usize)
                && final(self)@ == after_rename_tag(old(self)@, norm(from@), norm(to@)),
    {
        let f = normalize_tag(from);
        let t = normalize_tag(to);
        if t.unicode_len() == 0 {
            return Err(DbError::EmptyTagName);
        }
        if f == t {
            return Ok(0);
        }
        let changed = self.rewrite_task_tags(&f, &Some(t.clone()));
        self.remove_stored_tag(&f);
        let v: Vec<String> = vec![t];
        let _ = self.upsert_tags(v.as_slice());
        proof {
            assert(str_views(v@) =~= seq![norm(to@)]);
        }
        Ok(changed)
    }

    /// Remove `name` from the tag store and from every task that has it.
    /// Returns the number of tasks changed.
    pub fn delete_tag(&mut self, name: &str) -> (r: Result<usize, DbError>)
        requires
            old(self).wf(),
        ensures
            final(self).wf(),
            r == Ok::<usize, DbError>(rewrite_count(old(self)@.tasks, norm(name@), old(self)@.tasks.len()) as usize),
            final(self)@ == after_delete_tag(old(self)@, norm(name@)),
    {
        let n = normalize_tag(name);
        let changed = self.rewrite_task_tags(&n, &None);
        self.remove_stored_tag(&n);
        Ok(changed)
    }
}

impl Db {
    fn annotation_pos(&self, id: ObjectId) -> (r: Option<usize>)
        ensures
            r matches Some(i) ==> i as int == annotation_index(self@.annotations, id) && i < self@.annotations.len(),
            r is None ==> annotation_index(self@.annotations, id) < 0,
    {
        let ghost ids = annotation_ids(self@.annotations);
        let mut i: usize = self.annotations.len();
        proof {
            assert(ids.subrange(0, i as int) =~= ids);
        }
        while i > 0
            invariant
                ids == annotation_ids(self@.annotations),
                i <= self.annotations@.len(),
                id_index(ids, id) == id_index(ids.subrange(0, i as int), id),
            decreases i,
        {
            assert(ids.subrange(0, i as int).drop_last() =~= ids.subrange(0, i - 1));
            if self.annotations[i - 1].id == id {
                return Some(i - 1);
            }
            i = i - 1;
        }
        None
    }

    /// The notes of task `task_id`, ordered by id (oldest first).
    pub fn get_annotations(&self, task_id: ObjectId) -> (r: Result<Vec<Annotation>, DbError>)
        ensures
            r matches Ok(v) && notes_listing(self@.annotations, task_id, annotation_views(v@)),
    {
        let ghost al = self@.annotations;
        let mut lst: Vec<Annotation> = Vec::new();
        let mut i: usize = 0;
        proof {
            assert(al.subrange(0, 0) =~= Seq::<crate::database::models::AnnotationView>::empty());
            assert(annotation_views(lst@) =~= Seq::<crate::database::models::AnnotationView>::empty());
        }
        while i < self.annotations.len()
            invariant
                al == self@.annotations,
                i <= al.len(),
                annotation_views(lst@) == notes_of(al.subrange(0, i as int), task_id),
            decreases al.len() - i,
        {
            assert(al.subrange(0, i + 1).drop_last() =~= al.subrange(0, i as int));
            assert(al.subrange(0, i + 1).last() == self.annotations@[i as int]@);
            if self.annotations[i].task_id == task_id {
                let ghost lv = annotation_views(lst@);
                lst.push(self.annotations[i].clone());
                assert(annotation_views(lst@) =~= lv.push(self.annotations@[i as int]@));
            }
            i = i + 1;
        }
        assert(al.subrange(0, al.len() as int) =~= al);
        let ghost l = notes_of(al, task_id);
        let mut keys: Vec<SortKey> = Vec::new();
        let mut k: usize = 0;
        while k < lst.len()
            invariant
                annotation_views(lst@) == l,
                k <= lst@.len(),
                keys@.len() == k,
                forall|m: int| 0 <= m < k ==> (#[trigger] keys@[m]).spec_key() == (l[m].id.spec_value(), Seq::<char>::empty()),
            decreases lst@.len() - k,
        {
            assert(lst@[k as int]@ == l[k as int]);
            keys.push(SortKey { num: lst[k].id.value(), text: Vec::new() });
            k = k + 1;
        }
        assert(key_seq(keys@) =~= id_keys(l));
        let perm = stable_order(&keys);
        let mut out: Vec<Annotation> = Vec::new();
        let mut j: usize = 0;
        while j < perm.len()
            invariant
                annotation_views(lst@) == l,
                perm@.len() == l.len(),
                forall|a: int| 0 <= a < perm@.len() ==> #[trigger] perm@[a] < l.len(),
                j <= perm@.len(),
                out@.len() == j,
                forall|m: int| 0 <= m < j ==> (#[trigger] out@[m])@ == l[perm@[m] as int],
            decreases perm@.len() - j,
        {
            let p = perm[j];
            assert(lst@[p as int]@ == l[p as int]);
            out.push(lst[p].clone());
            j = j + 1;
        }
        proof {
            let ov = annotation_views(out@);
            assert forall|m: int| 0 <= m < ov.len() implies ov[m] == l[perm@[m] as int] by {
                assert(ov[m] == out@[m]@);
            }
        }
        Ok(out)
    }

    /// Store a note (its id must be free).
    pub fn add_annotation(&mut self, annotation: Annotation) -> (r: Result<ObjectId, DbError>)
        requires
            old(self).wf(),
        ensures
            final(self).wf(),
            annotation_index(old(self)@.annotations, annotation.id) < 0 ==> r == Ok::<ObjectId, DbError>(annotation.id)
                && final(self)@ == with_annotations(old(self)@, old(self)@.annotations.push(annotation@)),
            annotation_index(old(self)@.annotations, annotation.id) >= 0 ==> r == Err::<ObjectId, DbError>(DbError::DuplicateId)
                && final(self)@ == old(self)@,
    {
        let ghost s0 = self@;
        let ghost av = annotation@;
        if self.annotation_pos(annotation.id).is_some() {
            return Err(DbError::DuplicateId);
        }
        let id = annotation.id;
        self.annotations.push(annotation);
        proof {
            assert(annotation_views(self.annotations@) =~= s0.annotations.push(av));
            assert(annotation_ids(s0.annotations.push(av)) =~= annotation_ids(s0.annotations).push(av.id));
            lemma_unique_ops(annotation_ids(s0.annotations));
        }
        Ok(id)
    }

    /// Remove the note with id `annotation_id`, if any.
    pub fn delete_annotation(&mut self, annotation_id: ObjectId) -> (r: Result<(), DbError>)
        requires
            old(self).wf(),
        ensures
            final(self).wf(),
            r is Ok,
            annotation_index(old(self)@.annotations, annotation_id) >= 0 ==> final(self)@ == with_annotations(
                old(self)@, old(self)@.annotations.remove(annotation_index(old(self)@.annotations, annotation_id))),
            annotation_index(old(self)@.annotations, annotation_id) < 0 ==> final(self)@ == old(self)@,
    {
        let ghost s0 = self@;
        match self.annotation_pos(annotation_id) {
            Some(i) => {
                let _ = self.annotations.remove(i);
                proof {
                    assert(annotation_views(self.annotations@) =~= s0.annotations.remove(i as int));
                    assert(annotation_ids(s0.annotations.remove(i as int)) =~= annotation_ids(s0.annotations).remove(i as int));
                    lemma_unique_ops(annotation_ids(s0.annotations));
                }
            },
            None => {},
        }
        Ok(())
    }
}

} // verus!

verus! {

proof fn lemma_prefix_dup(ids: Seq<ObjectId>, i: int)
    requires
        0 <= i < ids.len(),
        id_index(ids.subrange(0, i), ids[i]) >= 0,
    ensures
        !unique_ids(ids),
{
    let pre = ids.subrange(0, i);
    lemma_id_index(pre, ids[i]);
    let j = id_index(pre, ids[i]);
    assert(ids[j] == pre[j]);
}

proof fn lemma_push_unique(ids: Seq<ObjectId>, x: ObjectId)
    requires
        unique_ids(ids),
        id_index(ids, x) < 0,
    ensures
        unique_ids(ids.push(x)),
{
    lemma_id_index(ids, x);
    assert forall|a: int, b: int| 0 <= a < b < ids.push(x).len() implies ids.push(x)[a] != ids.push(x)[b] by {
        if b == ids.len() {
            assert(ids.push(x)[a] == ids[a]);
        } else {
            assert(ids.push(x)[a] == ids[a]);
            assert(ids.push(x)[b] == ids[b]);
        }
    }
}

impl Db {
    /// A store holding saved contents: the tasks, projects, stored tags,
    /// history and notes as they were saved, with an empty redo stack.
    /// Refused when an id occurs twice among the tasks, the projects or the notes.
    pub fn restore(
        tasks: Vec<Task>,
        projects: Vec<Project>,
        tags: Vec<String>,
        history: Vec<HistoryRecord>,
        annotations: Vec<Annotation>,
        recent: Option<ProjectEntry>,
    ) -> (r: Result<Db, DbError>)
        ensures
            (unique_ids(task_ids(task_views(tasks@))) && unique_ids(project_ids(project_views(projects@)))
                && unique_ids(annotation_ids(annotation_views(annotations@)))) ==> (r matches Ok(db) && db.wf()
                && db@ == (DbView {
                    tasks: task_views(tasks@),
                    projects: project_views(projects@),
                    tags: str_views(tags@),
                    history: record_events(history@),
                    redo: Seq::empty(),
                    annotations: annotation_views(annotations@),
                    recent: match recent { Some(e) => Some(e@), None => None },
                })),
            !(unique_ids(task_ids(task_views(tasks@))) && unique_ids(project_ids(project_views(projects@)))
                && unique_ids(annotation_ids(annotation_views(annotations@)))) ==> r == Err::<Db, DbError>(DbError::DuplicateId),
    {
        let ghost tv = task_views(tasks@);
        let ghost pv = project_views(projects@);
        let ghost av = annotation_views(annotations@);
        let mut db = Db::new();
        let mut i: usize = 0;
        let n = tasks.len();
        while i < n
            invariant
                n == tasks@.len(),
                tv == task_views(tasks@),
                i <= n,
                db.wf(),
                db@.tasks == tv.subrange(0, i as int),
                db@.projects.len() == 0,
                db@.annotations.len() == 0,
                db@.tags.len() == 0,
                db@.history.len() == 0,
                db@.redo.len() == 0,
                db@.recent is None,
                unique_ids(task_ids(tv.subrange(0, i as int))),
            decreases n - i,
        {
            let t = tasks[i].clone();
            let ghost s0 = db@;
            assert(task_ids(tv.subrange(0, i as int)) =~= task_ids(tv).subrange(0, i as int));
            if !db.insert_task(t) {
                proof {
                    assert(task_ids(tv)[i as int] == tasks@[i as int].id);
                    lemma_prefix_dup(task_ids(tv), i as int);
                }
                return Err(DbError::DuplicateId);
            }
            proof {
                assert(tv.subrange(0, i + 1) =~= tv.subrange(0, i as int).push(tv[i as int]));
                lemma_task_ids_push(tv.subrange(0, i as int), tv[i as int]);
                lemma_push_unique(task_ids(tv.subrange(0, i as int)), tv[i as int].id);
            }
            i = i + 1;
        }
        assert(tv.subrange(0, n as int) =~= tv);
        let mut k: usize = 0;
        let m = projects.len();
        while k < m
            invariant
                m == projects@.len(),
                pv == project_views(projects@),
                k <= m,
                db.wf(),
                db@.tasks == tv,
                db@.projects == pv.subrange(0, k as int),
                db@.annotations.len() == 0,
                db@.tags.len() == 0,
                db@.history.len() == 0,
                db@.redo.len() == 0,
                db@.recent is None,
                unique_ids(project_ids(pv.subrange(0, k as int))),
            decreases m - k,
        {
            let p = projects[k].clone();
            assert(project_ids(pv.subrange(0, k as int)) =~= project_ids(pv).subrange(0, k as int));
            if !db.insert_project(p) {
                proof {
                    assert(project_ids(pv)[k as int] == projects@[k as int].id);
                    lemma_prefix_dup(project_ids(pv), k as int);
                }
                return Err(DbError::DuplicateId);
            }
            proof {
                assert(pv.subrange(0, k + 1) =~= pv.subrange(0, k as int).push(pv[k as int]));
                lemma_project_ids_push(pv.subrange(0, k as int), pv[k as int]);
                lemma_push_unique(project_ids(pv.subrange(0, k as int)), pv[k as int].id);
            }
            k = k + 1;
        }
        assert(pv.subrange(0, m as int) =~= pv);
        let mut a: usize = 0;
        let na = annotations.len();
        while a < na
            invariant
                na == annotations@.len(),
                av == annotation_views(annotations@),
                a <= na,
                db.wf(),
                db@.tasks == tv,
                db@.projects == pv,
                db@.annotations == av.subrange(0, a as int),
                db@.tags.len() == 0,
                db@.history.len() == 0,
                db@.redo.len() == 0,
                db@.recent is None,
            decreases na - a,
        {
            let note = Annotation {
                id: annotations[a].id,
                task_id: annotations[a].task_id,
                content: annotations[a].content.clone(),
                created_at: annotations[a].created_at,
            };
            assert(note@ == av[a as int]);
            assert(annotation_ids(av.subrange(0, a as int)) =~= annotation_ids(av).subrange(0, a as int));
            match db.add_annotation(note) {
                Ok(_) => {},
                Err(e) => {
                    proof {
                        assert(annotation_ids(av)[a as int] == annotations@[a as int].id);
                        lemma_prefix_dup(annotation_ids(av), a as int);
                    }
                    return Err(e);
                },
            }
            assert(av.subrange(0, a + 1) =~= av.subrange(0, a as int).push(av[a as int]));
            a = a + 1;
        }
        assert(av.subrange(0, na as int) =~= av);
        db.tags = tags;
        db.history = history;
        db.recent = recent;
        proof {
            assert(db@.redo =~= Seq::<EventView>::empty());
        }
        Ok(db)
    }
}

} // verus!
