//! The store's interfaces: opening it, and managing projects, tasks and tags.

use vstd::prelude::*;

use crate::database::database::{Db, DbError, task_views};
use crate::database::models::{ObjectId, Project, ProjectEntry, ProjectEntryView, Task, str_views};
use crate::database::state::{
    after_create_project, after_create_task, after_delete_project, after_delete_tag, after_delete_task,
    after_rename_tag, after_update_project, after_update_task, can_create_project, can_create_task, norm,
    project_index, rewrite_count, sorted_listing, task_index, upsert, with_tags,
};
use crate::database::usage::{is_tag_usage, usage_view};

verus! {

/// Core lifecycle: open and close the store.
pub trait Database: Sized {
    fn open() -> Result<Self, DbError>;

    fn close() -> Result<(), DbError>;
}

/// CRUD operations for projects.
pub trait ProjectManagement {
    /// The store's own invariant, which every operation keeps.
    spec fn valid(&self) -> bool;

    fn all_projects(&self) -> Result<Vec<ProjectEntry>, DbError>;

    fn one_project(&self, project_id: ObjectId) -> Result<Option<ProjectEntry>, DbError>;

    fn create_project(&mut self, project: Project) -> (r: Result<ObjectId, DbError>)
        requires
            old(self).valid(),
        ensures
            final(self).valid();

    fn delete_project(&mut self, project_id: ObjectId) -> (r: Result<(), DbError>)
        requires
            old(self).valid(),
        ensures
            final(self).valid();

    fn update_project(&mut self, project: Project) -> (r: Result<ObjectId, DbError>)
        requires
            old(self).valid(),
        ensures
            final(self).valid();
}

/// CRUD operations for tasks.
pub trait TaskManagement {
    /// The store's own invariant, which every operation keeps.
    spec fn valid(&self) -> bool;

    fn one_task(&self, task_id: ObjectId) -> Result<Option<Task>, DbError>;

    fn get_tasks(&self, lookup: ProjectEntry) -> Result<Vec<Task>, DbError>;

    fn delete_task(&mut self, task_id: ObjectId) -> (r: Result<Task, DbError>)
        requires
            old(self).valid(),
        ensures
            final(self).valid();

    fn update_task(&mut self, task: Task) -> (r: Result<ObjectId, DbError>)
        requires
            old(self).valid(),
        ensures
            final(self).valid();

    fn create_task(&mut self, task: Task) -> (r: Result<ObjectId, DbError>)
        requires
            old(self).valid(),
        ensures
            final(self).valid();
}

/// Operations for the normalized tag store.
pub trait TagManagement {
    /// The store's own invariant, which every operation keeps.
    spec fn valid(&self) -> bool;

    fn all_tags(&self) -> Result<Vec<String>, DbError>;

    fn upsert_tags(&mut self, tags: &[String]) -> Result<(), DbError>;

    /// Every tag (stored or in use on a task) with how many tasks carry it, sorted by name.
    fn tag_usage(&self) -> Result<Vec<(String, usize)>, DbError>;

    /// Rename `from` to `to` in the tag store and on every task that has it.
    /// Returns the number of tasks changed.
    fn rename_tag(&mut self, from: &str, to: &str) -> (r: Result<usize, DbError>)
        requires
            old(self).valid(),
        ensures
            final(self).valid();

    /// Remove `name` from the tag store and from every task that has it.
    /// Returns the number of tasks changed.
    fn delete_tag(&mut self, name: &str) -> (r: Result<usize, DbError>)
        requires
            old(self).valid(),
        ensures
            final(self).valid();
}

impl Database for Db {
    /// An empty store; saved contents come in through `Db::restore`.
    fn open() -> (r: Result<Db, DbError>)
        ensures
            r matches Ok(db) && db.wf() && db@.tasks.len() == 0 && db@.projects.len() == 0
                && db@.history.len() == 0 && db@.redo.len() == 0,
    {
        Ok(Db::new())
    }

    /// Nothing to release.
    fn close() -> (r: Result<(), DbError>)
        ensures
            r is Ok,
    {
        Ok(())
    }
}

impl ProjectManagement for Db {
    open spec fn valid(&self) -> bool {
        self.wf()
    }

    fn all_projects(&self) -> (r: Result<Vec<ProjectEntry>, DbError>)
        ensures
            r matches Ok(v) && v@.len() == self@.projects.len()
                && forall|k: int| 0 <= k < v@.len() ==> (#[trigger] v@[k])@ == ProjectEntryView::Project(self@.projects[k]),
    {
        Db::all_projects(self)
    }

    fn one_project(&self, project_id: ObjectId) -> (r: Result<Option<ProjectEntry>, DbError>)
        ensures
            project_index(self@.projects, project_id) >= 0 ==> (r matches Ok(Some(e))
                && e@ == ProjectEntryView::Project(self@.projects[project_index(self@.projects, project_id)])),
            project_index(self@.projects, project_id) < 0 ==> r matches Ok(None),
    {
        Db::one_project(self, project_id)
    }

    fn create_project(&mut self, project: Project) -> (r: Result<ObjectId, DbError>)
        ensures
            can_create_project(old(self)@, project@) ==> r == Ok::<ObjectId, DbError>(project.id)
                && final(self)@ == after_create_project(old(self)@, project@),
            !can_create_project(old(self)@, project@) ==> r == Err::<ObjectId, DbError>(DbError::DuplicateId)
                && final(self)@ == old(self)@,
    {
        Db::create_project(self, project)
    }

    fn delete_project(&mut self, project_id: ObjectId) -> (r: Result<(), DbError>)
        ensures
            final(self)@ == after_delete_project(old(self)@, project_id),
            r is Ok <==> project_index(old(self)@.projects, project_id) >= 0,
            r is Err ==> r == Err::<(), DbError>(DbError::ProjectNotFound),
    {
        Db::delete_project(self, project_id)
    }

    fn update_project(&mut self, project: Project) -> (r: Result<ObjectId, DbError>)
        ensures
            r == Ok::<ObjectId, DbError>(project.id),
            final(self)@ == after_update_project(old(self)@, project@),
    {
        Db::update_project(self, project)
    }
}

impl TaskManagement for Db {
    open spec fn valid(&self) -> bool {
        self.wf()
    }

    fn one_task(&self, task_id: ObjectId) -> (r: Result<Option<Task>, DbError>)
        ensures
            task_index(self@.tasks, task_id) >= 0 ==> (r matches Ok(Some(t)) && t@ == self@.tasks[task_index(self@.tasks, task_id)]),
            task_index(self@.tasks, task_id) < 0 ==> r matches Ok(None),
    {
        Db::one_task(self, task_id)
    }

    fn get_tasks(&self, lookup: ProjectEntry) -> (r: Result<Vec<Task>, DbError>)
        ensures
            r matches Ok(v) && sorted_listing(self@.tasks, lookup@, task_views(v@)),
    {
        Db::get_tasks(self, lookup)
    }

    fn delete_task(&mut self, task_id: ObjectId) -> (r: Result<Task, DbError>)
        ensures
            task_index(old(self)@.tasks, task_id) >= 0 ==> (r matches Ok(t)
                && t@ == old(self)@.tasks[task_index(old(self)@.tasks, task_id)]
                && final(self)@ == after_delete_task(old(self)@, task_id)),
            task_index(old(self)@.tasks, task_id) < 0 ==> r == Err::<Task, DbError>(DbError::TaskNotFound)
                && final(self)@ == old(self)@,
    {
        Db::delete_task(self, task_id)
    }

    fn update_task(&mut self, task: Task) -> (r: Result<ObjectId, DbError>)
        ensures
            r == Ok::<ObjectId, DbError>(task.id),
            final(self)@ == after_update_task(old(self)@, task@),
    {
        Db::update_task(self, task)
    }

    fn create_task(&mut self, task: Task) -> (r: Result<ObjectId, DbError>)
        ensures
            can_create_task(old(self)@, task@) ==> r == Ok::<ObjectId, DbError>(task.id)
                && final(self)@ == after_create_task(old(self)@, task@),
            !can_create_task(old(self)@, task@) ==> r == Err::<ObjectId, DbError>(DbError::DuplicateId)
                && final(self)@ == old(self)@,
    {
        Db::create_task(self, task)
    }
}

impl TagManagement for Db {
    open spec fn valid(&self) -> bool {
        self.wf()
    }

    fn all_tags(&self) -> (r: Result<Vec<String>, DbError>)
        ensures
            r matches Ok(v) && str_views(v@) == self@.tags,
    {
        Db::all_tags(self)
    }

    fn upsert_tags(&mut self, tags: &[String]) -> (r: Result<(), DbError>)
        ensures
            r is Ok,
            final(self)@ == with_tags(old(self)@, upsert(old(self)@.tags, str_views(tags@))),
    {
        Db::upsert_tags(self, tags)
    }

    fn tag_usage(&self) -> (r: Result<Vec<(String, usize)>, DbError>)
        ensures
            r matches Ok(v) && is_tag_usage(self@, usage_view(v@)),
    {
        Db::tag_usage(self)
    }

    fn rename_tag(&mut self, from: &str, to: &str) -> (r: Result<usize, DbError>)
        ensures
            norm(to@).len() == 0 ==> r == Err::<usize, DbError>(DbError::EmptyTagName) && final(self)@ == old(self)@,
            norm(to@).len() > 0 && norm(from@) == norm(to@) ==> r == Ok::<usize, DbError>(0) && final(self)@ == old(self)@,
            norm(to@).len() > 0 && norm(from@) != norm(to@) ==> r == Ok::<usize, DbError>(
                rewrite_count(old(self)@.tasks, norm(from@), old(self)@.tasks.len()) as usize)
                && final(self)@ == after_rename_tag(old(self)@, norm(from@), norm(to@)),
    {
        Db::rename_tag(self, from, to)
    }

    fn delete_tag(&mut self, name: &str) -> (r: Result<usize, DbError>)
        ensures
            r == Ok::<usize, DbError>(rewrite_count(old(self)@.tasks, norm(name@), old(self)@.tasks.len()) as usize),
            final(self)@ == after_delete_tag(old(self)@, norm(name@)),
    {
        Db::delete_tag(self, name)
    }
}

} // verus!
