//! The project pane's state: the list of filters (`All`, each project,
//! `None`), the active and hovered rows, and its keys and forms.

use vstd::prelude::*;

use crate::database::database::{Db, DbError};
use crate::database::models::{ObjectId, Project, ProjectEntry, ProjectEntryView, ProjectView};
use crate::database::state::{
    DbView, after_create_project, after_delete_project, after_update_project, can_create_project,
};
use crate::text::{trim, trim_str};
use crate::ui::app::{EditFocus, Mode};

verus! {

/// The views of a list of filter entries.
pub open spec fn entry_views(v: Seq<ProjectEntry>) -> Seq<ProjectEntryView> {
    v.map_values(|e: ProjectEntry| e@)
}

/// The pane's list for the projects `ps`: `All`, each project, then `None`.
pub open spec fn project_list(ps: Seq<ProjectView>) -> Seq<ProjectEntryView> {
    seq![ProjectEntryView::All] + ps.map_values(|p: ProjectView| ProjectEntryView::Project(p)) + seq![ProjectEntryView::NoProject]
}

/// Wraps a flat list of listed projects in the `[All] … [None]` sentinel entries.
pub fn assemble_project_list(listed: Vec<ProjectEntry>) -> (v: Vec<ProjectEntry>)
    ensures
        entry_views(v@) == seq![ProjectEntryView::All] + entry_views(listed@) + seq![ProjectEntryView::NoProject],
{
    let ghost rv = entry_views(listed@);
    let mut projects: Vec<ProjectEntry> = Vec::new();
    projects.push(ProjectEntry::All);
    proof {
        assert(entry_views(projects@) =~= seq![ProjectEntryView::All]);
    }
    let n = listed.len();
    let mut i: usize = 0;
    while i < n
        invariant
            n == listed@.len(),
            rv == entry_views(listed@),
            i <= n,
            entry_views(projects@) == seq![ProjectEntryView::All] + rv.subrange(0, i as int),
        decreases n - i,
    {
        let e = listed[i].clone();
        let ghost before = entry_views(projects@);
        projects.push(e);
        assert(entry_views(projects@) =~= before.push(rv[i as int]));
        assert(rv.subrange(0, i + 1) =~= rv.subrange(0, i as int).push(rv[i as int]));
        i = i + 1;
    }
    assert(rv.subrange(0, n as int) =~= rv);
    let ghost before = entry_views(projects@);
    projects.push(ProjectEntry::NoProject);
    assert(entry_views(projects@) =~= before.push(ProjectEntryView::NoProject));
    projects
}

/// Two entries name the same filter: both `All`, both `None`, or projects
/// with the same id.
pub open spec fn same_entry(a: ProjectEntryView, b: ProjectEntryView) -> bool {
    match (a, b) {
        (ProjectEntryView::All, ProjectEntryView::All) => true,
        (ProjectEntryView::NoProject, ProjectEntryView::NoProject) => true,
        (ProjectEntryView::Project(x), ProjectEntryView::Project(y)) => x.id == y.id,
        _ => false,
    }
}

/// The draft of a project name while creating or renaming one.
pub struct ProjectWriter {
    pub single_line_buffer: String,
    pub has_focus: EditFocus,
}

impl Default for ProjectWriter {
    fn default() -> (w: ProjectWriter)
        ensures
            w.single_line_buffer@.len() == 0,
            w.has_focus == EditFocus::Unfocused,
    {
        ProjectWriter { single_line_buffer: String::new(), has_focus: EditFocus::Unfocused }
    }
}

impl ProjectWriter {
    /// Clear the draft.
    pub fn flush(&mut self)
        ensures
            final(self).single_line_buffer@.len() == 0,
            final(self).has_focus == EditFocus::Unfocused,
    {
        self.single_line_buffer = String::new();
        self.has_focus = EditFocus::Unfocused;
    }
}

/// The project pane's keys pressed this frame.
#[derive(Clone, Copy, Debug, PartialEq, Eq, Structural)]
pub struct ProjectKeys {
    pub o: bool,
    pub e: bool,
    pub d: bool,
    pub j: bool,
    pub k: bool,
    pub enter: bool,
}

pub struct ProjectManager {
    pub projects: Vec<ProjectEntry>,
    pub current_project: usize,
    pub hovered_project: usize,
    pub writer: ProjectWriter,
}

/// The id of the entry at `idx`, when it is a project.
pub open spec fn project_at(es: Seq<ProjectEntry>, idx: int) -> Option<ProjectView> {
    if 0 <= idx < es.len() {
        match es[idx]@ {
            ProjectEntryView::Project(p) => Some(p),
            _ => None,
        }
    } else {
        None
    }
}

impl ProjectManager {
    /// The pane for the projects `listed`, with `All` active.
    pub fn new(listed: Vec<ProjectEntry>) -> (m: ProjectManager)
        ensures
            entry_views(m.projects@) == seq![ProjectEntryView::All] + entry_views(listed@) + seq![ProjectEntryView::NoProject],
            m.current_project == 0,
            m.hovered_project == 0,
            m.writer.single_line_buffer@.len() == 0,
    {
        ProjectManager {
            projects: assemble_project_list(listed),
            current_project: 0,
            hovered_project: 0,
            writer: ProjectWriter::default(),
        }
    }

    /// The active filter.
    pub fn current(&self) -> (e: &ProjectEntry)
        requires
            self.current_project < self.projects@.len(),
        ensures
            *e == self.projects@[self.current_project as int],
    {
        &self.projects[self.current_project]
    }

    /// The first row naming the same filter as `entry`.
    pub fn index_of(&self, entry: &ProjectEntry) -> (r: Option<usize>)
        ensures
            match r {
                Some(i) => i < self.projects@.len() && same_entry(self.projects@[i as int]@, entry@)
                    && forall|k: int| 0 <= k < i ==> !same_entry(#[trigger] self.projects@[k]@, entry@),
                None => forall|k: int| 0 <= k < self.projects@.len() ==> !same_entry(#[trigger] self.projects@[k]@, entry@),
            },
    {
        let mut i: usize = 0;
        while i < self.projects.len()
            invariant
                i <= self.projects@.len(),
                forall|k: int| 0 <= k < i ==> !same_entry(#[trigger] self.projects@[k]@, entry@),
            decreases self.projects@.len() - i,
        {
            let same = match (&self.projects[i], entry) {
                (ProjectEntry::All, ProjectEntry::All) => true,
                (ProjectEntry::NoProject, ProjectEntry::NoProject) => true,
                (ProjectEntry::Project(a), ProjectEntry::Project(b)) => a.id == b.id,
                _ => false,
            };
            if same {
                return Some(i);
            }
            i = i + 1;
        }
        None
    }

    /// Sync hover to current — returning to Tasks always resets hover.
    pub fn sync_hover(&mut self)
        ensures
            *final(self) == (ProjectManager { hovered_project: old(self).current_project, ..*old(self) }),
    {
        self.hovered_project = self.current_project;
    }

    /// Make row `idx` active and hovered; the entry there, if any, comes back
    /// (to remember and to list tasks for).
    pub fn select(&mut self, idx: usize) -> (r: Option<ProjectEntry>)
        ensures
            final(self).current_project == idx,
            final(self).hovered_project == idx,
            final(self).projects == old(self).projects,
            final(self).writer == old(self).writer,
            idx < old(self).projects@.len() ==> (r matches Some(e) && e@ == old(self).projects@[idx as int]@),
            idx >= old(self).projects@.len() ==> r is None,
    {
        self.current_project = idx;
        self.hovered_project = idx;
        if idx < self.projects.len() {
            Some(self.projects[idx].clone())
        } else {
            None
        }
    }

    /// A fresh list arrived: take it, and fall back to `All` when the active
    /// row is past its end.
    pub fn set_projects(&mut self, projects: Vec<ProjectEntry>)
        ensures
            final(self).projects == projects,
            final(self).current_project == if old(self).current_project >= projects@.len() { 0 } else { old(self).current_project },
            final(self).hovered_project == old(self).hovered_project,
            final(self).writer == old(self).writer,
    {
        let len = projects.len();
        self.projects = projects;
        if self.current_project >= len {
            self.current_project = 0;
        }
    }

    /// The remembered filter arrived: make its row active and hovered, if it is listed.
    pub fn restore_current(&mut self, entry: &ProjectEntry)
        ensures
            final(self).projects == old(self).projects,
            final(self).writer == old(self).writer,
            match old(self).index_of_spec(entry@) {
                Some(i) => final(self).current_project == i && final(self).hovered_project == i,
                None => final(self).current_project == old(self).current_project
                    && final(self).hovered_project == old(self).hovered_project,
            },
    {
        match self.index_of(entry) {
            Some(i) => {
                self.current_project = i;
                self.hovered_project = i;
                proof {
                    lemma_first_same_unique(old(self).projects@, entry@, i as int);
                }
            },
            None => {
                proof {
                    lemma_first_same_none(old(self).projects@, entry@);
                }
            },
        }
    }

    /// The first row naming the same filter as `e`, if any.
    pub open spec fn index_of_spec(&self, e: ProjectEntryView) -> Option<usize> {
        first_same(self.projects@, e, self.projects@.len() as int)
    }

    /// The project pane's keys, in Normal mode: `o` starts a new project,
    /// `e` renames the hovered project, `d` asks to delete it, `j` / `k` move
    /// the hover (within the list), Enter picks the hovered row (after the
    /// move). Returns the row to make active, if any.
    pub fn handle_keys(&mut self, keys: &ProjectKeys, mode: &mut Mode, pending_delete: &mut Option<ObjectId>) -> (pick: Option<usize>)
        requires
            old(self).hovered_project < usize::MAX,
        ensures
            *old(mode) != Mode::Normal ==> pick is None && *final(mode) == *old(mode)
                && *final(pending_delete) == *old(pending_delete) && *final(self) == *old(self),
            *old(mode) == Mode::Normal ==> ({
                let h0 = old(self).hovered_project as int;
                let n = old(self).projects@.len() as int;
                let hovered = project_at(old(self).projects@, h0);
                let h1 = if keys.j { if h0 + 1 < (if n > 0 { n - 1 } else { 0 }) { h0 + 1 } else { if n > 0 { n - 1 } else { 0 } } } else { h0 };
                let h2 = if keys.k { if h1 > 0 { h1 - 1 } else { 0 } } else { h1 };
                &&& final(self).hovered_project == h2
                &&& pick == if keys.enter { Some(h2 as usize) } else { None::<usize> }
                &&& *final(mode) == if keys.e && hovered is Some { Mode::Insert(Some(hovered->0.id)) }
                        else if keys.o { Mode::Insert(None) } else { Mode::Normal }
                &&& *final(pending_delete) == if keys.d && hovered is Some { Some(hovered->0.id) } else { *old(pending_delete) }
                &&& keys.e && hovered is Some ==> final(self).writer.single_line_buffer@ == hovered->0.name
                    && final(self).writer.has_focus == EditFocus::Unfocused
                &&& !(keys.e && hovered is Some) ==> final(self).writer == old(self).writer
            }),
            final(self).projects == old(self).projects,
            final(self).current_project == old(self).current_project,
    {
        let normal = match mode {
            Mode::Normal => true,
            _ => false,
        };
        if !normal {
            return None;
        }
        let len = self.projects.len();
        if keys.o {
            *mode = Mode::Insert(None);
        }
        let hovered = self.hovered_project;
        if keys.e && hovered < len {
            match &self.projects[hovered] {
                ProjectEntry::Project(p) => {
                    self.writer.single_line_buffer = p.name.clone();
                    self.writer.has_focus = EditFocus::Unfocused;
                    *mode = Mode::Insert(Some(p.id));
                },
                _ => {},
            }
        }
        if keys.d && hovered < len {
            match &self.projects[hovered] {
                ProjectEntry::Project(p) => {
                    *pending_delete = Some(p.id);
                },
                _ => {},
            }
        }
        if keys.j {
            let last = if len > 0 { len - 1 } else { 0 };
            let next = self.hovered_project + 1;
            self.hovered_project = if next < last { next } else { last };
        }
        if keys.k {
            self.hovered_project = if self.hovered_project > 0 { self.hovered_project - 1 } else { 0 };
        }
        if keys.enter {
            Some(self.hovered_project)
        } else {
            None
        }
    }

    /// The renamed project a submitted rename form gives: the project with id
    /// `edit_id`, named with the trimmed draft; `None` for a blank draft or an
    /// unknown id.
    pub fn rename_target(&self, edit_id: ObjectId) -> (r: Option<Project>)
        ensures
            trim(self.writer.single_line_buffer@).len() == 0 ==> r is None,
            trim(self.writer.single_line_buffer@).len() > 0 ==> match first_project_with(self.projects@, edit_id, self.projects@.len() as int) {
                None => r is None,
                Some(p) => r matches Some(q) && q@ == (ProjectView { name: trim(self.writer.single_line_buffer@), ..p }),
            },
    {
        let name = trim_str(self.writer.single_line_buffer.as_str());
        if name.unicode_len() == 0 {
            return None;
        }
        let mut i: usize = 0;
        while i < self.projects.len()
            invariant
                i <= self.projects@.len(),
                name@ == trim(self.writer.single_line_buffer@),
                name@.len() > 0,
                first_project_with(self.projects@, edit_id, i as int) is None,
            decreases self.projects@.len() - i,
        {
            match &self.projects[i] {
                ProjectEntry::Project(p) => {
                    if p.id == edit_id {
                        let mut q = p.clone();
                        q.name = name;
                        proof {
                            lemma_first_project_found(self.projects@, edit_id, i as int);
                            assert(first_project_with(self.projects@, edit_id, i + 1) == Some(p@));
                        }
                        return Some(q);
                    }
                },
                _ => {},
            }
            i = i + 1;
        }
        None
    }

    /// A project was deleted: when it is the active one, `All` becomes active
    /// and hovered.
    pub fn on_delete_confirmed(&mut self, delete_id: ObjectId)
        requires
            old(self).current_project < old(self).projects@.len(),
        ensures
            final(self).projects == old(self).projects,
            final(self).writer == old(self).writer,
            (old(self).projects@[old(self).current_project as int]@ matches ProjectEntryView::Project(p) && p.id == delete_id)
                ==> final(self).current_project == 0 && final(self).hovered_project == 0,
            !(old(self).projects@[old(self).current_project as int]@ matches ProjectEntryView::Project(p) && p.id == delete_id)
                ==> final(self).current_project == old(self).current_project && final(self).hovered_project == old(self).hovered_project,
    {
        let hit = match self.current() {
            ProjectEntry::Project(p) => p.id == delete_id,
            _ => false,
        };
        if hit {
            self.current_project = 0;
            self.hovered_project = 0;
        }
    }
}

/// The first project among the first `n` entries with id `id`.
pub open spec fn first_project_with(es: Seq<ProjectEntry>, id: ObjectId, n: int) -> Option<ProjectView>
    decreases n,
{
    if n <= 0 {
        None
    } else {
        match first_project_with(es, id, n - 1) {
            Some(p) => Some(p),
            None => match es[n - 1]@ {
                ProjectEntryView::Project(p) => if p.id == id { Some(p) } else { None },
                _ => None,
            },
        }
    }
}

proof fn lemma_first_project_found(es: Seq<ProjectEntry>, id: ObjectId, i: int)
    requires
        0 <= i < es.len(),
        first_project_with(es, id, i) is None,
        es[i]@ matches ProjectEntryView::Project(p) && p.id == id,
    ensures
        forall|n: int| i < n <= es.len() ==> #[trigger] first_project_with(es, id, n) == first_project_with(es, id, i + 1),
    decreases es.len() - i,
{
    assert forall|n: int| i < n <= es.len() implies #[trigger] first_project_with(es, id, n) == first_project_with(es, id, i + 1) by {
        lemma_first_project_stable(es, id, i + 1, n);
    }
}

proof fn lemma_first_project_stable(es: Seq<ProjectEntry>, id: ObjectId, m: int, n: int)
    requires
        0 < m <= n <= es.len(),
        first_project_with(es, id, m) is Some,
    ensures
        first_project_with(es, id, n) == first_project_with(es, id, m),
    decreases n - m,
{
    if n > m {
        lemma_first_project_stable(es, id, m, n - 1);
    }
}

/// The first of the first `n` rows naming the same filter as `e`.
pub open spec fn first_same(es: Seq<ProjectEntry>, e: ProjectEntryView, n: int) -> Option<usize>
    decreases n,
{
    if n <= 0 {
        None
    } else {
        match first_same(es, e, n - 1) {
            Some(i) => Some(i),
            None => if same_entry(es[n - 1]@, e) { Some((n - 1) as usize) } else { None },
        }
    }
}

proof fn lemma_first_same_unique(es: Seq<ProjectEntry>, e: ProjectEntryView, i: int)
    requires
        0 <= i < es.len(),
        same_entry(es[i]@, e),
        forall|k: int| 0 <= k < i ==> !same_entry(#[trigger] es[k]@, e),
    ensures
        first_same(es, e, es.len() as int) == Some(i as usize),
{
    lemma_first_same_none_upto(es, e, i);
    assert(first_same(es, e, i + 1) == Some(i as usize));
    lemma_first_same_stable(es, e, i + 1, es.len() as int);
}

proof fn lemma_first_same_none_upto(es: Seq<ProjectEntry>, e: ProjectEntryView, n: int)
    requires
        0 <= n <= es.len(),
        forall|k: int| 0 <= k < n ==> !same_entry(#[trigger] es[k]@, e),
    ensures
        first_same(es, e, n) is None,
    decreases n,
{
    if n > 0 {
        lemma_first_same_none_upto(es, e, n - 1);
    }
}

proof fn lemma_first_same_none(es: Seq<ProjectEntry>, e: ProjectEntryView)
    requires
        forall|k: int| 0 <= k < es.len() ==> !same_entry(#[trigger] es[k]@, e),
    ensures
        first_same(es, e, es.len() as int) is None,
{
    lemma_first_same_none_upto(es, e, es.len() as int);
}

proof fn lemma_first_same_stable(es: Seq<ProjectEntry>, e: ProjectEntryView, m: int, n: int)
    requires
        0 < m <= n <= es.len(),
        first_same(es, e, m) is Some,
    ensures
        first_same(es, e, n) == first_same(es, e, m),
    decreases n - m,
{
    if n > m {
        lemma_first_same_stable(es, e, m, n - 1);
    }
}

/// The pane's list after the store changed: `All`, each stored project, `None`.
pub fn listed_projects(db: &Db) -> (r: Result<Vec<ProjectEntry>, DbError>)
    ensures
        r matches Ok(v) && entry_views(v@) == project_list(db@.projects),
{
    match db.all_projects() {
        Ok(listed) => {
            let ghost rv = entry_views(listed@);
            assert(rv =~= db@.projects.map_values(|p: ProjectView| ProjectEntryView::Project(p)));
            let v = assemble_project_list(listed);
            Ok(v)
        },
        Err(e) => Err(e),
    }
}

/// The trimmed draft, if it is not blank: the name a new project gets.
pub fn created_name(buffer: &str) -> (r: Option<String>)
    ensures
        trim(buffer@).len() == 0 ==> r is None,
        trim(buffer@).len() > 0 ==> (r matches Some(s) && s@ == trim(buffer@)),
{
    let name = trim_str(buffer);
    if name.unicode_len() == 0 {
        None
    } else {
        Some(name)
    }
}

/// Create a project named `name`, then list the projects again.
pub fn project_submit_create(db: &mut Db, name: &str) -> (r: Result<Vec<ProjectEntry>, DbError>)
    requires
        old(db).wf(),
    ensures
        final(db).wf(),
        exists|p: ProjectView| {
            &&& p.name == name@ && p.tags is None
            &&& can_create_project(old(db)@, p) ==> final(db)@ == after_create_project(old(db)@, p)
                && (r matches Ok(v) && entry_views(v@) == project_list(final(db)@.projects))
            &&& !can_create_project(old(db)@, p) ==> final(db)@ == old(db)@ && r == Err::<Vec<ProjectEntry>, DbError>(DbError::DuplicateId)
        },
{
    let p = Project::new(name, None);
    let ghost pv = p@;
    match db.create_project(p) {
        Ok(_) => listed_projects(db),
        Err(e) => Err(e),
    }
}

/// Delete project `id` (and its tasks), then list the projects again.
pub fn project_submit_delete(db: &mut Db, id: ObjectId) -> (r: Result<Vec<ProjectEntry>, DbError>)
    requires
        old(db).wf(),
    ensures
        final(db).wf(),
        final(db)@ == after_delete_project(old(db)@, id),
        crate::database::state::project_index(old(db)@.projects, id) < 0 ==> r == Err::<Vec<ProjectEntry>, DbError>(DbError::ProjectNotFound),
        crate::database::state::project_index(old(db)@.projects, id) >= 0 ==> (r matches Ok(v) && entry_views(v@) == project_list(final(db)@.projects)),
{
    match db.delete_project(id) {
        Ok(_) => listed_projects(db),
        Err(e) => Err(e),
    }
}

/// Save a renamed project, then list the projects again.
pub fn project_submit_rename(db: &mut Db, project: Project) -> (r: Result<Vec<ProjectEntry>, DbError>)
    requires
        old(db).wf(),
    ensures
        final(db).wf(),
        final(db)@ == after_update_project(old(db)@, project@),
        r matches Ok(v) && entry_views(v@) == project_list(final(db)@.projects),
{
    match db.update_project(project) {
        Ok(_) => listed_projects(db),
        Err(e) => Err(e),
    }
}

} // verus!
