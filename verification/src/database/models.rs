//! Tasks, projects, tags and annotations, with their mathematical views.

use vstd::prelude::*;

verus! {

/// A 12-byte document id: 4 bytes of seconds since the epoch, then 8 bytes of
/// process id and counter, both big-endian.
#[derive(Clone, Copy, Debug, PartialEq, Eq, Hash, Structural)]
pub struct ObjectId {
    pub time: u32,
    pub rest: u64,
}

impl ObjectId {
    /// A fresh id from `bson::oid::ObjectId::new` (time, process id and a
    /// counter); nothing is promised of its value.
    #[verifier::external_body]
    pub fn new() -> (id: ObjectId) {
        let b = bson::oid::ObjectId::new().bytes();
        ObjectId {
            time: u32::from_be_bytes([b[0], b[1], b[2], b[3]]),
            rest: u64::from_be_bytes([b[4], b[5], b[6], b[7], b[8], b[9], b[10], b[11]]),
        }
    }

    /// The id as one 96-bit number; ids order by it.
    pub open spec fn spec_value(self) -> int {
        self.time as int * 0x1_0000_0000_0000_0000 + self.rest as int
    }

    pub fn value(&self) -> (v: i128)
        ensures
            v as int == self.spec_value(),
    {
        (self.time as i128) * 0x1_0000_0000_0000_0000i128 + (self.rest as i128)
    }
}

/// A UTC timestamp in milliseconds since the epoch.
#[derive(Clone, Copy, Debug, PartialEq, Eq, Structural)]
pub struct DateTime {
    pub millis: i64,
}

impl DateTime {
    pub fn from_millis(millis: i64) -> (d: DateTime)
        ensures
            d.millis == millis,
    {
        DateTime { millis }
    }

    pub fn timestamp_millis(&self) -> (m: i64)
        ensures
            m == self.millis,
    {
        self.millis
    }

    /// The current time, from `bson::DateTime::now`; nothing is promised of it.
    #[verifier::external_body]
    pub fn now() -> (d: DateTime) {
        DateTime { millis: bson::DateTime::now().timestamp_millis() }
    }
}

/// Lifecycle state of a task; drives row color, status icon, and default filter behavior.
#[derive(Clone, Copy, Debug, PartialEq, Eq, Structural)]
pub enum TaskStatus {
    NotStarted,
    InProgress,
    Completed,
    OnHold,
}

impl Default for TaskStatus {
    fn default() -> (s: TaskStatus)
        ensures
            s == TaskStatus::NotStarted,
    {
        TaskStatus::NotStarted
    }
}

impl TaskStatus {
    /// The status glyph shown in compact views.
    pub fn symbol(&self) -> (s: &'static str)
        ensures
            *self == TaskStatus::NotStarted ==> s@ == "○"@,
            *self == TaskStatus::InProgress ==> s@ == "◑"@,
            *self == TaskStatus::Completed ==> s@ == "●"@,
            *self == TaskStatus::OnHold ==> s@ == "⊘"@,
    {
        match self {
            TaskStatus::NotStarted => "○",
            TaskStatus::InProgress => "◑",
            TaskStatus::Completed => "●",
            TaskStatus::OnHold => "⊘",
        }
    }
}

/// How often a completed task auto-spawns its next occurrence.
#[derive(Clone, Copy, Debug, PartialEq, Eq, Structural)]
pub enum Recurrence {
    Daily,
    Weekly,
    Monthly,
    Yearly,
}

impl Recurrence {
    pub fn label(&self) -> (s: &'static str)
        ensures
            *self == Recurrence::Daily ==> s@ == "Daily"@,
            *self == Recurrence::Weekly ==> s@ == "Weekly"@,
            *self == Recurrence::Monthly ==> s@ == "Monthly"@,
            *self == Recurrence::Yearly ==> s@ == "Yearly"@,
    {
        match self {
            Recurrence::Daily => "Daily",
            Recurrence::Weekly => "Weekly",
            Recurrence::Monthly => "Monthly",
            Recurrence::Yearly => "Yearly",
        }
    }
}

/// Task urgency level. Affects row color and icon in the task list.
#[derive(Clone, Copy, Debug, PartialEq, Eq, Structural)]
pub enum Priority {
    Urgent,
    Normal,
    Low,
}

impl Priority {
    pub fn label(&self) -> (s: &'static str)
        ensures
            s@ == priority_text(*self),
    {
        match self {
            Priority::Urgent => "Urgent",
            Priority::Normal => "Normal",
            Priority::Low => "Low",
        }
    }
}

/// The name a priority is shown (and stored) under.
pub open spec fn priority_text(p: Priority) -> Seq<char> {
    match p {
        Priority::Urgent => "Urgent"@,
        Priority::Normal => "Normal"@,
        Priority::Low => "Low"@,
    }
}

/// The characters of each string.
pub open spec fn str_views(v: Seq<String>) -> Seq<Seq<char>> {
    v.map_values(|s: String| s@)
}

/// The view of an optional tag list.
pub open spec fn tags_view(t: Option<Vec<String>>) -> Option<Seq<Seq<char>>> {
    match t {
        Some(v) => Some(str_views(v@)),
        None => None,
    }
}

/// A copy of a list of strings.
pub fn copy_strings(v: &Vec<String>) -> (r: Vec<String>)
    ensures
        str_views(r@) == str_views(v@),
{
    let mut r: Vec<String> = Vec::new();
    let mut i: usize = 0;
    while i < v.len()
        invariant
            i <= v@.len(),
            r@.len() == i,
            forall|k: int| 0 <= k < i ==> (#[trigger] r@[k])@ == v@[k]@,
        decreases v@.len() - i,
    {
        let c = v[i].clone();
        r.push(c);
        i = i + 1;
    }
    assert(str_views(r@) =~= str_views(v@));
    r
}

/// A copy of an optional list of strings.
pub fn copy_tags(t: &Option<Vec<String>>) -> (r: Option<Vec<String>>)
    ensures
        tags_view(r) == tags_view(*t),
{
    match t {
        Some(v) => Some(copy_strings(v)),
        None => None,
    }
}

/// A named container for tasks. `tags` is reserved for future filtering.
#[derive(Debug, PartialEq, Eq)]
pub struct Project {
    pub id: ObjectId,
    pub name: String,
    pub tags: Option<Vec<String>>,
}

pub struct ProjectView {
    pub id: ObjectId,
    pub name: Seq<char>,
    pub tags: Option<Seq<Seq<char>>>,
}

impl View for Project {
    type V = ProjectView;

    open spec fn view(&self) -> ProjectView {
        ProjectView { id: self.id, name: self.name@, tags: tags_view(self.tags) }
    }
}

impl Clone for Project {
    fn clone(&self) -> (r: Project)
        ensures
            r@ == self@,
    {
        Project { id: self.id, name: self.name.clone(), tags: copy_tags(&self.tags) }
    }
}

impl Project {
    /// A new project with a fresh id.
    pub fn new(name: &str, tags: Option<Vec<String>>) -> (p: Project)
        ensures
            p.name@ == name@,
            p.tags == tags,
    {
        Project { id: ObjectId::new(), name: name.to_string(), tags }
    }

    pub fn load(self) -> (l: LoadedProject)
        ensures
            l.id == Some(self.id),
            l.project == Some(self),
    {
        LoadedProject { id: Some(self.id), project: Some(self) }
    }

    /// The project's name, as it is displayed.
    pub fn to_string(&self) -> (s: String)
        ensures
            s@ == self.name@,
    {
        self.name.clone()
    }
}

#[derive(Debug)]
pub struct LoadedProject {
    pub id: Option<ObjectId>,
    pub project: Option<Project>,
}

/// The current project filter: all tasks, no-project tasks, or a specific project.
#[derive(Debug, PartialEq, Eq)]
pub enum ProjectEntry {
    All,
    NoProject,
    Project(Project),
}

pub enum ProjectEntryView {
    All,
    NoProject,
    Project(ProjectView),
}

impl View for ProjectEntry {
    type V = ProjectEntryView;

    open spec fn view(&self) -> ProjectEntryView {
        match self {
            ProjectEntry::All => ProjectEntryView::All,
            ProjectEntry::NoProject => ProjectEntryView::NoProject,
            ProjectEntry::Project(p) => ProjectEntryView::Project(p@),
        }
    }
}

impl Clone for ProjectEntry {
    fn clone(&self) -> (r: ProjectEntry)
        ensures
            r@ == self@,
    {
        match self {
            ProjectEntry::All => ProjectEntry::All,
            ProjectEntry::NoProject => ProjectEntry::NoProject,
            ProjectEntry::Project(p) => ProjectEntry::Project(p.clone()),
        }
    }
}

/// A task with project `project_id` belongs under the filter `lookup`.
pub open spec fn entry_matches(lookup: ProjectEntryView, project_id: Option<ObjectId>) -> bool {
    match lookup {
        ProjectEntryView::All => true,
        ProjectEntryView::NoProject => project_id is None,
        ProjectEntryView::Project(p) => project_id == Some(p.id),
    }
}

/// The project id a new task gets under a filter.
pub open spec fn entry_id(e: ProjectEntryView) -> Option<ObjectId> {
    match e {
        ProjectEntryView::Project(p) => Some(p.id),
        _ => None,
    }
}

impl ProjectEntry {
    /// Whether a task with project `project_id` is listed under this filter
    /// (the lookup a task query runs with).
    pub fn matches(&self, project_id: Option<ObjectId>) -> (b: bool)
        ensures
            b == entry_matches(self@, project_id),
    {
        match self {
            ProjectEntry::All => true,
            ProjectEntry::NoProject => project_id.is_none(),
            ProjectEntry::Project(p) => match project_id {
                Some(id) => id == p.id,
                None => false,
            },
        }
    }

    /// The project id new tasks get under this filter.
    pub fn get_id(&self) -> (id: Option<ObjectId>)
        ensures
            id == entry_id(self@),
    {
        match self {
            ProjectEntry::Project(project) => Some(project.id),
            _ => None,
        }
    }

    /// The filter's display name.
    pub fn to_string(&self) -> (s: String)
        ensures
            self@ is All ==> s@ == "All"@,
            self@ is NoProject ==> s@ == "None"@,
            self@ matches ProjectEntryView::Project(p) ==> s@ == p.name,
    {
        match self {
            ProjectEntry::All => "All".to_string(),
            ProjectEntry::NoProject => "None".to_string(),
            ProjectEntry::Project(project) => project.name.clone(),
        }
    }
}

/// Gap left between consecutive task orders, so tasks can be inserted between.
pub const ORDER_GAP: u64 = 1_000;

/// The primary unit of work.
#[derive(Debug, PartialEq)]
pub struct Task {
    pub id: ObjectId,
    pub project_id: Option<ObjectId>,
    pub title: String,
    pub details: String,
    pub code: bool,
    pub status: TaskStatus,
    pub due: Option<DateTime>,
    pub wait_until: Option<DateTime>,
    pub priority: Priority,
    pub tags: Option<Vec<String>>,
    pub modify_date: DateTime,
    pub order: u64,
    pub recurrence: Option<Recurrence>,
}

pub struct TaskView {
    pub id: ObjectId,
    pub project_id: Option<ObjectId>,
    pub title: Seq<char>,
    pub details: Seq<char>,
    pub code: bool,
    pub status: TaskStatus,
    pub due: Option<DateTime>,
    pub wait_until: Option<DateTime>,
    pub priority: Priority,
    pub tags: Option<Seq<Seq<char>>>,
    pub modify_date: DateTime,
    pub order: u64,
    pub recurrence: Option<Recurrence>,
}

impl View for Task {
    type V = TaskView;

    open spec fn view(&self) -> TaskView {
        TaskView {
            id: self.id,
            project_id: self.project_id,
            title: self.title@,
            details: self.details@,
            code: self.code,
            status: self.status,
            due: self.due,
            wait_until: self.wait_until,
            priority: self.priority,
            tags: tags_view(self.tags),
            modify_date: self.modify_date,
            order: self.order,
            recurrence: self.recurrence,
        }
    }
}

impl Clone for Task {
    fn clone(&self) -> (r: Task)
        ensures
            r@ == self@,
    {
        Task {
            id: self.id,
            project_id: self.project_id,
            title: self.title.clone(),
            details: self.details.clone(),
            code: self.code,
            status: self.status,
            due: self.due,
            wait_until: self.wait_until,
            priority: self.priority,
            tags: copy_tags(&self.tags),
            modify_date: self.modify_date,
            order: self.order,
            recurrence: self.recurrence,
        }
    }
}

/// A fresh task: new id, empty title and details, not started, normal
/// priority, no project, dates, tags or recurrence, order 0.
pub open spec fn is_blank(t: TaskView) -> bool {
    &&& t.project_id is None
    &&& t.title.len() == 0
    &&& t.details.len() == 0
    &&& !t.code
    &&& t.status == TaskStatus::NotStarted
    &&& t.due is None
    &&& t.wait_until is None
    &&& t.priority == Priority::Normal
    &&& t.tags is None
    &&& t.order == 0
    &&& t.recurrence is None
}

impl Default for Task {
    fn default() -> (t: Task)
        ensures
            is_blank(t@),
    {
        Task {
            id: ObjectId::new(),
            project_id: None,
            title: String::new(),
            details: String::new(),
            code: false,
            status: TaskStatus::NotStarted,
            due: None,
            wait_until: None,
            priority: Priority::Normal,
            tags: None,
            modify_date: DateTime::now(),
            order: 0,
            recurrence: None,
        }
    }
}

impl Task {
    /// Replace the title and stamp the modification time.
    pub fn edit(&mut self, contents: &str)
        ensures
            final(self)@.title == contents@,
            final(self)@.id == old(self)@.id,
            final(self)@.details == old(self)@.details,
            final(self)@.status == old(self)@.status,
            final(self)@.order == old(self)@.order,
            final(self)@.tags == old(self)@.tags,
            final(self)@.priority == old(self)@.priority,
            final(self)@.project_id == old(self)@.project_id,
            final(self)@.due == old(self)@.due,
            final(self)@.wait_until == old(self)@.wait_until,
            final(self)@.code == old(self)@.code,
            final(self)@.recurrence == old(self)@.recurrence,
    {
        self.title = contents.to_string();
        self.modify_date = DateTime::now();
    }

    /// Where a task placed right after this one goes.
    pub fn get_next_gap(&self) -> (o: u64)
        requires
            self.order + ORDER_GAP <= u64::MAX,
        ensures
            o == self.order + ORDER_GAP,
    {
        self.order + ORDER_GAP
    }
}

/// A timestamped note appended to a task; separate from the mutable `details` field.
#[derive(Debug, PartialEq)]
pub struct Annotation {
    pub id: ObjectId,
    pub task_id: ObjectId,
    pub content: String,
    pub created_at: DateTime,
}

pub struct AnnotationView {
    pub id: ObjectId,
    pub task_id: ObjectId,
    pub content: Seq<char>,
    pub created_at: DateTime,
}

impl View for Annotation {
    type V = AnnotationView;

    open spec fn view(&self) -> AnnotationView {
        AnnotationView { id: self.id, task_id: self.task_id, content: self.content@, created_at: self.created_at }
    }
}

impl Clone for Annotation {
    fn clone(&self) -> (r: Annotation)
        ensures
            r@ == self@,
    {
        Annotation { id: self.id, task_id: self.task_id, content: self.content.clone(), created_at: self.created_at }
    }
}

/// A single normalized tag stored in the tags collection.
#[derive(Debug, PartialEq, Eq)]
pub struct Tag {
    pub content: String,
}

impl Tag {
    pub fn to_string(&self) -> (s: String)
        ensures
            s@ == self.content@,
    {
        self.content.clone()
    }
}

} // verus!
