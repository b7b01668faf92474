//! Undo history: what was created, updated or deleted.

use vstd::prelude::*;

use crate::database::models::{DateTime, ObjectId, Project, ProjectView, Task, TaskView};

verus! {

/// A stored item a history event is about.
#[derive(Debug)]
pub enum SaveableItem {
    Task(Task),
    Project(Project),
}

pub enum ItemView {
    Task(TaskView),
    Project(ProjectView),
}

impl View for SaveableItem {
    type V = ItemView;

    open spec fn view(&self) -> ItemView {
        match self {
            SaveableItem::Task(t) => ItemView::Task(t@),
            SaveableItem::Project(p) => ItemView::Project(p@),
        }
    }
}

impl Clone for SaveableItem {
    fn clone(&self) -> (r: SaveableItem)
        ensures
            r@ == self@,
    {
        match self {
            SaveableItem::Task(t) => SaveableItem::Task(t.clone()),
            SaveableItem::Project(p) => SaveableItem::Project(p.clone()),
        }
    }
}

/// One recorded change.
#[derive(Debug)]
pub enum Event {
    Create(SaveableItem),
    Update { before: SaveableItem, after: SaveableItem },
    Delete(SaveableItem),
}

pub enum EventView {
    Create(ItemView),
    Update { before: ItemView, after: ItemView },
    Delete(ItemView),
}

impl View for Event {
    type V = EventView;

    open spec fn view(&self) -> EventView {
        match self {
            Event::Create(i) => EventView::Create(i@),
            Event::Update { before, after } => EventView::Update { before: before@, after: after@ },
            Event::Delete(i) => EventView::Delete(i@),
        }
    }
}

impl Clone for Event {
    fn clone(&self) -> (r: Event)
        ensures
            r@ == self@,
    {
        match self {
            Event::Create(i) => Event::Create(i.clone()),
            Event::Update { before, after } => Event::Update { before: before.clone(), after: after.clone() },
            Event::Delete(i) => Event::Delete(i.clone()),
        }
    }
}

/// A history operation as the UI requests it.
#[derive(Debug)]
pub enum HistoryAction {
    Append(Event),
    Undo(Event),
    Redo(Event),
}

impl HistoryAction {
    pub fn append(event: Event) -> (a: HistoryAction)
        ensures
            a == HistoryAction::Append(event),
    {
        HistoryAction::Append(event)
    }
}

/// An event as it sits in the history, with its id and time.
#[derive(Debug)]
pub struct HistoryRecord {
    pub id: ObjectId,
    pub timestamp: DateTime,
    pub event: Event,
}

impl Clone for HistoryRecord {
    fn clone(&self) -> (r: HistoryRecord)
        ensures
            r.id == self.id,
            r.timestamp == self.timestamp,
            r.event@ == self.event@,
    {
        HistoryRecord { id: self.id, timestamp: self.timestamp, event: self.event.clone() }
    }
}

} // verus!
