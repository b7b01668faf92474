use fast_task::database::database::{Db, DbError};
use fast_task::database::models::{Annotation, DateTime, ObjectId, Priority, Project, Task};
use fast_task::database::ProjectEntry;

fn test_db() -> Db {
    Db::new()
}

fn make_project(name: &str) -> Project {
    Project::new(name, None)
}

fn make_task(single_line: &str, project_id: Option<ObjectId>) -> Task {
    Task {
        title: single_line.to_string(),
        project_id,
        order: 1000,
        ..Default::default()
    }
}

fn tagged(title: &str, tags: &[&str]) -> Task {
    Task {
        title: title.to_string(),
        order: 1000,
        tags: Some(tags.iter().map(|t| t.to_string()).collect()),
        ..Default::default()
    }
}

fn tags_of(db: &Db, id: ObjectId) -> Option<Vec<String>> {
    db.one_task(id).unwrap().unwrap().tags
}

#[test]
fn concurrent_undos_each_apply_exactly_once() {
    let mut db = test_db();
    const N: usize = 40;
    for i in 0..N {
        db.create_task(make_task(&format!("t{i}"), None)).unwrap();
    }
    let mut errors = Vec::new();
    for _ in 0..N {
        if let Err(e) = db.undo() {
            errors.push(e.message().to_string());
        }
    }
    assert!(errors.is_empty(), "{:?}", errors);
    assert!(db.get_tasks(ProjectEntry::All).unwrap().is_empty(), "every create undone");
    assert!(db.load_history().unwrap().is_empty(), "history drained");
    for _ in 0..N {
        db.redo().unwrap();
    }
    assert_eq!(db.get_tasks(ProjectEntry::All).unwrap().len(), N, "one redo entry per undo");
}

#[test]
fn concurrent_modify_task_loses_no_updates() {
    let mut db = test_db();
    let id = db.create_task(make_task("counter", None)).unwrap();
    const N: usize = 40;
    for _ in 0..N {
        db.modify_task(id, |mut t: Task| {
            t.order += 1;
            t
        })
        .unwrap();
    }
    assert_eq!(db.one_task(id).unwrap().unwrap().order, 1000 + N as u64);
}

#[test]
fn modify_task_keeps_changes_saved_after_the_ui_copy() {
    let mut db = test_db();
    let id = db.create_task(make_task("old title", None)).unwrap();
    let _stale_ui_copy = db.one_task(id).unwrap().unwrap();
    let mut fresh = db.one_task(id).unwrap().unwrap();
    fresh.title = "new title".into();
    db.update_task(fresh).unwrap();
    db.modify_task(id, |mut t: Task| {
        t.priority = Priority::Urgent;
        t
    })
    .unwrap();
    let t = db.one_task(id).unwrap().unwrap();
    assert_eq!((t.title.as_str(), t.priority), ("new title", Priority::Urgent));
}

#[test]
fn nested_write_paths_do_not_deadlock() {
    let mut db = test_db();
    let mut t = make_task("a", None);
    t.tags = Some(vec!["x".into()]);
    db.create_task(t).unwrap();
    for i in 0..4 {
        db.rename_tag(if i % 2 == 0 { "x" } else { "y" }, if i % 2 == 0 { "y" } else { "x" })
            .unwrap();
    }
}

#[test]
fn tag_usage_counts_tasks_case_insensitively_and_includes_unused() {
    let mut db = test_db();
    db.create_task(tagged("a", &["Work", "home"])).unwrap();
    db.create_task(tagged("b", &["work", "WORK"])).unwrap();
    db.upsert_tags(&["unused".to_string()]).unwrap();
    let usage = db.tag_usage().unwrap();
    assert_eq!(usage, vec![("home".into(), 1), ("unused".into(), 0), ("work".into(), 2)]);
}

#[test]
fn rename_tag_updates_tasks_store_and_dedupes() {
    let mut db = test_db();
    let a = db.create_task(tagged("a", &["Work", "urgent"])).unwrap();
    let b = db.create_task(tagged("b", &["job", "work"])).unwrap();
    let c = db.create_task(tagged("c", &["home"])).unwrap();

    assert_eq!(db.rename_tag("work", "Job").unwrap(), 2);
    assert_eq!(tags_of(&db, a), Some(vec!["job".into(), "urgent".into()]));
    assert_eq!(tags_of(&db, b), Some(vec!["job".into()]), "merged, no duplicate");
    assert_eq!(tags_of(&db, c), Some(vec!["home".into()]), "untouched");

    let stored = db.all_tags().unwrap();
    assert!(stored.contains(&"job".to_string()));
    assert!(!stored.contains(&"work".to_string()));
}

#[test]
fn rename_tag_rejects_empty_name() {
    let mut db = test_db();
    db.create_task(tagged("a", &["work"])).unwrap();
    assert!(db.rename_tag("work", "   ").is_err());
}

#[test]
fn delete_tag_removes_from_tasks_and_store() {
    let mut db = test_db();
    let a = db.create_task(tagged("a", &["work", "home"])).unwrap();
    let b = db.create_task(tagged("b", &["Work"])).unwrap();
    assert_eq!(db.delete_tag("work").unwrap(), 2);
    assert_eq!(tags_of(&db, a), Some(vec!["home".into()]));
    assert_eq!(tags_of(&db, b), None, "last tag removed → None");
    assert!(!db.all_tags().unwrap().contains(&"work".to_string()));
}

#[test]
fn create_and_retrieve_project() {
    let mut db = test_db();
    let project = make_project("Work");
    db.create_project(project.clone()).unwrap();
    let all = db.all_projects().unwrap();
    assert_eq!(all.len(), 1);
    match &all[0] {
        ProjectEntry::Project(p) => assert_eq!(p.name, "Work"),
        _ => panic!("expected Project variant"),
    }
}

#[test]
fn one_project_returns_none_for_missing_id() {
    let db = test_db();
    let result = db.one_project(ObjectId::new()).unwrap();
    assert!(result.is_none());
}

#[test]
fn delete_project_cascades_tasks() {
    let mut db = test_db();
    let project = make_project("Work");
    let pid = db.create_project(project.clone()).unwrap();
    let task = make_task("write tests", Some(pid));
    db.create_task(task).unwrap();
    db.delete_project(pid).unwrap();
    assert!(db.all_projects().unwrap().is_empty());
    assert!(db.get_tasks(ProjectEntry::All).unwrap().is_empty());
}

#[test]
fn create_and_retrieve_task() {
    let mut db = test_db();
    let project = make_project("Work");
    let pid = db.create_project(project.clone()).unwrap();
    let project_entry = db.one_project(pid).unwrap().unwrap();
    let task = make_task("fix bug", Some(pid));
    db.create_task(task).unwrap();
    let tasks = db.get_tasks(project_entry).unwrap();
    assert_eq!(tasks.len(), 1);
    assert_eq!(tasks[0].title, "fix bug");
}

#[test]
fn create_task_with_no_project() {
    let mut db = test_db();
    let task = make_task("inbox item", None);
    db.create_task(task).unwrap();
    let tasks = db.get_tasks(ProjectEntry::NoProject).unwrap();
    assert_eq!(tasks.len(), 1);
}

#[test]
fn get_tasks_all_returns_all_projects() {
    let mut db = test_db();
    let pid = db.create_project(make_project("Work")).unwrap();
    db.create_task(make_task("task A", Some(pid))).unwrap();
    db.create_task(make_task("task B", None)).unwrap();
    let all = db.get_tasks(ProjectEntry::All).unwrap();
    assert_eq!(all.len(), 2);
}

#[test]
fn update_task_persists_changes() {
    let mut db = test_db();
    let task = make_task("original", None);
    let id = task.id;
    db.create_task(task.clone()).unwrap();
    let mut updated = task;
    updated.title = "updated".to_string();
    db.update_task(updated).unwrap();
    let fetched = db.one_task(id).unwrap().unwrap();
    assert_eq!(fetched.title, "updated");
}

#[test]
fn delete_task_returns_the_deleted_task() {
    let mut db = test_db();
    let task = make_task("doomed task", None);
    let id = task.id;
    db.create_task(task).unwrap();
    let deleted = db.delete_task(id).unwrap();
    assert_eq!(deleted.title, "doomed task");
    assert!(db.get_tasks(ProjectEntry::All).unwrap().is_empty());
}

#[test]
fn tasks_returned_sorted_by_order() {
    let mut db = test_db();
    let mut t1 = make_task("first", None);
    let mut t2 = make_task("second", None);
    let mut t3 = make_task("third", None);
    t1.order = 3000;
    t2.order = 1000;
    t3.order = 2000;
    db.create_task(t1).unwrap();
    db.create_task(t2).unwrap();
    db.create_task(t3).unwrap();
    let tasks = db.get_tasks(ProjectEntry::All).unwrap();
    assert_eq!(tasks[0].title, "second");
    assert_eq!(tasks[1].title, "third");
    assert_eq!(tasks[2].title, "first");
}

#[test]
fn undo_create_removes_task() {
    let mut db = test_db();
    db.create_task(make_task("temp", None)).unwrap();
    assert_eq!(db.get_tasks(ProjectEntry::All).unwrap().len(), 1);
    db.undo().unwrap();
    assert!(db.get_tasks(ProjectEntry::All).unwrap().is_empty());
}

#[test]
fn undo_delete_restores_task() {
    let mut db = test_db();
    let task = make_task("restore me", None);
    let id = task.id;
    db.create_task(task).unwrap();
    db.delete_task(id).unwrap();
    assert!(db.get_tasks(ProjectEntry::All).unwrap().is_empty());
    db.undo().unwrap();
    assert_eq!(db.get_tasks(ProjectEntry::All).unwrap().len(), 1);
}

#[test]
fn undo_update_reverts_to_original() {
    let mut db = test_db();
    let task = make_task("original", None);
    let id = task.id;
    db.create_task(task.clone()).unwrap();
    let mut updated = task;
    updated.title = "updated".to_string();
    db.update_task(updated).unwrap();
    db.undo().unwrap();
    let fetched = db.one_task(id).unwrap().unwrap();
    assert_eq!(fetched.title, "original");
}

#[test]
fn redo_reapplies_undone_operation() {
    let mut db = test_db();
    db.create_task(make_task("redoable", None)).unwrap();
    db.undo().unwrap();
    assert!(db.get_tasks(ProjectEntry::All).unwrap().is_empty());
    db.redo().unwrap();
    assert_eq!(db.get_tasks(ProjectEntry::All).unwrap().len(), 1);
}

#[test]
fn new_operation_clears_redo_stack() {
    let mut db = test_db();
    db.create_task(make_task("first", None)).unwrap();
    db.undo().unwrap();
    db.create_task(make_task("second", None)).unwrap();
    db.redo().unwrap();
    assert_eq!(db.get_tasks(ProjectEntry::All).unwrap().len(), 1);
}

#[test]
fn save_and_restore_current_project() {
    let mut db = test_db();
    db.save_current_project(ProjectEntry::All).unwrap();
    let restored = db.get_recent_project();
    assert_eq!(restored, Some(ProjectEntry::All));
}

// ---- own tests ----

#[test]
fn creating_a_taken_id_is_refused() {
    let mut db = test_db();
    let task = make_task("one", None);
    db.create_task(task.clone()).unwrap();
    assert_eq!(db.create_task(task), Err(DbError::DuplicateId));
    assert_eq!(db.get_tasks(ProjectEntry::All).unwrap().len(), 1);
}

#[test]
fn deleting_a_missing_task_or_project_is_refused() {
    let mut db = test_db();
    assert_eq!(db.delete_task(ObjectId::new()).unwrap_err(), DbError::TaskNotFound);
    assert_eq!(db.delete_project(ObjectId::new()), Err(DbError::ProjectNotFound));
}

#[test]
fn undo_of_a_project_delete_brings_its_tasks_back_one_by_one() {
    let mut db = test_db();
    let pid = db.create_project(make_project("Home")).unwrap();
    db.create_task(make_task("mow lawn", Some(pid))).unwrap();
    db.create_task(make_task("fix fence", Some(pid))).unwrap();
    db.delete_project(pid).unwrap();
    db.undo().unwrap();
    assert_eq!(db.all_projects().unwrap().len(), 1);
    assert_eq!(db.get_tasks(ProjectEntry::All).unwrap().len(), 0);
    db.undo().unwrap();
    db.undo().unwrap();
    assert_eq!(db.get_tasks(ProjectEntry::All).unwrap().len(), 2);
}

#[test]
fn tags_of_new_tasks_are_stored_normalized() {
    let mut db = test_db();
    db.create_task(tagged("a", &["  Work ", "HOME", ""])).unwrap();
    assert_eq!(db.all_tags().unwrap(), vec!["work".to_string(), "home".to_string()]);
}

#[test]
fn normalize_tag_trims_and_lowercases() {
    assert_eq!(fast_task::database::database::normalize_tag("  MiXed Case "), "mixed case");
}

#[test]
fn notes_come_back_in_id_order_and_can_be_deleted() {
    let mut db = test_db();
    let task_id = ObjectId::new();
    let a = Annotation { id: ObjectId { time: 2, rest: 0 }, task_id, content: "second".into(), created_at: DateTime::from_millis(2) };
    let b = Annotation { id: ObjectId { time: 1, rest: 0 }, task_id, content: "first".into(), created_at: DateTime::from_millis(1) };
    db.add_annotation(a).unwrap();
    db.add_annotation(b).unwrap();
    let notes = db.get_annotations(task_id).unwrap();
    assert_eq!(notes.iter().map(|n| n.content.as_str()).collect::<Vec<_>>(), vec!["first", "second"]);
    db.delete_annotation(ObjectId { time: 1, rest: 0 }).unwrap();
    assert_eq!(db.get_annotations(task_id).unwrap().len(), 1);
}

#[test]
fn restore_refuses_a_repeated_id() {
    let t = make_task("x", None);
    let r = Db::restore(vec![t.clone(), t], vec![], vec![], vec![], vec![], None);
    assert!(matches!(r, Err(DbError::DuplicateId)));
    let ok = Db::restore(vec![make_task("y", None)], vec![], vec!["work".into()], vec![], vec![], Some(ProjectEntry::All)).unwrap();
    assert_eq!(ok.get_tasks(ProjectEntry::All).unwrap().len(), 1);
    assert_eq!(ok.all_tags().unwrap(), vec!["work".to_string()]);
    assert_eq!(ok.get_recent_project(), Some(ProjectEntry::All));
}
