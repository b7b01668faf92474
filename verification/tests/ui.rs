use fast_task::database::database::Db;
use fast_task::database::models::{DateTime, ObjectId, Project, ProjectEntry, TaskStatus};
use fast_task::ui::app::{Mode, WindowState};
use fast_task::ui::bg::busy;
use fast_task::share::{ShareError, project_param, resolve_project};
use fast_task::ui::completion::{MenuKeys, tag_suggestions};
use fast_task::ui::help::help_bindings;
use fast_task::ui::info::{DateHint, date_hint, date_text_changed, parse_due_text_on, remove_chip, tag_chips};
use fast_task::ui::keys::{NavKey, NavKeys, pane_neighbors, set_mode, set_window_state, undo_redo};
use fast_task::ui::pickers::{PickerKeys, StatusCommand};
use fast_task::ui::projects::{ProjectKeys, ProjectManager, ProjectWriter, assemble_project_list, created_name};
use fast_task::ui::tags::{TagClicks, TagKeys, TagOp, TagUi, TagUiMode, count_label, run_tag_op};
use fast_task::ui::tasks::{SortOrder, TaskManager};
use fast_task::ui::widgets::errors::{ErrorEntry, ErrorSeverity, ErrorUi};

fn no_menu_keys() -> MenuKeys {
    MenuKeys { down: false, up: false, tab: false, enter: false, esc: false }
}

/// One frame of the tag field with the focus.
fn menu_frame(tm: &mut TaskManager, known: &Vec<String>, keys: MenuKeys) -> MenuKeys {
    tm.tag_field_frame(known, true, &keys)
}

fn known(tags: &[&str]) -> Vec<String> {
    tags.iter().map(|t| t.to_string()).collect()
}

#[test]
fn tab_accepts_fuzzy_match_and_keeps_focus() {
    let mut tm = TaskManager::default();
    let k = known(&["work", "home", "homework"]);
    tm.writer.tags_buffer = "wk".into();
    let consumed = menu_frame(&mut tm, &k, MenuKeys { tab: true, ..no_menu_keys() });
    assert_eq!(tm.writer.tags_buffer, "work, ");
    assert!(consumed.tab, "Tab must not move focus into the menu");
}

#[test]
fn arrow_then_enter_accepts_second_item() {
    let mut tm = TaskManager::default();
    let k = known(&["home", "homework"]);
    tm.writer.tags_buffer = "ho".into();
    menu_frame(&mut tm, &k, MenuKeys { down: true, ..no_menu_keys() });
    let consumed = menu_frame(&mut tm, &k, MenuKeys { enter: true, ..no_menu_keys() });
    assert_eq!(tm.writer.tags_buffer, "homework, ");
    assert!(consumed.enter, "Enter on a highlighted item must not submit the form");
}

#[test]
fn esc_closes_menu_without_leaving_field_or_discarding() {
    let mut tm = TaskManager::default();
    let k = known(&["work"]);
    tm.writer.tags_buffer = "wo".into();
    let consumed = menu_frame(&mut tm, &k, MenuKeys { esc: true, ..no_menu_keys() });
    assert!(tm.tag_menu_dismissed);
    assert!(consumed.esc);
    let consumed = menu_frame(&mut tm, &k, MenuKeys { tab: true, ..no_menu_keys() });
    assert_eq!(tm.writer.tags_buffer, "wo");
    assert!(!consumed.tab);
}

#[test]
fn already_typed_tags_are_not_suggested_again() {
    let mut tm = TaskManager::default();
    let k = known(&["work", "workshop"]);
    tm.writer.tags_buffer = "work, wor".into();
    menu_frame(&mut tm, &k, MenuKeys { tab: true, ..no_menu_keys() });
    assert_eq!(tm.writer.tags_buffer, "work, workshop, ");
}

#[test]
fn suggestions_are_capped_at_five() {
    let k = known(&["a1", "a2", "a3", "a4", "a5", "a6"]);
    assert_eq!(tag_suggestions(&"a".to_string(), &k).len(), 5);
    assert!(tag_suggestions(&"work, ".to_string(), &k).is_empty());
}

#[test]
fn typed_dates_are_read_against_today() {
    // 2024-06-12 is a Wednesday.
    let today = (2024, 6, 12);
    assert_eq!(parse_due_text_on("  Today ", today), Some(today));
    assert_eq!(parse_due_text_on("tmr", today), Some((2024, 6, 13)));
    assert_eq!(parse_due_text_on("fri", today), Some((2024, 6, 14)));
    assert_eq!(parse_due_text_on("wednesday", today), Some((2024, 6, 19)));
    assert_eq!(parse_due_text_on("2025-01-09", today), Some((2025, 1, 9)));
    assert_eq!(parse_due_text_on("2025-02-30", today), None);
    assert_eq!(parse_due_text_on("2024-02-29", today), Some((2024, 2, 29)));
    assert_eq!(parse_due_text_on("2023-02-29", today), None);
    assert_eq!(parse_due_text_on("1900-02-29", today), None);
    assert_eq!(parse_due_text_on("2000-02-29", today), Some((2000, 2, 29)));
    assert_eq!(parse_due_text_on("2025-04-31", today), None);
    assert_eq!(parse_due_text_on("someday", today), None);
    assert_eq!(parse_due_text_on("", today), None);
}

#[test]
fn date_fields_follow_their_text() {
    let mut date = Some(DateTime::from_millis(1));
    date_text_changed(&"2024-01-01".to_string(), &mut date, (2024, 6, 12));
    assert_eq!(date, Some(DateTime::from_millis(1_704_067_200_000)));
    date_text_changed(&"nonsense".to_string(), &mut date, (2024, 6, 12));
    assert_eq!(date, Some(DateTime::from_millis(1_704_067_200_000)));
    assert_eq!(date_hint(&"nonsense".to_string(), &date), DateHint::Nothing);
    date_text_changed(&String::new(), &mut date, (2024, 6, 12));
    assert_eq!(date, None);
    assert_eq!(date_hint(&"x".to_string(), &None), DateHint::Unrecognized);
}

#[test]
fn removing_a_chip_rewrites_the_tag_text() {
    assert_eq!(tag_chips("a, b,, c"), vec!["a".to_string(), "b".to_string(), "c".to_string()]);
    let mut buf = "a, b, c".to_string();
    remove_chip(&mut buf, 1);
    assert_eq!(buf, "a, c, ");
    let mut one = "a".to_string();
    remove_chip(&mut one, 0);
    assert_eq!(one, "");
}

#[test]
fn pane_navigation_does_not_wrap() {
    let keys = NavKeys { t: false, shift_h: false, shift_l: true, esc: false };
    assert_eq!(set_window_state(&Mode::Normal, &WindowState::Tasks, &keys), (Some(WindowState::Info), Some(NavKey::ShiftL)));
    assert_eq!(set_window_state(&Mode::Normal, &WindowState::Info, &keys), (None, Some(NavKey::ShiftL)), "no wrap past Info");
    let left = NavKeys { shift_h: true, shift_l: false, ..keys };
    assert_eq!(set_window_state(&Mode::Normal, &WindowState::Projects, &left), (None, Some(NavKey::ShiftH)), "no wrap past Projects");
    assert_eq!(pane_neighbors(&WindowState::Tasks), (Some(WindowState::Projects), Some(WindowState::Info)));
}

#[test]
fn esc_from_projects_lands_on_tasks() {
    let esc = NavKeys { t: false, shift_h: false, shift_l: false, esc: true };
    assert_eq!(set_window_state(&Mode::Normal, &WindowState::Projects, &esc), (Some(WindowState::Tasks), Some(NavKey::Esc)));
    assert_eq!(set_window_state(&Mode::Normal, &WindowState::Tasks, &esc), (None, None));
    assert_eq!(set_window_state(&Mode::Visual, &WindowState::Projects, &esc), (None, None));
}

#[test]
fn esc_leaves_visual_and_insert_but_not_the_editor() {
    assert_eq!(set_mode(&WindowState::Tasks, &Mode::Visual, true), Some(Mode::Normal));
    assert_eq!(set_mode(&WindowState::Info, &Mode::Insert(None), true), None);
    assert_eq!(set_mode(&WindowState::Projects, &Mode::Insert(None), true), Some(Mode::Normal));
    assert_eq!(set_mode(&WindowState::Tasks, &Mode::Normal, true), None);
    assert_eq!(undo_redo(true, false, true), (false, false));
    assert_eq!(undo_redo(true, true, false), (true, true));
}

#[test]
fn busy_shows_after_the_delay() {
    let mut since = None;
    assert!(!busy(100, 1, &mut since, 1000));
    assert_eq!(since, Some(1000));
    assert!(!busy(100, 1, &mut since, 1099));
    assert!(busy(100, 1, &mut since, 1100));
    assert!(!busy(100, 0, &mut since, 1200));
    assert_eq!(since, None);
}

#[test]
fn errors_queue_by_severity_and_esc_takes_the_newest_banner() {
    let mut ui = ErrorUi::default();
    ui.push(ErrorEntry::new("boom".into(), "boom".into()), ErrorSeverity::NonFatal);
    ui.push(ErrorEntry::new("bad".into(), "bad: disk".into()), ErrorSeverity::Fatal);
    assert!(ui.has_non_fatal());
    assert!(!ui.non_fatal[0].has_extra_details());
    assert!(ui.fatal[0].has_extra_details());
    assert!(ui.escape(), "Esc was spent on the banner");
    assert!(!ui.has_non_fatal());
    assert!(!ui.escape());
    assert_eq!(ui.more_label(), None);
    ui.push(ErrorEntry::new("x".into(), "x".into()), ErrorSeverity::Fatal);
    assert_eq!(ui.more_label(), Some("+1 more".to_string()));
    ui.dismiss_fatal();
    assert_eq!(ui.fatal.len(), 1);
    assert_eq!(ui.fatal[0].friendly, "x");
}

fn pkeys() -> PickerKeys {
    PickerKeys { down: false, up: false, enter: false, dismiss: false, number: None }
}

#[test]
fn status_picker_sets_the_status_of_the_selection() {
    let mut tm = TaskManager::default();
    let (a, b) = (ObjectId::new(), ObjectId::new());
    tm.status_picker_open = true;
    tm.status_picker_ids = vec![a, b];
    tm.selected_tasks = vec![a, b];
    tm.status_picker_keys(&PickerKeys { down: true, ..pkeys() });
    assert_eq!(tm.status_picker_cursor, 1);
    match tm.status_picker_keys(&PickerKeys { enter: true, ..pkeys() }) {
        Some(StatusCommand::Many(ids, s)) => {
            assert_eq!(ids, vec![a, b]);
            assert_eq!(s, TaskStatus::InProgress);
        },
        _ => panic!("expected a bulk change"),
    }
    assert!(!tm.status_picker_open && tm.selected_tasks.is_empty());
}

#[test]
fn sort_picker_takes_a_number_key() {
    let mut tm = TaskManager::default();
    tm.sort_order = SortOrder::Status;
    tm.open_sort_picker();
    assert_eq!(tm.sort_picker_cursor, 3);
    tm.sort_picker_keys(&PickerKeys { number: Some(1), ..pkeys() });
    assert_eq!(tm.sort_order, SortOrder::DueDate);
    assert!(!tm.sort_picker_open);
}

#[test]
fn project_list_wraps_projects_in_all_and_none() {
    let p = Project::new("Work", None);
    let list = assemble_project_list(vec![ProjectEntry::Project(p.clone())]);
    assert_eq!(list, vec![ProjectEntry::All, ProjectEntry::Project(p.clone()), ProjectEntry::NoProject]);
    let pm = ProjectManager::new(vec![ProjectEntry::Project(p.clone())]);
    assert_eq!(pm.index_of(&ProjectEntry::NoProject), Some(2));
    assert_eq!(pm.index_of(&ProjectEntry::Project(Project::new("Other", None))), None);
    assert_eq!(pm.current(), &ProjectEntry::All);
}

#[test]
fn project_keys_move_hover_and_rename() {
    let p = Project::new("Work", None);
    let mut pm = ProjectManager::new(vec![ProjectEntry::Project(p.clone())]);
    let mut mode = Mode::Normal;
    let mut pending = None;
    let none = ProjectKeys { o: false, e: false, d: false, j: false, k: false, enter: false };
    assert_eq!(pm.handle_keys(&ProjectKeys { j: true, ..none }, &mut mode, &mut pending), None);
    assert_eq!(pm.hovered_project, 1);
    pm.handle_keys(&ProjectKeys { e: true, ..none }, &mut mode, &mut pending);
    assert_eq!(mode, Mode::Insert(Some(p.id)));
    assert_eq!(pm.writer.single_line_buffer, "Work");
    pm.writer.single_line_buffer = "  Job ".into();
    let renamed = pm.rename_target(p.id).unwrap();
    assert_eq!(renamed.name, "Job");
    assert_eq!(renamed.id, p.id);
    let mut mode = Mode::Normal;
    assert_eq!(pm.handle_keys(&ProjectKeys { j: true, enter: true, ..none }, &mut mode, &mut pending), Some(2));
    assert_eq!(created_name("   "), None);
    let mut w = ProjectWriter::default();
    w.single_line_buffer = "x".into();
    w.flush();
    assert!(w.single_line_buffer.is_empty());
}

#[test]
fn deleting_the_active_project_falls_back_to_all() {
    let p = Project::new("Work", None);
    let mut pm = ProjectManager::new(vec![ProjectEntry::Project(p.clone())]);
    pm.select(1);
    pm.on_delete_confirmed(p.id);
    assert_eq!(pm.current_project, 0);
    assert_eq!(pm.hovered_project, 0);
}

fn tkeys() -> TagKeys {
    TagKeys { down: false, up: false, new: false, rename: false, delete: false, close: false, yes: false, no: false }
}

fn no_clicks() -> TagClicks {
    TagClicks {
        row: None,
        close: false,
        new: false,
        rename: None,
        delete: None,
        confirm_delete: false,
        cancel_delete: false,
        submit_name: false,
        cancel_name: false,
    }
}

#[test]
fn tag_manager_rename_and_delete_in_the_store() {
    let mut db = Db::new();
    db.upsert_tags(&["home".to_string(), "work".to_string()]).unwrap();
    let mut t = TagUi::default();
    t.open();
    t.rows = db.tag_usage().unwrap();
    assert_eq!(t.selected().unwrap().0, "home");
    t.handle_keys(&TagKeys { down: true, ..tkeys() });
    t.handle_keys(&TagKeys { rename: true, ..tkeys() });
    assert!(matches!(&t.mode, TagUiMode::Rename { from, .. } if from == "work"));
    if let TagUiMode::Rename { buf, .. } = &mut t.mode {
        *buf = "job".into();
    }
    let ops = t.apply_clicks(&TagClicks { submit_name: true, ..no_clicks() });
    assert!(matches!(t.mode, TagUiMode::Browse));
    assert_eq!(ops.len(), 1);
    for op in ops {
        run_tag_op(&mut db, op).unwrap();
    }
    t.rows = db.tag_usage().unwrap();
    assert_eq!(t.rows, vec![("home".to_string(), 0), ("job".to_string(), 0)]);
    t.handle_keys(&TagKeys { delete: true, ..tkeys() });
    let deleted = t.handle_keys(&TagKeys { yes: true, ..tkeys() }).unwrap();
    assert_eq!(deleted, "job");
    run_tag_op(&mut db, TagOp::Delete(deleted)).unwrap();
    assert_eq!(db.all_tags().unwrap(), vec!["home".to_string()]);
    t.handle_keys(&TagKeys { close: true, ..tkeys() });
    assert!(!t.open);
}

#[test]
fn new_tags_are_lowercased_and_trimmed() {
    let mut t = TagUi::default();
    t.handle_keys(&TagKeys { new: true, ..tkeys() });
    assert!(t.take_focus());
    assert!(!t.take_focus());
    if let TagUiMode::New(buf) = &mut t.mode {
        *buf = "  Errands ".into();
    }
    let ops = t.apply_clicks(&TagClicks { submit_name: true, ..no_clicks() });
    assert!(matches!(&ops[0], TagOp::Create(n) if n == "errands"));
    assert_eq!(count_label(1), "1 task");
    assert_eq!(count_label(3), "3 tasks");
    t.rows = vec![("errands".to_string(), 1)];
    assert_eq!(t.delete_prompt(&"errands".to_string()), "Delete \"errands\"? It will be removed from 1 task.");
}

#[test]
fn note_times_read_month_day_and_clock() {
    assert_eq!(fast_task::ui::dates::format_note_time((3, 9, 7, 5)), "Mar 9, 07:05");
    assert_eq!(fast_task::ui::dates::format_note_time((12, 31, 23, 59)), "Dec 31, 23:59");
    let s = fast_task::ui::dates::format_annotation_ts(&fast_task::database::models::DateTime::from_millis(0));
    assert!(s.contains(", ") && s.contains(':'), "{s}");
}

#[test]
fn project_params_name_filters_and_read_back() {
    let mut db = Db::new();
    let p = Project::new("Home", None);
    let id = p.id;
    db.create_project(p).unwrap();
    assert_eq!(project_param(&ProjectEntry::All), "All");
    assert_eq!(project_param(&ProjectEntry::NoProject), "None");
    let listed = db.one_project(id).unwrap().unwrap();
    let param = project_param(&listed);
    assert_eq!(param.len(), 24);
    assert!(matches!(resolve_project(&db, &param), Ok(ProjectEntry::Project(q)) if q.id == id && q.name == "Home"));
    assert!(matches!(resolve_project(&db, "All"), Ok(ProjectEntry::All)));
    assert!(matches!(resolve_project(&db, "None"), Ok(ProjectEntry::NoProject)));
    assert!(matches!(resolve_project(&db, "nothing"), Err(ShareError::UnknownParameter)));
    assert!(matches!(resolve_project(&db, "0123456789abcdef01234567"), Err(ShareError::ProjectNotFound)));
}

#[test]
fn project_param_is_the_id_in_lowercase_hex() {
    let mut db = Db::new();
    let p = Project { id: ObjectId { time: 0x0102_03ab, rest: 0x0506_0708_090a_0bcd }, name: "Work".into(), tags: None };
    db.create_project(p).unwrap();
    let listed = db.one_project(ObjectId { time: 0x0102_03ab, rest: 0x0506_0708_090a_0bcd }).unwrap().unwrap();
    assert_eq!(project_param(&listed), "010203ab05060708090a0bcd");
    // Upper-case digits read as the same id.
    assert!(matches!(resolve_project(&db, "010203AB05060708090A0BCD"), Ok(ProjectEntry::Project(q)) if q.name == "Work"));
    // A character that is not a digit, or a digit too few, names no id.
    assert!(matches!(resolve_project(&db, "010203ab05060708090a0bcg"), Err(ShareError::UnknownParameter)));
    assert!(matches!(resolve_project(&db, "010203ab05060708090a0bc"), Err(ShareError::UnknownParameter)));
}

#[test]
fn help_lists_the_keys_of_each_mode() {
    let projects = help_bindings(&Mode::Normal, &WindowState::Projects);
    assert_eq!(projects[0], ("Projects pane", ""));
    assert_eq!(projects.len(), 10);
    let normal = help_bindings(&Mode::Normal, &WindowState::Tasks);
    assert_eq!(normal.len(), 30);
    assert_eq!(normal[4], ("o / O", "New task below / above"));
    assert_eq!(help_bindings(&Mode::Insert(None), &WindowState::Info).len(), 3);
    assert_eq!(help_bindings(&Mode::Visual, &WindowState::Tasks)[0], ("Visual Mode  (single task)", ""));
}

#[test]
fn note_times_are_empty_outside_the_clock_range() {
    let far = fast_task::database::models::DateTime::from_millis(i64::MAX);
    assert_eq!(fast_task::ui::dates::format_annotation_ts(&far), "");
    let epoch = fast_task::database::models::DateTime::from_millis(0);
    assert!(!fast_task::ui::dates::format_annotation_ts(&epoch).is_empty());
}

#[test]
fn notes_are_added_and_removed_through_the_store() {
    let mut db = Db::new();
    let task = ObjectId::new();
    let notes = fast_task::ui::info::add_note(&mut db, task, "first".to_string()).unwrap();
    assert_eq!(notes.len(), 1);
    assert_eq!(notes[0].content, "first");
    assert_eq!(notes[0].task_id, task);
    let notes = fast_task::ui::info::add_note(&mut db, task, "second".to_string()).unwrap();
    assert_eq!(notes.len(), 2);
    let gone = notes[0].id;
    let left = fast_task::ui::info::remove_note(&mut db, gone, task).unwrap();
    assert_eq!(left.len(), 1);
    assert!(left.iter().all(|n| n.id != gone));
    // Removing a note that is not there changes nothing.
    let same = fast_task::ui::info::remove_note(&mut db, gone, task).unwrap();
    assert_eq!(same.len(), 1);
}

#[test]
fn banner_clicks_fold_details_then_dismiss() {
    let mut ui = ErrorUi::default();
    for name in ["a", "b", "c"] {
        ui.push(ErrorEntry::new(name.to_string(), format!("{name} details")), ErrorSeverity::NonFatal);
    }
    ui.apply_banner_actions(&vec![0, 2, 7], &vec![1]);
    assert_eq!(ui.non_fatal.len(), 2);
    assert_eq!(ui.non_fatal[0].friendly, "a");
    assert!(ui.non_fatal[0].details_open);
    assert_eq!(ui.non_fatal[1].friendly, "c");
    assert!(ui.non_fatal[1].details_open);
    ui.apply_banner_actions(&vec![1, 1], &vec![]);
    assert!(ui.non_fatal[1].details_open, "toggled twice is unchanged");
    ui.apply_banner_actions(&vec![], &vec![0, 1]);
    assert!(ui.non_fatal.is_empty());
}

#[test]
fn tag_clicks_move_the_cursor() {
    let mut t = TagUi { open: true, cursor: 0, mode: TagUiMode::Browse, rows: vec![("a".to_string(), 1), ("b".to_string(), 2), ("c".to_string(), 0)], focus_input: false };
    let none = TagClicks {
        row: None,
        close: false,
        new: false,
        rename: None,
        delete: None,
        confirm_delete: false,
        cancel_delete: false,
        submit_name: false,
        cancel_name: false,
    };
    t.apply_clicks(&TagClicks { row: Some(2), ..none });
    assert_eq!(t.cursor, 2);
    t.apply_clicks(&TagClicks { rename: Some(1), ..none });
    assert_eq!(t.cursor, 1);
    assert!(t.focus_input);
    t.apply_clicks(&TagClicks { delete: Some(9), ..none });
    assert_eq!(t.cursor, 1, "a row past the end does not move the cursor");
}

#[test]
fn whitespace_matches_std_on_every_char() {
    for u in 0u32..=0x10FFFF {
        if let Some(c) = char::from_u32(u) {
            assert_eq!(fast_task::text::char_is_whitespace(c), c.is_whitespace(), "U+{u:04X}");
        }
    }
}
