use fast_task::database::database::Db;
use fast_task::database::models::{DateTime, ORDER_GAP, ObjectId, Priority, Recurrence, Task, TaskStatus};
use fast_task::database::ProjectEntry;
use fast_task::ui::app::WindowState;
use fast_task::ui::dates::{DueTone, date_tone, format_date_short};
use fast_task::ui::ordering::{order_above, order_below, paste_orders};
use fast_task::ui::task_keys::CursorKeys;
use fast_task::ui::task_ops::{apply_status, next_occurrence_from, task_submit_edit};
use fast_task::ui::tasks::{SortOrder, TaskManager, TaskWriter, join_tags, parse_tags};

fn task_with_order(order: u64) -> Task {
    Task {
        title: "t".to_string(),
        order,
        ..Default::default()
    }
}

#[test]
fn order_below_last_task_appends() {
    let tasks = vec![task_with_order(1000)];
    assert_eq!(order_below(&tasks, 0), 2000);
}

#[test]
fn order_below_inserts_midpoint() {
    let tasks = vec![task_with_order(1000), task_with_order(3000)];
    assert_eq!(order_below(&tasks, 0), 2000);
}

#[test]
fn order_below_no_gap_falls_back_to_end() {
    let tasks = vec![task_with_order(1000), task_with_order(1001)];
    assert_eq!(order_below(&tasks, 0), 2001);
}

#[test]
fn order_above_first_task_halves() {
    let tasks = vec![task_with_order(1000)];
    assert_eq!(order_above(&tasks, 0), 500);
}

#[test]
fn order_above_inserts_midpoint() {
    let tasks = vec![task_with_order(1000), task_with_order(3000)];
    assert_eq!(order_above(&tasks, 1), 2000);
}

#[test]
fn order_above_first_task_with_order_zero_uses_gap() {
    let tasks = vec![task_with_order(0)];
    assert_eq!(order_above(&tasks, 0), ORDER_GAP);
}

#[test]
fn order_below_clamped_idx_does_not_panic() {
    let tasks = vec![task_with_order(1000)];
    let stale_idx = 4_usize;
    let idx = stale_idx.min(tasks.len().saturating_sub(1));
    assert_eq!(order_below(&tasks, idx), 2000);
}

#[test]
fn paste_orders_below_spreads_between_neighbours() {
    let tasks = vec![task_with_order(1000), task_with_order(4000)];
    assert_eq!(paste_orders(&tasks, Some(0), false, 2), vec![2000, 3000]);
}

#[test]
fn paste_orders_above_first_task_uses_zero_as_floor() {
    let tasks = vec![task_with_order(3000)];
    assert_eq!(paste_orders(&tasks, Some(0), true, 2), vec![1000, 2000]);
}

#[test]
fn paste_orders_below_last_task_leaves_room() {
    let tasks = vec![task_with_order(1000)];
    let o = paste_orders(&tasks, Some(0), false, 3);
    assert!(o.windows(2).all(|w| w[0] < w[1]) && o[0] > 1000, "{o:?}");
}

#[test]
fn paste_orders_no_room_appends_at_end() {
    let tasks = vec![task_with_order(1000), task_with_order(1001), task_with_order(5000)];
    assert_eq!(paste_orders(&tasks, Some(0), false, 2), vec![5000 + ORDER_GAP, 5000 + 2 * ORDER_GAP]);
}

#[test]
fn paste_orders_without_cursor_appends() {
    let tasks = vec![task_with_order(1000)];
    assert_eq!(paste_orders(&tasks, None, false, 1), vec![1000 + ORDER_GAP]);
}

#[test]
fn completing_recurring_task_creates_one_next_occurrence_even_when_repeated() {
    let mut db = Db::new();
    let id = db
        .create_task(Task {
            title: "water plants".into(),
            order: 1000,
            recurrence: Some(Recurrence::Weekly),
            ..Default::default()
        })
        .unwrap();
    apply_status(&mut db, id, TaskStatus::Completed).unwrap();
    apply_status(&mut db, id, TaskStatus::Completed).unwrap();
    let all = db.get_tasks(ProjectEntry::All).unwrap();
    let open: Vec<_> = all.iter().filter(|t| t.status != TaskStatus::Completed).collect();
    assert_eq!(all.len(), 2);
    assert_eq!(open.len(), 1);
    assert!(open[0].due.is_some(), "next occurrence is scheduled");
}

#[test]
fn save_and_done_on_recurring_task_schedules_next() {
    let mut db = Db::new();
    let id = db
        .create_task(Task {
            title: "old".into(),
            order: 1000,
            recurrence: Some(Recurrence::Daily),
            ..Default::default()
        })
        .unwrap();
    let writer = TaskWriter {
        title_buffer: "renamed".into(),
        status: TaskStatus::Completed,
        recurrence: Some(Recurrence::Daily),
        ..Default::default()
    };
    let (r, follow) = task_submit_edit(&mut db, &writer, id);
    assert_eq!(r.unwrap(), Some(id));
    assert!(follow.is_none());

    let all = db.get_tasks(ProjectEntry::All).unwrap();
    let next: Vec<_> = all.iter().filter(|t| t.status != TaskStatus::Completed).collect();
    assert_eq!(all.len(), 2);
    assert_eq!(next.len(), 1);
    assert_eq!(next[0].title, "renamed", "built from the saved values");
}

// ---- own tests ----

#[test]
fn next_occurrence_steps_a_month_and_keeps_the_task() {
    let src = Task {
        title: "rent".into(),
        order: 5000,
        priority: Priority::Urgent,
        tags: Some(vec!["home".into()]),
        recurrence: Some(Recurrence::Monthly),
        ..Default::default()
    };
    let next = next_occurrence_from(&src, (2024, 1, 31)).unwrap();
    assert_eq!(next.title, "rent");
    assert_eq!(next.order, 6000);
    assert_eq!(next.priority, Priority::Urgent);
    assert_eq!(next.tags, Some(vec!["home".to_string()]));
    assert_eq!(next.status, TaskStatus::NotStarted);
    // 2024-02-29 00:00 UTC
    assert_eq!(next.due, Some(DateTime::from_millis(1_709_164_800_000)));
    let plain = task_with_order(1);
    assert!(next_occurrence_from(&plain, (2024, 1, 31)).is_none());
}

#[test]
fn completing_a_task_that_does_not_recur_adds_nothing() {
    let mut db = Db::new();
    let id = db.create_task(task_with_order(1000)).unwrap();
    assert_eq!(apply_status(&mut db, id, TaskStatus::Completed).unwrap(), Some(id));
    assert_eq!(db.get_tasks(ProjectEntry::All).unwrap().len(), 1);
    assert_eq!(apply_status(&mut db, ObjectId::new(), TaskStatus::Completed).unwrap(), None);
}

#[test]
fn parse_tags_splits_trims_and_drops_blanks() {
    assert_eq!(parse_tags(""), None);
    assert_eq!(parse_tags(" , ,"), None);
    assert_eq!(parse_tags(" work, home ,,x"), Some(vec!["work".into(), "home".into(), "x".into()]));
}

#[test]
fn join_tags_uses_comma_space() {
    assert_eq!(join_tags(&vec!["a".into(), "b".into(), "c".into()]), "a, b, c");
    assert_eq!(join_tags(&vec![]), "");
}

#[test]
fn joined_tags_read_back_unchanged() {
    let tags: Vec<String> = vec!["work".into(), "deep focus".into(), "x".into()];
    assert_eq!(parse_tags(&join_tags(&tags)), Some(tags.clone()));
    let one: Vec<String> = vec!["solo".into()];
    assert_eq!(parse_tags(&join_tags(&one)), Some(one.clone()));
    // A tab and a no-break space count as whitespace too.
    assert_eq!(parse_tags("\ta,\u{a0}b "), Some(vec!["a".into(), "b".into()]));
}

#[test]
fn writer_from_task_and_flush() {
    let t = Task { title: "x".into(), tags: Some(vec!["a".into(), "b".into()]), order: 7, ..Default::default() };
    let mut w = TaskWriter::from_task(t);
    assert_eq!(w.tags_buffer, "a, b");
    assert_eq!(w.order, 7);
    assert!(!w.initial_frame);
    w.flush();
    assert!(w.title_buffer.is_empty() && w.tags_buffer.is_empty() && w.initial_frame);
    assert_eq!(w.order, 7);
}

#[test]
fn sort_order_labels() {
    assert_eq!(SortOrder::Free.label(), "Manual");
    assert_eq!(SortOrder::DueDate.label(), "Due Date");
    assert_eq!(SortOrder::Tags.label(), "Tags");
}

fn manager(titles: &[&str]) -> TaskManager {
    let mut tm = TaskManager::default();
    for (i, t) in titles.iter().enumerate() {
        tm.tasks.push(Task { title: t.to_string(), order: (i as u64 + 1) * 1000, ..Default::default() });
    }
    tm
}

#[test]
fn filter_matches_title_priority_and_tags_ignoring_case() {
    let mut tm = manager(&["Buy Milk", "Write report", "call mom"]);
    tm.tasks[2].tags = Some(vec!["Family".into()]);
    tm.tasks[1].priority = Priority::Urgent;
    tm.filter_query = "MILK".into();
    assert_eq!(tm.visible_indices_at(0), vec![0]);
    tm.filter_query = "urg".into();
    assert_eq!(tm.visible_indices_at(0), vec![1]);
    tm.filter_query = "fam".into();
    assert_eq!(tm.visible_indices_at(0), vec![2]);
    tm.filter_query = "".into();
    assert_eq!(tm.visible_indices_at(0), vec![0, 1, 2]);
}

#[test]
fn waiting_tasks_are_hidden_until_their_time() {
    let mut tm = manager(&["a", "b"]);
    tm.tasks[0].wait_until = Some(DateTime::from_millis(5000));
    assert_eq!(tm.visible_indices_at(4999), vec![1]);
    assert_eq!(tm.visible_indices_at(5000), vec![0, 1]);
}

#[test]
fn current_task_follows_the_visible_rows() {
    let mut tm = manager(&["a", "b", "c"]);
    tm.visible_cache = vec![0, 2];
    tm.current = Some(1);
    assert_eq!(tm.real_index(1), Some(2));
    assert_eq!(tm.get_current_task().unwrap().title, "c");
    tm.current = Some(5);
    assert!(tm.get_current_task().is_none());
}

fn keys() -> CursorKeys {
    CursorKeys { j: false, k: false, down: false, up: false, d: false, u: false, g: false, shift: false, ctrl: false, any_key: false }
}

#[test]
fn gg_and_shift_g_jump_to_top_and_bottom_in_the_model() {
    let mut tm = manager(&["a", "b", "c", "d"]);
    tm.current = Some(2);
    tm.move_cursor(&CursorKeys { g: true, shift: true, any_key: true, ..keys() }, 4, true);
    assert_eq!(tm.current, Some(3));
    tm.move_cursor(&CursorKeys { g: true, any_key: true, ..keys() }, 4, true);
    assert_eq!(tm.current, Some(3), "single g does nothing yet");
    assert!(tm.pending_g);
    tm.move_cursor(&CursorKeys { g: true, any_key: true, ..keys() }, 4, true);
    assert_eq!(tm.current, Some(0));
    assert!(!tm.pending_g);
}

#[test]
fn ctrl_d_pages_down_and_clamps() {
    let mut tm = manager(&["a", "b", "c"]);
    tm.current = Some(0);
    tm.move_cursor(&CursorKeys { d: true, ctrl: true, any_key: true, ..keys() }, 3, true);
    assert_eq!(tm.current, Some(2));
    tm.move_cursor(&CursorKeys { k: true, any_key: true, ..keys() }, 3, true);
    assert_eq!(tm.current, Some(1));
}

#[test]
fn esc_peels_selection_then_filter_then_goes_to_projects() {
    let mut tm = manager(&["task"]);
    tm.visible_cache = vec![0];
    tm.current = Some(0);
    tm.toggle_selected(&[0]);
    assert_eq!(tm.selected_tasks.len(), 1);
    tm.filter_query = "task".into();
    let mut w = WindowState::Tasks;
    tm.escape(&mut w);
    assert!(tm.selected_tasks.is_empty());
    assert_eq!(tm.filter_query, "task");
    assert_eq!(w, WindowState::Tasks);
    tm.escape(&mut w);
    assert!(tm.filter_query.is_empty());
    assert_eq!(w, WindowState::Tasks);
    tm.escape(&mut w);
    assert_eq!(w, WindowState::Projects);
}

#[test]
fn tab_toggles_the_selection() {
    let mut tm = manager(&["a", "b"]);
    tm.current = Some(1);
    tm.toggle_selected(&[0, 1]);
    assert_eq!(tm.selected_tasks, vec![tm.tasks[1].id]);
    tm.toggle_selected(&[0, 1]);
    assert!(tm.selected_tasks.is_empty());
}

#[test]
fn yank_copies_the_selection_in_list_order() {
    let mut tm = manager(&["a", "b", "c"]);
    tm.selected_tasks = vec![tm.tasks[2].id, tm.tasks[0].id];
    let msg = tm.yank(&[0, 1, 2]).unwrap();
    assert_eq!(msg, "Yanked 2 tasks");
    assert_eq!(tm.clipboard.iter().map(|t| t.title.as_str()).collect::<Vec<_>>(), vec!["a", "c"]);
    assert!(tm.selected_tasks.is_empty());
    tm.current = Some(1);
    assert_eq!(tm.yank(&[0, 1, 2]).unwrap(), "Yanked \"b\"");
}

#[test]
fn plus_minus_shift_priority_in_the_list() {
    let mut tm = manager(&["a"]);
    tm.current = Some(0);
    let (ups, msg) = tm.shift_priority(&[0], true);
    assert_eq!(ups, vec![(tm.tasks[0].id, Priority::Urgent)]);
    assert_eq!(msg.unwrap(), "Priority: Urgent");
    assert_eq!(tm.tasks[0].priority, Priority::Urgent);
    let (ups, msg) = tm.shift_priority(&[0], true);
    assert!(ups.is_empty() && msg.is_none(), "already at the top");
    tm.shift_priority(&[0], false);
    tm.shift_priority(&[0], false);
    assert_eq!(tm.tasks[0].priority, Priority::Low);
}

#[test]
fn swap_exchanges_orders_and_rows() {
    let mut tm = manager(&["a", "b"]);
    let (ida, idb) = (tm.tasks[0].id, tm.tasks[1].id);
    let ups = tm.swap_tasks(0, 1).unwrap();
    assert_eq!(ups, ((ida, 2000), (idb, 1000)));
    assert_eq!(tm.tasks[0].title, "b");
    assert_eq!(tm.tasks[0].order, 1000);
    assert_eq!(tm.tasks[1].title, "a");
    assert_eq!(tm.tasks[1].order, 2000);
    assert!(tm.swap_tasks(0, 5).is_none());
}

#[test]
fn rows_sort_by_due_date_with_undated_last() {
    let mut tm = manager(&["none", "late", "early"]);
    tm.tasks[1].due = Some(DateTime::from_millis(200));
    tm.tasks[2].due = Some(DateTime::from_millis(100));
    tm.sort_order = SortOrder::DueDate;
    assert_eq!(tm.sorted_visible(&[0, 1, 2, 9]), vec![2, 1, 0]);
    tm.sort_order = SortOrder::Free;
    assert_eq!(tm.sorted_visible(&[2, 0, 1]), vec![2, 0, 1]);
}

#[test]
fn new_task_order_goes_below_the_cursor() {
    let mut tm = manager(&["a", "b"]);
    tm.current = Some(0);
    assert_eq!(tm.new_task_order(&[0, 1], false), 1500);
    assert_eq!(tm.new_task_order(&[0, 1], true), 500);
    tm.current = None;
    assert_eq!(tm.new_task_order(&[0, 1], false), 3000);
}

#[test]
fn short_dates_and_tones() {
    assert_eq!(format_date_short((2024, 6, 2), 2024), "Jun 2");
    assert_eq!(format_date_short((2023, 12, 25), 2024), "Dec 25, 2023");
    assert_eq!(date_tone((2024, 1, 1), (2024, 1, 2)), DueTone::Overdue);
    assert_eq!(date_tone((2024, 1, 2), (2024, 1, 2)), DueTone::Today);
    assert_eq!(date_tone((2024, 2, 1), (2024, 1, 2)), DueTone::Upcoming);
}

#[test]
fn get_tasks_works_with_injected_backend() {
    let mut db = Db::new();
    let task = Task { title: "injected task".to_string(), order: 1000, ..Default::default() };
    db.create_task(task).unwrap();
    let msg = match fast_task::ui::task_ops::get_tasks(&db, ProjectEntry::All, false) {
        Ok(tasks) => fast_task::ui::frame::UpdateMessage::Tasks(tasks),
        Err(e) => panic!("unexpected error: {:?}", e),
    };
    match msg {
        fast_task::ui::frame::UpdateMessage::Tasks(tasks) => assert_eq!(tasks[0].title, "injected task"),
        _ => panic!("unexpected message"),
    }
}
