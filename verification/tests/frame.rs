use fast_task::database::models::{DateTime, Priority, Task, TaskStatus};
use fast_task::ui::app::{AppType, Mode, WindowState};
use fast_task::ui::frame::{FastTask, GlobalKeys, Reloads, TaskCommand, UpdateMessage};
use fast_task::ui::keys::NavKeys;
use fast_task::ui::pickers::PickerKeys;
use fast_task::ui::task_keys::CursorKeys;
use fast_task::ui::task_pane::{NormalKeys, PaneKeys, RowAction, VisualKeys};
use fast_task::ui::tags::{TagClicks, TagKeys, TagUiMode};
use fast_task::ui::widgets::errors::{ErrorEntry, ErrorSeverity};

/// A key of the keyboard, as the window reads it.
#[derive(Clone, Copy, PartialEq, Debug)]
enum K {
    Esc,
    J,
    Kk,
    G,
    D,
    U,
    P,
    Y,
    E,
    Enter,
    Plus,
    Equals,
    Minus,
    Open,
    Close,
    Down,
    Up,
    H,
    L,
    T,
    O,
    N,
    F1,
}

const NONE: (bool, bool) = (false, false);
const SHIFT: (bool, bool) = (true, false);
const CTRL: (bool, bool) = (false, true);

fn build_test_app(show_detail_pane: bool) -> FastTask {
    let mut app = FastTask::new(AppType::Native, Vec::new());
    app.app_state.show_detail_pane = show_detail_pane;
    app.app_state.init = false;
    let tasks: Vec<Task> = (0..4)
        .map(|i| Task {
            title: format!("task {i}"),
            details: "some details".to_string(),
            order: (i as u64 + 1) * 1000,
            due: Some(DateTime::now()),
            ..Default::default()
        })
        .collect();
    app.task_manager.tasks = tasks;
    app.task_manager.visible_cache = vec![0, 1, 2, 3];
    app.task_manager.current = Some(0);
    app
}

fn window(app: &FastTask) -> &'static str {
    match app.app_state.window_state {
        WindowState::Projects => "projects",
        WindowState::Tasks => "tasks",
        WindowState::Info => "info",
    }
}

/// One frame of the window with `key` pressed under the modifiers
/// `(shift, ctrl)`: the tag manager first, then the window-wide keys, then
/// the pane's own keys (a consumed key goes no further).
fn press(app: &mut FastTask, key: K, mods: (bool, bool)) -> Vec<TaskCommand> {
    let (shift, ctrl) = mods;
    let bare = !shift && !ctrl;
    app.task_manager.refresh_visible_cache();
    let (taken, reload) = app.tag_gate(key == K::T && shift && !ctrl);
    if reload {
        return Vec::new();
    }
    if taken {
        let naming = matches!(app.tag_ui.mode, TagUiMode::New(_) | TagUiMode::Rename { .. });
        if naming {
            let clicks = TagClicks {
                row: None,
                close: false,
                new: false,
                rename: None,
                delete: None,
                confirm_delete: false,
                cancel_delete: false,
                submit_name: key == K::Enter,
                cancel_name: key == K::Esc,
            };
            app.tag_ui.apply_clicks(&clicks);
        } else {
            let keys = TagKeys {
                down: bare && (key == K::J || key == K::Down),
                up: bare && (key == K::Kk || key == K::Up),
                new: bare && key == K::O,
                rename: bare && (key == K::E || key == K::Enter),
                delete: bare && key == K::D,
                close: (bare && key == K::Esc) || (shift && key == K::T),
                yes: bare && (key == K::Y || key == K::Enter),
                no: bare && (key == K::N || key == K::Esc),
            };
            app.tag_ui.handle_keys(&keys);
        }
        return Vec::new();
    }
    let nav = NavKeys {
        t: bare && key == K::T,
        shift_h: shift && !ctrl && key == K::H,
        shift_l: shift && !ctrl && key == K::L,
        esc: bare && key == K::Esc,
    };
    let global = GlobalKeys {
        question: false,
        shift_a: false,
        nav,
        esc: bare && key == K::Esc,
        u: key == K::U,
        r: false,
        ctrl,
    };
    let (out, spent) = app.window_keys(&global);
    if out.nav_consumed.is_some() || out.esc_consumed || spent {
        return Vec::new();
    }
    match app.app_state.window_state {
        WindowState::Tasks => {
            let visible = app.begin_task_frame();
            let cursor = CursorKeys {
                j: key == K::J,
                k: key == K::Kk,
                down: key == K::Down,
                up: key == K::Up,
                d: key == K::D,
                u: key == K::U,
                g: key == K::G,
                shift,
                ctrl,
                any_key: true,
            };
            let normal = NormalKeys {
                esc: key == K::Esc,
                v: false,
                s: false,
                tab: false,
                k: key == K::Kk,
                c: false,
                slash: false,
                o: key == K::O,
                y: key == K::Y,
                p: key == K::P,
                enter: key == K::Enter,
                plus: key == K::Plus || key == K::Equals,
                minus: key == K::Minus,
                open_bracket: key == K::Open,
                close_bracket: key == K::Close,
                d: key == K::D,
                edit: key == K::E,
                shift,
                ctrl,
                cursor,
            };
            let visual = VisualKeys {
                esc: key == K::Esc,
                y: key == K::Y,
                p: key == K::P,
                d: key == K::D,
                s: false,
                edit: key == K::E,
                shift,
                ctrl,
                cursor,
            };
            let picker = PickerKeys {
                down: key == K::J || key == K::Down,
                up: key == K::Kk || key == K::Up,
                enter: key == K::Enter,
                dismiss: key == K::Esc,
                number: None,
            };
            let keys = PaneKeys { picker, normal, visual, filter_esc: key == K::Esc, filter_enter: key == K::Enter };
            app.task_pane_keys(&keys, &visible)
        },
        WindowState::Info => {
            app.notes_target();
            app.info_keys(bare && key == K::E);
            Vec::new()
        },
        WindowState::Projects => Vec::new(),
    }
}

#[test]
fn esc_from_projects_lands_on_tasks_without_bouncing() {
    let mut app = build_test_app(false);
    app.app_state.window_state = WindowState::Projects;
    press(&mut app, K::Esc, NONE);
    assert_eq!(window(&app), "tasks");
}

#[test]
fn esc_in_tasks_peels_selection_then_filter_then_goes_to_projects() {
    let mut app = build_test_app(false);
    let id = app.task_manager.tasks[0].id;
    app.task_manager.selected_tasks.push(id);
    app.task_manager.filter_query = "task".into();

    press(&mut app, K::Esc, NONE);
    assert!(app.task_manager.selected_tasks.is_empty());
    assert_eq!(app.task_manager.filter_query, "task");
    assert_eq!(window(&app), "tasks");

    press(&mut app, K::Esc, NONE);
    assert!(app.task_manager.filter_query.is_empty());
    assert_eq!(window(&app), "tasks");

    press(&mut app, K::Esc, NONE);
    assert_eq!(window(&app), "projects");
}

#[test]
fn esc_leaving_visual_mode_stays_in_tasks() {
    let mut app = build_test_app(false);
    app.app_state.mode = Mode::Visual;
    press(&mut app, K::Esc, NONE);
    assert!(matches!(app.app_state.mode, Mode::Normal));
    assert_eq!(window(&app), "tasks");
}

#[test]
fn shift_h_l_step_through_panes_without_wrapping() {
    let mut app = build_test_app(false);
    press(&mut app, K::L, SHIFT);
    assert_eq!(window(&app), "info");
    press(&mut app, K::L, SHIFT);
    assert_eq!(window(&app), "info", "no wrap past Info");

    press(&mut app, K::H, SHIFT);
    assert_eq!(window(&app), "tasks");
    press(&mut app, K::H, SHIFT);
    assert_eq!(window(&app), "projects");
    press(&mut app, K::H, SHIFT);
    assert_eq!(window(&app), "projects", "no wrap past Projects");
}

#[test]
fn p_with_empty_clipboard_stays_in_tasks() {
    let mut app = build_test_app(false);
    let cmds = press(&mut app, K::P, NONE);
    assert_eq!(window(&app), "tasks");
    assert!(app.status_msg.is_some(), "shows a 'nothing yanked' hint");
    assert_eq!(app.status_msg.as_deref(), Some("Nothing yanked — press y on a task first"));
    assert!(cmds.is_empty());
}

#[test]
fn gg_and_shift_g_jump_to_top_and_bottom() {
    let mut app = build_test_app(false);
    press(&mut app, K::G, SHIFT);
    assert_eq!(app.task_manager.current, Some(3));
    press(&mut app, K::G, NONE);
    assert_eq!(app.task_manager.current, Some(3), "single g does nothing yet");
    press(&mut app, K::G, NONE);
    assert_eq!(app.task_manager.current, Some(0));
}

#[test]
fn g_then_other_key_cancels_gg() {
    let mut app = build_test_app(false);
    app.task_manager.current = Some(2);
    press(&mut app, K::G, NONE);
    press(&mut app, K::Kk, NONE);
    press(&mut app, K::G, NONE);
    assert_eq!(app.task_manager.current, Some(1), "k moved; gg was cancelled");
}

#[test]
fn ctrl_d_pages_down_without_completing() {
    let mut app = build_test_app(false);
    let cmds = press(&mut app, K::D, CTRL);
    assert_eq!(app.task_manager.current, Some(3), "clamped to last row");
    assert!(
        app.task_manager.tasks.iter().all(|t| t.status != TaskStatus::Completed),
        "Ctrl+D must not mark anything complete"
    );
    assert!(cmds.is_empty(), "nothing is sent to the store");
    press(&mut app, K::U, CTRL);
    assert_eq!(app.task_manager.current, Some(0));
}

#[test]
fn arrow_keys_move_cursor() {
    let mut app = build_test_app(false);
    press(&mut app, K::Down, NONE);
    press(&mut app, K::Down, NONE);
    assert_eq!(app.task_manager.current, Some(2));
    press(&mut app, K::Up, NONE);
    assert_eq!(app.task_manager.current, Some(1));
}

#[test]
fn enter_opens_info_pane() {
    let mut app = build_test_app(false);
    press(&mut app, K::Enter, NONE);
    assert_eq!(window(&app), "info");
}

#[test]
fn plus_minus_shift_priority_and_clamp() {
    let after = |start: Priority, key: K| {
        let mut app = build_test_app(false);
        app.task_manager.tasks[0].priority = start;
        press(&mut app, key, NONE);
        app.task_manager.tasks[0].priority
    };
    assert_eq!(after(Priority::Low, K::Plus), Priority::Normal);
    assert_eq!(after(Priority::Normal, K::Equals), Priority::Urgent);
    assert_eq!(after(Priority::Urgent, K::Plus), Priority::Urgent);
    assert_eq!(after(Priority::Urgent, K::Minus), Priority::Normal);
    assert_eq!(after(Priority::Low, K::Minus), Priority::Low);
}

#[test]
fn brackets_switch_project() {
    let mut app = build_test_app(false);
    assert_eq!(app.project_manager.current_project, 0);
    let cmds = press(&mut app, K::Close, NONE);
    assert_eq!(app.project_manager.current_project, 1);
    assert_eq!(cmds.len(), 2, "the choice is remembered and the tasks load");
    press(&mut app, K::Close, NONE);
    assert_eq!(app.project_manager.current_project, 1, "no wrap past last");
    press(&mut app, K::Open, NONE);
    assert_eq!(app.project_manager.current_project, 0);
    assert_eq!(window(&app), "tasks");
}

#[test]
fn yank_selection_copies_in_list_order_and_clears_selection() {
    let mut app = build_test_app(false);
    let ids: Vec<_> = app.task_manager.tasks.iter().map(|t| t.id).collect();
    app.task_manager.selected_tasks.push(ids[2]);
    app.task_manager.selected_tasks.push(ids[0]);
    press(&mut app, K::Y, NONE);
    let got: Vec<_> = app.task_manager.clipboard.iter().map(|t| t.id).collect();
    assert_eq!(got, vec![ids[0], ids[2]]);
    assert!(app.task_manager.selected_tasks.is_empty());
    assert_eq!(app.status_msg.as_deref(), Some("Yanked 2 tasks"));
}

#[test]
fn e_in_info_pane_enters_edit_mode() {
    let mut app = build_test_app(false);
    app.app_state.window_state = WindowState::Info;
    press(&mut app, K::E, NONE);
    assert!(matches!(app.app_state.mode, Mode::Insert(Some(_))));
}

#[test]
fn esc_dismisses_error_banner_before_changing_pane() {
    let mut app = build_test_app(false);
    app.err_ui.push(ErrorEntry::new("boom".to_string(), "boom".to_string()), ErrorSeverity::NonFatal);
    press(&mut app, K::Esc, NONE);
    assert!(!app.err_ui.has_non_fatal());
    assert_eq!(window(&app), "tasks", "Esc was spent on the banner");
}

#[test]
fn shift_t_opens_tag_manager_and_it_swallows_keys() {
    let mut app = build_test_app(false);
    press(&mut app, K::T, SHIFT);
    assert!(app.tag_ui.open);
    assert_eq!(window(&app), "tasks", "Shift+T is not the plain `t` pane jump");

    app.task_manager.current = Some(0);
    press(&mut app, K::J, NONE);
    assert_eq!(app.task_manager.current, Some(0), "j went to the popup, not the list");
    press(&mut app, K::O, NONE);
    assert!(
        matches!(&app.tag_ui.mode, TagUiMode::New(s) if s.is_empty()),
        "o starts a new tag instead of adding a task"
    );
    assert!(!matches!(app.app_state.mode, Mode::Insert(_)));
    press(&mut app, K::Esc, NONE); // cancel name entry
    press(&mut app, K::Esc, NONE);
    assert!(!app.tag_ui.open);
    assert_eq!(window(&app), "tasks", "Esc closed the popup only");
}

#[test]
fn tag_manager_rename_and_delete_flow() {
    let mut app = build_test_app(false);
    app.tag_ui.open = true;
    app.tag_ui.rows = vec![("home".into(), 1), ("work".into(), 2)];

    press(&mut app, K::J, NONE);
    assert_eq!(app.tag_ui.cursor, 1);
    press(&mut app, K::E, NONE);
    assert!(matches!(&app.tag_ui.mode, TagUiMode::Rename { from, buf } if from == "work" && buf == "work"));
    press(&mut app, K::Esc, NONE);
    assert!(matches!(app.tag_ui.mode, TagUiMode::Browse));
    assert!(app.tag_ui.open, "Esc in the name field cancels, doesn't close");

    press(&mut app, K::D, NONE);
    assert!(matches!(&app.tag_ui.mode, TagUiMode::ConfirmDelete(t) if t == "work"));
    press(&mut app, K::N, NONE);
    assert!(matches!(app.tag_ui.mode, TagUiMode::Browse));
}

#[test]
fn editing_a_task_loads_its_notes() {
    let mut app = build_test_app(false);
    let id = app.task_manager.tasks[2].id;
    app.app_state.mode = Mode::Insert(Some(id));
    app.app_state.window_state = WindowState::Info;
    press(&mut app, K::F1, NONE);
    assert_eq!(app.annotation_task_id, Some(id), "the edited task's notes are the ones loaded");
}

#[test]
fn d_completes_the_task_under_the_cursor_and_moves_up() {
    let mut app = build_test_app(false);
    app.task_manager.current = Some(2);
    let id = app.task_manager.tasks[2].id;
    let cmds = press(&mut app, K::D, NONE);
    assert_eq!(cmds.len(), 1);
    assert!(matches!(&cmds[0], TaskCommand::Status(fast_task::ui::pickers::StatusCommand::One(t, TaskStatus::Completed)) if *t == id));
    assert_eq!(app.task_manager.current, Some(1));
    let cmds = press(&mut app, K::D, SHIFT);
    assert!(matches!(&cmds[0], TaskCommand::Delete(t) if *t == app.task_manager.tasks[1].id));
    assert_eq!(app.status_msg.as_deref(), Some("Deleted — u to undo"));
    assert_eq!(app.task_manager.current, Some(0));
}

#[test]
fn o_drafts_a_new_task_between_rows() {
    let mut app = build_test_app(false);
    press(&mut app, K::O, NONE);
    assert!(matches!(app.app_state.mode, Mode::Insert(None)));
    assert_eq!(window(&app), "info");
    assert_eq!(app.task_manager.writer.order, 1500);
    let mut app = build_test_app(false);
    press(&mut app, K::O, SHIFT);
    assert_eq!(app.task_manager.writer.order, 500);
}

#[test]
fn yank_then_paste_below_spreads_copies() {
    let mut app = build_test_app(false);
    press(&mut app, K::Y, NONE);
    let cmds = press(&mut app, K::P, NONE);
    assert_eq!(cmds.len(), 1);
    match &cmds[0] {
        TaskCommand::Paste(t, project, order) => {
            assert_eq!(t.title, "task 0");
            assert_eq!(*project, None);
            assert_eq!(*order, 1500);
        },
        _ => panic!("expected a paste"),
    }
}

#[test]
fn visual_shift_j_moves_the_task_down() {
    let mut app = build_test_app(false);
    app.app_state.mode = Mode::Visual;
    let first = app.task_manager.tasks[0].id;
    let second = app.task_manager.tasks[1].id;
    let cmds = press(&mut app, K::J, SHIFT);
    assert_eq!(app.task_manager.current, Some(1));
    assert_eq!(app.task_manager.tasks[1].id, first);
    assert_eq!(app.task_manager.tasks[1].order, 2000);
    assert_eq!(app.task_manager.tasks[0].order, 1000);
    assert!(matches!(&cmds[0], TaskCommand::Swap((a, 2000), (b, 1000)) if *a == first && *b == second));
}

#[test]
fn row_actions_match_their_keys() {
    let mut app = build_test_app(false);
    let id = app.task_manager.tasks[1].id;
    let cmds = app.row_action(RowAction::Delete(id));
    assert!(matches!(&cmds[0], TaskCommand::Delete(t) if *t == id));
    assert_eq!(app.status_msg.as_deref(), Some("Deleted — u to undo"));
    let cmds = app.row_action(RowAction::Status(id));
    assert!(cmds.is_empty());
    assert!(app.task_manager.status_picker_open);
    assert_eq!(app.task_manager.status_picker_task_id, Some(id));
    app.row_action(RowAction::Edit(id));
    assert!(matches!(app.app_state.mode, Mode::Insert(Some(t)) if t == id));
}

#[test]
fn messages_update_the_window() {
    let mut app = build_test_app(false);
    app.task_manager.filter_query = "x".into();
    app.task_manager.filter_open = true;
    let r = app.apply_message(UpdateMessage::Tasks(Vec::new()));
    assert_eq!(r, Reloads { tasks: false, projects: false, tags: false });
    assert!(app.task_manager.tasks.is_empty());
    assert!(app.task_manager.filter_query.is_empty());
    assert!(!app.task_manager.filter_open);
    let r = app.apply_message(UpdateMessage::Undone);
    assert_eq!(r, Reloads { tasks: true, projects: true, tags: false });
    assert_eq!(app.status_msg.as_deref(), Some("Undone"));
    app.task_manager.writer.title_buffer = "draft".into();
    let r = app.apply_message(UpdateMessage::DbTransaction);
    assert_eq!(r, Reloads { tasks: true, projects: false, tags: true });
    assert!(app.task_manager.writer.title_buffer.is_empty());
    app.project_manager.current_project = 1;
    app.apply_message(UpdateMessage::Projects(Vec::new()));
    assert_eq!(app.project_manager.current_project, 0, "past the end falls back to All");
    app.apply_message(UpdateMessage::Error(ErrorEntry::new("bad".to_string(), "bad".to_string())));
    assert!(app.err_ui.has_non_fatal());
}

#[test]
fn status_message_goes_after_three_seconds() {
    let mut app = build_test_app(false);
    app.status_msg = Some("hi".to_string());
    app.expire_status_msg(2999);
    assert!(app.status_msg.is_some());
    app.expire_status_msg(3000);
    assert!(app.status_msg.is_none());
}

#[test]
fn esc_on_a_banner_keeps_the_projects_pane() {
    let mut app = build_test_app(false);
    app.app_state.window_state = WindowState::Projects;
    app.err_ui.push(ErrorEntry::new("boom".to_string(), "boom".to_string()), ErrorSeverity::NonFatal);
    press(&mut app, K::Esc, NONE);
    assert!(!app.err_ui.has_non_fatal());
    assert_eq!(window(&app), "projects", "Esc was spent on the banner");
    press(&mut app, K::Esc, NONE);
    assert_eq!(window(&app), "tasks");
}
