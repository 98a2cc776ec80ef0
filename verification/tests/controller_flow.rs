use pui::controller::{Action, AppCore, Health, Mode, RefreshDirective, ViewportGeom};
use pui::view::SortField;
use pui::keys::{KeyCode, KeyPress};
use pui::tasks::{JobSet, Task, TaskResult, TaskStatus};

fn make_task(id: u64, command: &str, status: TaskStatus) -> Task {
    Task {
        id,
        command: command.to_string(),
        original_command: command.to_string(),
        path: "/tmp".to_string(),
        group: "default".to_string(),
        label: None,
        priority: 0,
        status,
        start: None,
        end: None,
    }
}

fn geom() -> ViewportGeom {
    ViewportGeom { log_height: 22, log_width: 78, table_rows: 13, table_offset: 0 }
}

fn key(code: KeyCode) -> KeyPress {
    KeyPress { code, ctrl: false, alt: false }
}

/// A refresh failing with a connection-reset error asks for a reconnect and
/// shows the reconnecting state; the successful retry clears the footer.
#[test]
fn refresh_connection_reset_then_retry_clears_footer() {
    let mut app = AppCore::new();
    let d = app.on_refresh_failure("Connection reset by peer".to_string());
    assert_eq!(d, RefreshDirective::Reconnect);
    assert!(matches!(app.health, Health::Reconnecting));

    // reconnect succeeded, retried refresh succeeded: footer is clear again
    app.on_refresh_success(JobSet { tasks: vec![make_task(0, "a", TaskStatus::Queued)] });
    assert!(matches!(app.health, Health::Connected));
}

#[test]
fn refresh_broken_pipe_counts_as_transport() {
    let mut app = AppCore::new();
    // mixed case: fails if the classification skipped case folding
    let d = app.on_refresh_failure("Broken Pipe while writing request".to_string());
    assert_eq!(d, RefreshDirective::Reconnect);
}

#[test]
fn refresh_other_error_is_not_transport() {
    let mut app = AppCore::new();
    let d = app.on_refresh_failure("daemon rejected the request".to_string());
    assert_eq!(d, RefreshDirective::Done);
    match &app.health {
        Health::Error(msg) => assert_eq!(msg, "daemon rejected the request"),
        other => panic!("expected a plain error, got {:?}", other),
    }
}

#[test]
fn reconnect_failure_is_sticky_until_success() {
    let mut app = AppCore::new();
    app.on_refresh_failure("connection refused".to_string());
    app.on_reconnect_failed("connection refused".to_string());
    assert!(matches!(app.health, Health::ReconnectFailed(_)));
    app.on_refresh_success(JobSet { tasks: vec![] });
    assert!(matches!(app.health, Health::Connected));
}

/// A Done task restarted via the run key carries its original command, path,
/// label and priority, not the possibly-mutated display command.
#[test]
fn restart_done_task_carries_original_invocation() {
    let mut app = AppCore::new();
    let mut t = make_task(5, "displayed command", TaskStatus::Done(TaskResult::Success));
    t.original_command = "the original command".to_string();
    t.path = "/work/dir".to_string();
    t.label = Some("mylabel".to_string());
    t.priority = 9;
    app.on_refresh_success(JobSet { tasks: vec![t] });
    let view = app.current_view();
    app.sync_selection(&view);
    assert_eq!(app.selected_task_id, Some(5));

    let a = app.on_key(key(KeyCode::Char('r')), &view, geom());
    match a {
        Action::Restart { id, original_command, path, label, priority } => {
            assert_eq!(id, 5);
            assert_eq!(original_command, "the original command");
            assert_eq!(path, "/work/dir");
            assert_eq!(label.as_deref(), Some("mylabel"));
            assert_eq!(priority, 9);
        },
        other => panic!("expected a restart, got {:?}", other),
    }
}

#[test]
fn run_key_starts_a_task_that_is_not_done() {
    let mut app = AppCore::new();
    app.on_refresh_success(JobSet { tasks: vec![make_task(3, "x", TaskStatus::Queued)] });
    let view = app.current_view();
    app.sync_selection(&view);
    let a = app.on_key(key(KeyCode::Char('r')), &view, geom());
    assert!(matches!(a, Action::Start { id: 3 }));
}

#[test]
fn remove_is_ignored_for_running_and_paused_tasks() {
    let mut app = AppCore::new();
    app.on_refresh_success(JobSet {
        tasks: vec![
            make_task(0, "a", TaskStatus::Running),
            make_task(1, "b", TaskStatus::Paused),
            make_task(2, "c", TaskStatus::Done(TaskResult::Success)),
        ],
    });
    let view = app.current_view();
    app.sync_selection(&view);

    // row 0: Running -> ignored
    let a = app.on_key(key(KeyCode::Backspace), &view, geom());
    assert!(matches!(a, Action::Idle));

    // move to row 1: Paused -> ignored
    app.on_key(key(KeyCode::Down), &view, geom());
    let a = app.on_key(key(KeyCode::Backspace), &view, geom());
    assert!(matches!(a, Action::Idle));

    // move to row 2: Done -> removed
    app.on_key(key(KeyCode::Down), &view, geom());
    let a = app.on_key(key(KeyCode::Backspace), &view, geom());
    assert!(matches!(a, Action::Remove { id: 2 }));
}

#[test]
fn pause_and_kill_target_the_selected_task() {
    let mut app = AppCore::new();
    app.on_refresh_success(JobSet { tasks: vec![make_task(4, "x", TaskStatus::Running)] });
    let view = app.current_view();
    app.sync_selection(&view);
    assert!(matches!(app.on_key(key(KeyCode::Char('p')), &view, geom()), Action::Pause { id: 4 }));
    assert!(matches!(app.on_key(key(KeyCode::Char('x')), &view, geom()), Action::Kill { id: 4 }));
}

#[test]
fn filter_mode_accumulates_commits_and_clears() {
    let mut app = AppCore::new();
    app.on_refresh_success(JobSet { tasks: vec![make_task(0, "a", TaskStatus::Queued)] });
    let view = app.current_view();

    app.on_key(key(KeyCode::Char('f')), &view, geom());
    assert!(matches!(app.mode, Mode::Filter));
    app.on_key(key(KeyCode::Char('a')), &view, geom());
    app.on_key(key(KeyCode::Char('b')), &view, geom());
    assert_eq!(app.filter_text, "ab");
    app.on_key(key(KeyCode::Backspace), &view, geom());
    assert_eq!(app.filter_text, "a");
    app.on_key(key(KeyCode::Enter), &view, geom());
    assert!(matches!(app.mode, Mode::Normal));
    assert_eq!(app.filter_text, "a");

    // entering again and pressing Esc clears the text
    app.on_key(key(KeyCode::Char('f')), &view, geom());
    app.on_key(key(KeyCode::Char('z')), &view, geom());
    app.on_key(key(KeyCode::Esc), &view, geom());
    assert!(matches!(app.mode, Mode::Normal));
    assert_eq!(app.filter_text, "");
}

#[test]
fn sort_mode_mnemonics_pick_the_field() {
    let mut app = AppCore::new();
    let view = app.current_view();
    app.on_key(key(KeyCode::Char('s')), &view, geom());
    assert!(matches!(app.mode, Mode::Sort));
    app.on_key(key(KeyCode::Char('c')), &view, geom());
    assert!(matches!(app.mode, Mode::Normal));
    assert_eq!(app.sort_field, SortField::Command);

    // Esc cancels without a change
    app.on_key(key(KeyCode::Char('s')), &view, geom());
    app.on_key(key(KeyCode::Esc), &view, geom());
    assert_eq!(app.sort_field, SortField::Command);
}

#[test]
fn error_modal_blocks_keys_and_esc_dismisses() {
    let mut app = AppCore::new();
    app.on_refresh_success(JobSet { tasks: vec![make_task(0, "a", TaskStatus::Queued)] });
    let view = app.current_view();
    app.sync_selection(&view);
    app.on_action_error("Failed to pause task".to_string());

    // a navigation key does nothing while the modal shows
    app.on_key(key(KeyCode::Down), &view, geom());
    assert_eq!(app.table_row, Some(0));
    assert!(app.error_modal.is_some());

    app.on_key(key(KeyCode::Esc), &view, geom());
    assert!(app.error_modal.is_none());
}

#[test]
fn log_session_opens_pinned_and_esc_releases_the_stream() {
    let mut app = AppCore::new();
    app.on_refresh_success(JobSet { tasks: vec![make_task(0, "a", TaskStatus::Running)] });
    let view = app.current_view();
    app.sync_selection(&view);

    let a = app.on_key(key(KeyCode::Enter), &view, geom());
    assert!(matches!(a, Action::OpenLog { id: 0 }));

    app.on_log_opened(0, "line 1\nline 2".to_string(), geom());
    match &app.mode {
        Mode::Log(ls) => {
            assert_eq!(ls.task_id, 0);
            assert!(ls.autoscroll);
            assert!(ls.stream_open);
        },
        other => panic!("expected log mode, got {:?}", other),
    }

    let a = app.on_key(key(KeyCode::Esc), &view, geom());
    assert!(matches!(a, Action::CloseStream));
    assert!(matches!(app.mode, Mode::Normal));
}

#[test]
fn log_stream_end_releases_the_handle_but_keeps_the_text() {
    let mut app = AppCore::new();
    app.on_log_opened(1, "hello".to_string(), geom());
    app.on_log_chunk(Some(" world"), geom());
    app.on_log_chunk(None, geom());
    match &app.mode {
        Mode::Log(ls) => {
            assert_eq!(ls.logs, "hello world");
            assert!(!ls.stream_open);
        },
        other => panic!("expected log mode, got {:?}", other),
    }
}

#[test]
fn empty_log_chunk_marks_stream_closure() {
    let mut app = AppCore::new();
    app.on_log_opened(1, "kept text".to_string(), geom());
    app.on_log_chunk(Some(""), geom());
    match &app.mode {
        Mode::Log(ls) => {
            assert!(!ls.stream_open);
            assert_eq!(ls.logs, "kept text");
        },
        other => panic!("expected log mode, got {:?}", other),
    }
}

#[test]
fn navigation_wraps_at_both_ends() {
    let mut app = AppCore::new();
    app.on_refresh_success(JobSet {
        tasks: vec![
            make_task(0, "a", TaskStatus::Queued),
            make_task(1, "b", TaskStatus::Queued),
            make_task(2, "c", TaskStatus::Queued),
        ],
    });
    let view = app.current_view();
    app.sync_selection(&view);
    assert_eq!(app.table_row, Some(0));

    app.on_key(key(KeyCode::Up), &view, geom());
    assert_eq!(app.table_row, Some(2));
    assert_eq!(app.selected_task_id, Some(2));

    app.on_key(key(KeyCode::Down), &view, geom());
    assert_eq!(app.table_row, Some(0));
    assert_eq!(app.selected_task_id, Some(0));

    app.on_key(key(KeyCode::End), &view, geom());
    assert_eq!(app.table_row, Some(2));
    app.on_key(key(KeyCode::Home), &view, geom());
    assert_eq!(app.table_row, Some(0));
}

#[test]
fn page_navigation_follows_the_table_viewport() {
    let mut app = AppCore::new();
    let tasks: Vec<Task> =
        (0..10).map(|id| make_task(id, &format!("t{id}"), TaskStatus::Queued)).collect();
    app.on_refresh_success(JobSet { tasks });
    let view = app.current_view();
    app.sync_selection(&view);
    let g = ViewportGeom { log_height: 22, log_width: 78, table_rows: 4, table_offset: 0 };

    // from the top, PageDown jumps to the last visible row, then a page down
    app.on_key(key(KeyCode::PageDown), &view, g);
    assert_eq!(app.table_row, Some(3));
    app.on_key(key(KeyCode::PageDown), &view, g);
    assert_eq!(app.table_row, Some(7));

    // PageUp jumps to the first visible row, then a page up
    app.on_key(key(KeyCode::PageUp), &view, g);
    assert_eq!(app.table_row, Some(0));
    app.on_key(key(KeyCode::PageUp), &view, g);
    assert_eq!(app.table_row, Some(0));
}

#[test]
fn details_overlay_opens_on_selection_and_esc_closes() {
    let mut app = AppCore::new();
    app.on_refresh_success(JobSet { tasks: vec![make_task(0, "a", TaskStatus::Queued)] });
    let view = app.current_view();
    app.sync_selection(&view);

    app.on_key(key(KeyCode::Char('d')), &view, geom());
    assert!(app.show_details);
    // navigation is blocked while the overlay shows
    app.on_key(key(KeyCode::Down), &view, geom());
    assert_eq!(app.table_row, Some(0));
    app.on_key(key(KeyCode::Esc), &view, geom());
    assert!(!app.show_details);
}

#[test]
fn enter_with_an_empty_view_does_nothing() {
    let mut app = AppCore::new();
    let view = app.current_view();
    assert!(view.is_empty());
    app.sync_selection(&view);
    let a = app.on_key(key(KeyCode::Enter), &view, geom());
    assert!(matches!(a, Action::Idle));
}

#[test]
fn quit_key_stops_the_loop() {
    let mut app = AppCore::new();
    assert!(!app.running);
    app.start();
    assert!(app.running);
    let view = app.current_view();
    app.on_key(key(KeyCode::Char('q')), &view, geom());
    assert!(!app.running);
}
