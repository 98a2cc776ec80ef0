use pui::controller::{Action, AppCore, Mode, ViewportGeom};
use pui::keys::{KeyCode, KeyPress};
use pui::tasks::{JobSet, Task, TaskStatus};

fn make_task(id: u64, command: &str, status: TaskStatus) -> Task {
    Task {
        id,
        command: command.to_string(),
        original_command: command.to_string(),
        path: "/tmp".to_string(),
        group: "default".to_string(),
        label: None,
        priority: 0,
        status,
        start: None,
        end: None,
    }
}

fn geom() -> ViewportGeom {
    ViewportGeom { log_height: 22, log_width: 78, table_rows: 13, table_offset: 0 }
}

fn key(code: KeyCode) -> KeyPress {
    KeyPress { code, ctrl: false, alt: false }
}

/// Selection follows the task id, not the row, across a sort change.
#[test]
fn test_selection_follows_task_id_after_sort() {
    let mut app = AppCore::new();
    app.on_refresh_success(JobSet {
        tasks: vec![
            make_task(0, "zzz", TaskStatus::Queued),
            make_task(1, "aaa", TaskStatus::Queued),
        ],
    });

    // select Task 1, at row 1 while sorted by id
    let view = app.current_view();
    assert_eq!(view, vec![0, 1]);
    app.table_row = Some(1);
    app.update_selected_task_id(&view);
    assert_eq!(app.selected_task_id, Some(1));

    // re-sort by command: "aaa" (task 1) moves to the top
    app.on_key(key(KeyCode::Char('s')), &view, geom());
    app.on_key(key(KeyCode::Char('c')), &view, geom());

    // the next redraw re-syncs the selection against the new view
    let view = app.current_view();
    assert_eq!(view, vec![1, 0]);
    app.sync_selection(&view);

    assert_eq!(app.selected_task_id, Some(1), "Selection should still be Task 1");
    assert_eq!(app.table_row, Some(0), "Task 1 (aaa) should now be at row 0");
}

/// Deleting the last task keeps the selection on the new last row.
#[test]
fn test_selection_after_deleting_last_task() {
    let mut app = AppCore::new();
    let tasks: Vec<Task> = (0..3).map(|id| make_task(id, &format!("task_{id}"), TaskStatus::Queued)).collect();
    app.on_refresh_success(JobSet { tasks });

    // select the last row (task 2)
    let view = app.current_view();
    app.table_row = Some(2);
    app.update_selected_task_id(&view);
    assert_eq!(app.selected_task_id, Some(2));

    // the task vanishes from the snapshot itself (no remove key involved)
    let remaining: Vec<Task> = (0..2).map(|id| make_task(id, &format!("task_{id}"), TaskStatus::Queued)).collect();
    app.on_refresh_success(JobSet { tasks: remaining });
    let view = app.current_view();
    app.update_selected_task_id(&view);

    assert_eq!(app.table_row, Some(1), "Selection should move to the new last row");
    assert_eq!(
        app.selected_task_id,
        Some(1),
        "Selection should stay on the previous row after deletion"
    );

    // a redraw re-sync does not reset to the first row
    app.sync_selection(&view);
    assert_eq!(app.table_row, Some(1));
    assert_eq!(app.selected_task_id, Some(1));
}

/// The tracker itself lands on the new last row when the job on the last
/// row disappears and only a redraw sync runs.
#[test]
fn deleting_the_last_row_syncs_to_the_new_last_row() {
    let mut app = AppCore::new();
    let tasks: Vec<Task> = (0..3).map(|id| make_task(id, &format!("task_{id}"), TaskStatus::Queued)).collect();
    app.on_refresh_success(JobSet { tasks });
    let view = app.current_view();
    app.table_row = Some(2);
    app.update_selected_task_id(&view);
    assert_eq!(app.selected_task_id, Some(2));

    // the daemon dropped task 2; the next redraw re-syncs the selection
    let remaining: Vec<Task> = (0..2).map(|id| make_task(id, &format!("task_{id}"), TaskStatus::Queued)).collect();
    app.on_refresh_success(JobSet { tasks: remaining });
    let view = app.current_view();
    app.sync_selection(&view);

    assert_eq!(app.table_row, Some(1), "the sync must land on the new last row, not the top");
    assert_eq!(app.selected_task_id, Some(1));
}

/// The remove key pre-selects the row above the removed one, so removing
/// the bottom row also ends on the new last row.
#[test]
fn remove_key_moves_selection_to_the_row_above() {
    let mut app = AppCore::new();
    let tasks: Vec<Task> = (0..3).map(|id| make_task(id, &format!("task_{id}"), TaskStatus::Queued)).collect();
    app.on_refresh_success(JobSet { tasks });
    let view = app.current_view();
    app.table_row = Some(2);
    app.update_selected_task_id(&view);

    let a = app.on_key(key(KeyCode::Backspace), &view, geom());
    assert!(matches!(a, Action::Remove { id: 2 }));
    let remaining: Vec<Task> = (0..2).map(|id| make_task(id, &format!("task_{id}"), TaskStatus::Queued)).collect();
    app.on_refresh_success(JobSet { tasks: remaining });
    let view = app.current_view();
    app.after_remove(&view);

    assert_eq!(app.table_row, Some(1));
    assert_eq!(app.selected_task_id, Some(1));
}

/// A filter matching nothing empties the view and the selection; clearing it
/// re-validates the selection against the new view instead of resurrecting
/// the old row.
#[test]
fn empty_filter_result_clears_selection_and_is_revalidated() {
    let mut app = AppCore::new();
    app.on_refresh_success(JobSet {
        tasks: vec![
            make_task(0, "alpha", TaskStatus::Queued),
            make_task(1, "beta", TaskStatus::Queued),
        ],
    });
    let view = app.current_view();
    app.table_row = Some(1);
    app.update_selected_task_id(&view);
    assert_eq!(app.selected_task_id, Some(1));

    // type a filter nothing matches
    app.on_key(key(KeyCode::Char('f')), &view, geom());
    for c in "nothing".chars() {
        app.on_key(key(KeyCode::Char(c)), &view, geom());
    }
    app.on_key(key(KeyCode::Enter), &view, geom());
    let view = app.current_view();
    assert!(view.is_empty());
    app.sync_selection(&view);
    assert_eq!(app.table_row, None);
    assert_eq!(app.selected_task_id, None);

    // clear the filter: the selection is rebuilt from the new view
    assert!(matches!(app.mode, Mode::Normal));
    app.on_key(key(KeyCode::Esc), &view, geom());
    assert_eq!(app.filter_text, "");
    let view = app.current_view();
    assert_eq!(view, vec![0, 1]);
    app.sync_selection(&view);
    assert_eq!(app.table_row, Some(0));
    assert_eq!(app.selected_task_id, Some(0));
}

/// A task that vanishes from the middle of the view while selected falls
/// back to the top row, re-tracking the id found there; only a deletion at
/// the bottom keeps the selection at the bottom.
#[test]
fn lost_selection_falls_back_to_top_row() {
    let mut app = AppCore::new();
    app.on_refresh_success(JobSet {
        tasks: vec![
            make_task(0, "a", TaskStatus::Queued),
            make_task(1, "b", TaskStatus::Queued),
            make_task(2, "c", TaskStatus::Queued),
        ],
    });
    let view = app.current_view();
    app.table_row = Some(1);
    app.update_selected_task_id(&view);
    assert_eq!(app.selected_task_id, Some(1));

    // the daemon dropped task 1, a middle row: general fallback is the top
    app.on_refresh_success(JobSet {
        tasks: vec![
            make_task(0, "a", TaskStatus::Queued),
            make_task(2, "c", TaskStatus::Queued),
        ],
    });
    let view = app.current_view();
    app.sync_selection(&view);
    assert_eq!(app.table_row, Some(0));
    assert_eq!(app.selected_task_id, Some(0));
}
