use vstd::prelude::*;

use crate::keys::{KeyCode, KeyPress};
use crate::logview::{max_scroll, LogState};
use crate::tasks::JobSet;
use crate::text::{chars_vec, contains_seq, contains_sub, fold_lower, lower_of};
use vstd::string::StrSliceExecFns;
use crate::view::SortField;

verus! {

/// What the footer reports about the daemon connection.
#[derive(Debug, Clone)]
pub enum Health {
    /// No connection trouble to report.
    Connected,
    /// A transport failure was seen; a reconnect is being attempted.
    Reconnecting,
    /// The reconnect (or the retry after it) failed; sticky until a
    /// successful operation.
    ReconnectFailed(String),
    /// A refresh failed for a non-transport reason.
    Error(String),
}

/// A message whose lower-cased text names a transport-level disconnect.
pub open spec fn is_transport_error(msg: Seq<char>) -> bool {
    ||| contains_sub(lower_of(msg), "broken pipe"@)
    ||| contains_sub(lower_of(msg), "connection"@)
}

/// Classifies a failure: transport-level disconnects warrant one reconnect,
/// anything else is surfaced as-is.
pub fn classify_is_transport(msg: &str) -> (r: bool)
    ensures
        r == is_transport_error(msg@),
{
    let lowered = fold_lower(msg);
    let hay = chars_vec(lowered.as_str());
    if contains_seq(&hay, &chars_vec("broken pipe")) {
        return true;
    }
    contains_seq(&hay, &chars_vec("connection"))
}

/// What the caller must do next after a failed refresh.
#[derive(Debug, Clone, Copy, PartialEq, Eq, Structural)]
pub enum RefreshDirective {
    /// Nothing further; the failure is on display.
    Done,
    /// Attempt one reconnect, then retry the refresh once.
    Reconnect,
}

/// The one mode the client is in.
#[derive(Debug)]
pub enum Mode {
    Normal,
    /// Typing a filter string.
    Filter,
    /// Choosing a sort field.
    Sort,
    /// Watching one task's log.
    Log(LogState),
}

/// The request the controller asks its caller to carry out; the caller
/// reports the outcome back through `on_action_error` and its siblings.
#[derive(Debug, Clone)]
pub enum Action {
    /// Nothing to do.
    Idle,
    /// Start the task.
    Start { id: u64 },
    /// Restart a finished task, carrying its original invocation.
    Restart {
        id: u64,
        original_command: String,
        path: String,
        label: Option<String>,
        priority: i32,
    },
    /// Pause the task.
    Pause { id: u64 },
    /// Kill the task.
    Kill { id: u64 },
    /// Remove the task; afterwards call `after_remove`.
    Remove { id: u64 },
    /// Open a log session for the task; report with `on_log_opened` or
    /// `on_log_open_failed`.
    OpenLog { id: u64 },
    /// Log mode ended: release the stream handle.
    CloseStream,
}

/// Everything the key handlers need to know about the terminal: the log
/// page size, and the table's scroll offset and visible row count.
#[derive(Debug, Clone, Copy)]
pub struct ViewportGeom {
    /// Rows of the log view inside its border.
    pub log_height: u16,
    /// Columns of the log view inside its border.
    pub log_width: u16,
    /// Rows the task table can show.
    pub table_rows: usize,
    /// First row the task table currently shows.
    pub table_offset: usize,
}

/// The application state controller: everything the terminal client decides
/// is decided here, on plain values.
#[derive(Debug)]
pub struct AppCore {
    /// False once the user quit.
    pub running: bool,
    /// The last snapshot, kept visible even over a failing connection.
    pub jobs: Option<JobSet>,
    /// The selected row of the table, if any.
    pub table_row: Option<usize>,
    /// The id the selection is attached to; rows are recomputed from it.
    pub selected_task_id: Option<u64>,
    /// Whether the details overlay is shown.
    pub show_details: bool,
    pub mode: Mode,
    /// The committed or in-progress filter text.
    pub filter_text: String,
    pub sort_field: SortField,
    pub health: Health,
    /// A dismissible error message, shown over everything else.
    pub error_modal: Option<String>,
}

impl AppCore {
    /// The snapshot, if any, is well formed.
    pub open spec fn wf(&self) -> bool {
        match self.jobs {
            Some(j) => j.wf(),
            None => true,
        }
    }

    /// A fresh controller: not yet running, nothing selected but the first
    /// row, no snapshot, no filter, ordered by id, healthy.
    pub fn new() -> (r: AppCore)
        ensures
            r.wf(),
            !r.running,
            r.jobs is None,
            r.table_row == Some(0usize),
            r.selected_task_id is None,
            !r.show_details,
            r.mode is Normal,
            r.filter_text@.len() == 0,
            r.sort_field == SortField::Id,
            r.health is Connected,
            r.error_modal is None,
    {
        AppCore {
            running: false,
            jobs: None,
            table_row: Some(0),
            selected_task_id: None,
            show_details: false,
            mode: Mode::Normal,
            filter_text: String::new(),
            sort_field: SortField::Id,
            health: Health::Connected,
            error_modal: None,
        }
    }

    /// The view the table shows right now: the snapshot filtered by the
    /// current text and ordered by the current field; empty before the first
    /// snapshot.
    pub fn current_view(&self) -> (r: Vec<u64>)
        requires
            self.wf(),
        ensures
            match self.jobs {
                Some(j) => crate::view::is_view_of(r@, j, self.filter_text@, self.sort_field),
                None => r@.len() == 0,
            },
    {
        match &self.jobs {
            Some(j) => crate::view::view_ids(j, self.filter_text.as_str(), self.sort_field),
            None => Vec::new(),
        }
    }

    /// A successful refresh replaces the snapshot wholesale and clears any
    /// connection trouble.
    pub fn on_refresh_success(&mut self, snapshot: JobSet)
        requires
            snapshot.wf(),
        ensures
            final(self).jobs == Some(snapshot),
            final(self).health is Connected,
            final(self).wf(),
            final(self).running == old(self).running,
            final(self).table_row == old(self).table_row,
            final(self).selected_task_id == old(self).selected_task_id,
            final(self).show_details == old(self).show_details,
            final(self).filter_text == old(self).filter_text,
            final(self).sort_field == old(self).sort_field,
            final(self).error_modal == old(self).error_modal,
            final(self).mode == old(self).mode,
    {
        self.jobs = Some(snapshot);
        self.health = Health::Connected;
    }

    /// A failed refresh: a transport-level failure asks the caller for one
    /// reconnect; anything else is shown in the footer. The last snapshot
    /// stays on display either way.
    pub fn on_refresh_failure(&mut self, msg: String) -> (d: RefreshDirective)
        ensures
            is_transport_error(msg@) ==> d == RefreshDirective::Reconnect,
            is_transport_error(msg@) ==> final(self).health is Reconnecting,
            !is_transport_error(msg@) ==> d == RefreshDirective::Done && final(self).health
                == Health::Error(msg),
            final(self).jobs == old(self).jobs,
            final(self).running == old(self).running,
            final(self).table_row == old(self).table_row,
            final(self).selected_task_id == old(self).selected_task_id,
            final(self).show_details == old(self).show_details,
            final(self).filter_text == old(self).filter_text,
            final(self).sort_field == old(self).sort_field,
            final(self).error_modal == old(self).error_modal,
            final(self).mode == old(self).mode,
    {
        if classify_is_transport(msg.as_str()) {
            self.health = Health::Reconnecting;
            RefreshDirective::Reconnect
        } else {
            self.health = Health::Error(msg);
            RefreshDirective::Done
        }
    }

    /// The reconnect, or the retried refresh after it, failed: the footer
    /// keeps saying so until some operation succeeds.
    pub fn on_reconnect_failed(&mut self, msg: String)
        ensures
            final(self).health == Health::ReconnectFailed(msg),
            final(self).jobs == old(self).jobs,
            final(self).running == old(self).running,
            final(self).table_row == old(self).table_row,
            final(self).selected_task_id == old(self).selected_task_id,
            final(self).show_details == old(self).show_details,
            final(self).filter_text == old(self).filter_text,
            final(self).sort_field == old(self).sort_field,
            final(self).error_modal == old(self).error_modal,
            final(self).mode == old(self).mode,
    {
        self.health = Health::ReconnectFailed(msg);
    }

    /// Entering the loop: the controller runs until the user quits.
    pub fn start(&mut self)
        ensures
            final(self).running,
            final(self).jobs == old(self).jobs,
            final(self).table_row == old(self).table_row,
            final(self).selected_task_id == old(self).selected_task_id,
            final(self).show_details == old(self).show_details,
            final(self).filter_text == old(self).filter_text,
            final(self).sort_field == old(self).sort_field,
            final(self).health == old(self).health,
            final(self).error_modal == old(self).error_modal,
            final(self).mode == old(self).mode,
    {
        self.running = true;
    }

    /// Quitting: the loop ends after the current iteration.
    pub fn quit(&mut self)
        ensures
            !final(self).running,
            final(self).jobs == old(self).jobs,
            final(self).table_row == old(self).table_row,
            final(self).selected_task_id == old(self).selected_task_id,
            final(self).show_details == old(self).show_details,
            final(self).filter_text == old(self).filter_text,
            final(self).sort_field == old(self).sort_field,
            final(self).health == old(self).health,
            final(self).error_modal == old(self).error_modal,
            final(self).mode == old(self).mode,
    {
        self.running = false;
    }

    /// A task action the daemon rejected: a dismissible modal, nothing else
    /// changes.
    pub fn on_action_error(&mut self, msg: String)
        ensures
            final(self).error_modal == Some(msg),
            final(self).jobs == old(self).jobs,
            final(self).running == old(self).running,
            final(self).table_row == old(self).table_row,
            final(self).selected_task_id == old(self).selected_task_id,
            final(self).show_details == old(self).show_details,
            final(self).filter_text == old(self).filter_text,
            final(self).sort_field == old(self).sort_field,
            final(self).health == old(self).health,
            final(self).mode == old(self).mode,
    {
        self.error_modal = Some(msg);
    }
}

/// The key's code is the plain character `c` (modifiers are not consulted,
/// as the terminal reports shifted characters already shifted).
pub open spec fn is_char(key: KeyPress, c: char) -> bool {
    key.code == KeyCode::Char(c)
}

/// Keys that move the table selection in Normal mode.
pub open spec fn is_nav_key(key: KeyPress) -> bool {
    ||| is_char(key, 'j')
    ||| is_char(key, 'k')
    ||| key.code is Up
    ||| key.code is Down
    ||| key.code is PageUp
    ||| key.code is PageDown
    ||| key.code is Home
    ||| key.code is End
}

/// The task with this id in the snapshot, if both exist.
pub open spec fn task_in(jobs: Option<JobSet>, id: u64) -> Option<crate::tasks::Task> {
    match jobs {
        Some(j) => j.spec_task_of(id),
        None => None,
    }
}

/// Down/`j` wraps from the last row to the top; with nothing selected or an
/// empty view it lands on the top row.
pub open spec fn next_row_wrapping(row: Option<usize>, len: nat) -> int {
    match row {
        Some(i) => if len > 0 {
            if i >= len - 1 {
                0
            } else {
                i + 1
            }
        } else {
            0
        },
        None => 0,
    }
}

/// Up/`k` wraps from the top row to the bottom.
pub open spec fn prev_row_wrapping(row: Option<usize>, len: nat) -> int {
    match row {
        Some(i) => if len > 0 {
            if i == 0 {
                len - 1
            } else {
                i - 1
            }
        } else {
            0
        },
        None => 0,
    }
}

/// PageUp: jump to the first visible row, or a page above it.
pub open spec fn page_up_row(row: Option<usize>, offset: nat, visible: nat) -> int {
    let sel = match row {
        Some(i) => i as int,
        None => 0,
    };
    if sel > offset {
        offset as int
    } else {
        if sel >= visible {
            sel - visible
        } else {
            0
        }
    }
}

/// PageDown: jump to the last visible row, or a page below it; never beyond
/// the last row.
pub open spec fn page_down_row(row: Option<usize>, offset: nat, visible: nat, len: nat) -> int {
    let sel = match row {
        Some(i) => i as int,
        None => 0,
    };
    let bottom0 = if offset + visible > 0 {
        offset + visible - 1
    } else {
        0
    };
    let bottom = if bottom0 <= len - 1 {
        bottom0
    } else {
        len - 1
    };
    if sel < bottom {
        bottom
    } else {
        if sel + visible <= len - 1 {
            sel + visible
        } else {
            len - 1
        }
    }
}

/// The selection moved to row `next` and was re-validated against the view:
/// the tracker re-attaches to the id on that row; a row past the end of a
/// non-empty view is clamped to the last row; on an empty view the id
/// detaches and the row stays where it was put.
pub open spec fn row_moved_to(pre: AppCore, post: AppCore, view: Seq<u64>, next: int) -> bool {
    if next < view.len() {
        &&& post.table_row == Some(next as usize)
        &&& post.selected_task_id == Some(view[next])
    } else if view.len() > 0 {
        &&& post.table_row == Some((view.len() - 1) as usize)
        &&& post.selected_task_id == Some(view[view.len() - 1])
    } else {
        &&& post.table_row == Some(next as usize)
        &&& post.selected_task_id is None
    }
}

/// The id on the selected row, if the row points into the view.
pub open spec fn selected_id(row: Option<usize>, view: Seq<u64>) -> Option<u64> {
    match row {
        Some(i) => if i < view.len() {
            Some(view[i as int])
        } else {
            None
        },
        None => None,
    }
}

/// Enter opens a log session for the selected task.
pub open spec fn selected_id_action_open(row: Option<usize>, view: Seq<u64>) -> Action {
    match selected_id(row, view) {
        Some(id) => Action::OpenLog { id },
        None => Action::Idle,
    }
}

/// Run-or-restart: a finished (Done) task is restarted carrying its original
/// command, path, label and priority; any other task is started directly.
pub open spec fn run_or_restart_action(
    row: Option<usize>,
    view: Seq<u64>,
    jobs: Option<JobSet>,
) -> Action {
    match selected_id(row, view) {
        Some(id) => match task_in(jobs, id) {
            Some(t) => if t.status is Done {
                Action::Restart {
                    id,
                    original_command: t.original_command,
                    path: t.path,
                    label: t.label,
                    priority: t.priority,
                }
            } else {
                Action::Start { id }
            },
            None => Action::Start { id },
        },
        None => Action::Idle,
    }
}

/// Removal, silently ignored for tasks that are Running or Paused.
pub open spec fn remove_action(row: Option<usize>, view: Seq<u64>, jobs: Option<JobSet>) -> Action {
    match selected_id(row, view) {
        Some(id) => match task_in(jobs, id) {
            Some(t) => if t.spec_is_active() {
                Action::Idle
            } else {
                Action::Remove { id }
            },
            None => Action::Remove { id },
        },
        None => Action::Idle,
    }
}

/// Where the tracker falls back when its id vanished from a non-empty view:
/// the top row in general, except that a stale row now lying at or past the
/// view's end — the id was deleted from the bottom of the view — falls back
/// to the new last row, never to the top.
pub open spec fn fallback_lost_row(stale: Option<usize>, len: int) -> int {
    match stale {
        Some(r) => if r >= len {
            len - 1
        } else {
            0
        },
        None => 0,
    }
}

/// The id the tracker is attached to after a sync against `view`: kept when
/// still present, re-attached at the fallback row when lost, none on an
/// empty view.
pub open spec fn synced_tracked(view: Seq<u64>, sel: Option<u64>, stale: Option<usize>) -> Option<
    u64,
> {
    if view.len() == 0 {
        None
    } else {
        match sel {
            Some(id) => if view.contains(id) {
                Some(id)
            } else {
                Some(view[fallback_lost_row(stale, view.len() as int)])
            },
            None => Some(view[0]),
        }
    }
}

/// The row the tracker resolves to after a sync against `view`: the tracked
/// id's rank when present, the fallback row when lost, the top row when
/// nothing was tracked, none on an empty view.
pub open spec fn synced_row(view: Seq<u64>, sel: Option<u64>, stale: Option<usize>) -> Option<
    int,
> {
    if view.len() == 0 {
        None
    } else {
        match sel {
            Some(id) => if view.contains(id) {
                view.index_of_first(id)
            } else {
                Some(fallback_lost_row(stale, view.len() as int))
            },
            None => Some(0),
        }
    }
}

/// The row selected right after a removal: one above the removed row, so
/// removing the last row lands on the new last row instead of the top.
pub open spec fn fallback_row_after_remove(row: Option<usize>) -> int {
    match row {
        Some(i) => if i > 0 {
            i - 1
        } else {
            0
        },
        None => 0,
    }
}

impl AppCore {
    /// Re-resolves the selection against the view, run before every paint:
    /// selection is attached to an id, not a row, so it survives re-sorting
    /// and filtering. A lost id falls back to the top row — except when the
    /// stale row lies at or past the shrunken view's end (its job was
    /// deleted from the bottom), which falls back to the new last row — and
    /// an empty view clears the selection entirely.
    pub fn sync_selection(&mut self, view: &Vec<u64>)
        ensures
            final(self).selected_task_id == synced_tracked(
                view@,
                old(self).selected_task_id,
                old(self).table_row,
            ),
            match synced_row(view@, old(self).selected_task_id, old(self).table_row) {
                Some(r) => final(self).table_row == Some(r as usize),
                None => final(self).table_row is None,
            },
            final(self).jobs == old(self).jobs,
            final(self).running == old(self).running,
            final(self).show_details == old(self).show_details,
            final(self).filter_text == old(self).filter_text,
            final(self).sort_field == old(self).sort_field,
            final(self).health == old(self).health,
            final(self).error_modal == old(self).error_modal,
            final(self).mode == old(self).mode,
    {
        if view.len() == 0 {
            self.table_row = None;
            self.selected_task_id = None;
            return;
        }
        let found = match self.selected_task_id {
            Some(id) => crate::view::position_of(view, id),
            None => None,
        };
        match found {
            Some(row) => {
                proof {
                    let id = old(self).selected_task_id->Some_0;
                    assert(view@.contains(id));
                    view@.index_of_first_ensures(id);
                    let w = view@.index_of_first(id)->Some_0;
                    if w < row as int {
                        assert(view@[w] != id);
                    } else if w > row as int {
                        assert(view@[row as int] != id);
                    }
                }
                self.table_row = Some(row);
            },
            None => {
                proof {
                    match old(self).selected_task_id {
                        Some(id) => {
                            assert(!view@.contains(id));
                        },
                        None => {},
                    }
                }
                let len = view.len();
                let next: usize = match self.selected_task_id {
                    Some(_) => match self.table_row {
                        // the tracked id was deleted from the bottom of the
                        // view: stay on the new last row, not the top
                        Some(r) => if r >= len {
                            len - 1
                        } else {
                            0
                        },
                        None => 0,
                    },
                    None => 0,
                };
                self.table_row = Some(next);
                self.selected_task_id = Some(view[next]);
            },
        }
    }

    /// Re-attaches the tracker to whatever id now sits on the selected row.
    /// A row that fell past the end of a shrunken, non-empty view is clamped
    /// to the new last row (never reset to the top); only an empty view
    /// detaches the tracker.
    pub fn update_selected_task_id(&mut self, view: &Vec<u64>)
        ensures
            match old(self).table_row {
                Some(r) => {
                    &&& (r < view@.len() ==> final(self).table_row == old(self).table_row
                        && final(self).selected_task_id == Some(view@[r as int]))
                    &&& (r >= view@.len() && view@.len() > 0 ==> final(self).table_row
                        == Some((view@.len() - 1) as usize) && final(self).selected_task_id
                        == Some(view@[view@.len() - 1]))
                    &&& (r >= view@.len() && view@.len() == 0 ==> final(self).table_row == old(self).table_row && final(self).selected_task_id is None)
                },
                None => final(self).table_row == old(self).table_row && final(self).selected_task_id == old(self).selected_task_id,
            },
            final(self).jobs == old(self).jobs,
            final(self).running == old(self).running,
            final(self).show_details == old(self).show_details,
            final(self).filter_text == old(self).filter_text,
            final(self).sort_field == old(self).sort_field,
            final(self).health == old(self).health,
            final(self).error_modal == old(self).error_modal,
            final(self).mode == old(self).mode,
    {
        match self.table_row {
            Some(r) => {
                if r < view.len() {
                    self.selected_task_id = Some(view[r]);
                } else if view.len() > 0 {
                    // the selected row vanished off the end: land on the
                    // new last row and re-track the id there
                    let last = view.len() - 1;
                    self.table_row = Some(last);
                    self.selected_task_id = Some(view[last]);
                } else {
                    self.selected_task_id = None;
                }
            },
            None => {},
        }
    }

    /// After a removal went through and the snapshot was refreshed: selects
    /// the row above the removed one — removing the last row therefore lands
    /// on the new last row — and re-attaches the tracker to it.
    pub fn after_remove(&mut self, view: &Vec<u64>)
        ensures
            row_moved_to(
                *old(self),
                *final(self),
                view@,
                fallback_row_after_remove(old(self).table_row),
            ),
            final(self).jobs == old(self).jobs,
            final(self).running == old(self).running,
            final(self).show_details == old(self).show_details,
            final(self).filter_text == old(self).filter_text,
            final(self).sort_field == old(self).sort_field,
            final(self).health == old(self).health,
            final(self).error_modal == old(self).error_modal,
            final(self).mode == old(self).mode,
    {
        let next: usize = match self.table_row {
            Some(i) => if i > 0 {
                i - 1
            } else {
                0
            },
            None => 0,
        };
        self.table_row = Some(next);
        self.update_selected_task_id(view);
    }

    /// A log session opened: enter Log mode pinned to the end of the initial
    /// content; any prior log session's state is dropped here.
    pub fn on_log_opened(&mut self, id: u64, initial: String, geom: ViewportGeom)
        ensures
            final(self).mode matches Mode::Log(ls) && ls.task_id == id && ls.logs == initial
                && ls.autoscroll && ls.stream_open && ls.scroll_offset == max_scroll(
                initial@,
                geom.log_height,
                geom.log_width,
            ),
            final(self).jobs == old(self).jobs,
            final(self).running == old(self).running,
            final(self).table_row == old(self).table_row,
            final(self).selected_task_id == old(self).selected_task_id,
            final(self).show_details == old(self).show_details,
            final(self).filter_text == old(self).filter_text,
            final(self).sort_field == old(self).sort_field,
            final(self).health == old(self).health,
            final(self).error_modal == old(self).error_modal,
    {
        let mut ls = LogState {
            task_id: id,
            logs: initial,
            scroll_offset: 0,
            autoscroll: true,
            stream_open: true,
        };
        ls.update_autoscroll(geom.log_height, geom.log_width);
        self.mode = Mode::Log(ls);
    }

    /// Opening a log session failed: a dismissible modal; the mode stays.
    pub fn on_log_open_failed(&mut self, msg: String)
        ensures
            final(self).error_modal == Some(msg),
            final(self).jobs == old(self).jobs,
            final(self).running == old(self).running,
            final(self).table_row == old(self).table_row,
            final(self).selected_task_id == old(self).selected_task_id,
            final(self).show_details == old(self).show_details,
            final(self).filter_text == old(self).filter_text,
            final(self).sort_field == old(self).sort_field,
            final(self).health == old(self).health,
            final(self).mode == old(self).mode,
    {
        self.error_modal = Some(msg);
    }

    /// One key press, dispatched to whatever mode is active. The state moves
    /// as the mode machine prescribes, and the returned action tells the
    /// caller which daemon request, if any, to issue. `view` is the current
    /// view of the table, as `current_view` returns it.
    pub fn on_key(&mut self, key: KeyPress, view: &Vec<u64>, geom: ViewportGeom) -> (a: Action)
        requires
            old(self).wf(),
        ensures
            final(self).wf(),
            final(self).jobs == old(self).jobs,
            final(self).health == old(self).health,
            // Filter mode: text accumulates; Enter commits, Esc clears.
            old(self).mode is Filter ==> {
                &&& a is Idle
                &&& final(self).table_row == old(self).table_row
                &&& final(self).selected_task_id == old(self).selected_task_id
                &&& final(self).show_details == old(self).show_details
                &&& final(self).sort_field == old(self).sort_field
                &&& final(self).error_modal == old(self).error_modal
                &&& final(self).running == old(self).running
                &&& match key.code {
                    KeyCode::Esc => final(self).mode is Normal && final(self).filter_text@
                        =~= Seq::<char>::empty(),
                    KeyCode::Enter => final(self).mode is Normal && final(self).filter_text
                        == old(self).filter_text,
                    KeyCode::Backspace => final(self).mode is Filter && final(self).filter_text@ =~= old(self).filter_text@.take(
                        if old(self).filter_text@.len() > 0 {
                            old(self).filter_text@.len() - 1
                        } else {
                            0
                        },
                    ),
                    KeyCode::Char(c) => final(self).mode is Filter && final(self).filter_text@ =~= old(self).filter_text@.push(c),
                    _ => final(self).mode is Filter && final(self).filter_text == old(self).filter_text,
                }
            },
            // Sort mode: one of four mnemonics picks the field; Esc cancels.
            old(self).mode is Sort ==> {
                &&& a is Idle
                &&& final(self).table_row == old(self).table_row
                &&& final(self).selected_task_id == old(self).selected_task_id
                &&& final(self).show_details == old(self).show_details
                &&& final(self).filter_text == old(self).filter_text
                &&& final(self).error_modal == old(self).error_modal
                &&& (is_char(key, 'q') ==> !final(self).running && final(self).mode is Sort
                    && final(self).sort_field == old(self).sort_field)
                &&& (!is_char(key, 'q') ==> final(self).running == old(self).running)
                &&& (key.code is Esc ==> final(self).mode is Normal && final(self).sort_field
                    == old(self).sort_field)
                &&& (is_char(key, 'i') ==> final(self).mode is Normal && final(self).sort_field == SortField::Id)
                &&& (is_char(key, 's') ==> final(self).mode is Normal && final(self).sort_field == SortField::Status)
                &&& (is_char(key, 'c') ==> final(self).mode is Normal && final(self).sort_field == SortField::Command)
                &&& (is_char(key, 'p') ==> final(self).mode is Normal && final(self).sort_field == SortField::Path)
                &&& (!(key.code is Esc || is_char(key, 'i') || is_char(key, 's') || is_char(
                    key,
                    'c',
                ) || is_char(key, 'p')) ==> final(self).mode is Sort && final(self).sort_field == old(self).sort_field)
            },
            // Log mode: Esc leaves and releases the stream; anything else
            // scrolls, clamped to the content, and a jump to the end pins
            // the view there.
            old(self).mode matches Mode::Log(ls0) ==> {
                &&& final(self).table_row == old(self).table_row
                &&& final(self).selected_task_id == old(self).selected_task_id
                &&& final(self).show_details == old(self).show_details
                &&& final(self).filter_text == old(self).filter_text
                &&& final(self).sort_field == old(self).sort_field
                &&& final(self).error_modal == old(self).error_modal
                &&& final(self).running == old(self).running
                &&& (key.code is Esc ==> final(self).mode is Normal && a is CloseStream)
                &&& (!(key.code is Esc) ==> a is Idle && (final(self).mode matches Mode::Log(
                    ls1,
                ) && {
                    &&& ls1.task_id == ls0.task_id
                    &&& ls1.logs == ls0.logs
                    &&& ls1.stream_open == ls0.stream_open
                    &&& match crate::logview::requested_offset(
                        key,
                        ls0.scroll_offset as nat,
                        geom.log_height,
                    ) {
                        Some(want) => {
                            &&& !ls1.autoscroll
                            &&& ls1.scroll_offset == if want <= max_scroll(
                                ls0.logs@,
                                geom.log_height,
                                geom.log_width,
                            ) {
                                want
                            } else {
                                max_scroll(ls0.logs@, geom.log_height, geom.log_width)
                            }
                        },
                        None => {
                            &&& ls1.autoscroll == (crate::logview::is_log_key(key)
                                || ls0.autoscroll)
                            &&& (ls1.autoscroll ==> ls1.scroll_offset == max_scroll(
                                ls0.logs@,
                                geom.log_height,
                                geom.log_width,
                            ))
                            &&& (!ls1.autoscroll ==> ls1.scroll_offset == ls0.scroll_offset)
                        },
                    }
                }))
            },
            // Normal mode with the error modal up: Esc dismisses it.
            (old(self).mode is Normal && old(self).error_modal is Some) ==> {
                &&& a is Idle
                &&& final(self).mode is Normal
                &&& final(self).table_row == old(self).table_row
                &&& final(self).selected_task_id == old(self).selected_task_id
                &&& final(self).show_details == old(self).show_details
                &&& final(self).filter_text == old(self).filter_text
                &&& final(self).sort_field == old(self).sort_field
                &&& (key.code is Esc ==> final(self).error_modal is None)
                &&& (!(key.code is Esc) ==> final(self).error_modal == old(self).error_modal)
                &&& (is_char(key, 'q') ==> !final(self).running)
                &&& (!is_char(key, 'q') ==> final(self).running == old(self).running)
            },
            // Normal mode with the details overlay up: Esc closes it.
            (old(self).mode is Normal && old(self).error_modal is None && old(self).show_details) ==> {
                &&& a is Idle
                &&& final(self).mode is Normal
                &&& final(self).table_row == old(self).table_row
                &&& final(self).selected_task_id == old(self).selected_task_id
                &&& final(self).filter_text == old(self).filter_text
                &&& final(self).sort_field == old(self).sort_field
                &&& final(self).error_modal == old(self).error_modal
                &&& (key.code is Esc ==> !final(self).show_details)
                &&& (!(key.code is Esc) ==> final(self).show_details == old(self).show_details)
                &&& (is_char(key, 'q') ==> !final(self).running)
                &&& (!is_char(key, 'q') ==> final(self).running == old(self).running)
            },
            // Normal mode proper.
            (old(self).mode is Normal && old(self).error_modal is None && !old(self).show_details) ==> {
                let len = view@.len();
                &&& final(self).sort_field == old(self).sort_field
                &&& final(self).error_modal == old(self).error_modal
                &&& (is_char(key, 'q') ==> !final(self).running && a is Idle)
                &&& (!is_char(key, 'q') ==> final(self).running == old(self).running)
                &&& (key.code is Esc ==> final(self).filter_text@ =~= Seq::<char>::empty()
                    && a is Idle)
                &&& (!(key.code is Esc) ==> final(self).filter_text == old(self).filter_text)
                &&& (is_char(key, 'f') ==> final(self).mode is Filter && a is Idle)
                &&& (is_char(key, 's') ==> final(self).mode is Sort && a is Idle)
                &&& (!(is_char(key, 'f') || is_char(key, 's')) ==> final(self).mode is Normal)
                &&& (is_char(key, 'd') ==> final(self).show_details == (old(self).table_row is Some) && a is Idle)
                &&& (!is_char(key, 'd') ==> final(self).show_details == old(self).show_details)
                &&& (!is_nav_key(key) ==> final(self).table_row == old(self).table_row
                    && final(self).selected_task_id == old(self).selected_task_id)
                &&& ((is_char(key, 'j') || key.code is Down) ==> a is Idle && row_moved_to(
                    *old(self),
                    *final(self),
                    view@,
                    next_row_wrapping(old(self).table_row, len),
                ))
                &&& ((is_char(key, 'k') || key.code is Up) ==> a is Idle && row_moved_to(
                    *old(self),
                    *final(self),
                    view@,
                    prev_row_wrapping(old(self).table_row, len),
                ))
                &&& (key.code is PageUp ==> a is Idle && (if len > 0 {
                    row_moved_to(
                        *old(self),
                        *final(self),
                        view@,
                        page_up_row(
                            old(self).table_row,
                            geom.table_offset as nat,
                            geom.table_rows as nat,
                        ),
                    )
                } else {
                    final(self).table_row == old(self).table_row && final(self).selected_task_id == old(self).selected_task_id
                }))
                &&& (key.code is PageDown ==> a is Idle && (if len > 0 {
                    row_moved_to(
                        *old(self),
                        *final(self),
                        view@,
                        page_down_row(
                            old(self).table_row,
                            geom.table_offset as nat,
                            geom.table_rows as nat,
                            len,
                        ),
                    )
                } else {
                    final(self).table_row == old(self).table_row && final(self).selected_task_id == old(self).selected_task_id
                }))
                &&& (key.code is Home ==> a is Idle && (if len > 0 {
                    row_moved_to(*old(self), *final(self), view@, 0)
                } else {
                    final(self).table_row == old(self).table_row && final(self).selected_task_id == old(self).selected_task_id
                }))
                &&& (key.code is End ==> a is Idle && (if len > 0 {
                    row_moved_to(*old(self), *final(self), view@, len - 1)
                } else {
                    final(self).table_row == old(self).table_row && final(self).selected_task_id == old(self).selected_task_id
                }))
                &&& (key.code is Enter ==> a == selected_id_action_open(
                    old(self).table_row,
                    view@,
                ))
                &&& (is_char(key, 'r') ==> a == run_or_restart_action(
                    old(self).table_row,
                    view@,
                    old(self).jobs,
                ))
                &&& (is_char(key, 'p') ==> a == (match selected_id(old(self).table_row, view@) {
                    Some(id) => Action::Pause { id },
                    None => Action::Idle,
                }))
                &&& (is_char(key, 'x') ==> a == (match selected_id(old(self).table_row, view@) {
                    Some(id) => Action::Kill { id },
                    None => Action::Idle,
                }))
                &&& (key.code is Backspace ==> a == remove_action(
                    old(self).table_row,
                    view@,
                    old(self).jobs,
                ))
                &&& (!(is_char(key, 'q') || is_char(key, 'f') || is_char(key, 's') || is_char(
                    key,
                    'd',
                ) || is_char(key, 'r') || is_char(key, 'p') || is_char(key, 'x') || is_nav_key(
                    key,
                ) || key.code is Esc || key.code is Enter || key.code is Backspace) ==> a
                    is Idle)
            },
    {
        let is_filter = matches!(self.mode, Mode::Filter);
        let is_sort = matches!(self.mode, Mode::Sort);
        let is_log = matches!(self.mode, Mode::Log(_));
        if is_filter {
            match key.code {
                KeyCode::Esc => {
                    self.mode = Mode::Normal;
                    self.filter_text = String::new();
                },
                KeyCode::Enter => {
                    self.mode = Mode::Normal;
                },
                KeyCode::Backspace => {
                    let v = chars_vec(self.filter_text.as_str());
                    if v.len() > 0 {
                        self.filter_text = crate::text::string_of(
                            &crate::text::sub_vec(&v, 0, v.len() - 1),
                        );
                    }
                    proof {
                        if old(self).filter_text@.len() == 0 {
                            assert(final(self).filter_text@ =~= old(self).filter_text@.take(
                                0,
                            ));
                        }
                    }
                },
                KeyCode::Char(c) => {
                    crate::text::push_char(&mut self.filter_text, c);
                },
                _ => {},
            }
            Action::Idle
        } else if is_sort {
            match key.code {
                KeyCode::Esc => {
                    self.mode = Mode::Normal;
                },
                KeyCode::Char('i') => {
                    self.sort_field = SortField::Id;
                    self.mode = Mode::Normal;
                },
                KeyCode::Char('s') => {
                    self.sort_field = SortField::Status;
                    self.mode = Mode::Normal;
                },
                KeyCode::Char('c') => {
                    self.sort_field = SortField::Command;
                    self.mode = Mode::Normal;
                },
                KeyCode::Char('p') => {
                    self.sort_field = SortField::Path;
                    self.mode = Mode::Normal;
                },
                KeyCode::Char('q') => {
                    self.running = false;
                },
                _ => {},
            }
            Action::Idle
        } else if is_log {
            if matches!(key.code, KeyCode::Esc) {
                self.mode = Mode::Normal;
                return Action::CloseStream;
            }
            match &mut self.mode {
                Mode::Log(ls) => {
                    ls.handle_key(key, geom.log_height, geom.log_width);
                    ls.update_autoscroll(geom.log_height, geom.log_width);
                },
                _ => {},
            }
            Action::Idle
        } else {
            // Normal mode
            if self.error_modal.is_some() {
                match key.code {
                    KeyCode::Esc => {
                        self.error_modal = None;
                    },
                    KeyCode::Char('q') => {
                        self.running = false;
                    },
                    _ => {},
                }
                return Action::Idle;
            }
            if self.show_details {
                match key.code {
                    KeyCode::Esc => {
                        self.show_details = false;
                    },
                    KeyCode::Char('q') => {
                        self.running = false;
                    },
                    _ => {},
                }
                return Action::Idle;
            }
            match key.code {
                KeyCode::Char('q') => {
                    self.running = false;
                    Action::Idle
                },
                KeyCode::Esc => {
                    self.filter_text = String::new();
                    Action::Idle
                },
                KeyCode::Enter => {
                    match self.table_row {
                        Some(i) => {
                            if i < view.len() {
                                Action::OpenLog { id: view[i] }
                            } else {
                                Action::Idle
                            }
                        },
                        None => Action::Idle,
                    }
                },
                KeyCode::Char('d') => {
                    if self.table_row.is_some() {
                        self.show_details = true;
                    }
                    Action::Idle
                },
                KeyCode::Char('j') | KeyCode::Down => {
                    let len = view.len();
                    let next: usize = match self.table_row {
                        Some(i) => if len > 0 {
                            if i >= len - 1 {
                                0
                            } else {
                                i + 1
                            }
                        } else {
                            0
                        },
                        None => 0,
                    };
                    self.table_row = Some(next);
                    self.update_selected_task_id(view);
                    Action::Idle
                },
                KeyCode::Char('k') | KeyCode::Up => {
                    let len = view.len();
                    let next: usize = match self.table_row {
                        Some(i) => if len > 0 {
                            if i == 0 {
                                len - 1
                            } else {
                                i - 1
                            }
                        } else {
                            0
                        },
                        None => 0,
                    };
                    self.table_row = Some(next);
                    self.update_selected_task_id(view);
                    Action::Idle
                },
                KeyCode::PageUp => {
                    let len = view.len();
                    if len > 0 {
                        let sel: usize = match self.table_row {
                            Some(i) => i,
                            None => 0,
                        };
                        let next: usize = if sel > geom.table_offset {
                            geom.table_offset
                        } else {
                            sel.saturating_sub(geom.table_rows)
                        };
                        self.table_row = Some(next);
                        self.update_selected_task_id(view);
                    }
                    Action::Idle
                },
                KeyCode::PageDown => {
                    let len = view.len();
                    if len > 0 {
                        let sel: usize = match self.table_row {
                            Some(i) => i,
                            None => 0,
                        };
                        let bottom0 = geom.table_offset.saturating_add(
                            geom.table_rows,
                        ).saturating_sub(1);
                        let bottom = if bottom0 <= len - 1 {
                            bottom0
                        } else {
                            len - 1
                        };
                        let next: usize = if sel < bottom {
                            bottom
                        } else {
                            let below = sel.saturating_add(geom.table_rows);
                            if below <= len - 1 {
                                below
                            } else {
                                len - 1
                            }
                        };
                        self.table_row = Some(next);
                        self.update_selected_task_id(view);
                    }
                    Action::Idle
                },
                KeyCode::Home => {
                    let len = view.len();
                    if len > 0 {
                        self.table_row = Some(0);
                        self.update_selected_task_id(view);
                    }
                    Action::Idle
                },
                KeyCode::End => {
                    let len = view.len();
                    if len > 0 {
                        self.table_row = Some(len - 1);
                        self.update_selected_task_id(view);
                    }
                    Action::Idle
                },
                KeyCode::Char('f') => {
                    self.mode = Mode::Filter;
                    Action::Idle
                },
                KeyCode::Char('s') => {
                    self.mode = Mode::Sort;
                    Action::Idle
                },
                KeyCode::Char('r') => {
                    match self.table_row {
                        Some(i) => {
                            if i < view.len() {
                                let id = view[i];
                                let tsk = match &self.jobs {
                                    Some(j) => j.task_of(id),
                                    None => None,
                                };
                                match tsk {
                                    Some(t) => {
                                        if t.is_done() {
                                            let label = match &t.label {
                                                Some(l) => Some(l.clone()),
                                                None => None,
                                            };
                                            Action::Restart {
                                                id,
                                                original_command: t.original_command.clone(),
                                                path: t.path.clone(),
                                                label,
                                                priority: t.priority,
                                            }
                                        } else {
                                            Action::Start { id }
                                        }
                                    },
                                    None => Action::Start { id },
                                }
                            } else {
                                Action::Idle
                            }
                        },
                        None => Action::Idle,
                    }
                },
                KeyCode::Char('p') => {
                    match self.table_row {
                        Some(i) => {
                            if i < view.len() {
                                Action::Pause { id: view[i] }
                            } else {
                                Action::Idle
                            }
                        },
                        None => Action::Idle,
                    }
                },
                KeyCode::Char('x') => {
                    match self.table_row {
                        Some(i) => {
                            if i < view.len() {
                                Action::Kill { id: view[i] }
                            } else {
                                Action::Idle
                            }
                        },
                        None => Action::Idle,
                    }
                },
                KeyCode::Backspace => {
                    match self.table_row {
                        Some(i) => {
                            if i < view.len() {
                                let id = view[i];
                                let active = match &self.jobs {
                                    Some(j) => match j.task_of(id) {
                                        Some(t) => t.is_active(),
                                        None => false,
                                    },
                                    None => false,
                                };
                                if active {
                                    Action::Idle
                                } else {
                                    Action::Remove { id }
                                }
                            } else {
                                Action::Idle
                            }
                        },
                        None => Action::Idle,
                    }
                },
                _ => Action::Idle,
            }
        }
    }

    /// One event of the log stream. Text is appended (the view follows it
    /// while pinned); the stream's end — also an error, which is treated as
    /// the end — releases the handle. Outside Log mode nothing changes.
    pub fn on_log_chunk(&mut self, chunk: Option<&str>, geom: ViewportGeom)
        ensures
            !(old(self).mode is Log) ==> *final(self) == *old(self),
            old(self).mode matches Mode::Log(ls0) ==> match chunk {
                Some(c) => {
                    &&& final(self).mode matches Mode::Log(ls1)
                    &&& ls1.task_id == ls0.task_id
                    &&& ls1.autoscroll == ls0.autoscroll
                    &&& (c@.len() == 0 ==> !ls1.stream_open && ls1.logs == ls0.logs
                        && ls1.scroll_offset == ls0.scroll_offset)
                    &&& (c@.len() > 0 ==> ls1.stream_open == ls0.stream_open
                        && ls1.logs@ == ls0.logs@ + c@)
                    &&& (c@.len() > 0 && ls0.autoscroll ==> ls1.scroll_offset == max_scroll(
                        ls0.logs@ + c@,
                        geom.log_height,
                        geom.log_width,
                    ))
                    &&& (c@.len() > 0 && !ls0.autoscroll ==> ls1.scroll_offset
                        == ls0.scroll_offset)
                },
                None => {
                    &&& final(self).mode matches Mode::Log(ls1)
                    &&& !ls1.stream_open
                    &&& ls1.task_id == ls0.task_id
                    &&& ls1.logs == ls0.logs
                    &&& ls1.scroll_offset == ls0.scroll_offset
                    &&& ls1.autoscroll == ls0.autoscroll
                },
            },
            final(self).jobs == old(self).jobs,
            final(self).running == old(self).running,
            final(self).table_row == old(self).table_row,
            final(self).selected_task_id == old(self).selected_task_id,
            final(self).show_details == old(self).show_details,
            final(self).filter_text == old(self).filter_text,
            final(self).sort_field == old(self).sort_field,
            final(self).health == old(self).health,
            final(self).error_modal == old(self).error_modal,
    {
        match &mut self.mode {
            Mode::Log(ls) => {
                match chunk {
                    // an empty chunk marks closure just as `None` does
                    Some(c) => {
                        if c.unicode_len() == 0 {
                            ls.on_stream_closed();
                        } else {
                            ls.append_chunk(c, geom.log_height, geom.log_width);
                        }
                    },
                    None => {
                        ls.on_stream_closed();
                    },
                }
            },
            _ => {},
        }
    }
}

/// Changing the sort field never moves the selection off its task: an id the
/// job set still holds and the filter still matches stays in the view under
/// any sort field, and a sync against the re-ordered view keeps the id and
/// resolves the row to the id's unique rank in the new ordering.
pub proof fn lemma_selection_survives_sort_change(
    jobs: JobSet,
    filter: Seq<char>,
    f1: SortField,
    f2: SortField,
    v1: Seq<u64>,
    v2: Seq<u64>,
    id: u64,
    stale: Option<usize>,
)
    requires
        crate::view::is_view_of(v1, jobs, filter, f1),
        crate::view::is_view_of(v2, jobs, filter, f2),
        v1.contains(id),
    ensures
        v2.contains(id),
        synced_tracked(v2, Some(id), stale) == Some(id),
        synced_row(v2, Some(id), stale) == v2.index_of_first(id),
        forall|r: int|
            0 <= r < v2.len() && v2[r] == id ==> synced_row(v2, Some(id), stale) == Some(r),
{
    assert(jobs.has_id(id) && crate::view::task_matches(jobs.spec_task_of(id)->Some_0, filter));
    assert(v2.contains(id));
    v2.index_of_first_ensures(id);
    let w = v2.index_of_first(id)->Some_0;
    assert forall|r: int| 0 <= r < v2.len() && v2[r] == id implies synced_row(v2, Some(id), stale)
        == Some(r) by {
        if r < w {
            assert(v2[r] != id);
        } else if r > w {
            // two distinct rows with the same id would break the strict order
            assert(crate::view::id_lt(jobs, f2, v2[w], v2[r]));
        }
    }
}

/// Deleting the row at the end of the view moves the selection to the new
/// last row, never back to the top: the controller selects the row above the
/// removed one, which is exactly the last row of the shrunken view.
pub proof fn lemma_remove_last_row_lands_on_new_last(v1: Seq<u64>, v2: Seq<u64>)
    requires
        2 <= v1.len() <= usize::MAX,
        v2 == v1.drop_last(),
    ensures
        fallback_row_after_remove(Some((v1.len() - 1) as usize)) == v2.len() - 1,
        v2[fallback_row_after_remove(Some((v1.len() - 1) as usize))] == v1[v1.len() - 2],
{
}

/// Deleting the job on the view's last row moves the tracker itself to the
/// new last row, never back to the top: the tracked id is gone from the
/// shrunken view, the stale row lies past its end, and the sync resolves to
/// its last row, re-tracking the id found there.
pub proof fn lemma_tracker_delete_last_row(
    jobs: JobSet,
    filter: Seq<char>,
    f: SortField,
    v1: Seq<u64>,
    v2: Seq<u64>,
)
    requires
        crate::view::is_view_of(v1, jobs, filter, f),
        2 <= v1.len() <= usize::MAX,
        v2 == v1.drop_last(),
    ensures
        !v2.contains(v1[v1.len() - 1]),
        synced_row(v2, Some(v1[v1.len() - 1]), Some((v1.len() - 1) as usize)) == Some(
            v2.len() - 1,
        ),
        synced_tracked(v2, Some(v1[v1.len() - 1]), Some((v1.len() - 1) as usize)) == Some(
            v2[v2.len() - 1],
        ),
{
    let id = v1[v1.len() - 1];
    if v2.contains(id) {
        let p = choose|p: int| 0 <= p < v2.len() && v2[p] == id;
        assert(v1[p] == id);
        // a second row holding the last row's id would break the strict order
        assert(crate::view::id_lt(jobs, f, v1[p], v1[v1.len() - 1]));
        assert(false);
    }
}

/// A sync validates the selection against the view it ran on: an empty view
/// clears the selection entirely, and on a non-empty view the resolved row
/// lies inside the view and holds the tracked id. A stale row index can
/// therefore never come back after the filter changes: whatever row the next
/// sync yields holds the id it re-tracked.
pub proof fn lemma_sync_validates_selection(view: Seq<u64>, sel: Option<u64>, stale: Option<
    usize,
>)
    ensures
        view.len() == 0 ==> synced_row(view, sel, stale) is None && synced_tracked(
            view,
            sel,
            stale,
        ) is None,
        view.len() > 0 ==> (match synced_row(view, sel, stale) {
            Some(r) => 0 <= r < view.len() && synced_tracked(view, sel, stale) == Some(view[r]),
            None => false,
        }),
{
    if view.len() > 0 {
        match sel {
            Some(id) => {
                if view.contains(id) {
                    view.index_of_first_ensures(id);
                }
            },
            None => {},
        }
    }
}

} // verus!
