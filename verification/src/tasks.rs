use vstd::prelude::*;

use crate::text::{dec_digits_signed, i64_to_dec, string_of};
use vstd::string::StringExecFns;

verus! {

/// Exit state of a finished task.
#[derive(Debug, Clone, Copy, PartialEq, Eq, Structural)]
pub enum TaskResult {
    Success,
    Failed(i32),
    Killed,
    Errored,
    DependencyFailed,
    /// Any other terminal outcome the daemon may report.
    Other,
}

/// Life-cycle state of a task, with timestamps kept separately on `Task`.
#[derive(Debug, Clone, Copy, PartialEq, Eq, Structural)]
pub enum TaskStatus {
    Locked,
    Stashed,
    Queued,
    Running,
    Paused,
    Done(TaskResult),
}

/// Strict bound on timestamps (seconds) the library accepts, so that
/// durations can be computed without overflow.
pub open spec fn ts_bound() -> int {
    0x2000_0000_0000_0000
}

/// One job of the remote queue, as this client models it: plain values only.
#[derive(Debug, Clone)]
pub struct Task {
    /// Stable identity of the job.
    pub id: u64,
    /// The command as currently displayed.
    pub command: String,
    /// The command as originally enqueued; a restart carries this one.
    pub original_command: String,
    /// Working directory, as displayed text.
    pub path: String,
    pub group: String,
    pub label: Option<String>,
    pub priority: i32,
    pub status: TaskStatus,
    /// Start time in seconds, if the task has started.
    pub start: Option<i64>,
    /// End time in seconds, if the task has finished.
    pub end: Option<i64>,
}

impl Task {
    /// Timestamps are bounded so that durations never overflow.
    pub open spec fn wf(self) -> bool {
        &&& (self.start matches Some(t) ==> -ts_bound() < t < ts_bound())
        &&& (self.end matches Some(t) ==> -ts_bound() < t < ts_bound())
    }

    pub open spec fn spec_is_done(&self) -> bool {
        self.status is Done
    }

    /// Whether the task has finished: such a task is restarted, not started.
    #[verifier::when_used_as_spec(spec_is_done)]
    pub fn is_done(&self) -> (r: bool)
        ensures
            r == self.spec_is_done(),
    {
        matches!(self.status, TaskStatus::Done(_))
    }

    pub open spec fn spec_is_active(&self) -> bool {
        self.status is Running || self.status is Paused
    }

    /// Whether the task has a live process: such a task may not be removed.
    #[verifier::when_used_as_spec(spec_is_active)]
    pub fn is_active(&self) -> (r: bool)
        ensures
            r == self.spec_is_active(),
    {
        matches!(self.status, TaskStatus::Running | TaskStatus::Paused)
    }
}

/// The display string of a status, exactly as the table shows it.
pub open spec fn status_chars(st: TaskStatus) -> Seq<char> {
    match st {
        TaskStatus::Locked => "Locked"@,
        TaskStatus::Stashed => "Stashed"@,
        TaskStatus::Queued => "Queued"@,
        TaskStatus::Running => "Running"@,
        TaskStatus::Paused => "Paused"@,
        TaskStatus::Done(r) => match r {
            TaskResult::Success => "Success"@,
            TaskResult::Failed(code) => "Failed ("@ + dec_digits_signed(code as int) + ")"@,
            TaskResult::Killed => "Killed"@,
            TaskResult::Errored => "Errored"@,
            TaskResult::DependencyFailed => "Dependency Failed"@,
            TaskResult::Other => "Done"@,
        },
    }
}

/// Renders a status for display; the result is exactly `status_chars`.
pub fn status_display(st: &TaskStatus) -> (r: String)
    ensures
        r@ == status_chars(*st),
{
    match st {
        TaskStatus::Locked => String::from_str("Locked"),
        TaskStatus::Stashed => String::from_str("Stashed"),
        TaskStatus::Queued => String::from_str("Queued"),
        TaskStatus::Running => String::from_str("Running"),
        TaskStatus::Paused => String::from_str("Paused"),
        TaskStatus::Done(r) => match r {
            TaskResult::Success => String::from_str("Success"),
            TaskResult::Failed(code) => {
                let digits = i64_to_dec(*code as i64);
                let mut s = String::from_str("Failed (");
                s.append(string_of(&digits).as_str());
                s.append(")");
                proof {
                    assert(s@ =~= "Failed ("@ + dec_digits_signed(*code as int) + ")"@);
                }
                s
            },
            TaskResult::Killed => String::from_str("Killed"),
            TaskResult::Errored => String::from_str("Errored"),
            TaskResult::DependencyFailed => String::from_str("Dependency Failed"),
            TaskResult::Other => String::from_str("Done"),
        },
    }
}

/// The snapshot of all jobs known to the daemon, replaced wholesale on each
/// refresh. Order of the vector is irrelevant to the view the table shows.
#[derive(Debug, Clone)]
pub struct JobSet {
    pub tasks: Vec<Task>,
}

impl JobSet {
    /// Ids are unique and every task is well formed.
    pub open spec fn wf(self) -> bool {
        &&& forall|i: int, j: int|
            0 <= i < j < self.tasks@.len() ==> self.tasks@[i].id != self.tasks@[j].id
        &&& forall|i: int| 0 <= i < self.tasks@.len() ==> (#[trigger] self.tasks@[i]).wf()
    }

    /// Whether some task has this id.
    pub open spec fn has_id(self, id: u64) -> bool {
        exists|i: int| 0 <= i < self.tasks@.len() && (#[trigger] self.tasks@[i]).id == id
    }

    /// The task with this id, if any.
    pub open spec fn spec_task_of(self, id: u64) -> Option<Task> {
        if self.has_id(id) {
            Some(self.tasks@[choose|i: int|
                0 <= i < self.tasks@.len() && (#[trigger] self.tasks@[i]).id == id])
        } else {
            None
        }
    }

    pub fn new() -> (r: JobSet)
        ensures
            r.wf(),
            r.tasks@.len() == 0,
    {
        JobSet { tasks: Vec::new() }
    }

    /// Looks a task up by id.
    pub fn task_of(&self, id: u64) -> (r: Option<&Task>)
        requires
            self.wf(),
        ensures
            match r {
                Some(t) => self.spec_task_of(id) == Some(*t),
                None => !self.has_id(id),
            },
    {
        let n = self.tasks.len();
        let mut i: usize = 0;
        while i < n
            invariant
                self.wf(),
                n == self.tasks@.len(),
                i <= n,
                forall|k: int| 0 <= k < i ==> (#[trigger] self.tasks@[k]).id != id,
            decreases n - i,
        {
            if self.tasks[i].id == id {
                proof {
                    let j = choose|j: int|
                        0 <= j < self.tasks@.len() && (#[trigger] self.tasks@[j]).id == id;
                    assert(self.tasks@[i as int].id == id);
                    assert(j == i as int);
                }
                return Some(&self.tasks[i]);
            }
            i = i + 1;
        }
        None
    }
}

} // verus!
