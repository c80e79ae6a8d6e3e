use vstd::prelude::*;
use vstd::string::*;

use crate::clock::{new_uuid, now_seconds};
use crate::text::{chars_of, same_text};

verus! {

pub const MSG_STARTING: &'static str = "Starting...";

pub const MSG_COMPLETED: &'static str = "Completed";

pub const MSG_CANCELLED: &'static str = "Cancelled by user";

/// State of a background task. `Completed`, `Failed` and `Cancelled` are final.
#[derive(Debug, Clone, Copy, PartialEq, Eq)]
pub enum TaskStatus {
    Running,
    Completed,
    Failed,
    Cancelled,
}

/// One background workflow invocation and its progress.
#[derive(Debug)]
pub struct TaskInfo {
    pub task_id: String,
    pub task_type: String,
    pub file_uuid: String,
    pub status: TaskStatus,
    /// Percent done, 0 to 100.
    pub progress: u8,
    pub message: String,
    /// Start time, in seconds since the Unix epoch (UTC).
    pub started_at: i64,
}

pub struct TaskView {
    pub task_id: Seq<char>,
    pub task_type: Seq<char>,
    pub file_uuid: Seq<char>,
    pub status: TaskStatus,
    pub progress: u8,
    pub message: Seq<char>,
    pub started_at: i64,
}

impl View for TaskInfo {
    type V = TaskView;

    open spec fn view(&self) -> TaskView {
        TaskView {
            task_id: self.task_id@,
            task_type: self.task_type@,
            file_uuid: self.file_uuid@,
            status: self.status,
            progress: self.progress,
            message: self.message@,
            started_at: self.started_at,
        }
    }
}

impl TaskInfo {
    /// A field-by-field copy.
    pub fn duplicate(&self) -> (r: TaskInfo)
        ensures
            r@ == self@,
    {
        TaskInfo {
            task_id: self.task_id.clone(),
            task_type: self.task_type.clone(),
            file_uuid: self.file_uuid.clone(),
            status: self.status,
            progress: self.progress,
            message: self.message.clone(),
            started_at: self.started_at,
        }
    }
}

/// Index of the task with id `id` from `i` on, or -1.
pub open spec fn task_from(ts: Seq<TaskView>, id: Seq<char>, i: int) -> int
    decreases ts.len() - i,
{
    if i < 0 || i >= ts.len() {
        -1
    } else if ts[i].task_id == id {
        i
    } else {
        task_from(ts, id, i + 1)
    }
}

/// Index of the task with id `id`, or -1.
pub open spec fn task_index(ts: Seq<TaskView>, id: Seq<char>) -> int {
    task_from(ts, id, 0)
}

/// No two tasks share an id.
pub open spec fn unique_ids(ts: Seq<TaskView>) -> bool {
    forall|j: int, k: int|
        0 <= j < ts.len() && 0 <= k < ts.len() && j != k ==> (#[trigger] ts[j]).task_id != (
        #[trigger] ts[k]).task_id
}

/// The tasks after `t` was stored: it replaces the task with its id, or comes last.
pub open spec fn stored(ts: Seq<TaskView>, t: TaskView) -> Seq<TaskView> {
    let i = task_index(ts, t.task_id);
    if i >= 0 {
        ts.update(i, t)
    } else {
        ts.push(t)
    }
}

/// The tasks after task `id`, if there is one, was replaced by `t`.
pub open spec fn changed(ts: Seq<TaskView>, id: Seq<char>, t: TaskView) -> Seq<TaskView> {
    let i = task_index(ts, id);
    if i >= 0 {
        ts.update(i, t)
    } else {
        ts
    }
}

/// Registry of background tasks, in memory only. Operations on an unknown id do nothing.
pub struct JobManager {
    tasks: Vec<TaskInfo>,
}

pub open spec fn task_views(v: Seq<TaskInfo>) -> Seq<TaskView> {
    v.map_values(|t: TaskInfo| t@)
}

impl View for JobManager {
    type V = Seq<TaskView>;

    closed spec fn view(&self) -> Seq<TaskView> {
        task_views(self.tasks@)
    }
}

proof fn lemma_task_from(ts: Seq<TaskView>, id: Seq<char>, i: int)
    requires
        0 <= i,
    ensures
        task_from(ts, id, i) == -1 ==> forall|j: int| i <= j < ts.len() ==> (#[trigger] ts[j]).task_id != id,
        task_from(ts, id, i) != -1 ==> i <= task_from(ts, id, i) < ts.len() && ts[task_from(ts, id, i)].task_id == id,
    decreases ts.len() - i,
{
    if i < ts.len() {
        lemma_task_from(ts, id, i + 1);
    }
}

impl JobManager {
    /// No two tasks share an id.
    pub open spec fn wf(&self) -> bool {
        unique_ids(self@)
    }

    /// An empty registry.
    pub fn new() -> (r: JobManager)
        ensures
            r.wf(),
            r@ == Seq::<TaskView>::empty(),
    {
        let r = JobManager { tasks: Vec::new() };
        assert(r@ =~= Seq::<TaskView>::empty());
        r
    }

    fn find(&self, id: &str) -> (r: Option<usize>)
        ensures
            match r {
                Some(i) => i < self@.len() && i as int == task_index(self@, id@),
                None => task_index(self@, id@) == -1,
            },
    {
        let mut i: usize = 0;
        while i < self.tasks.len()
            invariant
                i <= self.tasks@.len(),
                task_index(self@, id@) == task_from(self@, id@, i as int),
            decreases self.tasks@.len() - i,
        {
            if same_text(self.tasks[i].task_id.as_str(), id) {
                return Some(i);
            }
            i = i + 1;
        }
        None
    }

    fn set_at(&mut self, i: usize, t: TaskInfo)
        requires
            i < old(self)@.len(),
            old(self).wf(),
            t@.task_id == old(self)@[i as int].task_id,
        ensures
            final(self).wf(),
            final(self)@ == old(self)@.update(i as int, t@),
    {
        self.tasks.remove(i);
        self.tasks.insert(i, t);
        assert(self@ =~= old(self)@.update(i as int, t@));
    }

    /// Stores `task`: it replaces the task with the same id, or is added last.
    pub fn insert_task(&mut self, task: TaskInfo)
        requires
            old(self).wf(),
        ensures
            final(self).wf(),
            final(self)@ == stored(old(self)@, task@),
    {
        match self.find(task.task_id.as_str()) {
            Some(i) => {
                proof {
                    lemma_task_from(self@, task@.task_id, 0);
                }
                self.set_at(i, task);
            },
            None => {
                proof {
                    lemma_task_from(self@, task@.task_id, 0);
                }
                let ghost before = self@;
                self.tasks.push(task);
                assert(self@ =~= before.push(task@));
            },
        }
    }

    /// Length of the longest task id.
    fn longest_id(&self) -> (r: usize)
        ensures
            forall|k: int| 0 <= k < self@.len() ==> (#[trigger] self@[k]).task_id.len() <= r,
    {
        let mut longest: usize = 0;
        let mut i: usize = 0;
        while i < self.tasks.len()
            invariant
                i <= self.tasks@.len(),
                forall|k: int| 0 <= k < i ==> (#[trigger] self@[k]).task_id.len() <= longest,
            decreases self.tasks@.len() - i,
        {
            let n = chars_of(self.tasks[i].task_id.as_str()).len();
            if n > longest {
                longest = n;
            }
            i = i + 1;
        }
        longest
    }

    /// An id that no task has: `candidate`, lengthened with `-` while a task has it.
    fn fresh_id(&self, candidate: String) -> (r: String)
        ensures
            task_index(self@, r@) == -1,
    {
        let longest = self.longest_id();
        let mut id = candidate;
        loop
            invariant
                forall|k: int| 0 <= k < self@.len() ==> (#[trigger] self@[k]).task_id.len()
                    <= longest,
            ensures
                task_index(self@, id@) == -1,
            decreases longest + 1 - id@.len(),
        {
            if self.find(id.as_str()).is_none() {
                break;
            }
            proof {
                lemma_task_from(self@, id@, 0);
                let k = task_index(self@, id@);
                assert(self@[k].task_id == id@);
                assert(id@.len() <= longest);
                reveal_strlit("-");
            }
            let ghost before = id@.len();
            id.append("-");
            assert(id@.len() == before + 1);
        }
        id
    }

    /// Starts tracking a new running task of type `task_type` on file `file_uuid`, under a
    /// random id that no task has yet, which it returns. Existing tasks are unchanged.
    pub fn create_task(&mut self, task_type: String, file_uuid: String) -> (id: String)
        requires
            old(self).wf(),
        ensures
            final(self).wf(),
            task_index(old(self)@, id@) == -1,
            exists|t: i64|
                final(self)@ == old(self)@.push(
                    TaskView {
                        task_id: id@,
                        task_type: task_type@,
                        file_uuid: file_uuid@,
                        status: TaskStatus::Running,
                        progress: 0,
                        message: MSG_STARTING@,
                        started_at: t,
                    },
                ),
    {
        let id = self.fresh_id(new_uuid());
        let started_at = now_seconds();
        let task = TaskInfo {
            task_id: id.clone(),
            task_type,
            file_uuid,
            status: TaskStatus::Running,
            progress: 0,
            message: MSG_STARTING.to_owned(),
            started_at,
        };
        self.insert_task(task);
        id
    }

    /// Sets the progress and message of task `task_id`, if it is known.
    pub fn update_progress(&mut self, task_id: &str, progress: u8, message: String)
        requires
            old(self).wf(),
        ensures
            final(self).wf(),
            final(self)@ == changed(
                old(self)@,
                task_id@,
                TaskView { progress, message: message@, ..old(self)@[task_index(old(self)@, task_id@)] },
            ),
    {
        if let Some(i) = self.find(task_id) {
            let mut t = self.tasks[i].duplicate();
            t.progress = progress;
            t.message = message;
            self.set_at(i, t);
        }
    }

    /// Marks task `task_id`, if it is known, completed at 100%.
    pub fn complete_task(&mut self, task_id: &str)
        requires
            old(self).wf(),
        ensures
            final(self).wf(),
            final(self)@ == changed(
                old(self)@,
                task_id@,
                TaskView {
                    status: TaskStatus::Completed,
                    progress: 100,
                    message: MSG_COMPLETED@,
                    ..old(self)@[task_index(old(self)@, task_id@)]
                },
            ),
    {
        if let Some(i) = self.find(task_id) {
            let mut t = self.tasks[i].duplicate();
            t.status = TaskStatus::Completed;
            t.progress = 100;
            t.message = MSG_COMPLETED.to_owned();
            self.set_at(i, t);
        }
    }

    /// Marks task `task_id`, if it is known, failed with message `error`.
    pub fn fail_task(&mut self, task_id: &str, error: String)
        requires
            old(self).wf(),
        ensures
            final(self).wf(),
            final(self)@ == changed(
                old(self)@,
                task_id@,
                TaskView {
                    status: TaskStatus::Failed,
                    message: error@,
                    ..old(self)@[task_index(old(self)@, task_id@)]
                },
            ),
    {
        if let Some(i) = self.find(task_id) {
            let mut t = self.tasks[i].duplicate();
            t.status = TaskStatus::Failed;
            t.message = error;
            self.set_at(i, t);
        }
    }

    /// Marks task `task_id` cancelled, if it is known; returns whether it was. Nothing
    /// that runs is stopped.
    pub fn cancel_task(&mut self, task_id: &str) -> (found: bool)
        requires
            old(self).wf(),
        ensures
            final(self).wf(),
            found <==> task_index(old(self)@, task_id@) >= 0,
            final(self)@ == changed(
                old(self)@,
                task_id@,
                TaskView {
                    status: TaskStatus::Cancelled,
                    message: MSG_CANCELLED@,
                    ..old(self)@[task_index(old(self)@, task_id@)]
                },
            ),
    {
        if let Some(i) = self.find(task_id) {
            let mut t = self.tasks[i].duplicate();
            t.status = TaskStatus::Cancelled;
            t.message = MSG_CANCELLED.to_owned();
            self.set_at(i, t);
            true
        } else {
            false
        }
    }

    /// A copy of every known task.
    pub fn get_tasks(&self) -> (r: Vec<TaskInfo>)
        ensures
            task_views(r@) == self@,
    {
        let mut out: Vec<TaskInfo> = Vec::new();
        let mut i: usize = 0;
        while i < self.tasks.len()
            invariant
                i <= self.tasks@.len(),
                out@.len() == i,
                forall|k: int| 0 <= k < i ==> (#[trigger] out@[k])@ == self@[k],
            decreases self.tasks@.len() - i,
        {
            out.push(self.tasks[i].duplicate());
            i = i + 1;
        }
        assert(task_views(out@) =~= self@);
        out
    }
}

} // verus!
