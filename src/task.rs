use vstd::prelude::*;

use crate::config::{MAX_APP_NUM, MAX_SYSCALL_NUM};
use crate::syscall::SYSCALL_ID_LIST;

verus! {

/// Life cycle of a task. `Exited` is terminal.
#[derive(Copy, Clone, PartialEq, Eq, Structural, Debug)]
pub enum TaskStatus {
    UnInit,
    Ready,
    Running,
    Exited,
}

/// Per-task bookkeeping of the registry. The saved register context is kept
/// by the platform layer, indexed by task id.
#[derive(Copy, Clone)]
pub struct TaskControlBlock {
    pub task_status: TaskStatus,
    /// Syscall ids that are counted, the same for every task.
    pub syscall_ids: [usize; MAX_SYSCALL_NUM],
    /// `syscall_times[i]` is how often the task invoked `syscall_ids[i]`.
    pub syscall_times: [usize; MAX_SYSCALL_NUM],
    /// Clock reading when the task was last switched in.
    pub task_current_time: usize,
    /// Total time the task has spent running, updated on each switch-out.
    pub task_time: usize,
}

/// Immutable copy of one task's bookkeeping, handed out to user space.
#[derive(Copy, Clone, Debug)]
pub struct TaskInfo {
    pub id: usize,
    pub status: TaskStatus,
    pub syscall_ids: [usize; MAX_SYSCALL_NUM],
    pub syscall_times: [usize; MAX_SYSCALL_NUM],
    pub time: usize,
}

impl TaskInfo {
    /// This record is a copy of the current task's bookkeeping in `s`.
    pub open spec fn is_snapshot_of(self, s: ManagerView) -> bool {
        let t = s.tasks[s.current as int];
        &&& self.id == s.current
        &&& self.status == t.status
        &&& self.syscall_ids@ == t.syscall_ids
        &&& self.syscall_times@ == t.syscall_times
        &&& self.time == t.time
    }
}

/// A syscall id paired with how often it was invoked.
#[derive(Copy, Clone)]
pub struct SyscallInfo(pub usize, pub usize);

/// A table of `MAX_SYSCALL_NUM` zeros.
pub open spec fn zero_counts() -> Seq<usize> {
    Seq::new(MAX_SYSCALL_NUM as nat, |_i: int| 0usize)
}

/// Mathematical model of a task control block.
pub struct TaskView {
    pub status: TaskStatus,
    pub syscall_ids: Seq<usize>,
    pub syscall_times: Seq<usize>,
    pub burst_start: nat,
    pub time: nat,
}

impl View for TaskControlBlock {
    type V = TaskView;

    open spec fn view(&self) -> TaskView {
        TaskView {
            status: self.task_status,
            syscall_ids: self.syscall_ids@,
            syscall_times: self.syscall_times@,
            burst_start: self.task_current_time as nat,
            time: self.task_time as nat,
        }
    }
}

impl TaskView {
    pub open spec fn well_formed(self, clock: nat) -> bool {
        &&& self.syscall_ids.len() == MAX_SYSCALL_NUM
        &&& self.syscall_times.len() == MAX_SYSCALL_NUM
        &&& self.burst_start <= clock
        &&& self.time <= clock
    }
}

/// Mathematical model of the task registry.
pub struct ManagerView {
    pub num_app: nat,
    pub tasks: Seq<TaskView>,
    pub current: nat,
    /// Clock reading of the latest switch.
    pub clock: nat,
}

impl ManagerView {
    pub open spec fn wf(self) -> bool {
        &&& self.tasks.len() == MAX_APP_NUM
        &&& self.num_app <= MAX_APP_NUM
        &&& (self.current < self.num_app || self.current == 0)
        &&& self.clock <= usize::MAX
        &&& forall|i: int|
            0 <= i < self.tasks.len() ==> #[trigger] self.tasks[i].well_formed(self.clock)
        &&& forall|i: int|
            0 <= i < self.tasks.len() && self.tasks[i].status == TaskStatus::Running ==> i
                == self.current && i < self.num_app
        &&& forall|i: int|
            0 <= i < self.num_app ==> #[trigger] self.tasks[i].syscall_ids == SYSCALL_ID_LIST@
        &&& self.tasks[self.current as int].time <= self.tasks[self.current as int].burst_start
    }

    pub open spec fn is_ready(self, i: int) -> bool {
        self.tasks[i].status == TaskStatus::Ready
    }

    /// The task `k` places after the current one, cyclically.
    pub open spec fn index_after(self, k: int) -> int {
        (self.current + k) % (self.num_app as int)
    }

    /// First Ready task among the offsets `k ..= num_app` after the current one.
    pub open spec fn first_ready_from(self, k: int) -> Option<int>
        decreases self.num_app + 1 - k,
    {
        if k < 1 || k > self.num_app {
            None
        } else if self.is_ready(self.index_after(k)) {
            Some(self.index_after(k))
        } else {
            self.first_ready_from(k + 1)
        }
    }

    /// Round-robin choice: the first Ready task after the current one.
    pub open spec fn next_task(self) -> Option<int> {
        self.first_ready_from(1)
    }

    pub open spec fn with_current_status(self, s: TaskStatus) -> ManagerView {
        let cur = self.current as int;
        ManagerView {
            tasks: self.tasks.update(cur, TaskView { status: s, ..self.tasks[cur] }),
            ..self
        }
    }

    /// The current task gives up the processor: a Running task becomes
    /// Ready, any other status stays as it is.
    pub open spec fn suspended(self) -> ManagerView {
        if self.tasks[self.current as int].status == TaskStatus::Running {
            self.with_current_status(TaskStatus::Ready)
        } else {
            self
        }
    }

    pub open spec fn exited(self) -> ManagerView {
        self.with_current_status(TaskStatus::Exited)
    }

    /// Switch from the current task to `next` at clock reading `now`: the
    /// outgoing burst is added to the outgoing task's time, and `next` runs
    /// with a burst starting at `now`.
    pub open spec fn switched(self, next: int, now: nat) -> ManagerView {
        let cur = self.current as int;
        let out = TaskView {
            time: self.tasks[cur].time + (now - self.tasks[cur].burst_start) as nat,
            ..self.tasks[cur]
        };
        let t1 = self.tasks.update(cur, out);
        let t2 = t1.update(next, TaskView { status: TaskStatus::Running, burst_start: now, ..t1[next] });
        ManagerView { tasks: t2, current: next as nat, clock: now, ..self }
    }

    pub open spec fn run_next(self, now: nat) -> ManagerView {
        match self.next_task() {
            Some(next) => self.switched(next, now),
            None => self,
        }
    }

    /// State after the current task yields at clock reading `now`.
    pub open spec fn yielded(self, now: nat) -> ManagerView {
        self.suspended().run_next(now)
    }

    /// State after the current task exits at clock reading `now`.
    pub open spec fn exited_then(self, now: nat) -> ManagerView {
        self.exited().run_next(now)
    }

    /// Every task that is Exited in `self` is still Exited in `later`.
    pub open spec fn exited_kept(self, later: ManagerView) -> bool {
        forall|i: int|
            0 <= i < self.tasks.len() && self.tasks[i].status == TaskStatus::Exited
                ==> #[trigger] later.tasks[i].status == TaskStatus::Exited
    }

    /// Task 0 can be started: it is loaded, Ready and selected.
    pub open spec fn can_start(self) -> bool {
        0 < self.num_app && self.tasks[0].status == TaskStatus::Ready && self.current == 0
    }

    pub open spec fn started(self, now: nat) -> ManagerView {
        ManagerView {
            tasks: self.tasks.update(
                0,
                TaskView { status: TaskStatus::Running, burst_start: now, ..self.tasks[0] },
            ),
            current: 0,
            clock: now,
            ..self
        }
    }

    /// Recording syscall `id` for the current task would not overflow a counter.
    pub open spec fn can_record(self, id: usize) -> bool {
        let t = self.tasks[self.current as int];
        forall|i: int|
            0 <= i < t.syscall_ids.len() && t.syscall_ids[i] == id ==> t.syscall_times[i]
                < usize::MAX
    }

    /// Counters after the current task invoked syscall `id`: every entry
    /// whose id matches goes up by one.
    pub open spec fn counted(t: TaskView, id: usize) -> Seq<usize> {
        Seq::new(
            t.syscall_times.len(),
            |i: int|
                if t.syscall_ids[i] == id {
                    (t.syscall_times[i] + 1) as usize
                } else {
                    t.syscall_times[i]
                },
        )
    }

    pub open spec fn recorded(self, id: usize) -> ManagerView {
        let cur = self.current as int;
        let t = self.tasks[cur];
        ManagerView {
            tasks: self.tasks.update(
                cur,
                TaskView { syscall_times: Self::counted(t, id), ..t },
            ),
            ..self
        }
    }
}

/// The task registry: a fixed table of task control blocks and the index of
/// the current task. Exclusive access is given by `&mut`.
pub struct TaskManager {
    num_app: usize,
    tasks: Vec<TaskControlBlock>,
    current_task: usize,
    clock: usize,
}

impl View for TaskManager {
    type V = ManagerView;

    closed spec fn view(&self) -> ManagerView {
        ManagerView {
            num_app: self.num_app as nat,
            tasks: self.tasks@.map_values(|t: TaskControlBlock| t@),
            current: self.current_task as nat,
            clock: self.clock as nat,
        }
    }
}

impl TaskManager {
    pub open spec fn wf(&self) -> bool {
        self@.wf()
    }

    /// Registry for `num_app` loaded tasks: each is Ready with zeroed
    /// counters and time, the slots beyond stay UnInit, task 0 is current.
    pub fn new(num_app: usize) -> (r: TaskManager)
        requires
            num_app <= MAX_APP_NUM,
        ensures
            r.wf(),
            r@.num_app == num_app,
            r@.current == 0,
            r@.clock == 0,
            forall|i: int|
                0 <= i < MAX_APP_NUM ==> {
                    let t = #[trigger] r@.tasks[i];
                    &&& t.status == (if i < num_app {
                        TaskStatus::Ready
                    } else {
                        TaskStatus::UnInit
                    })
                    &&& t.syscall_ids == (if i < num_app {
                        SYSCALL_ID_LIST@
                    } else {
                        zero_counts()
                    })
                    &&& t.syscall_times == zero_counts()
                    &&& t.burst_start == 0
                    &&& t.time == 0
                },
    {
        let mut tasks: Vec<TaskControlBlock> = Vec::new();
        let mut i: usize = 0;
        while i < MAX_APP_NUM
            invariant
                i <= MAX_APP_NUM,
                tasks@.len() == i,
                forall|j: int|
                    0 <= j < i ==> {
                        let t = #[trigger] tasks@[j]@;
                        &&& t.status == (if j < num_app {
                            TaskStatus::Ready
                        } else {
                            TaskStatus::UnInit
                        })
                        &&& t.syscall_ids == (if j < num_app {
                            SYSCALL_ID_LIST@
                        } else {
                            zero_counts()
                        })
                        &&& t.syscall_times == zero_counts()
                        &&& t.burst_start == 0
                        &&& t.time == 0
                    },
            decreases MAX_APP_NUM - i,
        {
            let tcb = if i < num_app {
                TaskControlBlock {
                    task_status: TaskStatus::Ready,
                    syscall_ids: SYSCALL_ID_LIST,
                    syscall_times: [0; MAX_SYSCALL_NUM],
                    task_current_time: 0,
                    task_time: 0,
                }
            } else {
                TaskControlBlock {
                    task_status: TaskStatus::UnInit,
                    syscall_ids: [0; MAX_SYSCALL_NUM],
                    syscall_times: [0; MAX_SYSCALL_NUM],
                    task_current_time: 0,
                    task_time: 0,
                }
            };
            proof {
                assert(tcb.syscall_times@ =~= zero_counts());
                if i >= num_app {
                    assert(tcb.syscall_ids@ =~= zero_counts());
                }
            }
            tasks.push(tcb);
            i += 1;
        }
        TaskManager { num_app, tasks, current_task: 0, clock: 0 }
    }

    /// Number of loaded tasks.
    pub fn num_app(&self) -> (r: usize)
        ensures
            r == self@.num_app,
    {
        self.num_app
    }

    /// Clock reading of the latest switch; later readings must not be smaller.
    pub fn clock(&self) -> (r: usize)
        ensures
            r == self@.clock,
    {
        self.clock
    }

    /// Status of task `id`.
    pub fn task_status(&self, id: usize) -> (r: TaskStatus)
        requires
            self.wf(),
            id < MAX_APP_NUM,
        ensures
            r == self@.tasks[id as int].status,
    {
        self.tasks[id].task_status
    }

    proof fn lemma_exited_kept_after(&self, s: ManagerView, now: nat)
        requires
            s.wf(),
            self@ == s.yielded(now) || self@ == s.exited_then(now),
        ensures
            s.exited_kept(self@),
    {
        assert forall|i: int|
            0 <= i < s.tasks.len() && s.tasks[i].status == TaskStatus::Exited implies #[trigger] self@.tasks[i].status
                == TaskStatus::Exited by {
            crate::theorems::lemma_exited_is_terminal(s, i, now, 0);
        }
    }

    proof fn lemma_view_index(&self, i: int)
        requires
            0 <= i < self.tasks@.len(),
        ensures
            self@.tasks[i] == self.tasks@[i]@,
    {
    }

    /// Selects task 0 for the first dispatch at clock reading `now`. Returns
    /// false, changing nothing, when no task was loaded, or when task 0 is
    /// not Ready or not selected (tasks already ran).
    pub fn run_first_task(&mut self, now: usize) -> (r: bool)
        requires
            old(self).wf(),
            now >= old(self)@.clock,
        ensures
            final(self).wf(),
            r == old(self)@.can_start(),
            final(self)@ == (if r {
                old(self)@.started(now as nat)
            } else {
                old(self)@
            }),
    {
        proof {
            self.lemma_view_index(0);
        }
        if self.num_app == 0 || self.current_task != 0 || self.tasks[0].task_status
            != TaskStatus::Ready {
            return false;
        }
        let mut t = self.tasks[0];
        t.task_status = TaskStatus::Running;
        t.task_current_time = now;
        self.tasks.set(0, t);
        self.clock = now;
        proof {
            assert(self@.tasks =~= old(self)@.started(now as nat).tasks);
            lemma_started_wf(old(self)@, now as nat);
        }
        true
    }

    /// Sets the status of the current task to `s`.
    fn set_current_status(&mut self, s: TaskStatus)
        requires
            old(self).wf(),
        ensures
            final(self)@ == old(self)@.with_current_status(s),
    {
        let cur = self.current_task;
        proof {
            self.lemma_view_index(cur as int);
        }
        let mut t = self.tasks[cur];
        t.task_status = s;
        self.tasks.set(cur, t);
        proof {
            assert(self@.tasks =~= old(self)@.with_current_status(s).tasks);
        }
    }

    /// A Running current task becomes Ready; any other status is kept.
    pub fn mark_current_suspended(&mut self)
        requires
            old(self).wf(),
        ensures
            final(self).wf(),
            final(self)@ == old(self)@.suspended(),
    {
        let cur = self.current_task;
        proof {
            self.lemma_view_index(cur as int);
        }
        if self.tasks[cur].task_status == TaskStatus::Running {
            self.set_current_status(TaskStatus::Ready);
            proof {
                lemma_status_change_wf(old(self)@, TaskStatus::Ready);
            }
        }
    }

    /// The current task becomes Exited.
    pub fn mark_current_exited(&mut self)
        requires
            old(self).wf(),
        ensures
            final(self).wf(),
            final(self)@ == old(self)@.exited(),
    {
        self.set_current_status(TaskStatus::Exited);
        proof {
            lemma_status_change_wf(old(self)@, TaskStatus::Exited);
        }
    }

    /// Round-robin choice of the next Ready task, scanning the tasks after
    /// the current one cyclically.
    pub fn find_next_task(&self) -> (r: Option<usize>)
        requires
            self.wf(),
        ensures
            match r {
                Some(i) => self@.next_task() == Some(i as int),
                None => self@.next_task() == None::<int>,
            },
    {
        let n = self.num_app;
        let cur = self.current_task;
        if n == 0 {
            return None;
        }
        let mut k: usize = 1;
        while k <= n
            invariant
                self.wf(),
                1 <= k <= n + 1,
                n == self@.num_app,
                cur == self@.current,
                n <= MAX_APP_NUM,
                cur < n,
                self@.next_task() == self@.first_ready_from(k as int),
            decreases n + 1 - k,
        {
            let id = (cur + k) % n;
            proof {
                self.lemma_view_index(id as int);
            }
            if self.tasks[id].task_status == TaskStatus::Ready {
                return Some(id);
            }
            k += 1;
        }
        None
    }

    /// Switches from the current task to the next Ready one at clock reading
    /// `now`, returning the ids of the outgoing and incoming tasks, or None
    /// when no task is Ready.
    fn run_next_task(&mut self, now: usize) -> (r: Option<(usize, usize)>)
        requires
            old(self).wf(),
            now >= old(self)@.clock,
            old(self)@.tasks[old(self)@.current as int].status != TaskStatus::Running,
        ensures
            final(self).wf(),
            final(self)@ == old(self)@.run_next(now as nat),
            match r {
                Some((from, to)) => from == old(self)@.current && old(self)@.next_task() == Some(
                    to as int,
                ),
                None => old(self)@.next_task() == None::<int>,
            },
    {
        match self.find_next_task() {
            Some(next) => {
                proof {
                    lemma_first_ready_is_ready(self@, 1);
                }
                let cur = self.current_task;
                proof {
                    self.lemma_view_index(cur as int);
                    self.lemma_view_index(next as int);
                    assert(self@.tasks[cur as int].well_formed(self@.clock));
                }
                let mut out = self.tasks[cur];
                out.task_time = out.task_time + (now - out.task_current_time);
                self.tasks.set(cur, out);
                let mut inc = self.tasks[next];
                inc.task_status = TaskStatus::Running;
                inc.task_current_time = now;
                self.tasks.set(next, inc);
                self.current_task = next;
                self.clock = now;
                proof {
                    assert(self@.tasks =~= old(self)@.switched(next as int, now as nat).tasks);
                    lemma_switched_wf(old(self)@, next as int, now as nat);
                }
                Some((cur, next))
            },
            None => None,
        }
    }

    /// The current task yields: it becomes Ready and the next Ready task
    /// (possibly itself) is switched in at clock reading `now`.
    pub fn suspend_current_and_run_next(&mut self, now: usize) -> (r: Option<(usize, usize)>)
        requires
            old(self).wf(),
            now >= old(self)@.clock,
        ensures
            final(self).wf(),
            final(self)@ == old(self)@.yielded(now as nat),
            old(self)@.exited_kept(final(self)@),
            r is Some ==> final(self)@.tasks[final(self)@.current as int].status == TaskStatus::Running,
            match r {
                Some((from, to)) => from == old(self)@.current && old(self)@.suspended().next_task()
                    == Some(to as int),
                None => old(self)@.suspended().next_task() == None::<int>,
            },
    {
        self.mark_current_suspended();
        let r = self.run_next_task(now);
        proof {
            self.lemma_exited_kept_after(old(self)@, now as nat);
        }
        r
    }

    /// The current task exits and the next Ready task is switched in at
    /// clock reading `now`; None when no task is Ready.
    pub fn exit_current_and_run_next(&mut self, now: usize) -> (r: Option<(usize, usize)>)
        requires
            old(self).wf(),
            now >= old(self)@.clock,
        ensures
            final(self).wf(),
            final(self)@ == old(self)@.exited_then(now as nat),
            old(self)@.exited_kept(final(self)@),
            r is Some ==> final(self)@.tasks[final(self)@.current as int].status == TaskStatus::Running,
            match r {
                Some((from, to)) => from == old(self)@.current && old(self)@.exited().next_task()
                    == Some(to as int),
                None => old(self)@.exited().next_task() == None::<int>,
            },
    {
        self.mark_current_exited();
        let r = self.run_next_task(now);
        proof {
            self.lemma_exited_kept_after(old(self)@, now as nat);
        }
        r
    }

    /// Counts one invocation of syscall `id` for the current task.
    pub fn inc_syscall_times(&mut self, id: usize)
        requires
            old(self).wf(),
            old(self)@.can_record(id),
        ensures
            final(self).wf(),
            final(self)@ == old(self)@.recorded(id),
    {
        let cur = self.current_task;
        proof {
            self.lemma_view_index(cur as int);
        }
        let mut t = self.tasks[cur];
        let ids = t.syscall_ids;
        let mut times = t.syscall_times;
        let ghost t0 = t@;
        let mut i: usize = 0;
        while i < MAX_SYSCALL_NUM
            invariant
                i <= MAX_SYSCALL_NUM,
                t0 == old(self)@.tasks[cur as int],
                t0.well_formed(old(self)@.clock),
                ids@ == t0.syscall_ids,
                old(self)@.can_record(id),
                cur == old(self)@.current,
                forall|j: int| 0 <= j < i ==> times@[j] == ManagerView::counted(t0, id)[j],
                forall|j: int| i <= j < MAX_SYSCALL_NUM ==> times@[j] == t0.syscall_times[j],
            decreases MAX_SYSCALL_NUM - i,
        {
            if ids[i] == id {
                times[i] = times[i] + 1;
            }
            i += 1;
        }
        t.syscall_times = times;
        self.tasks.set(cur, t);
        proof {
            assert(times@ =~= ManagerView::counted(t0, id));
            assert(self@.tasks =~= old(self)@.recorded(id).tasks);
            lemma_recorded_wf(old(self)@, id);
        }
    }

    /// Index of the current task.
    pub fn get_current_task_id(&self) -> (r: usize)
        ensures
            r == self@.current,
    {
        self.current_task
    }

    /// Snapshot of the current task's bookkeeping.
    pub fn get_current_task_info(&self) -> (r: TaskInfo)
        requires
            self.wf(),
        ensures
            r.is_snapshot_of(self@),
            r.status == TaskStatus::Running ==> r.id < self@.num_app,
            r.id < self@.num_app ==> r.syscall_ids@ == SYSCALL_ID_LIST@,
    {
        let cur = self.current_task;
        proof {
            self.lemma_view_index(cur as int);
        }
        proof {
            if cur < self.num_app {
                assert(self@.tasks[cur as int].syscall_ids == SYSCALL_ID_LIST@);
            }
        }
        let t = self.tasks[cur];
        TaskInfo {
            id: cur,
            status: t.task_status,
            syscall_ids: t.syscall_ids,
            syscall_times: t.syscall_times,
            time: t.task_time,
        }
    }
}

/// Starts task 0 of `tm` at clock reading `now`; false when it cannot start.
pub fn run_first_task(tm: &mut TaskManager, now: usize) -> (r: bool)
    requires
        old(tm).wf(),
        now >= old(tm)@.clock,
    ensures
        final(tm).wf(),
        r == old(tm)@.can_start(),
        final(tm)@ == (if r {
            old(tm)@.started(now as nat)
        } else {
            old(tm)@
        }),
{
    tm.run_first_task(now)
}

/// The current task of `tm` yields at clock reading `now`.
pub fn suspend_current_and_run_next(tm: &mut TaskManager, now: usize) -> (r: Option<(usize, usize)>)
    requires
        old(tm).wf(),
        now >= old(tm)@.clock,
    ensures
        final(tm).wf(),
        final(tm)@ == old(tm)@.yielded(now as nat),
        old(tm)@.exited_kept(final(tm)@),
        r is Some ==> final(tm)@.tasks[final(tm)@.current as int].status == TaskStatus::Running,
        match r {
            Some((from, to)) => from == old(tm)@.current && old(tm)@.suspended().next_task()
                == Some(to as int),
            None => old(tm)@.suspended().next_task() == None::<int>,
        },
{
    tm.suspend_current_and_run_next(now)
}

/// The current task of `tm` exits at clock reading `now`.
pub fn exit_current_and_run_next(tm: &mut TaskManager, now: usize) -> (r: Option<(usize, usize)>)
    requires
        old(tm).wf(),
        now >= old(tm)@.clock,
    ensures
        final(tm).wf(),
        final(tm)@ == old(tm)@.exited_then(now as nat),
        old(tm)@.exited_kept(final(tm)@),
        r is Some ==> final(tm)@.tasks[final(tm)@.current as int].status == TaskStatus::Running,
        match r {
            Some((from, to)) => from == old(tm)@.current && old(tm)@.exited().next_task() == Some(
                to as int,
            ),
            None => old(tm)@.exited().next_task() == None::<int>,
        },
{
    tm.exit_current_and_run_next(now)
}

/// Counts one invocation of syscall `id` for the current task of `tm`.
pub fn inc_syscall_times(tm: &mut TaskManager, id: usize)
    requires
        old(tm).wf(),
        old(tm)@.can_record(id),
    ensures
        final(tm).wf(),
        final(tm)@ == old(tm)@.recorded(id),
{
    tm.inc_syscall_times(id)
}

/// Index of the current task of `tm`.
pub fn get_current_task_id(tm: &TaskManager) -> (r: usize)
    ensures
        r == tm@.current,
{
    tm.get_current_task_id()
}

/// Snapshot of the current task of `tm`.
pub fn get_task_info(tm: &TaskManager) -> (r: TaskInfo)
    requires
        tm.wf(),
    ensures
        r.is_snapshot_of(tm@),
        r.status == TaskStatus::Running ==> r.id < tm@.num_app,
        r.id < tm@.num_app ==> r.syscall_ids@ == SYSCALL_ID_LIST@,
{
    tm.get_current_task_info()
}

proof fn lemma_status_change_wf(s: ManagerView, st: TaskStatus)
    requires
        s.wf(),
        st != TaskStatus::Running,
    ensures
        s.with_current_status(st).wf(),
{
    let r = s.with_current_status(st);
    assert forall|i: int| 0 <= i < r.tasks.len() implies #[trigger] r.tasks[i].well_formed(
        r.clock,
    ) by {
        assert(s.tasks[i].well_formed(s.clock));
    }
}

proof fn lemma_started_wf(s: ManagerView, now: nat)
    requires
        s.wf(),
        s.can_start(),
        s.clock <= now <= usize::MAX,
    ensures
        s.started(now).wf(),
{
    let r = s.started(now);
    assert forall|i: int| 0 <= i < r.tasks.len() implies #[trigger] r.tasks[i].well_formed(
        r.clock,
    ) by {
        assert(s.tasks[i].well_formed(s.clock));
    }
    assert(s.tasks[0].well_formed(s.clock));
}

proof fn lemma_switched_wf(s: ManagerView, next: int, now: nat)
    requires
        s.wf(),
        0 <= next < s.tasks.len(),
        s.is_ready(next),
        s.tasks[s.current as int].status != TaskStatus::Running,
        next < s.num_app,
        s.clock <= now <= usize::MAX,
    ensures
        s.switched(next, now).wf(),
{
    let r = s.switched(next, now);
    assert forall|i: int| 0 <= i < r.tasks.len() implies #[trigger] r.tasks[i].well_formed(
        r.clock,
    ) by {
        assert(s.tasks[i].well_formed(s.clock));
    }
    assert(s.tasks[next].well_formed(s.clock));
}

pub(crate) proof fn lemma_recorded_wf(s: ManagerView, id: usize)
    requires
        s.wf(),
    ensures
        s.recorded(id).wf(),
{
    let r = s.recorded(id);
    assert forall|i: int| 0 <= i < r.tasks.len() implies #[trigger] r.tasks[i].well_formed(
        r.clock,
    ) by {
        assert(s.tasks[i].well_formed(s.clock));
    }
}

/// A round-robin choice is a loaded task that is Ready.
pub proof fn lemma_first_ready_is_ready(s: ManagerView, k: int)
    ensures
        s.first_ready_from(k) matches Some(i) ==> 0 <= i < s.num_app && s.is_ready(i),
    decreases s.num_app + 1 - k,
{
    if 1 <= k <= s.num_app {
        vstd::arithmetic::div_mod::lemma_mod_pos_bound(s.current + k, s.num_app as int);
        if !s.is_ready(s.index_after(k)) {
            lemma_first_ready_is_ready(s, k + 1);
        }
    }
}

} // verus!
