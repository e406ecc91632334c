use vstd::prelude::*;

use crate::config::{APP_BASE_ADDRESS, APP_SIZE_LIMIT, MAX_SYSCALL_NUM};
use crate::task::{ManagerView, TaskInfo, TaskManager, TaskStatus};

verus! {

pub const SYSCALL_WRITE: usize = 64;

pub const SYSCALL_EXIT: usize = 93;

pub const SYSCALL_YIELD: usize = 124;

pub const SYSCALL_GET_TIME: usize = 169;

pub const SYSCALL_TASK_INFO: usize = 410;

/// Syscall ids whose invocations are counted per task.
pub const SYSCALL_ID_LIST: [usize; MAX_SYSCALL_NUM] = [
    SYSCALL_WRITE,
    SYSCALL_EXIT,
    SYSCALL_YIELD,
    SYSCALL_GET_TIME,
    SYSCALL_TASK_INFO,
];

/// File descriptor of the standard output stream.
pub const FD_STDOUT: usize = 1;

/// Microseconds per second.
pub const USEC_PER_SEC: usize = 1_000_000;

/// A clock reading split into seconds and microseconds.
#[derive(Copy, Clone, PartialEq, Eq, Structural, Debug)]
pub struct TimeVal {
    pub sec: usize,
    pub usec: usize,
}

/// What the platform layer has to do to finish a syscall.
#[derive(Copy, Clone, Debug)]
pub enum SyscallAction {
    /// Hand this result back to the calling task.
    Return(isize),
    /// A write named the file descriptor `fd`, which is not supported: log
    /// a diagnostic and hand back -1.
    UnsupportedFd(usize),
    /// Emit the `len` bytes at user address `buf` on standard output, then
    /// hand `len` back.
    Print { buf: usize, len: usize },
    /// Switch from task `from` to task `to`; `from` gets 0 when it resumes.
    Resume { from: usize, to: usize },
    /// Task `from` exited with `exit_code`: switch to task `to`; `from`
    /// never resumes.
    Leave { from: usize, to: usize, exit_code: i32 },
    /// The last task exited with `exit_code`: all applications completed and
    /// the kernel halts.
    Finish { exit_code: i32 },
    /// No task is Ready after a yield: the kernel halts.
    Halt,
    /// Store `time` at user address `ptr`, then hand back 0.
    StoreTime { ptr: usize, time: TimeVal },
    /// Store `info` at user address `ptr`, then hand back 0.
    StoreTaskInfo { ptr: usize, info: TaskInfo },
    /// The id names no syscall: a fatal error.
    Unsupported(usize),
}

/// First address of the memory window of task `task_id`.
pub open spec fn window_base(task_id: nat) -> int {
    APP_BASE_ADDRESS + task_id * APP_SIZE_LIMIT
}

/// `[buf, buf + len)` lies inside the memory window of task `task_id`.
pub open spec fn in_window(task_id: nat, buf: int, len: int) -> bool {
    &&& window_base(task_id) <= buf
    &&& buf + len <= window_base(task_id) + APP_SIZE_LIMIT
}

pub open spec fn write_action(s: ManagerView, fd: usize, buf: usize, len: usize) -> SyscallAction {
    if !in_window(s.current, buf as int, len as int) {
        SyscallAction::Return(-1isize)
    } else if fd != FD_STDOUT {
        SyscallAction::UnsupportedFd(fd)
    } else {
        SyscallAction::Print { buf, len }
    }
}

pub open spec fn exit_action(s: ManagerView, exit_code: i32) -> SyscallAction {
    match s.exited().next_task() {
        Some(to) => SyscallAction::Leave { from: s.current as usize, to: to as usize, exit_code },
        None => SyscallAction::Finish { exit_code },
    }
}

pub open spec fn yield_action(s: ManagerView) -> SyscallAction {
    match s.suspended().next_task() {
        Some(to) => SyscallAction::Resume { from: s.current as usize, to: to as usize },
        None => SyscallAction::Halt,
    }
}

pub open spec fn time_of(us: usize) -> TimeVal {
    TimeVal { sec: us / USEC_PER_SEC, usec: us % USEC_PER_SEC }
}

/// Write handler: a buffer outside the calling task's window gives -1, a
/// file descriptor other than standard output is refused, and nothing is
/// written in either case.
pub fn sys_write(tm: &TaskManager, fd: usize, buf: usize, len: usize) -> (r: SyscallAction)
    requires
        tm.wf(),
    ensures
        r == write_action(tm@, fd, buf, len),
{
    let task_id = tm.get_current_task_id();
    let base_addr = APP_BASE_ADDRESS + task_id * APP_SIZE_LIMIT;
    if buf < base_addr || len > APP_SIZE_LIMIT || buf - base_addr > APP_SIZE_LIMIT - len {
        return SyscallAction::Return(-1);
    }
    if fd == FD_STDOUT {
        SyscallAction::Print { buf, len }
    } else {
        SyscallAction::UnsupportedFd(fd)
    }
}

/// Exit handler: the current task exits with `exit_code` and the next Ready
/// task is chosen.
pub fn sys_exit(tm: &mut TaskManager, exit_code: i32, now: usize) -> (r: SyscallAction)
    requires
        old(tm).wf(),
        now >= old(tm)@.clock,
    ensures
        final(tm).wf(),
        final(tm)@ == old(tm)@.exited_then(now as nat),
        r == exit_action(old(tm)@, exit_code),
{
    match tm.exit_current_and_run_next(now) {
        Some((from, to)) => SyscallAction::Leave { from, to, exit_code },
        None => SyscallAction::Finish { exit_code },
    }
}

/// Yield handler: the current task becomes Ready and the next Ready task is
/// chosen, possibly the same one.
pub fn sys_yield(tm: &mut TaskManager, now: usize) -> (r: SyscallAction)
    requires
        old(tm).wf(),
        now >= old(tm)@.clock,
    ensures
        final(tm).wf(),
        final(tm)@ == old(tm)@.yielded(now as nat),
        r == yield_action(old(tm)@),
{
    match tm.suspend_current_and_run_next(now) {
        Some((from, to)) => SyscallAction::Resume { from, to },
        None => SyscallAction::Halt,
    }
}

/// Get-time handler: the clock reading `now`, in microseconds, split into
/// seconds and microseconds for the user address `ts`.
pub fn sys_get_time(ts: usize, _tz: usize, now: usize) -> (r: SyscallAction)
    ensures
        r == (SyscallAction::StoreTime { ptr: ts, time: time_of(now) }),
{
    SyscallAction::StoreTime { ptr: ts, time: TimeVal { sec: now / USEC_PER_SEC, usec: now % USEC_PER_SEC } }
}

/// Task-info handler: a snapshot of the current task for the user address `ti`.
pub fn sys_task_info(tm: &TaskManager, ti: usize) -> (r: SyscallAction)
    requires
        tm.wf(),
    ensures
        r matches SyscallAction::StoreTaskInfo { ptr, info } && ptr == ti && info.is_snapshot_of(
            tm@,
        ) && (info.status == TaskStatus::Running ==> info.id < tm@.num_app) && (info.id
            < tm@.num_app ==> info.syscall_ids@ == SYSCALL_ID_LIST@),
{
    SyscallAction::StoreTaskInfo { ptr: ti, info: tm.get_current_task_info() }
}

/// Dispatcher: counts the syscall for the current task, then routes it to
/// its handler with the arguments `args`; `now` is the clock reading.
pub fn syscall(tm: &mut TaskManager, syscall_id: usize, args: [usize; 3], now: usize) -> (r:
    SyscallAction)
    requires
        old(tm).wf(),
        now >= old(tm)@.clock,
        old(tm)@.can_record(syscall_id),
    ensures
        final(tm).wf(),
        syscall_id == SYSCALL_WRITE ==> final(tm)@ == old(tm)@.recorded(syscall_id) && r
            == write_action(old(tm)@.recorded(syscall_id), args@[0], args@[1], args@[2]),
        syscall_id == SYSCALL_EXIT ==> final(tm)@ == old(tm)@.recorded(syscall_id).exited_then(
            now as nat,
        ) && r == exit_action(old(tm)@.recorded(syscall_id), args@[0] as i32),
        syscall_id == SYSCALL_YIELD ==> final(tm)@ == old(tm)@.recorded(syscall_id).yielded(
            now as nat,
        ) && r == yield_action(old(tm)@.recorded(syscall_id)),
        syscall_id == SYSCALL_GET_TIME ==> final(tm)@ == old(tm)@.recorded(syscall_id) && r == (
        SyscallAction::StoreTime { ptr: args@[0], time: time_of(now) }),
        syscall_id == SYSCALL_TASK_INFO ==> final(tm)@ == old(tm)@.recorded(syscall_id) && (
        r matches SyscallAction::StoreTaskInfo { ptr, info } && ptr == args@[0]
            && info.is_snapshot_of(old(tm)@.recorded(syscall_id))),
        syscall_id != SYSCALL_WRITE && syscall_id != SYSCALL_EXIT && syscall_id != SYSCALL_YIELD
            && syscall_id != SYSCALL_GET_TIME && syscall_id != SYSCALL_TASK_INFO ==> final(tm)@ == old(tm)@.recorded(syscall_id)
            && r == SyscallAction::Unsupported(syscall_id),
{
    tm.inc_syscall_times(syscall_id);
    if syscall_id == SYSCALL_WRITE {
        sys_write(tm, args[0], args[1], args[2])
    } else if syscall_id == SYSCALL_EXIT {
        sys_exit(tm, args[0] as i32, now)
    } else if syscall_id == SYSCALL_YIELD {
        sys_yield(tm, now)
    } else if syscall_id == SYSCALL_GET_TIME {
        sys_get_time(args[0], args[1], now)
    } else if syscall_id == SYSCALL_TASK_INFO {
        sys_task_info(tm, args[0])
    } else {
        SyscallAction::Unsupported(syscall_id)
    }
}

} // verus!
