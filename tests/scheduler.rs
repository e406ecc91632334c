use os_core::config::{APP_BASE_ADDRESS, APP_SIZE_LIMIT, MAX_APP_NUM};
use os_core::syscall::{
    sys_exit, sys_get_time, sys_task_info, sys_write, sys_yield, syscall, SyscallAction, TimeVal,
    SYSCALL_EXIT, SYSCALL_GET_TIME, SYSCALL_ID_LIST, SYSCALL_TASK_INFO, SYSCALL_WRITE,
    SYSCALL_YIELD,
};
use os_core::task::{
    exit_current_and_run_next, get_current_task_id, get_task_info, inc_syscall_times,
    run_first_task, suspend_current_and_run_next, TaskManager, TaskStatus,
};

fn started(n: usize, now: usize) -> TaskManager {
    let mut tm = TaskManager::new(n);
    assert!(tm.run_first_task(now));
    tm
}

fn base_of(id: usize) -> usize {
    APP_BASE_ADDRESS + id * APP_SIZE_LIMIT
}

#[test]
fn new_registry_marks_loaded_tasks_ready() {
    let tm = TaskManager::new(3);
    assert_eq!(tm.num_app(), 3);
    assert_eq!(tm.get_current_task_id(), 0);
    for i in 0..3 {
        assert_eq!(tm.task_status(i), TaskStatus::Ready);
    }
    for i in 3..MAX_APP_NUM {
        assert_eq!(tm.task_status(i), TaskStatus::UnInit);
    }
    let info = tm.get_current_task_info();
    assert_eq!(info.syscall_ids, SYSCALL_ID_LIST);
    assert_eq!(info.syscall_times, [0; 5]);
    assert_eq!(info.time, 0);
}

#[test]
fn first_task_starts_once() {
    let mut tm = TaskManager::new(2);
    assert!(run_first_task(&mut tm, 7));
    assert_eq!(tm.task_status(0), TaskStatus::Running);
    assert_eq!(tm.clock(), 7);
    assert!(!tm.run_first_task(8));
    assert_eq!(tm.clock(), 7);
}

#[test]
fn first_task_absent_is_refused() {
    let mut tm = TaskManager::new(0);
    assert!(!tm.run_first_task(0));
    assert_eq!(tm.task_status(0), TaskStatus::UnInit);
}

#[test]
fn yields_visit_every_task_once_in_order() {
    let mut tm = started(4, 0);
    let mut order = Vec::new();
    for t in 1..=8usize {
        match suspend_current_and_run_next(&mut tm, t) {
            Some((from, to)) => {
                assert_eq!(from, order.last().copied().unwrap_or(0));
                order.push(to);
            }
            None => panic!("a task is always ready"),
        }
    }
    assert_eq!(order, vec![1, 2, 3, 0, 1, 2, 3, 0]);
}

#[test]
fn yields_start_after_current() {
    let mut tm = started(3, 0);
    assert_eq!(tm.suspend_current_and_run_next(1), Some((0, 1)));
    assert_eq!(tm.suspend_current_and_run_next(2), Some((1, 2)));
    assert_eq!(tm.suspend_current_and_run_next(3), Some((2, 0)));
    assert_eq!(tm.task_status(0), TaskStatus::Running);
    assert_eq!(tm.task_status(1), TaskStatus::Ready);
    assert_eq!(tm.task_status(2), TaskStatus::Ready);
}

#[test]
fn single_task_yields_to_itself() {
    let mut tm = started(1, 0);
    assert_eq!(tm.suspend_current_and_run_next(5), Some((0, 0)));
    assert_eq!(tm.task_status(0), TaskStatus::Running);
    assert_eq!(tm.get_current_task_info().time, 5);
}

#[test]
fn exited_task_is_never_chosen_again() {
    let mut tm = started(3, 0);
    assert_eq!(exit_current_and_run_next(&mut tm, 1), Some((0, 1)));
    assert_eq!(tm.suspend_current_and_run_next(2), Some((1, 2)));
    assert_eq!(tm.suspend_current_and_run_next(3), Some((2, 1)));
    assert_eq!(tm.suspend_current_and_run_next(4), Some((1, 2)));
    assert_eq!(tm.task_status(0), TaskStatus::Exited);
    assert_eq!(tm.find_next_task(), Some(1));
}

#[test]
fn suspending_an_exited_task_keeps_it_exited() {
    let mut tm = started(2, 0);
    assert_eq!(tm.exit_current_and_run_next(1), Some((0, 1)));
    assert_eq!(tm.exit_current_and_run_next(2), None);
    tm.mark_current_suspended();
    assert_eq!(tm.task_status(1), TaskStatus::Exited);
    assert_eq!(tm.find_next_task(), None);
}

#[test]
fn counters_track_monitored_ids_only() {
    let mut tm = started(2, 0);
    for _ in 0..3 {
        inc_syscall_times(&mut tm, SYSCALL_WRITE);
    }
    inc_syscall_times(&mut tm, SYSCALL_GET_TIME);
    tm.inc_syscall_times(12345);
    tm.inc_syscall_times(0);
    let info = get_task_info(&tm);
    assert_eq!(info.syscall_times, [3, 0, 0, 1, 0]);
    tm.suspend_current_and_run_next(1);
    assert_eq!(tm.get_current_task_info().syscall_times, [0, 0, 0, 0, 0]);
}

#[test]
fn dispatcher_counts_every_call() {
    let mut tm = started(1, 0);
    let base = base_of(0);
    for _ in 0..2 {
        let r = syscall(&mut tm, SYSCALL_WRITE, [1, base, 4], 10);
        assert!(matches!(r, SyscallAction::Print { buf, len: 4 } if buf == base));
    }
    let r = syscall(&mut tm, SYSCALL_GET_TIME, [0x1000, 0, 0], 2_500_001);
    assert!(matches!(
        r,
        SyscallAction::StoreTime { ptr: 0x1000, time: TimeVal { sec: 2, usec: 500_001 } }
    ));
    let r = syscall(&mut tm, 77, [0, 0, 0], 20);
    assert!(matches!(r, SyscallAction::Unsupported(77)));
    let r = syscall(&mut tm, SYSCALL_TASK_INFO, [0x2000, 0, 0], 30);
    match r {
        SyscallAction::StoreTaskInfo { ptr, info } => {
            assert_eq!(ptr, 0x2000);
            assert_eq!(info.id, 0);
            assert_eq!(info.status, TaskStatus::Running);
            assert_eq!(info.syscall_times, [2, 0, 0, 1, 1]);
        }
        _ => panic!("task info expected"),
    }
}

#[test]
fn write_window_bounds_are_exact() {
    let tm = started(2, 0);
    let base = base_of(0);
    assert!(matches!(
        sys_write(&tm, 1, base, APP_SIZE_LIMIT),
        SyscallAction::Print { len, .. } if len == APP_SIZE_LIMIT
    ));
    assert!(matches!(sys_write(&tm, 1, base, APP_SIZE_LIMIT + 1), SyscallAction::Return(-1)));
    assert!(matches!(sys_write(&tm, 1, base - 1, 1), SyscallAction::Return(-1)));
    assert!(matches!(sys_write(&tm, 1, base + APP_SIZE_LIMIT, 0), SyscallAction::Print { .. }));
    assert!(matches!(sys_write(&tm, 1, base + APP_SIZE_LIMIT, 1), SyscallAction::Return(-1)));
    assert!(matches!(sys_write(&tm, 1, usize::MAX, usize::MAX), SyscallAction::Return(-1)));
}

#[test]
fn write_into_another_window_fails() {
    let mut tm = started(2, 0);
    tm.suspend_current_and_run_next(1);
    assert_eq!(get_current_task_id(&tm), 1);
    assert!(matches!(sys_write(&tm, 1, base_of(0), 8), SyscallAction::Return(-1)));
    assert!(matches!(sys_write(&tm, 1, base_of(1), 8), SyscallAction::Print { len: 8, .. }));
    assert!(matches!(sys_write(&tm, 1, base_of(2), 8), SyscallAction::Return(-1)));
}

#[test]
fn write_to_unsupported_fd_fails() {
    let tm = started(1, 0);
    assert!(matches!(sys_write(&tm, 2, base_of(0), 8), SyscallAction::UnsupportedFd(2)));
    assert!(matches!(sys_write(&tm, 0, base_of(0), 8), SyscallAction::UnsupportedFd(0)));
    assert!(matches!(sys_write(&tm, 2, base_of(1), 8), SyscallAction::Return(-1)));
}

#[test]
fn get_time_splits_microseconds() {
    let r = sys_get_time(0x3000, 0, 1_234_567);
    assert!(matches!(
        r,
        SyscallAction::StoreTime { ptr: 0x3000, time: TimeVal { sec: 1, usec: 234_567 } }
    ));
    let r = sys_get_time(0, 0, 999_999);
    assert!(matches!(r, SyscallAction::StoreTime { time: TimeVal { sec: 0, usec: 999_999 }, .. }));
}

#[test]
fn burst_time_is_added_on_switch_out() {
    let mut tm = started(2, 100);
    assert_eq!(tm.suspend_current_and_run_next(350), Some((0, 1)));
    assert_eq!(tm.suspend_current_and_run_next(400), Some((1, 0)));
    assert_eq!(tm.get_current_task_info().time, 250);
    assert_eq!(tm.suspend_current_and_run_next(1000), Some((0, 1)));
    assert_eq!(tm.get_current_task_info().time, 50);
    assert_eq!(tm.exit_current_and_run_next(1010), Some((1, 0)));
    assert_eq!(tm.get_current_task_info().time, 850);
}

#[test]
fn two_exits_halt_the_kernel() {
    let mut tm = started(2, 0);
    assert!(matches!(sys_exit(&mut tm, 0, 1), SyscallAction::Leave { from: 0, to: 1, .. }));
    assert!(matches!(sys_exit(&mut tm, 0, 2), SyscallAction::Finish { exit_code: 0 }));
    assert_eq!(tm.task_status(0), TaskStatus::Exited);
    assert_eq!(tm.task_status(1), TaskStatus::Exited);
}

#[test]
fn yield_returns_resume_action() {
    let mut tm = started(2, 0);
    assert!(matches!(sys_yield(&mut tm, 3), SyscallAction::Resume { from: 0, to: 1 }));
    assert!(matches!(
        syscall(&mut tm, SYSCALL_YIELD, [0, 0, 0], 4),
        SyscallAction::Resume { from: 1, to: 0 }
    ));
    assert_eq!(tm.get_current_task_info().syscall_times, [0, 0, 0, 0, 0]);
    assert!(matches!(
        syscall(&mut tm, SYSCALL_EXIT, [0, 0, 0], 5),
        SyscallAction::Leave { from: 0, to: 1, .. }
    ));
    assert_eq!(tm.get_current_task_info().syscall_times, [0, 0, 1, 0, 0]);
}

#[test]
fn three_task_scenario_runs_to_completion() {
    let mut tm = started(3, 0);
    let mut order = vec![0usize];
    let mut now = 0usize;
    let mut step = |tm: &mut TaskManager, id: usize, args: [usize; 3]| {
        now += 10;
        syscall(tm, id, args, now)
    };
    // task 0 yields
    match step(&mut tm, SYSCALL_YIELD, [0; 3]) {
        SyscallAction::Resume { from: 0, to } => order.push(to),
        _ => panic!("switch expected"),
    }
    // task 1 exits on its first run
    match step(&mut tm, SYSCALL_EXIT, [0; 3]) {
        SyscallAction::Leave { from: 1, to, .. } => order.push(to),
        _ => panic!("switch expected"),
    }
    // task 2 writes twice within its window, then yields
    let base = base_of(2);
    assert!(matches!(step(&mut tm, SYSCALL_WRITE, [1, base, 5]), SyscallAction::Print { len: 5, .. }));
    assert!(matches!(
        step(&mut tm, SYSCALL_WRITE, [1, base + 5, 7]),
        SyscallAction::Print { len: 7, .. }
    ));
    match step(&mut tm, SYSCALL_YIELD, [0; 3]) {
        SyscallAction::Resume { from: 2, to } => order.push(to),
        _ => panic!("switch expected"),
    }
    // task 0 yields a second time
    match step(&mut tm, SYSCALL_YIELD, [0; 3]) {
        SyscallAction::Resume { from: 0, to } => order.push(to),
        _ => panic!("switch expected"),
    }
    // task 2 reads its info, then exits
    match step(&mut tm, SYSCALL_TASK_INFO, [0x4000, 0, 0]) {
        SyscallAction::StoreTaskInfo { info, .. } => {
            assert_eq!(info.id, 2);
            assert_eq!(info.syscall_ids[0], SYSCALL_WRITE);
            assert_eq!(info.syscall_times[0], 2);
        }
        _ => panic!("task info expected"),
    }
    match step(&mut tm, SYSCALL_EXIT, [0; 3]) {
        SyscallAction::Leave { from: 2, to, .. } => order.push(to),
        _ => panic!("switch expected"),
    }
    // task 0 exits last
    assert!(matches!(step(&mut tm, SYSCALL_EXIT, [0; 3]), SyscallAction::Finish { exit_code: 0 }));
    assert_eq!(order, vec![0, 1, 2, 0, 2, 0]);
    for i in 0..3 {
        assert_eq!(tm.task_status(i), TaskStatus::Exited);
    }
}

#[test]
fn task_info_reports_current_task() {
    let mut tm = started(2, 0);
    tm.suspend_current_and_run_next(40);
    match sys_task_info(&tm, 0x5000) {
        SyscallAction::StoreTaskInfo { ptr, info } => {
            assert_eq!(ptr, 0x5000);
            assert_eq!(info.id, 1);
            assert_eq!(info.status, TaskStatus::Running);
            assert_eq!(info.time, 0);
        }
        _ => panic!("task info expected"),
    }
}

#[test]
fn exit_code_is_not_a_result() {
    let mut tm = started(2, 0);
    assert!(matches!(
        syscall(&mut tm, SYSCALL_EXIT, [(-3i32) as usize, 0, 0], 1),
        SyscallAction::Leave { from: 0, to: 1, exit_code: -3 }
    ));
}

#[test]
fn empty_registry_never_starts_task_zero() {
    let mut tm = TaskManager::new(0);
    assert_eq!(suspend_current_and_run_next(&mut tm, 0), None);
    assert_eq!(tm.task_status(0), TaskStatus::UnInit);
    assert!(!run_first_task(&mut tm, 1));
    assert_eq!(tm.task_status(0), TaskStatus::UnInit);
    assert!(matches!(sys_yield(&mut tm, 2), SyscallAction::Halt));
    assert!(!tm.run_first_task(3));
}

#[test]
fn running_task_snapshot_reports_monitored_ids() {
    let mut tm = started(3, 0);
    tm.suspend_current_and_run_next(1);
    let info = tm.get_current_task_info();
    assert_eq!(info.status, TaskStatus::Running);
    assert_eq!(info.id, 1);
    assert_eq!(info.syscall_ids, [64, 93, 124, 169, 410]);
}
