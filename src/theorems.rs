//! Facts about sequences of scheduling and syscall steps.
use vstd::prelude::*;

use crate::config::MAX_SYSCALL_NUM;
use crate::task::{lemma_first_ready_is_ready, ManagerView, TaskStatus};

verus! {

/// State after the current task yields once at each clock reading of `times`, in order.
pub open spec fn after_yields(s: ManagerView, times: Seq<nat>) -> ManagerView
    decreases times.len(),
{
    if times.len() == 0 {
        s
    } else {
        after_yields(s, times.drop_last()).yielded(times.last())
    }
}

/// Every loaded task is Ready, except that the current one may be Running.
pub open spec fn all_ready_but_current(s: ManagerView) -> bool {
    &&& 1 <= s.num_app <= s.tasks.len()
    &&& s.current < s.num_app
    &&& forall|i: int|
        0 <= i < s.num_app && i != s.current ==> #[trigger] s.tasks[i].status == TaskStatus::Ready
    &&& s.tasks[s.current as int].status == TaskStatus::Ready || s.tasks[s.current as int].status
        == TaskStatus::Running
}

proof fn lemma_yield_step(s: ManagerView, now: nat)
    requires
        all_ready_but_current(s),
    ensures
        s.yielded(now).current == (s.current as int + 1) % (s.num_app as int),
        all_ready_but_current(s.yielded(now)),
{
    let n = s.num_app as int;
    let p = s.suspended();
    vstd::arithmetic::div_mod::lemma_mod_pos_bound(s.current as int + 1, n);
    assert(p.is_ready(p.index_after(1)));
    assert(p.next_task() == Some(p.index_after(1)));
    let r = s.yielded(now);
    assert forall|i: int| 0 <= i < r.num_app && i != r.current implies #[trigger] r.tasks[i].status
        == TaskStatus::Ready by {
        assert(p.tasks[i].status == TaskStatus::Ready);
    }
}

proof fn lemma_yields_prefix(s: ManagerView, times: Seq<nat>, j: int)
    requires
        all_ready_but_current(s),
        0 <= j <= times.len(),
    ensures
        after_yields(s, times.take(j)).current == (s.current as int + j) % (s.num_app as int),
        all_ready_but_current(after_yields(s, times.take(j))),
        after_yields(s, times.take(j)).num_app == s.num_app,
    decreases j,
{
    let n = s.num_app as int;
    if j == 0 {
        vstd::arithmetic::div_mod::lemma_small_mod(s.current, s.num_app);
        assert(times.take(0) =~= Seq::<nat>::empty());
        assert(after_yields(s, times.take(0)) == s);
    } else {
        lemma_yields_prefix(s, times, j - 1);
        assert(times.take(j).drop_last() =~= times.take(j - 1));
        let prev = after_yields(s, times.take(j - 1));
        lemma_yield_step(prev, times[j - 1]);
        assert(after_yields(s, times.take(j)) == prev.yielded(times[j - 1]));
        vstd::arithmetic::div_mod::lemma_add_mod_noop_right(1, s.current as int + j - 1, n);
    }
}

proof fn lemma_mod_once(x: int, n: int)
    requires
        0 <= x < 2 * n,
        0 < n,
    ensures
        x % n == (if x < n {
            x
        } else {
            x - n
        }),
{
    if x < n {
        vstd::arithmetic::div_mod::lemma_small_mod(x as nat, n as nat);
    } else {
        vstd::arithmetic::div_mod::lemma_mod_add_multiples_vanish(x - n, n);
        vstd::arithmetic::div_mod::lemma_small_mod((x - n) as nat, n as nat);
    }
}

/// Number of yields after which task `i` is switched in, from a state where
/// every loaded task is Ready.
pub open spec fn turn_of(s: ManagerView, i: int) -> int {
    if i > s.current {
        i - s.current
    } else {
        i + s.num_app - s.current
    }
}

/// Round-robin fairness: when every loaded task is Ready (the current one
/// may be Running), `num_app` consecutive yields switch to the tasks
/// `current + 1`, `current + 2`, ... modulo `num_app`, so that each task is
/// switched in exactly once, task `i` after `turn_of(s, i)` yields.
pub proof fn lemma_round_robin(s: ManagerView, times: Seq<nat>)
    requires
        all_ready_but_current(s),
        times.len() == s.num_app,
    ensures
        forall|j: int|
            1 <= j <= s.num_app ==> #[trigger] after_yields(s, times.take(j)).current == (s.current as int
                + j) % (s.num_app as int),
        forall|j1: int, j2: int|
            1 <= j1 < j2 <= s.num_app ==> #[trigger] after_yields(s, times.take(j1)).current
                != #[trigger] after_yields(s, times.take(j2)).current,
        forall|i: int|
            0 <= i < s.num_app ==> 1 <= #[trigger] turn_of(s, i) <= s.num_app && after_yields(
                s,
                times.take(turn_of(s, i)),
            ).current == i,
{
    let n = s.num_app as int;
    let c = s.current as int;
    assert forall|j: int| 1 <= j <= n implies #[trigger] after_yields(s, times.take(j)).current
        == (c + j) % n by {
        lemma_yields_prefix(s, times, j);
    }
    assert forall|j1: int, j2: int| 1 <= j1 < j2 <= n implies #[trigger] after_yields(
        s,
        times.take(j1),
    ).current != #[trigger] after_yields(s, times.take(j2)).current by {
        lemma_yields_prefix(s, times, j1);
        lemma_yields_prefix(s, times, j2);
        lemma_mod_once(c + j1, n);
        lemma_mod_once(c + j2, n);
    }
    assert forall|i: int| 0 <= i < n implies 1 <= #[trigger] turn_of(s, i) <= n && after_yields(
        s,
        times.take(turn_of(s, i)),
    ).current == i by {
        let j = turn_of(s, i);
        lemma_yields_prefix(s, times, j);
        lemma_mod_once(c + j, n);
        assert(after_yields(s, times.take(j)).current == i);
    }
}

proof fn lemma_ready_offset_found(s: ManagerView, k: int, j: int)
    requires
        1 <= k <= j <= s.num_app,
        s.is_ready(s.index_after(j)),
    ensures
        s.first_ready_from(k) is Some,
    decreases j - k,
{
    if !s.is_ready(s.index_after(k)) {
        lemma_ready_offset_found(s, k + 1, j);
    }
}

/// Halt condition: the round-robin choice finds no task exactly when no
/// loaded task is Ready.
pub proof fn lemma_halts_iff_none_ready(s: ManagerView)
    requires
        s.current < s.num_app || s.num_app == 0,
    ensures
        s.next_task() is None <==> forall|i: int| 0 <= i < s.num_app ==> !#[trigger] s.is_ready(i),
{
    lemma_first_ready_is_ready(s, 1);
    assert forall|i: int| 0 <= i < s.num_app && s.is_ready(i) implies s.next_task() is Some by {
        let n = s.num_app as int;
        let j = turn_of(s, i);
        lemma_mod_once(s.current + j, n);
        assert(s.index_after(j) == i);
        lemma_ready_offset_found(s, 1, j);
    }
}

/// Exited is terminal: a task that has exited is never chosen to run, and
/// stays exited through every step of the registry.
pub proof fn lemma_exited_is_terminal(s: ManagerView, i: int, now: nat, id: usize)
    requires
        s.wf(),
        0 <= i < s.tasks.len(),
        s.tasks[i].status == TaskStatus::Exited,
    ensures
        s.next_task() != Some(i),
        s.suspended().next_task() != Some(i),
        s.exited().next_task() != Some(i),
        s.suspended().tasks[i].status == TaskStatus::Exited,
        s.exited().tasks[i].status == TaskStatus::Exited,
        s.yielded(now).tasks[i].status == TaskStatus::Exited,
        s.exited_then(now).tasks[i].status == TaskStatus::Exited,
        s.recorded(id).tasks[i].status == TaskStatus::Exited,
        s.can_start() ==> s.started(now).tasks[i].status == TaskStatus::Exited,
{
    lemma_first_ready_is_ready(s, 1);
    lemma_first_ready_is_ready(s.suspended(), 1);
    lemma_first_ready_is_ready(s.exited(), 1);
}

/// Time accounting: on a switch at clock reading `now`, the outgoing task's
/// accumulated time grows by exactly `now` minus the start of its burst, and
/// the incoming task's burst starts at `now`; no other task's time changes.
pub proof fn lemma_time_accounting(s: ManagerView, now: nat)
    requires
        s.wf(),
        s.clock <= now,
    ensures
        s.suspended().next_task() matches Some(next) ==> {
            let r = s.yielded(now);
            &&& r.tasks[s.current as int].time == s.tasks[s.current as int].time + now
                - s.tasks[s.current as int].burst_start
            &&& r.tasks[next].burst_start == now
            &&& r.current == next
            &&& forall|i: int|
                0 <= i < s.tasks.len() && i != s.current ==> #[trigger] r.tasks[i].time
                    == s.tasks[i].time
        },
        s.exited().next_task() matches Some(next) ==> {
            let r = s.exited_then(now);
            &&& r.tasks[s.current as int].time == s.tasks[s.current as int].time + now
                - s.tasks[s.current as int].burst_start
            &&& r.tasks[next].burst_start == now
            &&& r.current == next
            &&& forall|i: int|
                0 <= i < s.tasks.len() && i != s.current ==> #[trigger] r.tasks[i].time
                    == s.tasks[i].time
        },
{
    assert(s.tasks[s.current as int].well_formed(s.clock));
    lemma_first_ready_is_ready(s.exited(), 1);
    lemma_first_ready_is_ready(s.suspended(), 1);
}

/// State after the current task's syscall counters record each id of `calls`, in order.
pub open spec fn after_calls(s: ManagerView, calls: Seq<usize>) -> ManagerView
    decreases calls.len(),
{
    if calls.len() == 0 {
        s
    } else {
        after_calls(s, calls.drop_last()).recorded(calls.last())
    }
}

/// How often `id` occurs in `calls`.
pub open spec fn count_of(calls: Seq<usize>, id: usize) -> nat
    decreases calls.len(),
{
    if calls.len() == 0 {
        0
    } else {
        count_of(calls.drop_last(), id) + (if calls.last() == id {
            1nat
        } else {
            0nat
        })
    }
}

/// Counter accuracy: after the current task issues the syscalls `calls`
/// (none of them switching tasks), the counter of each monitored id has grown
/// by exactly the number of times that id occurs in `calls`; other ids count
/// nowhere, and every other task is untouched.
pub proof fn lemma_counters(s: ManagerView, calls: Seq<usize>)
    requires
        s.wf(),
        forall|k: int|
            0 <= k < MAX_SYSCALL_NUM ==> #[trigger] s.tasks[s.current as int].syscall_times[k]
                + calls.len() <= usize::MAX,
    ensures
        after_calls(s, calls).wf(),
        after_calls(s, calls).current == s.current,
        after_calls(s, calls).tasks[s.current as int].syscall_ids == s.tasks[s.current as int].syscall_ids,
        forall|k: int|
            0 <= k < MAX_SYSCALL_NUM ==> #[trigger] after_calls(s, calls).tasks[s.current as int].syscall_times[k]
                == s.tasks[s.current as int].syscall_times[k] + count_of(
                calls,
                s.tasks[s.current as int].syscall_ids[k],
            ),
        forall|i: int|
            0 <= i < s.tasks.len() && i != s.current ==> #[trigger] after_calls(s, calls).tasks[i]
                == s.tasks[i],
    decreases calls.len(),
{
    if calls.len() > 0 {
        let prev = calls.drop_last();
        assert forall|k: int| 0 <= k < MAX_SYSCALL_NUM implies #[trigger] s.tasks[s.current as int].syscall_times[k]
            + prev.len() <= usize::MAX by {
            assert(s.tasks[s.current as int].syscall_times[k] + calls.len() <= usize::MAX);
        }
        lemma_counters(s, prev);
        let p = after_calls(s, prev);
        crate::task::lemma_recorded_wf(p, calls.last());
        let cur = s.current as int;
        assert forall|k: int| 0 <= k < MAX_SYSCALL_NUM implies #[trigger] after_calls(s, calls).tasks[cur].syscall_times[k]
            == s.tasks[cur].syscall_times[k] + count_of(calls, s.tasks[cur].syscall_ids[k]) by {
            assert(p.tasks[cur].syscall_times[k] == s.tasks[cur].syscall_times[k] + count_of(
                prev,
                s.tasks[cur].syscall_ids[k],
            ));
            assert(s.tasks[cur].syscall_times[k] + calls.len() <= usize::MAX);
            lemma_count_bound(prev, s.tasks[cur].syscall_ids[k]);
            let id = s.tasks[cur].syscall_ids[k];
            assert(p.tasks[cur].well_formed(p.clock));
            assert(p.tasks[cur].syscall_ids[k] == id);
            assert(count_of(calls, id) == count_of(prev, id) + (if calls.last() == id {
                1nat
            } else {
                0nat
            }));
            assert(after_calls(s, calls) == p.recorded(calls.last()));
            assert(after_calls(s, calls).tasks[cur].syscall_times == ManagerView::counted(
                p.tasks[cur],
                calls.last(),
            ));
        }
    }
}

proof fn lemma_count_bound(calls: Seq<usize>, id: usize)
    ensures
        count_of(calls, id) <= calls.len(),
    decreases calls.len(),
{
    if calls.len() > 0 {
        lemma_count_bound(calls.drop_last(), id);
    }
}

} // verus!
