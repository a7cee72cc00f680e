//! Scheduling behavior: boot promotion, preemption, priority order,
//! first-in-first-out order within a priority, waiting and waking, and
//! self-exit.

use constance::kernel::Kernel;
use constance::task::{Hunk, StackHunk, Task, TaskAttr, TaskCb, TaskSt};

fn task_cb(priority: u8, st: TaskSt) -> TaskCb {
    TaskCb {
        port_task_state: 0,
        attr: TaskAttr {
            entry_point: 0x4000,
            entry_param: 0,
            stack: StackHunk::from_hunk(Hunk { offset: 0, len: 2048 }),
        },
        priority,
        st,
    }
}

/// Run the dispatcher the way a port's dispatch handler does: consume the
/// request, choose under CPU Lock.
fn dispatch(k: &mut Kernel) {
    assert!(k.take_dispatch_request());
    k.enter_cpu_lock();
    k.choose_running_task();
    k.leave_cpu_lock();
}

/// Boot promotes exactly the active-at-start tasks, in slot order.
#[test]
fn boot_promotes_pending_tasks_in_order() {
    let mut k = Kernel::new(
        4,
        vec![
            task_cb(1, TaskSt::PendingActivation),
            task_cb(2, TaskSt::Dormant),
            task_cb(1, TaskSt::PendingActivation),
            task_cb(0, TaskSt::PendingActivation),
        ],
    );
    k.boot();
    assert_eq!(k.task_state(0), TaskSt::Ready);
    assert_eq!(k.task_state(1), TaskSt::Dormant);
    assert_eq!(k.task_state(2), TaskSt::Ready);
    assert_eq!(k.task_state(3), TaskSt::Ready);
    // Bucket 1 holds slots 0 and 2 in slot order; bucket 0 holds slot 3
    assert_eq!(k.ready_len(0), 1);
    assert_eq!(k.ready_at(0, 0), 3);
    assert_eq!(k.ready_len(1), 2);
    assert_eq!(k.ready_at(1, 0), 0);
    assert_eq!(k.ready_at(1, 1), 2);
    assert_eq!(k.ready_len(2), 0);

    // The dispatcher picks the highest-priority ready task
    k.choose_running_task();
    assert_eq!(k.running_task(), Some(3));
    assert_eq!(k.task_state(3), TaskSt::Running);
}

/// Activating a higher-priority task requests a dispatch as soon as CPU
/// Lock is released, and the dispatcher switches to it; when it exits,
/// the preempted task resumes.
#[test]
fn preemption_on_activate() {
    let mut k = Kernel::new(
        3,
        vec![task_cb(2, TaskSt::PendingActivation), task_cb(1, TaskSt::Dormant)],
    );
    k.boot();
    k.choose_running_task();
    assert_eq!(k.running_task(), Some(0));
    k.leave_cpu_lock();

    // Task A (slot 0, priority 2) activates task B (slot 1, priority 1)
    assert_eq!(Task::from_id(2).activate(&mut k), Ok(()));
    assert!(!k.has_cpu_lock());
    assert!(k.dispatch_requested());

    // B preempts A as soon as the dispatcher runs
    dispatch(&mut k);
    assert_eq!(k.running_task(), Some(1));
    assert_eq!(k.task_state(1), TaskSt::Running);
    assert_eq!(k.task_state(0), TaskSt::Ready);

    // When B exits, A resumes
    assert_eq!(k.exit_task(), Ok(1));
    assert_eq!(k.task_state(1), TaskSt::Dormant);
    assert_eq!(k.running_task(), None);
    k.choose_running_task();
    assert_eq!(k.running_task(), Some(0));
    assert_eq!(k.task_state(0), TaskSt::Running);
    k.leave_cpu_lock();
}

/// Activating an equal- or lower-priority task does not preempt: the
/// current task keeps running (first-come-first-served).
#[test]
fn no_preemption_for_equal_priority() {
    let mut k = Kernel::new(
        3,
        vec![task_cb(1, TaskSt::PendingActivation), task_cb(1, TaskSt::Dormant)],
    );
    k.boot();
    k.choose_running_task();
    assert_eq!(k.running_task(), Some(0));
    k.leave_cpu_lock();

    assert_eq!(Task::from_id(2).activate(&mut k), Ok(()));
    assert!(!k.dispatch_requested());

    // Even if the dispatcher runs, the current task keeps the processor
    k.enter_cpu_lock();
    k.choose_running_task();
    k.leave_cpu_lock();
    assert_eq!(k.running_task(), Some(0));
    assert_eq!(k.task_state(1), TaskSt::Ready);
}

/// Within one priority, tasks run in the order they became ready.
#[test]
fn fifo_within_priority() {
    // Slots 0..4: a manager and four workers of equal priority
    let mut k = Kernel::new(
        5,
        vec![
            task_cb(4, TaskSt::PendingActivation),
            task_cb(1, TaskSt::Dormant), // T1
            task_cb(1, TaskSt::Dormant), // T2
            task_cb(1, TaskSt::Dormant), // T3
            task_cb(1, TaskSt::Dormant), // T4
        ],
    );
    k.boot();
    k.choose_running_task();
    assert_eq!(k.running_task(), Some(0));
    k.leave_cpu_lock();

    // The manager activates T3, T1, T2, T4 in that order
    for id in [4usize, 2, 3, 5] {
        assert_eq!(Task::from_id(id).activate(&mut k), Ok(()));
        // Each activation requests a dispatch (priority 1 beats 4), but
        // none happens until the dispatcher runs
        assert!(k.take_dispatch_request());
    }
    assert_eq!(k.ready_len(1), 4);
    assert_eq!(k.ready_at(1, 0), 3);
    assert_eq!(k.ready_at(1, 1), 1);
    assert_eq!(k.ready_at(1, 2), 2);
    assert_eq!(k.ready_at(1, 3), 4);

    // Running them to completion yields the activation order
    let mut order = Vec::new();
    k.enter_cpu_lock();
    k.choose_running_task();
    while let Some(t) = k.running_task() {
        order.push(t);
        assert_eq!(k.exit_task(), Ok(t));
        k.choose_running_task();
    }
    k.leave_cpu_lock();
    // The manager (slot 0) was preempted and finishes after the workers
    assert_eq!(order, vec![3, 1, 2, 4, 0]);
}

/// A task that waits steps aside; waking it makes it ready again and
/// checks for preemption.
#[test]
fn wait_and_wake_round_trip() {
    let mut k = Kernel::new(
        3,
        vec![task_cb(0, TaskSt::PendingActivation), task_cb(2, TaskSt::PendingActivation)],
    );
    k.boot();
    k.choose_running_task();
    assert_eq!(k.running_task(), Some(0));
    k.leave_cpu_lock();

    // The high-priority task blocks
    k.enter_cpu_lock();
    k.begin_wait();
    assert_eq!(k.task_state(0), TaskSt::Waiting);
    // Its wait loop yields; the dispatcher hands the processor on
    k.choose_running_task();
    assert_eq!(k.running_task(), Some(1));
    assert_eq!(k.task_state(1), TaskSt::Running);
    k.leave_cpu_lock();

    // The low-priority task wakes the waiter
    k.enter_cpu_lock();
    k.wake_up_task(0);
    assert_eq!(k.task_state(0), TaskSt::Ready);
    k.unlock_cpu_and_check_preemption();
    assert!(k.dispatch_requested());
    dispatch(&mut k);
    assert_eq!(k.running_task(), Some(0));
    assert_eq!(k.task_state(0), TaskSt::Running);
    assert_eq!(k.task_state(1), TaskSt::Ready);
}

/// A running task that exits ends up Dormant; the next-best ready task —
/// or nothing — takes over.
#[test]
fn self_exit() {
    let mut k = Kernel::new(
        3,
        vec![task_cb(1, TaskSt::PendingActivation), task_cb(2, TaskSt::PendingActivation)],
    );
    k.boot();
    k.choose_running_task();
    assert_eq!(k.running_task(), Some(0));
    k.leave_cpu_lock();

    // `exit_task` tolerates being entered without CPU Lock held
    assert_eq!(k.exit_task(), Ok(0));
    assert!(k.has_cpu_lock());
    assert_eq!(k.task_state(0), TaskSt::Dormant);
    assert_eq!(k.running_task(), None);

    k.choose_running_task();
    assert_eq!(k.running_task(), Some(1));

    assert_eq!(k.exit_task(), Ok(1));
    k.choose_running_task();
    assert_eq!(k.running_task(), None);
}

/// The structural invariants, observed through the public queries: the
/// ready buckets hold exactly the Ready tasks, each at most once, and the
/// running task is in none of them.
#[test]
fn ready_queue_matches_task_states() {
    let mut k = Kernel::new(
        4,
        vec![
            task_cb(0, TaskSt::PendingActivation),
            task_cb(3, TaskSt::PendingActivation),
            task_cb(3, TaskSt::PendingActivation),
            task_cb(2, TaskSt::Dormant),
        ],
    );
    k.boot();
    k.choose_running_task();
    k.leave_cpu_lock();
    assert_eq!(Task::from_id(4).activate(&mut k), Ok(()));

    let mut queued: Vec<usize> = Vec::new();
    for p in 0..k.num_task_priority_levels() {
        for j in 0..k.ready_len(p) {
            let t = k.ready_at(p, j);
            assert_eq!(k.task_state(t), TaskSt::Ready);
            assert_eq!(k.task_priority(t) as usize, p);
            assert!(!queued.contains(&t));
            queued.push(t);
        }
    }
    for t in 0..k.task_count() {
        if k.task_state(t) == TaskSt::Ready {
            assert!(queued.contains(&t));
        }
    }
    if let Some(r) = k.running_task() {
        assert_eq!(k.task_state(r), TaskSt::Running);
        assert!(!queued.contains(&r));
    }
}

/// Activating a dormant task and letting it run and exit right away
/// leaves the task Dormant and the ready queue as it was.
#[test]
fn activate_exit_round_trip() {
    let mut k = Kernel::new(
        3,
        vec![task_cb(2, TaskSt::Dormant), task_cb(1, TaskSt::Dormant)],
    );
    k.boot();
    k.choose_running_task();
    assert_eq!(k.running_task(), None);
    k.leave_cpu_lock();

    assert_eq!(Task::from_id(1).activate(&mut k), Ok(()));
    dispatch(&mut k);
    assert_eq!(k.running_task(), Some(0));
    assert_eq!(k.exit_task(), Ok(0));
    k.choose_running_task();
    k.leave_cpu_lock();

    // Back where it started: the task Dormant, every bucket empty,
    // nothing running
    assert_eq!(k.task_state(0), TaskSt::Dormant);
    assert_eq!(k.task_state(1), TaskSt::Dormant);
    assert_eq!(k.running_task(), None);
    for p in 0..k.num_task_priority_levels() {
        assert_eq!(k.ready_len(p), 0);
    }
}
