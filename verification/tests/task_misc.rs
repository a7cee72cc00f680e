//! Validates error codes returned by task manipulation methods. Also,
//! checks miscellaneous properties of `Task`.

use core::hash::{Hash, Hasher};

use constance::error::{ActivateTaskError, CancelInterruptTaskError, InterruptTaskError};
use constance::kernel::Kernel;
use constance::task::{Hunk, StackHunk, Task, TaskAttr, TaskCb, TaskSt};
use wyhash::WyHash;

fn task_cb(priority: u8, st: TaskSt) -> TaskCb {
    TaskCb {
        port_task_state: 0,
        attr: TaskAttr {
            entry_point: 0x2000,
            entry_param: 7,
            stack: StackHunk::from_hunk(Hunk { offset: 0, len: 4096 }),
        },
        priority,
        st,
    }
}

/// Start the system with `task1` (priority 2) running and `task2`
/// (priority 1) dormant.
fn boot_two_tasks() -> Kernel {
    let mut k = Kernel::new(
        3,
        vec![task_cb(2, TaskSt::PendingActivation), task_cb(1, TaskSt::Dormant)],
    );
    k.boot();
    k.choose_running_task();
    assert_eq!(k.running_task(), Some(0));
    k.leave_cpu_lock();
    k
}

#[test]
fn task1_body() {
    let mut k = boot_two_tasks();
    let task1 = Task::from_id(1);
    let task2 = Task::from_id(2);

    // `PartialEq`
    assert_ne!(task1, task2);
    assert_eq!(task1, task1);
    assert_eq!(task2, task2);

    // `Hash`
    let hash = |x: Task| {
        let mut hasher = WyHash::with_seed(42);
        x.hash(&mut hasher);
        hasher.finish()
    };
    assert_eq!(hash(task1), hash(task1));
    assert_eq!(hash(task2), hash(task2));

    // Invalid task ID
    let bad_task = Task::from_id(42);
    assert_eq!(bad_task.activate(&mut k), Err(ActivateTaskError::BadId));

    // The task is already active
    assert_eq!(task1.activate(&mut k), Err(ActivateTaskError::QueueOverflow));
}

/// A failing activation leaves the scheduler state untouched.
#[test]
fn bad_id_activation_changes_nothing() {
    let mut k = boot_two_tasks();
    let bad_task = Task::from_id(42);
    assert_eq!(bad_task.activate(&mut k), Err(ActivateTaskError::BadId));
    assert_eq!(k.running_task(), Some(0));
    assert_eq!(k.task_state(0), TaskSt::Running);
    assert_eq!(k.task_state(1), TaskSt::Dormant);
    assert!(!k.has_cpu_lock());
    assert!(!k.dispatch_requested());
    for p in 0..k.num_task_priority_levels() {
        assert_eq!(k.ready_len(p), 0);
    }
}

/// Activation requires CPU Lock to be inactive.
#[test]
fn activate_rejects_cpu_lock_context() {
    let mut k = boot_two_tasks();
    assert_eq!(k.acquire_cpu_lock(), Ok(()));
    assert_eq!(
        Task::from_id(2).activate(&mut k),
        Err(ActivateTaskError::BadContext)
    );
    assert_eq!(k.release_cpu_lock(), Ok(()));
}

/// The reserved per-task operations validate context and identifier, then
/// report that they are not supported.
#[test]
fn reserved_operations_report_not_supported() {
    let mut k = boot_two_tasks();
    let task2 = Task::from_id(2);
    let bad_task = Task::from_id(9);

    assert_eq!(task2.interrupt(&k), Err(InterruptTaskError::NotSupported));
    assert_eq!(bad_task.interrupt(&k), Err(InterruptTaskError::BadId));
    assert_eq!(
        task2.cancel_interrupt(&k),
        Err(CancelInterruptTaskError::NotSupported)
    );
    assert_eq!(
        bad_task.cancel_interrupt(&k),
        Err(CancelInterruptTaskError::BadId)
    );

    assert_eq!(k.acquire_cpu_lock(), Ok(()));
    assert_eq!(task2.interrupt(&k), Err(InterruptTaskError::BadContext));
    assert_eq!(
        task2.cancel_interrupt(&k),
        Err(CancelInterruptTaskError::BadContext)
    );
    assert_eq!(k.release_cpu_lock(), Ok(()));
}

/// `Task::current` names the running task by its 1-based identifier.
#[test]
fn current_names_running_task() {
    let mut k = boot_two_tasks();
    assert_eq!(Task::current(&k), Ok(Some(Task::from_id(1))));
    assert_eq!(Task::current(&k).unwrap().unwrap().id(), 1);
}
