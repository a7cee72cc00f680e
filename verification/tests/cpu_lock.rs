//! Activates and deactivates CPU Lock.

use constance::error::CpuLockError;
use constance::kernel::Kernel;
use constance::task::{Hunk, StackHunk, TaskAttr, TaskCb, TaskSt};

fn task_cb(priority: u8, st: TaskSt) -> TaskCb {
    TaskCb {
        port_task_state: 0,
        attr: TaskAttr {
            entry_point: 0x1000,
            entry_param: 0,
            stack: StackHunk::from_hunk(Hunk { offset: 0, len: 4096 }),
        },
        priority,
        st,
    }
}

/// A matched acquire/release pair flips the lock there and back; a second
/// acquisition or release is rejected without touching the state.
#[test]
fn task_body() {
    let mut k = Kernel::new(1, vec![task_cb(0, TaskSt::PendingActivation)]);
    k.boot();
    k.choose_running_task();
    assert_eq!(k.running_task(), Some(0));
    // The port releases CPU Lock when it restores the first task's context
    k.leave_cpu_lock();

    assert!(!k.has_cpu_lock());

    // Acquire CPU Lock
    assert_eq!(k.acquire_cpu_lock(), Ok(()));

    // Can't do it again because it's already acquired
    assert!(k.has_cpu_lock());
    assert_eq!(k.acquire_cpu_lock(), Err(CpuLockError::BadContext));
    assert!(k.has_cpu_lock());

    // Release CPU Lock
    assert_eq!(k.release_cpu_lock(), Ok(()));

    // Can't do it again because it's already released
    assert!(!k.has_cpu_lock());
    assert_eq!(k.release_cpu_lock(), Err(CpuLockError::BadContext));
    assert!(!k.has_cpu_lock());
}

/// `try_enter_cpu_lock` reports whether the call took the lock.
#[test]
fn try_enter_reports_transition() {
    let mut k = Kernel::new(1, vec![task_cb(0, TaskSt::Dormant)]);
    k.boot();
    k.leave_cpu_lock();

    assert!(k.try_enter_cpu_lock());
    assert!(k.has_cpu_lock());
    assert!(!k.try_enter_cpu_lock());
    assert!(k.has_cpu_lock());
}
