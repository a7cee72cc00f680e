//! The port contract: a minimal hosted port exercises the contract's
//! provided operations.

use constance::error::{EnableInterruptLineError, SetInterruptLinePriorityError};
use constance::port::{PortInterrupts, PortThreading, PortTimer};
use constance::task::TaskCb;

struct SimPort {
    lock: bool,
}

impl PortThreading for SimPort {
    // The ghost observers of the contract, compiled down to ordinary
    // methods for an implementor outside the verified crate
    fn cpu_lock_active(&self) -> bool {
        self.lock
    }

    fn task_context(&self) -> bool {
        true
    }

    fn enter_cpu_lock(&mut self) {
        self.lock = true;
    }

    fn leave_cpu_lock(&mut self) {
        self.lock = false;
    }

    fn is_cpu_lock_active(&self) -> bool {
        self.lock
    }

    fn is_task_context(&self) -> bool {
        true
    }

    fn yield_cpu(&mut self) {}

    fn dispatch_first_task(&mut self, kernel: &mut constance::kernel::Kernel) {
        kernel.choose_running_task();
    }

    fn exit_and_dispatch(&mut self, kernel: &mut constance::kernel::Kernel, _task: usize) {
        kernel.choose_running_task();
    }

    fn initialize_task_state(&mut self, _task: &mut TaskCb) {}
}

impl PortInterrupts for SimPort {}

impl PortTimer for SimPort {
    fn max_tick_count(&self) -> u32 {
        u32::MAX
    }

    fn max_timeout(&self) -> u32 {
        u32::MAX / 2
    }

    fn tick_count(&mut self) -> u32 {
        0
    }

    fn pend_tick_after(&mut self, _tick_count_delta: u32) {}

    fn pend_tick(&mut self) {}
}

/// The provided `try_enter_cpu_lock` reports whether the call took the
/// lock, and always leaves it held.
#[test]
fn try_enter_cpu_lock_default() {
    let mut port = SimPort { lock: false };
    assert!(port.try_enter_cpu_lock());
    assert!(port.is_cpu_lock_active());
    assert!(!port.try_enter_cpu_lock());
    assert!(port.is_cpu_lock_active());
}

/// The provided interrupt-line operations report `NotSupported`.
#[test]
fn interrupt_line_defaults_report_not_supported() {
    let mut port = SimPort { lock: false };
    assert_eq!(
        port.set_interrupt_line_priority(3, 1),
        Err(SetInterruptLinePriorityError::NotSupported)
    );
    assert_eq!(
        port.enable_interrupt_line(3),
        Err(EnableInterruptLineError::NotSupported)
    );
    assert_eq!(
        port.disable_interrupt_line(3),
        Err(EnableInterruptLineError::NotSupported)
    );
}
