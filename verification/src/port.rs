//! The port contract: the operations an architecture-specific layer
//! supplies, and the obligations the scheduler places on them.
//!
//! A port implements these traits — on hardware with interrupt masking,
//! context-switch code and a timer; in a hosted simulation with whatever
//! stands in for them. The contracts record the preconditions the kernel
//! honors when calling the port and the guarantees the kernel relies on;
//! the operations that transfer control away for good on hardware return
//! here once the embedding's run completes.

use vstd::prelude::*;

use crate::error::{
    ClearInterruptLineError, EnableInterruptLineError, PendInterruptLineError,
    QueryInterruptLineError, SetInterruptLinePriorityError,
};
use crate::kernel::Kernel;
use crate::task::TaskCb;
use crate::{InterruptNum, InterruptPriority, UTicks};

verus! {

/// Low-level operations for controlling CPU states and context
/// switching.
pub trait PortThreading {
    /// Whether CPU Lock is active, as the port tracks it.
    spec fn cpu_lock_active(&self) -> bool;

    /// Whether the current context is a task context.
    spec fn task_context(&self) -> bool;

    /// Disable all kernel-managed interrupts (this state is called *CPU
    /// Lock*). May only be called while CPU Lock is inactive.
    fn enter_cpu_lock(&mut self)
        requires
            !old(self).cpu_lock_active(),
        ensures
            final(self).cpu_lock_active(),
    ;

    /// Re-enable kernel-managed interrupts previously disabled by
    /// `enter_cpu_lock`, deactivating the CPU Lock state. May only be
    /// called while CPU Lock is active.
    fn leave_cpu_lock(&mut self)
        requires
            old(self).cpu_lock_active(),
        ensures
            !final(self).cpu_lock_active(),
    ;

    /// Return a flag indicating whether a CPU Lock state is active.
    fn is_cpu_lock_active(&self) -> (r: bool)
        ensures
            r == self.cpu_lock_active(),
    ;

    /// Return a flag indicating whether the current context is a task
    /// context.
    fn is_task_context(&self) -> (r: bool)
        ensures
            r == self.task_context(),
    ;

    /// Activate CPU Lock. Returns `true` iff CPU Lock was inactive before
    /// the call.
    fn try_enter_cpu_lock(&mut self) -> (r: bool)
        ensures
            r == !old(self).cpu_lock_active(),
            final(self).cpu_lock_active(),
    {
        if self.is_cpu_lock_active() {
            false
        } else {
            self.enter_cpu_lock();
            true
        }
    }

    /// Yield the processor: arrange for the dispatcher to run — in a task
    /// context at once, in an interrupt context after every active
    /// handler has returned. May only be called while CPU Lock is
    /// inactive.
    fn yield_cpu(&mut self)
        requires
            !old(self).cpu_lock_active(),
    ;

    /// Transfer control to the dispatcher, discarding the current startup
    /// context. Called once by the boot sequencer, with CPU Lock active
    /// and no running task; the dispatcher picks the first task through
    /// [`Kernel::choose_running_task`] and restores its context.
    fn dispatch_first_task(&mut self, kernel: &mut Kernel)
        requires
            old(self).cpu_lock_active(),
            old(kernel).wf(),
            old(kernel).cpu_lock,
            old(kernel).running_task is None,
    ;

    /// Reclaim the stack of the task in slot `task`, which has exited and
    /// is no longer `running_task`, and proceed to dispatch. May only be
    /// called while CPU Lock is active.
    fn exit_and_dispatch(&mut self, kernel: &mut Kernel, task: usize)
        requires
            old(self).cpu_lock_active(),
            old(kernel).wf(),
            old(kernel).cpu_lock,
            old(kernel).running_task is None,
            task < old(kernel).n_tasks(),
    ;

    /// Prepare a task for activation: populate its saved context so that,
    /// when the context is restored, execution begins at the task's entry
    /// point with the stack pointer at the high end of its stack region
    /// and a return address in the kernel's exit trampoline. May only be
    /// called while CPU Lock is active, and never for a running task.
    fn initialize_task_state(&mut self, task: &mut TaskCb)
        requires
            old(self).cpu_lock_active(),
    ;
}

/// Operations for controlling interrupt lines. Every operation
/// range-checks its line and forwards to the interrupt controller; a
/// driver that does not support an operation reports `NotSupported`,
/// which the defaults here do.
pub trait PortInterrupts {
    /// Set the priority of the specified interrupt line. May only be
    /// called from a task context or the boot phase, with CPU Lock
    /// active.
    fn set_interrupt_line_priority(&mut self, line: InterruptNum, priority: InterruptPriority) -> (r:
        Result<(), SetInterruptLinePriorityError>) {
        Err(SetInterruptLinePriorityError::NotSupported)
    }

    /// Enable the specified interrupt line.
    fn enable_interrupt_line(&mut self, line: InterruptNum) -> (r: Result<
        (),
        EnableInterruptLineError,
    >) {
        Err(EnableInterruptLineError::NotSupported)
    }

    /// Disable the specified interrupt line.
    fn disable_interrupt_line(&mut self, line: InterruptNum) -> (r: Result<
        (),
        EnableInterruptLineError,
    >) {
        Err(EnableInterruptLineError::NotSupported)
    }

    /// Set the pending flag of the specified interrupt line.
    fn pend_interrupt_line(&mut self, line: InterruptNum) -> (r: Result<
        (),
        PendInterruptLineError,
    >) {
        Err(PendInterruptLineError::NotSupported)
    }

    /// Clear the pending flag of the specified interrupt line.
    fn clear_interrupt_line(&mut self, line: InterruptNum) -> (r: Result<
        (),
        ClearInterruptLineError,
    >) {
        Err(ClearInterruptLineError::NotSupported)
    }

    /// Read the pending flag of the specified interrupt line.
    fn is_interrupt_line_pending(&self, line: InterruptNum) -> (r: Result<
        bool,
        QueryInterruptLineError,
    >) {
        Err(QueryInterruptLineError::NotSupported)
    }
}

/// Operations for controlling the system timer.
pub trait PortTimer {
    /// The maximum value [`PortTimer::tick_count`] can return. Greater
    /// than zero, and constant over the port's lifetime.
    spec fn max_tick_count(&self) -> UTicks;

    /// The maximum value that can be passed to
    /// [`PortTimer::pend_tick_after`]. Greater than zero, and constant
    /// over the port's lifetime.
    spec fn max_timeout(&self) -> UTicks;

    /// Read the current tick count. The value increases steadily over
    /// time and wraps around to `0` past `max_tick_count`. May only be
    /// called while CPU Lock is active.
    fn tick_count(&mut self) -> (r: UTicks)
        ensures
            r <= old(self).max_tick_count(),
            final(self).max_tick_count() == old(self).max_tick_count(),
            final(self).max_timeout() == old(self).max_timeout(),
    ;

    /// Hint that `tick_count_delta` ticks — the current, ongoing tick
    /// included — may elapse before the kernel needs its next timer
    /// callback. May only be called while CPU Lock is active.
    fn pend_tick_after(&mut self, tick_count_delta: UTicks)
        requires
            1 <= tick_count_delta <= old(self).max_timeout(),
        ensures
            final(self).max_tick_count() == old(self).max_tick_count(),
            final(self).max_timeout() == old(self).max_timeout(),
    ;

    /// Request the kernel's timer callback as soon as possible. May only
    /// be called while CPU Lock is active.
    fn pend_tick(&mut self)
        ensures
            final(self).max_tick_count() == old(self).max_tick_count(),
            final(self).max_timeout() == old(self).max_timeout(),
    ;
}

/// The group of traits a port implements.
pub trait Port: PortThreading + PortInterrupts + PortTimer {

}

} // verus!
