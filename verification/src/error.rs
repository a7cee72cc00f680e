//! Error codes returned by the kernel's public operations.
//!
//! Every fault is returned as a value; the kernel never unwinds. Each
//! operation validates the calling context first and returns `BadContext`
//! before touching any state.

use vstd::prelude::*;

verus! {

/// Error type for task activation.
#[derive(Debug, Clone, Copy, PartialEq, Eq, Structural)]
pub enum ActivateTaskError {
    /// CPU Lock was active when the operation was called.
    BadContext,
    /// The task identifier does not name a task in the pool.
    BadId,
    /// The task was not in the Dormant state. Activation requests are not
    /// queued by this kernel.
    QueueOverflow,
}

/// Error type for acquiring and releasing CPU Lock.
#[derive(Debug, Clone, Copy, PartialEq, Eq, Structural)]
pub enum CpuLockError {
    /// CPU Lock was already in the requested state.
    BadContext,
}

/// Error type for operations that take a task identifier.
#[derive(Debug, Clone, Copy, PartialEq, Eq, Structural)]
pub enum BadIdError {
    /// The identifier does not name a task in the pool.
    BadId,
}

/// Error type for `exit_task`.
#[derive(Debug, Clone, Copy, PartialEq, Eq, Structural)]
pub enum ExitTaskError {
    /// The operation was called from a context with no running task.
    BadContext,
}

/// Error type for querying the current task.
#[derive(Debug, Clone, Copy, PartialEq, Eq, Structural)]
pub enum GetCurrentTaskError {
    /// CPU Lock was active when the operation was called.
    BadContext,
}

/// Error type for `Task::interrupt`, a reserved operation.
#[derive(Debug, Clone, Copy, PartialEq, Eq, Structural)]
pub enum InterruptTaskError {
    /// CPU Lock was active when the operation was called.
    BadContext,
    /// The task identifier does not name a task in the pool.
    BadId,
    /// The operation is reserved and not provided by this kernel.
    NotSupported,
}

/// Error type for `Task::cancel_interrupt`, a reserved operation.
#[derive(Debug, Clone, Copy, PartialEq, Eq, Structural)]
pub enum CancelInterruptTaskError {
    /// CPU Lock was active when the operation was called.
    BadContext,
    /// The task identifier does not name a task in the pool.
    BadId,
    /// The operation is reserved and not provided by this kernel.
    NotSupported,
}

/// Error type for setting an interrupt line's priority.
#[derive(Debug, Clone, Copy, PartialEq, Eq, Structural)]
pub enum SetInterruptLinePriorityError {
    /// The line number or the priority value is out of range.
    BadParam,
    /// The operation is not provided by the interrupt controller.
    NotSupported,
}

/// Error type for enabling or disabling an interrupt line.
#[derive(Debug, Clone, Copy, PartialEq, Eq, Structural)]
pub enum EnableInterruptLineError {
    /// The line number is out of range.
    BadParam,
    /// The operation is not provided by the interrupt controller.
    NotSupported,
}

/// Error type for pending an interrupt line.
#[derive(Debug, Clone, Copy, PartialEq, Eq, Structural)]
pub enum PendInterruptLineError {
    /// The line number is out of range.
    BadParam,
    /// The operation is not provided by the interrupt controller.
    NotSupported,
}

/// Error type for clearing an interrupt line's pending flag.
#[derive(Debug, Clone, Copy, PartialEq, Eq, Structural)]
pub enum ClearInterruptLineError {
    /// The line number is out of range.
    BadParam,
    /// The operation is not provided by the interrupt controller.
    NotSupported,
}

/// Error type for querying an interrupt line's pending flag.
#[derive(Debug, Clone, Copy, PartialEq, Eq, Structural)]
pub enum QueryInterruptLineError {
    /// The line number is out of range.
    BadParam,
    /// The operation is not provided by the interrupt controller.
    NotSupported,
}

} // verus!
