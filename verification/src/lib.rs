//! A fixed-priority preemptive real-time kernel core: the task state machine,
//! the per-priority ready queue with its priority bitmap, the scheduler, and
//! the CPU-Lock critical-section discipline, together with models of the
//! architecture-specific collaborators (initial task context layout, a
//! platform-level interrupt controller).
//!
//! The kernel state is held explicitly in a [`kernel::Kernel`] value; an
//! embedding (a port) drives it: it performs the context switches and calls
//! back into the scheduler whenever a dispatch has been requested.

pub mod error;
pub mod kernel;
pub mod plic;
pub mod port;
pub mod sync;
pub mod task;
pub mod threading;

use vstd::prelude::*;

verus! {

/// Numeric value identifying a kernel object. Task identifiers are 1-based:
/// the task with identifier `n` occupies slot `n - 1` of the task pool.
pub type Id = usize;

/// Index of an interrupt line.
pub type InterruptNum = usize;

/// Priority value of an interrupt line. Which end of the range takes
/// precedence is the interrupt controller's convention.
pub type InterruptPriority = i16;

/// Unsigned integer type representing a tick count used by a port timer
/// driver. The period of each tick is fixed at one microsecond.
pub type UTicks = u32;

} // verus!
