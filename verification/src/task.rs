//! Tasks: the per-task control block and the public task handle.

use vstd::prelude::*;

use crate::error::{ActivateTaskError, CancelInterruptTaskError, GetCurrentTaskError, InterruptTaskError};
use crate::kernel::Kernel;
use crate::Id;

verus! {

/// Task state machine.
///
/// ```text
/// Dormant -- activate --> Ready -- chosen --> Running
///                           ^                   |
///                           |<----- preempt ----|
///                           |                   |
///                         wake                 wait
///                           |                   v
///                           +-------------- Waiting
/// Running -- exit_task --> Dormant
/// PendingActivation -- boot --> Ready
/// ```
#[derive(Debug, Clone, Copy, PartialEq, Eq, Structural)]
pub enum TaskSt {
    /// The task is in the Dormant state.
    Dormant,
    /// The task is runnable and sits in the ready queue of its priority.
    Ready,
    /// The task is the one currently chosen to run.
    Running,
    /// The task is blocked until it is woken up.
    Waiting,
    /// The task should be activated at startup. This transitions into
    /// `Ready` before the first task is scheduled.
    PendingActivation,
}

/// A handle to a byte region inside the statically-allocated hunk pool,
/// given as an offset and a length.
#[derive(Debug, Clone, Copy, PartialEq, Eq, Structural)]
pub struct Hunk {
    /// Offset of the region from the start of the hunk pool, in bytes.
    pub offset: usize,
    /// Length of the region in bytes.
    pub len: usize,
}

/// A [`Hunk`] used as a task stack.
///
/// The region is word-aligned and, while the owning task is not Dormant,
/// solely owned by that task.
#[derive(Debug, Clone, Copy, PartialEq, Eq, Structural)]
pub struct StackHunk {
    /// The wrapped region.
    pub hunk: Hunk,
}

impl StackHunk {
    /// Construct a `StackHunk` from a `Hunk`.
    ///
    /// The caller is responsible for making sure the region represented by
    /// `hunk` is solely used for a single task's stack and is properly
    /// aligned for one.
    pub fn from_hunk(hunk: Hunk) -> (r: StackHunk)
        ensures
            r.hunk == hunk,
    {
        StackHunk { hunk }
    }

    /// Get the inner `Hunk`, consuming `self`.
    pub fn into_inner(self) -> (r: Hunk)
        ensures
            r == self.hunk,
    {
        self.hunk
    }

    /// The inner `Hunk`, for use in specifications.
    pub open spec fn view(self) -> Hunk {
        self.hunk
    }
}

/// The static properties of a task.
#[derive(Debug, Clone, Copy, PartialEq, Eq, Structural)]
pub struct TaskAttr {
    /// The entry point of the task, as a machine address. The kernel never
    /// calls through it; the port does, when it first gives the task
    /// control.
    pub entry_point: usize,
    /// The parameter supplied for `entry_point`.
    pub entry_param: usize,
    /// The stack region for the task.
    pub stack: StackHunk,
}

/// *Task control block* — the state data of a task.
///
/// The port-owned saved-context field is declared first: context-switch
/// code reaches the saved context of `running_task` through a single
/// indirection from the start of the block.
#[derive(Debug, Clone, Copy, PartialEq, Eq, Structural)]
pub struct TaskCb {
    /// The port's saved-context word of the owning task, typically the saved
    /// stack pointer. Owned by the port: the kernel neither reads nor
    /// writes it.
    pub port_task_state: usize,
    /// The static properties of the task.
    pub attr: TaskAttr,
    /// The task's priority. `0` is the highest priority.
    pub priority: u8,
    /// The task's current state.
    pub st: TaskSt,
}

/// Represents a single task in a system: a handle carrying the task's
/// 1-based identifier.
#[derive(Debug, Clone, Copy, PartialEq, Eq, Hash, Structural)]
pub struct Task {
    /// The 1-based task identifier.
    pub id: Id,
}

impl Task {
    /// Construct a `Task` from an identifier.
    ///
    /// The kernel can handle invalid identifiers without a problem: every
    /// operation on a handle that does not name a task in the pool fails
    /// with a bad-identifier error.
    pub fn from_id(id: Id) -> (r: Task)
        ensures
            r.id == id,
    {
        Task { id }
    }

    /// Get the raw identifier value the handle carries.
    pub fn id(self) -> (r: Id)
        ensures
            r == self.id,
    {
        self.id
    }

    /// The identifier, for use in specifications.
    pub open spec fn view(self) -> Id {
        self.id
    }

    /// Whether this handle names a task in `k`'s pool. Identifier `n`
    /// names the task in slot `n - 1`.
    pub open spec fn names_task_in(self, k: Kernel) -> bool {
        1 <= self.id <= k.tasks@.len()
    }

    /// The slot index this handle names.
    pub open spec fn index(self) -> int {
        self.id - 1
    }

    /// Start the execution of the task.
    ///
    /// CPU Lock is taken for the duration of the call; `BadContext` is
    /// returned if it was already active. `BadId` is returned for a handle
    /// that names no task in the pool, and `QueueOverflow` for a task that
    /// is not Dormant (activation requests are not queued). A failing call
    /// leaves the kernel state unchanged.
    pub fn activate(self, k: &mut Kernel) -> (r: Result<(), ActivateTaskError>)
        requires
            old(k).wf(),
        ensures
            final(k).wf(),
            old(k).cpu_lock ==> r == Err::<(), ActivateTaskError>(ActivateTaskError::BadContext)
                && *final(k) == *old(k),
            !old(k).cpu_lock && !self.names_task_in(*old(k)) ==> r == Err::<(),
                ActivateTaskError,
            >(ActivateTaskError::BadId) && *final(k) == *old(k),
            !old(k).cpu_lock && self.names_task_in(*old(k)) && old(k).st(self.index())
                != TaskSt::Dormant ==> r == Err::<(), ActivateTaskError>(
                ActivateTaskError::QueueOverflow,
            ) && *final(k) == *old(k),
            !old(k).cpu_lock && self.names_task_in(*old(k)) && old(k).st(self.index())
                == TaskSt::Dormant ==> r == Ok::<(), ActivateTaskError>(()) && final(k).tasks@
                == old(k).tasks@.update(
                self.index(),
                (TaskCb { st: TaskSt::Ready, ..old(k).tasks@[self.index()] }),
            ) && final(k).ready(old(k).prio(self.index())) == old(k).ready(
                old(k).prio(self.index()),
            ).push((self.id - 1) as usize) && (forall|p: int|
                0 <= p < final(k).levels() && p != old(k).prio(self.index())
                    ==> #[trigger] final(k).ready(p) == old(k).ready(p)) && final(k).running_task
                == old(k).running_task && !final(k).cpu_lock && final(k).dispatch_pending == (old(
                k,
            ).dispatch_pending || ({
                let nl = if old(k).prio(self.index()) < old(k).lowest_ready() {
                    old(k).prio(self.index())
                } else {
                    old(k).lowest_ready()
                };
                nl < old(k).running_prio_or_inf()
            })),
    {
        // Take CPU Lock; fail if it is already held
        if k.has_cpu_lock() {
            return Err(ActivateTaskError::BadContext);
        }
        k.enter_cpu_lock();
        proof {
            crate::kernel::lemma_wf_transfer(*old(k), *k);
            crate::kernel::lemma_lowest_same(*k, *old(k), 0);
            assert(k.lowest_ready() == old(k).lowest_ready());
            assert(k.running_prio_or_inf() == old(k).running_prio_or_inf());
            assert forall|j: int| 0 <= j < k.n_tasks() implies #[trigger] k.st(j) == old(k).st(j)
                && k.prio(j) == old(k).prio(j) by {}
        }

        // Resolve the handle to a task control block
        if self.id == 0 || self.id > k.task_count() {
            k.leave_cpu_lock();
            return Err(ActivateTaskError::BadId);
        }
        let i = self.id - 1;
        let ghost entered = *k;
        let r = k.activate(i);
        proof {
            if old(k).st(self.index()) != TaskSt::Dormant {
                assert(*k == (Kernel { cpu_lock: false, ..entered }));
                assert(*k == *old(k));
            } else {
                assert forall|p: int|
                    0 <= p < final(k).levels() && p != old(k).prio(self.index())
                        implies #[trigger] k.ready(p) == old(k).ready(p) by {
                    assert(k.ready(p) == entered.ready(p));
                }
                assert(k.ready(old(k).prio(self.index())) == old(k).ready(
                    old(k).prio(self.index()),
                ).push((self.id - 1) as usize));
            }
        }
        r
    }

    /// Interrupt any ongoing wait operation undertaken by the task.
    ///
    /// This operation is reserved: the kernel validates the calling
    /// context and the handle, then reports `NotSupported`.
    pub fn interrupt(self, k: &Kernel) -> (r: Result<(), InterruptTaskError>)
        ensures
            k.cpu_lock ==> r == Err::<(), InterruptTaskError>(InterruptTaskError::BadContext),
            !k.cpu_lock && !self.names_task_in(*k) ==> r == Err::<(), InterruptTaskError>(
                InterruptTaskError::BadId,
            ),
            !k.cpu_lock && self.names_task_in(*k) ==> r == Err::<(), InterruptTaskError>(
                InterruptTaskError::NotSupported,
            ),
    {
        if k.has_cpu_lock() {
            return Err(InterruptTaskError::BadContext);
        }
        if self.id == 0 || self.id > k.task_count() {
            return Err(InterruptTaskError::BadId);
        }
        Err(InterruptTaskError::NotSupported)
    }

    /// Cancel any pending interrupt request enqueued by
    /// [`Task::interrupt`].
    ///
    /// This operation is reserved: the kernel validates the calling
    /// context and the handle, then reports `NotSupported`.
    pub fn cancel_interrupt(self, k: &Kernel) -> (r: Result<(), CancelInterruptTaskError>)
        ensures
            k.cpu_lock ==> r == Err::<(), CancelInterruptTaskError>(
                CancelInterruptTaskError::BadContext,
            ),
            !k.cpu_lock && !self.names_task_in(*k) ==> r == Err::<(), CancelInterruptTaskError>(
                CancelInterruptTaskError::BadId,
            ),
            !k.cpu_lock && self.names_task_in(*k) ==> r == Err::<(), CancelInterruptTaskError>(
                CancelInterruptTaskError::NotSupported,
            ),
    {
        if k.has_cpu_lock() {
            return Err(CancelInterruptTaskError::BadContext);
        }
        if self.id == 0 || self.id > k.task_count() {
            return Err(CancelInterruptTaskError::BadId);
        }
        Err(CancelInterruptTaskError::NotSupported)
    }

    /// Get the current task: the running task in a task context, or the
    /// interrupted task in an interrupt handler.
    ///
    /// CPU Lock is taken for the duration of the query; `BadContext` is
    /// returned if it was already active.
    pub fn current(k: &Kernel) -> (r: Result<Option<Task>, GetCurrentTaskError>)
        requires
            k.wf(),
        ensures
            k.cpu_lock ==> r == Err::<Option<Task>, GetCurrentTaskError>(
                GetCurrentTaskError::BadContext,
            ),
            !k.cpu_lock && k.running_task is None ==> r == Ok::<Option<Task>,
                GetCurrentTaskError,
            >(None),
            !k.cpu_lock ==> (k.running_task matches Some(i) ==> r == Ok::<Option<Task>,
                GetCurrentTaskError,
            >(Some(Task { id: (i + 1) as usize }))),
    {
        if k.has_cpu_lock() {
            return Err(GetCurrentTaskError::BadContext);
        }
        match k.running_task() {
            None => Ok(None),
            Some(i) => {
                proof {
                    assert(k.valid_task(i as int));
                }
                Ok(Some(Task::from_id(i + 1)))
            },
        }
    }
}

} // verus!
