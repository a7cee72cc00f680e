//! The kernel: global scheduler state, the ready queue with its priority
//! bitmap, and the scheduler core.
//!
//! The state that an embedded kernel keeps in statically-allocated cells is
//! held here in one explicit [`Kernel`] value. A port drives it: scheduler
//! mutations happen through the methods of this module, all of them while
//! CPU Lock is active, and the port performs the actual context switches
//! whenever a dispatch has been requested.

use vstd::prelude::*;

use crate::task::{TaskCb, TaskSt};

verus! {

/// A priority value strictly greater than every real priority, standing in
/// for "no task". Task priorities are below [`MAX_PRIORITY_LEVELS`].
pub const PRIORITY_INFINITY: usize = 64;

/// The largest supported number of task priority levels: the width of the
/// ready bitmap.
pub const MAX_PRIORITY_LEVELS: usize = 64;

/// Whether bit `p` of `bm` is set.
pub open spec fn bitmap_bit(bm: u64, p: int) -> bool {
    0 <= p < 64 && (bm >> (p as u64)) & 1u64 == 1u64
}

/// Global kernel state.
///
/// The fields are exposed for specification purposes; outside the kernel's
/// own operations they are to be treated as read-only. Every operation
/// requires the state to be well-formed ([`Kernel::wf`] or
/// [`Kernel::wf_core`]) and preserves well-formedness.
pub struct Kernel {
    /// The pool of task control blocks. The task with identifier `n`
    /// occupies slot `n - 1`.
    pub tasks: Vec<TaskCb>,
    /// The task ready queue: one first-in-first-out bucket of task indices
    /// per priority.
    pub ready_queue: Vec<Vec<usize>>,
    /// Bit `p` is set iff `ready_queue[p]` is non-empty.
    pub task_ready_bitmap: u64,
    /// The index of the currently or recently running task. `None` before
    /// the first dispatch and after the running task exits.
    pub running_task: Option<usize>,
    /// Whether CPU Lock is active. All scheduler mutations require it.
    pub cpu_lock: bool,
    /// Whether a dispatch has been requested and not yet performed: the
    /// model of the pended software interrupt whose handler runs the
    /// dispatcher.
    pub dispatch_pending: bool,
}

impl Kernel {
    /// The number of task priority levels.
    pub open spec fn levels(self) -> int {
        self.ready_queue@.len() as int
    }

    /// The number of tasks in the pool.
    pub open spec fn n_tasks(self) -> int {
        self.tasks@.len() as int
    }

    /// The state of the task in slot `i`.
    pub open spec fn st(self, i: int) -> TaskSt {
        self.tasks@[i].st
    }

    /// The priority of the task in slot `i`.
    pub open spec fn prio(self, i: int) -> int {
        self.tasks@[i].priority as int
    }

    /// The contents of the ready bucket for priority `p`, in queue order:
    /// the head (next to be popped) first.
    pub open spec fn ready(self, p: int) -> Seq<usize> {
        self.ready_queue@[p]@
    }

    /// Whether slot index `i` is valid.
    pub open spec fn valid_task(self, i: int) -> bool {
        0 <= i < self.n_tasks()
    }

    /// Entry `j` of bucket `p` is a valid task of that priority in the
    /// Ready state.
    pub open spec fn member_ok(self, p: int, j: int) -> bool {
        let i = self.ready(p)[j] as int;
        &&& self.valid_task(i)
        &&& self.prio(i) == p
        &&& self.st(i) == TaskSt::Ready
    }

    /// Structural well-formedness of the ready queue and the task pool:
    ///
    /// - the bitmap has bit `p` set iff bucket `p` is non-empty;
    /// - every bucket entry is a valid Ready task of the bucket's priority,
    ///   and appears only once;
    /// - every Ready task is in the bucket of its priority;
    /// - every priority is below the number of levels;
    /// - `running_task`, if present, names a valid task that is Running,
    ///   Ready or Waiting (Ready and Waiting can be observed only between a
    ///   wait or wake and the next dispatch).
    pub open spec fn wf_core(self) -> bool {
        &&& 1 <= self.levels() <= 64
        &&& self.n_tasks() < usize::MAX
        &&& forall|p: int|
            0 <= p < self.levels() ==> (bitmap_bit(self.task_ready_bitmap, p) <==> #[trigger] self.ready(p).len() > 0)
        &&& forall|p: int| self.levels() <= p < 64 ==> !bitmap_bit(self.task_ready_bitmap, p)
        &&& forall|p: int, j: int|
            0 <= p < self.levels() && 0 <= j < self.ready(p).len() ==> #[trigger] self.member_ok(p, j)
        &&& forall|p: int, j1: int, j2: int|
            0 <= p < self.levels() && 0 <= j1 < self.ready(p).len() && 0 <= j2 < self.ready(p).len()
                && #[trigger] self.ready(p)[j1] == #[trigger] self.ready(p)[j2] ==> j1 == j2
        &&& forall|i: int|
            self.valid_task(i) && #[trigger] self.st(i) == TaskSt::Ready ==> self.ready(self.prio(i)).contains(i as usize)
        &&& forall|i: int| self.valid_task(i) ==> 0 <= #[trigger] self.prio(i) < self.levels()
        &&& match self.running_task {
            Some(i) => self.valid_task(i as int) && self.st(i as int) != TaskSt::Dormant
                && self.st(i as int) != TaskSt::PendingActivation,
            None => true,
        }
    }

    /// Full well-formedness: [`Kernel::wf_core`], and the running task, if
    /// present, is in the Running state. This holds in every quiescent
    /// state; only the window between a wait or wake and the next dispatch
    /// weakens it to `wf_core`.
    pub open spec fn wf(self) -> bool {
        &&& self.wf_core()
        &&& match self.running_task {
            Some(i) => self.st(i as int) == TaskSt::Running,
            None => true,
        }
    }

    /// The static parts of the task pool (everything but the task states)
    /// and the number of levels are the same in `pre` and `post`.
    pub open spec fn same_statics(pre: Kernel, post: Kernel) -> bool {
        &&& post.n_tasks() == pre.n_tasks()
        &&& post.levels() == pre.levels()
        &&& forall|i: int|
            0 <= i < pre.n_tasks() ==> #[trigger] post.tasks@[i] == TaskCb {
                st: post.tasks@[i].st,
                ..pre.tasks@[i]
            }
    }

    /// The priority of the running task, or [`PRIORITY_INFINITY`] if there
    /// is none. This is the value the preemption check compares against.
    pub open spec fn running_prio_or_inf(self) -> int {
        match self.running_task {
            Some(i) => self.prio(i as int),
            None => PRIORITY_INFINITY as int,
        }
    }

    /// The priority of the running task if it is in the Running state, or
    /// [`PRIORITY_INFINITY`] otherwise. This is the value
    /// `choose_next_running_task` compares against.
    pub open spec fn eff_running_prio(self) -> int {
        match self.running_task {
            Some(i) => if self.st(i as int) == TaskSt::Running {
                self.prio(i as int)
            } else {
                PRIORITY_INFINITY as int
            },
            None => PRIORITY_INFINITY as int,
        }
    }

    /// The lowest priority value `p >= a` whose ready bucket is non-empty,
    /// or [`PRIORITY_INFINITY`] if there is none.
    pub open spec fn lowest_ready_from(self, a: int) -> int
        decreases 64 - a,
    {
        if a >= self.levels() || a >= 64 {
            PRIORITY_INFINITY as int
        } else if self.ready(a).len() > 0 {
            a
        } else {
            self.lowest_ready_from(a + 1)
        }
    }

    /// The highest-priority (numerically lowest) non-empty ready bucket,
    /// or [`PRIORITY_INFINITY`] if every bucket is empty: the priority of
    /// the next task the dispatcher would pick.
    pub open spec fn lowest_ready(self) -> int {
        self.lowest_ready_from(0)
    }
}

proof fn lemma_bit_or(bm: u64, p: u64, q: u64)
    requires
        p < 64,
        q < 64,
    ensures
        bitmap_bit(bm | (1u64 << p), q as int) == (bitmap_bit(bm, q as int) || p == q),
{
    assert(((bm | (1u64 << p)) >> q) & 1u64 == (if p == q {
        1u64
    } else {
        (bm >> q) & 1u64
    })) by (bit_vector)
        requires
            p < 64,
            q < 64,
    ;
}

proof fn lemma_bit_clear(bm: u64, p: u64, q: u64)
    requires
        p < 64,
        q < 64,
    ensures
        bitmap_bit(bm & !(1u64 << p), q as int) == (bitmap_bit(bm, q as int) && p != q),
{
    assert(((bm & !(1u64 << p)) >> q) & 1u64 == (if p == q {
        0u64
    } else {
        (bm >> q) & 1u64
    })) by (bit_vector)
        requires
            p < 64,
            q < 64,
    ;
}

proof fn lemma_bit_zero(q: u64)
    requires
        q < 64,
    ensures
        !bitmap_bit(0u64, q as int),
{
    assert((0u64 >> q) & 1u64 == 0u64) by (bit_vector);
}

impl Kernel {
    /// When every bucket strictly below `p` is empty and bucket `p` is
    /// non-empty, `p` is the lowest ready priority.
    proof fn lemma_lowest_ready_found(self, a: int, p: int)
        requires
            0 <= a <= p,
            self.levels() <= 64,
            p < self.levels(),
            self.ready(p).len() > 0,
            forall|q: int| a <= q < p ==> #[trigger] self.ready(q).len() == 0,
        ensures
            self.lowest_ready_from(a) == p,
        decreases p - a,
    {
        if a < p {
            self.lemma_lowest_ready_found(a + 1, p);
        }
    }

    /// When every bucket is empty, there is no lowest ready priority.
    proof fn lemma_lowest_ready_none(self, a: int)
        requires
            0 <= a,
            forall|q: int| a <= q < self.levels() ==> #[trigger] self.ready(q).len() == 0,
        ensures
            self.lowest_ready_from(a) == PRIORITY_INFINITY as int,
        decreases 64 - a,
    {
        if a < self.levels() && a < 64 {
            self.lemma_lowest_ready_none(a + 1);
        }
    }

    /// The bucket at the lowest ready priority is non-empty, and no bucket
    /// below it holds a task.
    proof fn lemma_lowest_ready_spec(self, a: int)
        requires
            0 <= a,
            self.levels() <= 64,
        ensures
            self.lowest_ready_from(a) == PRIORITY_INFINITY as int ==> forall|q: int|
                a <= q < self.levels() ==> #[trigger] self.ready(q).len() == 0,
            self.lowest_ready_from(a) != PRIORITY_INFINITY as int ==> {
                let p = self.lowest_ready_from(a);
                &&& a <= p < self.levels()
                &&& self.ready(p).len() > 0
                &&& forall|q: int| a <= q < p ==> #[trigger] self.ready(q).len() == 0
            },
        decreases 64 - a,
    {
        if a < self.levels() && a < 64 && self.ready(a).len() == 0 {
            self.lemma_lowest_ready_spec(a + 1);
        }
    }
}

/// Find the lowest set bit of `bm` among `0..levels`.
fn bitmap_find_set(bm: u64, levels: usize) -> (r: Option<usize>)
    requires
        levels <= 64,
    ensures
        match r {
            Some(p) => p < levels && bitmap_bit(bm, p as int) && forall|q: int|
                0 <= q < p ==> !bitmap_bit(bm, q),
            None => forall|q: int| 0 <= q < levels ==> !bitmap_bit(bm, q),
        },
{
    let mut p: usize = 0;
    while p < levels
        invariant
            p <= levels <= 64,
            forall|q: int| 0 <= q < p ==> !bitmap_bit(bm, q),
        decreases levels - p,
    {
        if (bm >> (p as u64)) & 1u64 == 1u64 {
            return Some(p);
        }
        p = p + 1;
    }
    None
}

/// Relies on `num_traits::ToPrimitive::to_usize` for `u8`: a `u8` value
/// always fits in `usize`, so the conversion returns the value unchanged.
#[verifier::external_body]
fn priority_to_usize(p: &u8) -> (r: Option<usize>)
    ensures
        r == Some(*p as usize),
{
    num_traits::ToPrimitive::to_usize(p)
}

impl Kernel {
    /// Construct the kernel state from its static configuration: the
    /// number of priority levels and the compile-time-populated task pool.
    ///
    /// Every task starts out Dormant or PendingActivation; the ready queue
    /// is empty; CPU Lock is active, as the port enters it before handing
    /// control to the kernel's boot entry.
    pub fn new(num_task_priority_levels: usize, tasks: Vec<TaskCb>) -> (k: Kernel)
        requires
            1 <= num_task_priority_levels <= MAX_PRIORITY_LEVELS,
            tasks@.len() < usize::MAX,
            forall|i: int|
                0 <= i < tasks@.len() ==> (#[trigger] tasks@[i]).priority < num_task_priority_levels,
            forall|i: int|
                0 <= i < tasks@.len() ==> ((#[trigger] tasks@[i]).st == TaskSt::Dormant
                    || tasks@[i].st == TaskSt::PendingActivation),
        ensures
            k.wf(),
            k.tasks == tasks,
            k.levels() == num_task_priority_levels,
            forall|p: int| 0 <= p < k.levels() ==> #[trigger] k.ready(p).len() == 0,
            k.running_task is None,
            k.cpu_lock,
            !k.dispatch_pending,
    {
        let mut ready_queue: Vec<Vec<usize>> = Vec::new();
        let mut p: usize = 0;
        while p < num_task_priority_levels
            invariant
                p <= num_task_priority_levels,
                ready_queue@.len() == p,
                forall|q: int| 0 <= q < p ==> (#[trigger] ready_queue@[q]@).len() == 0,
            decreases num_task_priority_levels - p,
        {
            ready_queue.push(Vec::new());
            p = p + 1;
        }
        let k = Kernel {
            tasks,
            ready_queue,
            task_ready_bitmap: 0u64,
            running_task: None,
            cpu_lock: true,
            dispatch_pending: false,
        };
        proof {
            assert forall|q: int| 0 <= q < 64 implies !bitmap_bit(0u64, q) by {
                lemma_bit_zero(q as u64);
            }
            assert forall|i: int| k.valid_task(i) implies 0 <= #[trigger] k.prio(i) < k.levels() by {
                assert(k.tasks@[i] == tasks@[i]);
            }
            assert forall|i: int|
                k.valid_task(i) && #[trigger] k.st(i) == TaskSt::Ready implies k.ready(
                k.prio(i),
            ).contains(i as usize) by {
                assert(k.tasks@[i] == tasks@[i]);
            }
        }
        k
    }

    /// Transition the task in slot `i` into the Ready state and append it
    /// to the ready queue of its priority.
    ///
    /// This does no cleanup for a previous state: the previous state must
    /// be one for which the task is in no bucket, which is any state other
    /// than Ready.
    pub(crate) fn make_ready(&mut self, i: usize)
        requires
            old(self).wf_core(),
            i < old(self).n_tasks(),
            old(self).st(i as int) != TaskSt::Ready,
        ensures
            final(self).wf_core(),
            Kernel::same_statics(*old(self), *final(self)),
            final(self).tasks@ == old(self).tasks@.update(
                i as int,
                TaskCb { st: TaskSt::Ready, ..old(self).tasks@[i as int] },
            ),
            final(self).ready(old(self).prio(i as int)) == old(self).ready(old(self).prio(i as int)).push(i),
            forall|p: int|
                0 <= p < final(self).levels() && p != old(self).prio(i as int) ==> #[trigger] final(self).ready(p)
                    == old(self).ready(p),
            final(self).running_task == old(self).running_task,
            final(self).cpu_lock == old(self).cpu_lock,
            final(self).dispatch_pending == old(self).dispatch_pending,
    {
        let ghost pre = *self;
        proof {
            assert(old(self).valid_task(i as int));
            assert(0 <= old(self).prio(i as int) < old(self).levels());
        }
        // Make the task Ready
        let mut cb = self.tasks[i];
        cb.st = TaskSt::Ready;
        self.tasks[i] = cb;

        // Insert the task into its ready queue
        let pri = priority_to_usize(&cb.priority).unwrap();
        assert(pri == pre.prio(i as int) && pri < self.ready_queue.len() && pri < 64);
        self.ready_queue[pri].push(i);

        // Update the bitmap accordingly
        self.task_ready_bitmap = self.task_ready_bitmap | (1u64 << (pri as u64));

        proof {
            assert(self.tasks@ == pre.tasks@.update(
                i as int,
                TaskCb { st: TaskSt::Ready, ..pre.tasks@[i as int] },
            ));
            assert(self.ready_queue@ == pre.ready_queue@.update(
                pri as int,
                self.ready_queue@[pri as int],
            ));
            assert(self.ready(pri as int) == pre.ready(pri as int).push(i));
            assert forall|p: int|
                0 <= p < self.levels() && p != pri as int implies #[trigger] self.ready(p)
                == pre.ready(p) by {}
            assert forall|q: int| 0 <= q < 64 implies bitmap_bit(self.task_ready_bitmap, q) == (
            bitmap_bit(pre.task_ready_bitmap, q) || q == pri as int) by {
                lemma_bit_or(pre.task_ready_bitmap, pri as u64, q as u64);
            }
            assert forall|p: int|
                0 <= p < self.levels() implies (bitmap_bit(self.task_ready_bitmap, p)
                <==> #[trigger] self.ready(p).len() > 0) by {}
            assert forall|p: int|
                self.levels() <= p < 64 implies !bitmap_bit(self.task_ready_bitmap, p) by {
                lemma_bit_or(pre.task_ready_bitmap, pri as u64, p as u64);
            }
            assert forall|t: int| self.valid_task(t) implies 0 <= #[trigger] self.prio(t)
                < self.levels() by {
                assert(pre.prio(t) == self.prio(t));
            }
            assert forall|p: int, j: int|
                0 <= p < self.levels() && 0 <= j < self.ready(p).len() implies #[trigger] self.member_ok(
                p,
                j,
            ) by {
                if p == pri as int && j == self.ready(p).len() - 1 {
                    assert(self.ready(p)[j] == i);
                } else {
                    assert(pre.member_ok(p, j));
                    assert(self.ready(p)[j] == pre.ready(p)[j]);
                }
            }
            assert forall|t: int|
                self.valid_task(t) && #[trigger] self.st(t) == TaskSt::Ready implies self.ready(
                self.prio(t),
            ).contains(t as usize) by {
                if t == i as int {
                    assert(self.ready(self.prio(t))[self.ready(self.prio(t)).len() - 1] == i);
                } else {
                    assert(pre.st(t) == TaskSt::Ready);
                    let j = choose|j: int|
                        0 <= j < pre.ready(pre.prio(t)).len() && pre.ready(pre.prio(t))[j]
                            == t as usize;
                    assert(self.ready(self.prio(t))[j] == t as usize);
                }
            }
            assert forall|p: int, j1: int, j2: int|
                0 <= p < self.levels() && 0 <= j1 < self.ready(p).len() && 0 <= j2 < self.ready(
                    p,
                ).len() && #[trigger] self.ready(p)[j1] == #[trigger] self.ready(p)[j2] implies j1
                == j2 by {
                if p == pri as int && j1 != j2 {
                    let ja = if j1 < j2 { j1 } else { j2 };
                    let jb = if j1 < j2 { j2 } else { j1 };
                    if jb == self.ready(p).len() - 1 {
                        // The appended entry is distinct from every earlier
                        // one: `i` was not Ready before, so it was in no
                        // bucket.
                        assert(self.ready(p)[jb] == i);
                        assert(self.ready(p)[ja] == pre.ready(p)[ja]);
                        assert(pre.member_ok(p, ja));
                        assert(pre.st(pre.ready(p)[ja] as int) == TaskSt::Ready);
                        assert(pre.ready(p)[ja] != i);
                    } else {
                        assert(pre.ready(p)[ja] == pre.ready(p)[jb]);
                    }
                }
            }
        }
    }

    /// No bucket below a non-empty one can be the lowest: the lowest ready
    /// priority is a lower bound for the priority of every queued task.
    proof fn lemma_lowest_le(self, p: int)
        requires
            self.levels() <= 64,
            0 <= p < self.levels(),
            self.ready(p).len() > 0,
        ensures
            self.lowest_ready() <= p,
            self.lowest_ready() < self.levels(),
    {
        self.lemma_lowest_ready_spec(0);
        if self.lowest_ready() == PRIORITY_INFINITY as int {
            assert(self.ready(p).len() == 0);
        } else {
            if p < self.lowest_ready() {
                assert(self.ready(p).len() == 0);
            }
        }
    }

    /// Find the priority of the next task to run: the lowest set bit of the
    /// ready bitmap, which under well-formedness is the highest-priority
    /// non-empty bucket.
    fn find_next_priority(&self) -> (r: Option<usize>)
        requires
            self.wf_core(),
        ensures
            match r {
                Some(p) => p as int == self.lowest_ready() && (p as int) < self.levels(),
                None => self.lowest_ready() == PRIORITY_INFINITY as int,
            },
    {
        let r = bitmap_find_set(self.task_ready_bitmap, self.ready_queue.len());
        proof {
            match r {
                Some(p) => {
                    assert(self.ready(p as int).len() > 0);
                    assert forall|q: int| 0 <= q < p as int implies #[trigger] self.ready(q).len()
                        == 0 by {
                        assert(!bitmap_bit(self.task_ready_bitmap, q));
                    }
                    self.lemma_lowest_ready_found(0, p as int);
                }
                None => {
                    assert forall|q: int|
                        0 <= q < self.levels() implies #[trigger] self.ready(q).len() == 0 by {
                        assert(!bitmap_bit(self.task_ready_bitmap, q));
                    }
                    self.lemma_lowest_ready_none(0);
                }
            }
        }
        r
    }

    /// Request a dispatch: the model of the port's `yield_cpu`, which pends
    /// a lowest-priority software interrupt whose handler runs the
    /// dispatcher once every other handler has returned.
    ///
    /// May only be called while CPU Lock is inactive.
    pub fn yield_cpu(&mut self)
        requires
            !old(self).cpu_lock,
        ensures
            *final(self) == (Kernel { dispatch_pending: true, ..*old(self) }),
            old(self).wf_core() ==> final(self).wf_core(),
            old(self).wf() ==> final(self).wf(),
    {
        self.dispatch_pending = true;
        proof {
            if old(self).wf_core() {
                lemma_wf_transfer(*old(self), *self);
            }
        }
    }

    /// Whether a dispatch has been requested and not yet performed.
    pub fn dispatch_requested(&self) -> (r: bool)
        ensures
            r == self.dispatch_pending,
    {
        self.dispatch_pending
    }

    /// Consume a pending dispatch request: the model of the hardware
    /// clearing the pending flag of the dispatch interrupt when its handler
    /// is entered. The port calls this, then runs the dispatcher.
    pub fn take_dispatch_request(&mut self) -> (r: bool)
        ensures
            r == old(self).dispatch_pending,
            *final(self) == (Kernel { dispatch_pending: false, ..*old(self) }),
            old(self).wf_core() ==> final(self).wf_core(),
            old(self).wf() ==> final(self).wf(),
    {
        let r = self.dispatch_pending;
        self.dispatch_pending = false;
        proof {
            if old(self).wf_core() {
                lemma_wf_transfer(*old(self), *self);
            }
        }
        r
    }

    /// Activate CPU Lock from kernel code. May only be called while it is
    /// inactive.
    pub fn enter_cpu_lock(&mut self)
        requires
            !old(self).cpu_lock,
        ensures
            *final(self) == (Kernel { cpu_lock: true, ..*old(self) }),
            old(self).wf_core() ==> final(self).wf_core(),
            old(self).wf() ==> final(self).wf(),
    {
        self.cpu_lock = true;
        proof {
            if old(self).wf_core() {
                lemma_wf_transfer(*old(self), *self);
            }
        }
    }

    /// Deactivate CPU Lock from kernel code. May only be called while it is
    /// active.
    pub fn leave_cpu_lock(&mut self)
        requires
            old(self).cpu_lock,
        ensures
            *final(self) == (Kernel { cpu_lock: false, ..*old(self) }),
            old(self).wf_core() ==> final(self).wf_core(),
            old(self).wf() ==> final(self).wf(),
    {
        self.cpu_lock = false;
        proof {
            if old(self).wf_core() {
                lemma_wf_transfer(*old(self), *self);
            }
        }
    }

    /// Activate CPU Lock. Returns `true` iff CPU Lock was inactive before
    /// the call.
    pub fn try_enter_cpu_lock(&mut self) -> (r: bool)
        ensures
            r == !old(self).cpu_lock,
            *final(self) == (Kernel { cpu_lock: true, ..*old(self) }),
            old(self).wf_core() ==> final(self).wf_core(),
            old(self).wf() ==> final(self).wf(),
    {
        if self.is_cpu_lock_active() {
            false
        } else {
            self.enter_cpu_lock();
            true
        }
    }

    /// Whether CPU Lock is active.
    pub fn is_cpu_lock_active(&self) -> (r: bool)
        ensures
            r == self.cpu_lock,
    {
        self.cpu_lock
    }

    /// Activate CPU Lock on behalf of the application.
    ///
    /// Returns `BadContext` if and only if CPU Lock is already active; in
    /// that case nothing changes.
    pub fn acquire_cpu_lock(&mut self) -> (r: Result<(), crate::error::CpuLockError>)
        ensures
            old(self).cpu_lock ==> r == Err::<(), crate::error::CpuLockError>(
                crate::error::CpuLockError::BadContext,
            ) && *final(self) == *old(self),
            !old(self).cpu_lock ==> r == Ok::<(), crate::error::CpuLockError>(()) && *final(self)
                == (Kernel { cpu_lock: true, ..*old(self) }),
            old(self).wf_core() ==> final(self).wf_core(),
            old(self).wf() ==> final(self).wf(),
    {
        if self.try_enter_cpu_lock() {
            Ok(())
        } else {
            Err(crate::error::CpuLockError::BadContext)
        }
    }

    /// Deactivate CPU Lock on behalf of the application.
    ///
    /// Returns `BadContext` if and only if CPU Lock is already inactive; in
    /// that case nothing changes. Releasing CPU Lock ends an ongoing
    /// critical section, so the caller is responsible for not breaking one
    /// that kernel code depends on.
    pub fn release_cpu_lock(&mut self) -> (r: Result<(), crate::error::CpuLockError>)
        ensures
            !old(self).cpu_lock ==> r == Err::<(), crate::error::CpuLockError>(
                crate::error::CpuLockError::BadContext,
            ) && *final(self) == *old(self),
            old(self).cpu_lock ==> r == Ok::<(), crate::error::CpuLockError>(()) && *final(self)
                == (Kernel { cpu_lock: false, ..*old(self) }),
            old(self).wf_core() ==> final(self).wf_core(),
            old(self).wf() ==> final(self).wf(),
    {
        if !self.is_cpu_lock_active() {
            Err(crate::error::CpuLockError::BadContext)
        } else {
            self.leave_cpu_lock();
            Ok(())
        }
    }

    /// Whether CPU Lock is currently active.
    pub fn has_cpu_lock(&self) -> (r: bool)
        ensures
            r == self.cpu_lock,
    {
        self.is_cpu_lock_active()
    }

    /// Relinquish CPU Lock. After that, if there is a task ready to run
    /// whose priority beats the running task's, request a dispatch through
    /// [`Kernel::yield_cpu`].
    ///
    /// System services that transition a task into the Ready state call
    /// this before returning to the caller.
    pub fn unlock_cpu_and_check_preemption(&mut self)
        requires
            old(self).wf_core(),
            old(self).cpu_lock,
        ensures
            *final(self) == (Kernel {
                cpu_lock: false,
                dispatch_pending: old(self).dispatch_pending || old(self).lowest_ready()
                    < old(self).running_prio_or_inf(),
                ..*old(self)
            }),
            final(self).wf_core(),
            old(self).wf() ==> final(self).wf(),
    {
        let prev_task_priority: usize = match self.running_task {
            Some(r) => priority_to_usize(&self.tasks[r].priority).unwrap(),
            None => usize::MAX,
        };

        // The priority of the next task to run
        let next = self.find_next_priority();
        let next_task_priority: usize = match next {
            Some(p) => p,
            None => usize::MAX,
        };

        // Relinquish CPU Lock
        self.cpu_lock = false;

        if next_task_priority < prev_task_priority {
            self.yield_cpu();
        }

        proof {
            lemma_wf_transfer(*old(self), *self);
        }
    }

    /// The task that `choose_next_running_task` would move back into the
    /// ready queue: the running task, when it is in the Running state.
    pub open spec fn requeue_candidate(self) -> Option<int> {
        match self.running_task {
            Some(r) => if self.st(r as int) == TaskSt::Running {
                Some(r as int)
            } else {
                None
            },
            None => None,
        }
    }

    /// The dispatcher's switch step: `post` is `pre` after the head `t` of
    /// the highest-priority non-empty bucket has been popped and made
    /// Running, the previously running task (if it was Running) has been
    /// appended to the back of its own bucket, and `running_task` has been
    /// redirected to `t`.
    pub open spec fn choose_switch(pre: Kernel, post: Kernel) -> bool {
        let np = pre.lowest_ready();
        let t = pre.ready(np)[0] as int;
        &&& Kernel::same_statics(pre, post)
        &&& post.running_task == Some(pre.ready(np)[0])
        &&& post.st(t) == TaskSt::Running
        &&& post.cpu_lock == pre.cpu_lock
        &&& post.dispatch_pending == pre.dispatch_pending
        &&& post.ready(np) == pre.ready(np).drop_first()
        &&& match pre.requeue_candidate() {
            Some(r) => {
                &&& post.st(r) == TaskSt::Ready
                &&& post.ready(pre.prio(r)) == pre.ready(pre.prio(r)).push(r as usize)
                &&& forall|p: int|
                    0 <= p < pre.levels() && p != np && p != pre.prio(r)
                        ==> #[trigger] post.ready(p) == pre.ready(p)
                &&& forall|j: int|
                    0 <= j < pre.n_tasks() && j != t && j != r ==> #[trigger] post.st(j) == pre.st(
                        j,
                    )
            },
            None => {
                &&& forall|p: int|
                    0 <= p < pre.levels() && p != np ==> #[trigger] post.ready(p) == pre.ready(p)
                &&& forall|j: int|
                    0 <= j < pre.n_tasks() && j != t ==> #[trigger] post.st(j) == pre.st(j)
            },
        }
    }

    /// Determine the next task to run and store it in `running_task`.
    ///
    /// Called by the port's dispatcher with CPU Lock active. If the running
    /// task's priority is no worse than every ready task's, nothing
    /// changes; this keeps the current task running when a task of equal
    /// priority becomes ready (first-come-first-served, no round-robin).
    /// Otherwise the head of the highest-priority non-empty bucket becomes
    /// Running and the preempted task, if it was Running, returns to the
    /// back of its bucket.
    ///
    /// Afterwards no Ready task has a priority strictly better than the
    /// running task's.
    pub fn choose_next_running_task(&mut self)
        requires
            old(self).wf_core(),
            old(self).cpu_lock,
        ensures
            final(self).wf_core(),
            Kernel::same_statics(*old(self), *final(self)),
            final(self).cpu_lock,
            final(self).dispatch_pending == old(self).dispatch_pending,
            old(self).eff_running_prio() <= old(self).lowest_ready() ==> *final(self) == *old(self),
            old(self).eff_running_prio() > old(self).lowest_ready() ==> Kernel::choose_switch(
                *old(self),
                *final(self),
            ),
            forall|j: int|
                final(self).valid_task(j) && #[trigger] final(self).st(j) == TaskSt::Ready ==> (
                final(self).running_task matches Some(t) && final(self).prio(j) >= final(self).prio(t as int)),
            (old(self).running_task is None || old(self).eff_running_prio() < PRIORITY_INFINITY
                as int || old(self).lowest_ready() < PRIORITY_INFINITY as int) ==> final(self).wf(),
    {
        let ghost pre = *self;

        // The priority of `running_task`, counted only while it is Running
        let prev_task_priority: usize = match self.running_task {
            Some(r) => {
                if self.tasks[r].st == TaskSt::Running {
                    priority_to_usize(&self.tasks[r].priority).unwrap()
                } else {
                    usize::MAX
                }
            },
            None => usize::MAX,
        };

        // The priority of the next task to run
        let next = self.find_next_priority();
        let next_task_priority: usize = match next {
            Some(p) => p,
            None => usize::MAX,
        };

        proof {
            assert(prev_task_priority as int == if pre.eff_running_prio() < 64 {
                pre.eff_running_prio()
            } else {
                usize::MAX as int
            });
        }

        // Return if there's no task willing to take over the current one
        if prev_task_priority <= next_task_priority {
            proof {
                assert forall|j: int|
                    self.valid_task(j) && #[trigger] self.st(j) == TaskSt::Ready implies (
                self.running_task matches Some(t) && self.prio(j) >= self.prio(t as int)) by {
                    self.lemma_lowest_le(self.prio(j));
                }
            }
            return ;
        }

        // Take the first task in the highest-priority non-empty ready queue
        let np = match next {
            Some(p) => p,
            None => 0,
        };
        proof {
            assert(next is Some);
            pre.lemma_lowest_ready_spec(0);
            assert(np as int == pre.lowest_ready());
            assert(0 <= np < pre.levels());
            assert(pre.ready(np as int).len() > 0);
        }
        let task = self.ready_queue[np].remove(0);

        // Update the bitmap accordingly
        if self.ready_queue[np].len() == 0 {
            self.task_ready_bitmap = self.task_ready_bitmap & !(1u64 << (np as u64));
        }

        proof {
            assert(pre.member_ok(np as int, 0));
            assert(self.ready(np as int) =~= pre.ready(np as int).drop_first());
        }

        // Transition the next task into the Running state
        let mut cb = self.tasks[task];
        cb.st = TaskSt::Running;
        self.tasks[task] = cb;

        let ghost mid = *self;
        proof {
            if mid.ready(np as int).len() == 0 {
                assert forall|q: int|
                    0 <= q < 64 implies (bitmap_bit(mid.task_ready_bitmap, q) <==> (bitmap_bit(
                    pre.task_ready_bitmap,
                    q,
                ) && q != np as int)) by {
                    lemma_bit_clear(pre.task_ready_bitmap, np as u64, q as u64);
                }
            }
            lemma_mid_wf(pre, mid, np as int);
        }

        proof {
            assert forall|p: int|
                0 <= p < pre.levels() && p != np as int implies #[trigger] mid.ready(p)
                == pre.ready(p) by {}
        }

        // If the previously running task is in the Running state,
        // transition it into the Ready state
        if prev_task_priority != usize::MAX {
            let r = match self.running_task {
                Some(r) => r,
                None => 0,
            };
            proof {
                // The running task is in no bucket, so it is not `task`
                assert(pre.st(r as int) == TaskSt::Running);
                assert(r != task);
                assert(mid.prio(r as int) == pre.prio(r as int));
                assert(pre.prio(r as int) == pre.eff_running_prio());
                assert((np as int) < pre.eff_running_prio());
            }
            self.make_ready(r);
        }

        let ghost mid2 = *self;
        self.running_task = Some(task);

        proof {
            let fin = *self;
            let npp = pre.lowest_ready();
            let t = pre.ready(npp)[0] as int;
            assert(npp == np as int);
            assert(t == task as int);
            assert(fin.ready_queue == mid2.ready_queue);
            assert(fin.tasks == mid2.tasks);
            match pre.requeue_candidate() {
                Some(r) => {
                    assert(npp != pre.prio(r));
                    assert(mid2.ready(npp) == mid.ready(npp));
                    assert(fin.ready(npp) == pre.ready(npp).drop_first());
                    assert(fin.st(r) == TaskSt::Ready);
                    assert(fin.ready(pre.prio(r)) == mid2.ready(pre.prio(r)));
                    assert(mid2.ready(pre.prio(r)) == mid.ready(pre.prio(r)).push(r as usize));
                    assert(mid.ready(pre.prio(r)) == pre.ready(pre.prio(r)));
                    assert forall|p: int|
                        0 <= p < pre.levels() && p != npp && p != pre.prio(r)
                            implies #[trigger] fin.ready(p) == pre.ready(p) by {
                        assert(fin.ready(p) == mid2.ready(p));
                        assert(mid2.ready(p) == mid.ready(p));
                        assert(mid.ready(p) == pre.ready(p));
                    }
                    assert forall|j: int|
                        0 <= j < pre.n_tasks() && j != t && j != r implies #[trigger] fin.st(j)
                        == pre.st(j) by {
                        assert(fin.st(j) == mid2.st(j));
                        assert(mid2.st(j) == mid.st(j));
                        assert(mid.st(j) == pre.st(j));
                    }
                },
                None => {
                    assert(fin.ready(npp) == mid2.ready(npp));
                    assert(fin.ready(npp) == pre.ready(npp).drop_first());
                    assert forall|p: int|
                        0 <= p < pre.levels() && p != npp implies #[trigger] fin.ready(p)
                        == pre.ready(p) by {
                        assert(fin.ready(p) == mid2.ready(p));
                        assert(mid2.ready(p) == pre.ready(p));
                    }
                    assert forall|j: int|
                        0 <= j < pre.n_tasks() && j != t implies #[trigger] fin.st(j) == pre.st(
                            j,
                        ) by {
                        assert(fin.st(j) == mid2.st(j));
                    }
                },
            }
            assert(fin.st(t) == TaskSt::Running);
            assert(Kernel::choose_switch(pre, fin));
            // Structural well-formedness carries over from the state before
            // `running_task` was redirected
            assert(mid2.wf_core());
            assert forall|p: int|
                0 <= p < fin.levels() implies (bitmap_bit(fin.task_ready_bitmap, p)
                <==> #[trigger] fin.ready(p).len() > 0) by {
                assert(fin.ready(p) == mid2.ready(p));
            }
            assert forall|p: int, j: int|
                0 <= p < fin.levels() && 0 <= j < fin.ready(p).len() implies #[trigger] fin.member_ok(
                p,
                j,
            ) by {
                assert(fin.ready(p) == mid2.ready(p));
                assert(mid2.member_ok(p, j));
            }
            assert forall|p: int, j1: int, j2: int|
                0 <= p < fin.levels() && 0 <= j1 < fin.ready(p).len() && 0 <= j2 < fin.ready(
                    p,
                ).len() && #[trigger] fin.ready(p)[j1] == #[trigger] fin.ready(p)[j2] implies j1
                == j2 by {
                assert(fin.ready(p) == mid2.ready(p));
            }
            assert forall|i: int|
                fin.valid_task(i) && #[trigger] fin.st(i) == TaskSt::Ready implies fin.ready(
                fin.prio(i),
            ).contains(i as usize) by {
                assert(fin.st(i) == mid2.st(i));
                assert(mid2.ready(mid2.prio(i)).contains(i as usize));
                assert(fin.ready(fin.prio(i)) == mid2.ready(mid2.prio(i)));
            }
            assert forall|i: int| fin.valid_task(i) implies 0 <= #[trigger] fin.prio(i)
                < fin.levels() by {
                assert(fin.prio(i) == mid2.prio(i));
            }
            assert(fin.wf_core());
            assert forall|j: int|
                fin.valid_task(j) && #[trigger] fin.st(j) == TaskSt::Ready implies (
            fin.running_task matches Some(tt) && fin.prio(j) >= fin.prio(tt as int)) by {
                if j != task as int {
                    if pre.requeue_candidate() == Some(j) {
                        assert(pre.prio(j) == pre.eff_running_prio());
                    } else {
                        assert(pre.st(j) == TaskSt::Ready);
                        pre.lemma_lowest_le(pre.prio(j));
                    }
                }
            }
        }
    }

    /// Determine the next task to run: the entry point the port's
    /// dispatcher calls. CPU Lock must be active and stays active.
    pub fn choose_running_task(&mut self)
        requires
            old(self).wf_core(),
            old(self).cpu_lock,
        ensures
            final(self).wf_core(),
            Kernel::same_statics(*old(self), *final(self)),
            final(self).cpu_lock,
            final(self).dispatch_pending == old(self).dispatch_pending,
            old(self).eff_running_prio() <= old(self).lowest_ready() ==> *final(self) == *old(self),
            old(self).eff_running_prio() > old(self).lowest_ready() ==> Kernel::choose_switch(
                *old(self),
                *final(self),
            ),
            forall|j: int|
                final(self).valid_task(j) && #[trigger] final(self).st(j) == TaskSt::Ready ==> (
                final(self).running_task matches Some(t) && final(self).prio(j) >= final(self).prio(t as int)),
            (old(self).running_task is None || old(self).eff_running_prio() < PRIORITY_INFINITY
                as int || old(self).lowest_ready() < PRIORITY_INFINITY as int) ==> final(self).wf(),
    {
        self.choose_next_running_task();
    }
}

/// The intermediate state of the dispatcher — after the head of bucket
/// `np` has been popped and made Running, before the preempted task is
/// requeued — is still structurally well-formed.
proof fn lemma_mid_wf(pre: Kernel, mid: Kernel, np: int)
    requires
        pre.wf_core(),
        0 <= np < pre.levels(),
        pre.ready(np).len() > 0,
        mid.levels() == pre.levels(),
        mid.n_tasks() == pre.n_tasks(),
        mid.tasks@ == pre.tasks@.update(
            pre.ready(np)[0] as int,
            TaskCb { st: TaskSt::Running, ..pre.tasks@[pre.ready(np)[0] as int] },
        ),
        mid.ready(np) == pre.ready(np).drop_first(),
        forall|p: int| 0 <= p < pre.levels() && p != np ==> #[trigger] mid.ready(p) == pre.ready(p),
        forall|q: int|
            0 <= q < 64 ==> (bitmap_bit(mid.task_ready_bitmap, q) <==> (bitmap_bit(
                pre.task_ready_bitmap,
                q,
            ) && !(q == np && mid.ready(np).len() == 0))),
        mid.running_task == pre.running_task,
    ensures
        mid.wf_core(),
        Kernel::same_statics(pre, mid),
{
    let t = pre.ready(np)[0] as int;
    assert(pre.member_ok(np, 0));
    assert forall|p: int|
        0 <= p < mid.levels() implies (bitmap_bit(mid.task_ready_bitmap, p)
        <==> #[trigger] mid.ready(p).len() > 0) by {}
    assert forall|p: int, j: int|
        0 <= p < mid.levels() && 0 <= j < mid.ready(p).len() implies #[trigger] mid.member_ok(
        p,
        j,
    ) by {
        if p == np {
            assert(pre.member_ok(p, j + 1));
            assert(mid.ready(p)[j] == pre.ready(p)[j + 1]);
            assert(pre.ready(p)[j + 1] != pre.ready(p)[0]);
        } else {
            assert(pre.member_ok(p, j));
            assert(pre.ready(p)[j] as int != t);
        }
    }
    assert forall|p: int, j1: int, j2: int|
        0 <= p < mid.levels() && 0 <= j1 < mid.ready(p).len() && 0 <= j2 < mid.ready(p).len()
            && #[trigger] mid.ready(p)[j1] == #[trigger] mid.ready(p)[j2] implies j1 == j2 by {
        if p == np {
            assert(pre.ready(p)[j1 + 1] == pre.ready(p)[j2 + 1]);
        }
    }
    assert forall|i: int|
        mid.valid_task(i) && #[trigger] mid.st(i) == TaskSt::Ready implies mid.ready(
        mid.prio(i),
    ).contains(i as usize) by {
        assert(pre.st(i) == TaskSt::Ready);
        let j = choose|j: int|
            0 <= j < pre.ready(pre.prio(i)).len() && pre.ready(pre.prio(i))[j] == i as usize;
        if pre.prio(i) == np {
            assert(pre.ready(np)[j] != pre.ready(np)[0]);
            assert(mid.ready(np)[j - 1] == i as usize);
        } else {
            assert(mid.ready(pre.prio(i))[j] == i as usize);
        }
    }
    assert forall|i: int| mid.valid_task(i) implies 0 <= #[trigger] mid.prio(i) < mid.levels() by {
        assert(pre.prio(i) == mid.prio(i));
    }
}

impl Kernel {
    /// Terminate the running task, putting it into the Dormant state.
    ///
    /// If CPU Lock is inactive it is activated first, and it stays active:
    /// control does not return to the exited task, and the port leaves CPU
    /// Lock as part of restoring the next task's context. The index of the
    /// exited task is returned so the port can reclaim its stack and
    /// proceed to dispatch.
    pub fn exit_task(&mut self) -> (r: Result<usize, crate::error::ExitTaskError>)
        requires
            old(self).wf(),
            old(self).running_task is Some,
        ensures
            final(self).wf(),
            (old(self).running_task matches Some(i) && r == Ok::<usize, crate::error::ExitTaskError>(i)
                && final(self).tasks@ == old(self).tasks@.update(
                i as int,
                (TaskCb { st: TaskSt::Dormant, ..old(self).tasks@[i as int] }),
            )),
            final(self).running_task is None,
            final(self).cpu_lock,
            final(self).ready_queue == old(self).ready_queue,
            final(self).task_ready_bitmap == old(self).task_ready_bitmap,
            final(self).dispatch_pending == old(self).dispatch_pending,
            Kernel::same_statics(*old(self), *final(self)),
    {
        let ghost pre = *self;
        // If CPU Lock is inactive, activate it
        if !self.is_cpu_lock_active() {
            self.enter_cpu_lock();
        }

        // Transition the current task to Dormant
        let i = match self.running_task {
            Some(i) => i,
            None => 0,
        };
        // Erase `running_task`
        self.running_task = None;
        let mut cb = self.tasks[i];
        cb.st = TaskSt::Dormant;
        self.tasks[i] = cb;

        proof {
            assert(pre.st(i as int) == TaskSt::Running);
            lemma_st_change_wf(pre, *self, i as int, TaskSt::Dormant);
        }
        Ok(i)
    }

    /// Transition the running task into the Waiting state: the first half
    /// of the wait primitive that synchronization objects build on. The
    /// caller then leaves CPU Lock and yields repeatedly until a wake
    /// operation has made the task Running again.
    pub fn begin_wait(&mut self)
        requires
            old(self).wf(),
            old(self).cpu_lock,
            old(self).running_task is Some,
        ensures
            final(self).wf_core(),
            (old(self).running_task matches Some(i) && final(self).tasks@ == old(self).tasks@.update(
                i as int,
                (TaskCb { st: TaskSt::Waiting, ..old(self).tasks@[i as int] }),
            )),
            final(self).running_task == old(self).running_task,
            final(self).cpu_lock,
            final(self).ready_queue == old(self).ready_queue,
            final(self).task_ready_bitmap == old(self).task_ready_bitmap,
            final(self).dispatch_pending == old(self).dispatch_pending,
            Kernel::same_statics(*old(self), *final(self)),
    {
        let ghost pre = *self;
        let i = match self.running_task {
            Some(i) => i,
            None => 0,
        };
        let mut cb = self.tasks[i];
        cb.st = TaskSt::Waiting;
        self.tasks[i] = cb;
        proof {
            assert(pre.st(i as int) == TaskSt::Running);
            lemma_st_change_wf(pre, *self, i as int, TaskSt::Waiting);
        }
    }

    /// Wake a Waiting task: transition it into the Ready state and append
    /// it to the ready queue of its priority. The caller then releases CPU
    /// Lock with a preemption check
    /// ([`Kernel::unlock_cpu_and_check_preemption`]).
    pub fn wake_up_task(&mut self, i: usize)
        requires
            old(self).wf_core(),
            old(self).cpu_lock,
            i < old(self).n_tasks(),
            old(self).st(i as int) == TaskSt::Waiting,
        ensures
            final(self).wf_core(),
            old(self).wf() ==> final(self).wf(),
            Kernel::same_statics(*old(self), *final(self)),
            final(self).tasks@ == old(self).tasks@.update(
                i as int,
                (TaskCb { st: TaskSt::Ready, ..old(self).tasks@[i as int] }),
            ),
            final(self).ready(old(self).prio(i as int)) == old(self).ready(
                old(self).prio(i as int),
            ).push(i),
            forall|p: int|
                0 <= p < final(self).levels() && p != old(self).prio(i as int)
                    ==> #[trigger] final(self).ready(p) == old(self).ready(p),
            final(self).running_task == old(self).running_task,
            final(self).cpu_lock,
            final(self).dispatch_pending == old(self).dispatch_pending,
    {
        let ghost pre = *self;
        self.make_ready(i);
        proof {
            if pre.wf() {
                match self.running_task {
                    Some(r) => {
                        assert(pre.st(r as int) == TaskSt::Running);
                        assert(r != i);
                    },
                    None => {},
                }
            }
        }
    }

    /// The index of the currently or recently running task.
    pub fn running_task(&self) -> (r: Option<usize>)
        ensures
            r == self.running_task,
    {
        self.running_task
    }

    /// The state of the task in slot `i`.
    pub fn task_state(&self, i: usize) -> (r: TaskSt)
        requires
            i < self.n_tasks(),
        ensures
            r == self.st(i as int),
    {
        self.tasks[i].st
    }

    /// The priority of the task in slot `i`.
    pub fn task_priority(&self, i: usize) -> (r: u8)
        requires
            i < self.n_tasks(),
        ensures
            r as int == self.prio(i as int),
    {
        self.tasks[i].priority
    }

    /// The number of tasks in the pool.
    pub fn task_count(&self) -> (r: usize)
        ensures
            r as int == self.n_tasks(),
    {
        self.tasks.len()
    }

    /// The number of task priority levels.
    pub fn num_task_priority_levels(&self) -> (r: usize)
        ensures
            r as int == self.levels(),
    {
        self.ready_queue.len()
    }

    /// The number of tasks queued at priority `p`.
    pub fn ready_len(&self, p: usize) -> (r: usize)
        requires
            p < self.levels(),
        ensures
            r as int == self.ready(p as int).len(),
    {
        self.ready_queue[p].len()
    }

    /// The tasks among the first `n` slots that boot promotes into the
    /// ready bucket for priority `p`, in the order boot enqueues them:
    /// ascending slot order.
    pub open spec fn boot_enqueued(pre: Kernel, p: int, n: int) -> Seq<usize>
        decreases n,
    {
        if n <= 0 {
            Seq::empty()
        } else {
            let s = Kernel::boot_enqueued(pre, p, n - 1);
            if pre.st(n - 1) == TaskSt::PendingActivation && pre.prio(n - 1) == p {
                s.push((n - 1) as usize)
            } else {
                s
            }
        }
    }

    /// Initialize one task at boot time: a task marked PendingActivation —
    /// equivalent to Dormant but flagged for activation at startup — has
    /// its saved context installed by the port and becomes Ready. Any
    /// other task is left alone.
    fn init_task(&mut self, i: usize)
        requires
            old(self).wf(),
            old(self).cpu_lock,
            i < old(self).n_tasks(),
        ensures
            final(self).wf(),
            Kernel::same_statics(*old(self), *final(self)),
            old(self).st(i as int) == TaskSt::PendingActivation ==> final(self).tasks@ == old(self).tasks@.update(i as int, (TaskCb { st: TaskSt::Ready, ..old(self).tasks@[i as int] }))
                && final(self).ready(old(self).prio(i as int)) == old(self).ready(
                old(self).prio(i as int),
            ).push(i) && (forall|p: int|
                0 <= p < final(self).levels() && p != old(self).prio(i as int)
                    ==> #[trigger] final(self).ready(p) == old(self).ready(p)),
            old(self).st(i as int) != TaskSt::PendingActivation ==> *final(self) == *old(self),
            final(self).running_task == old(self).running_task,
            final(self).cpu_lock,
            final(self).dispatch_pending == old(self).dispatch_pending,
    {
        let ghost pre = *self;
        if self.tasks[i].st == TaskSt::PendingActivation {
            // The port installs the initial saved context here; the saved
            // context is port-owned, so the kernel does not touch it.
            self.make_ready(i);
            proof {
                match self.running_task {
                    Some(r) => {
                        assert(pre.st(r as int) == TaskSt::Running);
                        assert(r != i);
                    },
                    None => {},
                }
            }
        }
    }

    /// Initialize runtime structures: promote every task configured
    /// active-at-start from PendingActivation to Ready, in ascending slot
    /// order. Called exactly once by the port, with CPU Lock active,
    /// before any application code runs; the port then runs the startup
    /// hooks and dispatches the first task.
    pub fn boot(&mut self)
        requires
            old(self).wf(),
            old(self).cpu_lock,
        ensures
            final(self).wf(),
            Kernel::same_statics(*old(self), *final(self)),
            forall|j: int|
                0 <= j < old(self).n_tasks() ==> #[trigger] final(self).st(j) == (if old(self).st(
                    j,
                ) == TaskSt::PendingActivation {
                    TaskSt::Ready
                } else {
                    old(self).st(j)
                }),
            forall|p: int|
                0 <= p < old(self).levels() ==> #[trigger] final(self).ready(p) == old(self).ready(
                    p,
                ) + Kernel::boot_enqueued(*old(self), p, old(self).n_tasks()),
            final(self).running_task == old(self).running_task,
            final(self).cpu_lock,
            final(self).dispatch_pending == old(self).dispatch_pending,
    {
        let ghost pre = *self;
        let n = self.tasks.len();
        proof {
            assert forall|p: int|
                0 <= p < pre.levels() implies #[trigger] pre.ready(p) == pre.ready(p)
                + Kernel::boot_enqueued(pre, p, 0) by {
                assert(pre.ready(p) =~= pre.ready(p) + Seq::<usize>::empty());
            }
        }
        let mut idx: usize = 0;
        while idx < n
            invariant
                self.wf(),
                self.cpu_lock,
                idx <= n,
                n == self.n_tasks(),
                n == pre.n_tasks(),
                pre == *old(self),
                Kernel::same_statics(pre, *self),
                forall|j: int| idx <= j < n ==> #[trigger] self.st(j) == pre.st(j),
                forall|j: int|
                    0 <= j < idx ==> #[trigger] self.st(j) == (if pre.st(j)
                        == TaskSt::PendingActivation {
                        TaskSt::Ready
                    } else {
                        pre.st(j)
                    }),
                forall|p: int|
                    0 <= p < self.levels() ==> #[trigger] self.ready(p) == pre.ready(p)
                        + Kernel::boot_enqueued(pre, p, idx as int),
                self.running_task == pre.running_task,
                self.dispatch_pending == pre.dispatch_pending,
            decreases n - idx,
        {
            let ghost before = *self;
            self.init_task(idx);
            proof {
                assert(before.st(idx as int) == pre.st(idx as int));
                assert forall|j: int|
                    idx as int + 1 <= j < n implies #[trigger] self.st(j) == pre.st(j) by {
                    assert(self.st(j) == before.st(j));
                }
                assert forall|j: int|
                    0 <= j < idx as int + 1 implies #[trigger] self.st(j) == (if pre.st(j)
                        == TaskSt::PendingActivation {
                        TaskSt::Ready
                    } else {
                        pre.st(j)
                    }) by {
                    if j < idx as int {
                        assert(self.st(j) == before.st(j));
                    }
                }
                assert forall|p: int|
                    0 <= p < self.levels() implies #[trigger] self.ready(p) == pre.ready(p)
                    + Kernel::boot_enqueued(pre, p, idx as int + 1) by {
                    if pre.st(idx as int) == TaskSt::PendingActivation && pre.prio(idx as int)
                        == p {
                        assert(self.ready(p) == before.ready(p).push(idx));
                        assert(before.prio(idx as int) == pre.prio(idx as int));
                        assert(Kernel::boot_enqueued(pre, p, idx as int + 1)
                            == Kernel::boot_enqueued(pre, p, idx as int).push(idx));
                        assert(pre.ready(p) + Kernel::boot_enqueued(pre, p, idx as int).push(idx)
                            =~= (pre.ready(p) + Kernel::boot_enqueued(pre, p, idx as int)).push(
                            idx,
                        ));
                    } else {
                        assert(self.ready(p) == before.ready(p));
                        assert(Kernel::boot_enqueued(pre, p, idx as int + 1)
                            == Kernel::boot_enqueued(pre, p, idx as int));
                    }
                }
            }
            idx = idx + 1;
        }
    }

    /// Start the execution of the task in slot `i`: install its initial
    /// saved context, make it Ready, and release CPU Lock with a
    /// preemption check.
    ///
    /// Fails with `QueueOverflow` if the task is not Dormant: this kernel
    /// does not queue activation requests. On failure CPU Lock is released
    /// without a preemption check, as nothing became ready.
    pub(crate) fn activate(&mut self, i: usize) -> (r: Result<(), crate::error::ActivateTaskError>)
        requires
            old(self).wf(),
            old(self).cpu_lock,
            i < old(self).n_tasks(),
        ensures
            final(self).wf(),
            !final(self).cpu_lock,
            Kernel::same_statics(*old(self), *final(self)),
            old(self).st(i as int) != TaskSt::Dormant ==> r == Err::<(),
                crate::error::ActivateTaskError,
            >(crate::error::ActivateTaskError::QueueOverflow) && *final(self) == (Kernel {
                cpu_lock: false,
                ..*old(self)
            }),
            old(self).st(i as int) == TaskSt::Dormant ==> r == Ok::<(),
                crate::error::ActivateTaskError,
            >(()) && final(self).tasks@ == old(self).tasks@.update(
                i as int,
                (TaskCb { st: TaskSt::Ready, ..old(self).tasks@[i as int] }),
            ) && final(self).ready(old(self).prio(i as int)) == old(self).ready(
                old(self).prio(i as int),
            ).push(i) && (forall|p: int|
                0 <= p < final(self).levels() && p != old(self).prio(i as int)
                    ==> #[trigger] final(self).ready(p) == old(self).ready(p))
                && final(self).running_task == old(self).running_task && final(self).dispatch_pending == (old(self).dispatch_pending || ({
                let nl = if old(self).prio(i as int) < old(self).lowest_ready() {
                    old(self).prio(i as int)
                } else {
                    old(self).lowest_ready()
                };
                nl < old(self).running_prio_or_inf()
            })),
    {
        let ghost pre = *self;
        if self.tasks[i].st != TaskSt::Dormant {
            self.leave_cpu_lock();
            proof {
                lemma_wf_transfer(pre, *self);
            }
            return Err(crate::error::ActivateTaskError::QueueOverflow);
        }

        // The port installs the initial saved context here; the saved
        // context is port-owned, so the kernel does not touch it.
        self.make_ready(i);
        let ghost m = *self;
        proof {
            match self.running_task {
                Some(r) => {
                    assert(pre.st(r as int) == TaskSt::Running);
                    assert(r != i);
                    assert(m.prio(r as int) == pre.prio(r as int));
                },
                None => {},
            }
            assert(m.running_prio_or_inf() == pre.running_prio_or_inf());
            // After enqueueing, the next-ready priority is the better of
            // the task's own priority and the previous best.
            pre.lemma_lowest_ready_spec(0);
            if pre.prio(i as int) < pre.lowest_ready() {
                assert forall|q: int| 0 <= q < pre.prio(i as int) implies #[trigger] m.ready(
                    q,
                ).len() == 0 by {
                    assert(m.ready(q) == pre.ready(q));
                }
                m.lemma_lowest_ready_found(0, pre.prio(i as int));
            } else {
                assert(pre.lowest_ready() < PRIORITY_INFINITY as int);
                assert(m.ready(pre.lowest_ready()).len() > 0);
                assert forall|q: int| 0 <= q < pre.lowest_ready() implies #[trigger] m.ready(
                    q,
                ).len() == 0 by {
                    assert(m.ready(q) == pre.ready(q));
                }
                m.lemma_lowest_ready_found(0, pre.lowest_ready());
            }
        }

        // If the task has a higher priority than the running one, a
        // context switch will take place once CPU Lock is released
        self.unlock_cpu_and_check_preemption();

        proof {
            let fin = *self;
            assert(m.wf());
            lemma_wf_transfer(m, fin);
            assert(fin.ready(pre.prio(i as int)) == pre.ready(pre.prio(i as int)).push(i));
            assert forall|p: int|
                0 <= p < fin.levels() && p != pre.prio(i as int) implies #[trigger] fin.ready(p)
                == pre.ready(p) by {
                assert(fin.ready(p) == m.ready(p));
            }
        }
        Ok(())
    }

    /// The task index at position `j` of the ready bucket for priority
    /// `p`: position `0` is the head, the next task to be popped.
    pub fn ready_at(&self, p: usize, j: usize) -> (r: usize)
        requires
            p < self.levels(),
            j < self.ready(p as int).len(),
        ensures
            r == self.ready(p as int)[j as int],
    {
        self.ready_queue[p][j]
    }
}

/// Two kernel values with the same buckets have the same next-ready
/// priority.
pub(crate) proof fn lemma_lowest_same(a: Kernel, b: Kernel, q: int)
    requires
        a.levels() == b.levels(),
        0 <= q,
        forall|p: int| q <= p < a.levels() ==> #[trigger] a.ready(p) == b.ready(p),
    ensures
        a.lowest_ready_from(q) == b.lowest_ready_from(q),
    decreases 64 - q,
{
    if q < a.levels() && q < 64 && a.ready(q).len() == 0 {
        lemma_lowest_same(a, b, q + 1);
    }
}

/// Two kernel values that agree on the task pool, the ready queue, the
/// bitmap and the running task are equally well-formed: the CPU Lock and
/// dispatch flags play no part in structural well-formedness.
pub(crate) proof fn lemma_wf_transfer(a: Kernel, b: Kernel)
    requires
        a.wf_core(),
        b.tasks == a.tasks,
        b.ready_queue == a.ready_queue,
        b.task_ready_bitmap == a.task_ready_bitmap,
        b.running_task == a.running_task,
    ensures
        b.wf_core(),
        a.wf() ==> b.wf(),
        forall|p: int| 0 <= p < b.levels() ==> #[trigger] b.ready(p) == a.ready(p),
{
    assert forall|p: int| 0 <= p < b.levels() implies #[trigger] b.ready(p) == a.ready(p) by {}
    assert forall|p: int|
        0 <= p < b.levels() implies (bitmap_bit(b.task_ready_bitmap, p) <==> #[trigger] b.ready(
        p,
    ).len() > 0) by {
        assert(b.ready(p) == a.ready(p));
    }
    assert forall|p: int, j: int|
        0 <= p < b.levels() && 0 <= j < b.ready(p).len() implies #[trigger] b.member_ok(p, j) by {
        assert(b.ready(p) == a.ready(p));
        assert(a.member_ok(p, j));
    }
    assert forall|p: int, j1: int, j2: int|
        0 <= p < b.levels() && 0 <= j1 < b.ready(p).len() && 0 <= j2 < b.ready(p).len()
            && #[trigger] b.ready(p)[j1] == #[trigger] b.ready(p)[j2] implies j1 == j2 by {
        assert(b.ready(p) == a.ready(p));
    }
    assert forall|t: int|
        b.valid_task(t) && #[trigger] b.st(t) == TaskSt::Ready implies b.ready(b.prio(t)).contains(
        t as usize,
    ) by {
        assert(a.st(t) == TaskSt::Ready);
        assert(b.ready(b.prio(t)) == a.ready(a.prio(t)));
    }
    assert forall|t: int| b.valid_task(t) implies 0 <= #[trigger] b.prio(t) < b.levels() by {
        assert(b.prio(t) == a.prio(t));
    }
}

/// Changing the state of one task that is in no ready bucket — from a
/// non-Ready state to a non-Ready state — preserves structural
/// well-formedness, as long as the running-task condition still holds.
proof fn lemma_st_change_wf(pre: Kernel, post: Kernel, i: int, new_st: TaskSt)
    requires
        pre.wf_core(),
        0 <= i < pre.n_tasks(),
        pre.st(i) != TaskSt::Ready,
        new_st != TaskSt::Ready,
        post.tasks@ == pre.tasks@.update(i, (TaskCb { st: new_st, ..pre.tasks@[i] })),
        post.ready_queue == pre.ready_queue,
        post.task_ready_bitmap == pre.task_ready_bitmap,
        match post.running_task {
            Some(r) => 0 <= r < pre.n_tasks() && (if r as int == i {
                new_st
            } else {
                pre.st(r as int)
            }) != TaskSt::Dormant && (if r as int == i {
                new_st
            } else {
                pre.st(r as int)
            }) != TaskSt::PendingActivation,
            None => true,
        },
    ensures
        post.wf_core(),
        Kernel::same_statics(pre, post),
        forall|p: int| 0 <= p < post.levels() ==> #[trigger] post.ready(p) == pre.ready(p),
        match post.running_task {
            Some(r) => (if r as int == i {
                new_st
            } else {
                pre.st(r as int)
            }) == TaskSt::Running ==> post.wf(),
            None => post.wf(),
        },
{
    assert forall|p: int| 0 <= p < post.levels() implies #[trigger] post.ready(p) == pre.ready(
        p,
    ) by {}
    assert forall|p: int|
        0 <= p < post.levels() implies (bitmap_bit(post.task_ready_bitmap, p)
        <==> #[trigger] post.ready(p).len() > 0) by {
        assert(post.ready(p) == pre.ready(p));
    }
    assert forall|p: int, j: int|
        0 <= p < post.levels() && 0 <= j < post.ready(p).len() implies #[trigger] post.member_ok(
        p,
        j,
    ) by {
        assert(post.ready(p) == pre.ready(p));
        assert(pre.member_ok(p, j));
        assert(pre.ready(p)[j] as int != i);
    }
    assert forall|p: int, j1: int, j2: int|
        0 <= p < post.levels() && 0 <= j1 < post.ready(p).len() && 0 <= j2 < post.ready(p).len()
            && #[trigger] post.ready(p)[j1] == #[trigger] post.ready(p)[j2] implies j1 == j2 by {
        assert(post.ready(p) == pre.ready(p));
    }
    assert forall|t: int|
        post.valid_task(t) && #[trigger] post.st(t) == TaskSt::Ready implies post.ready(
        post.prio(t),
    ).contains(t as usize) by {
        assert(t != i);
        assert(pre.st(t) == TaskSt::Ready);
        assert(post.ready(post.prio(t)) == pre.ready(pre.prio(t)));
    }
    assert forall|t: int| post.valid_task(t) implies 0 <= #[trigger] post.prio(t)
        < post.levels() by {
        assert(post.prio(t) == pre.prio(t));
    }
}

/// For every priority `p`, bit `p` of the ready bitmap is set if and only
/// if the ready bucket for `p` is non-empty.
pub proof fn lemma_bitmap_matches_ready_queue(k: Kernel)
    requires
        k.wf_core(),
    ensures
        forall|p: int|
            0 <= p < k.levels() ==> (bitmap_bit(k.task_ready_bitmap, p) <==> #[trigger] k.ready(
                p,
            ).len() > 0),
{
}

/// Every task is in at most one ready bucket, at one position: two bucket
/// positions holding the same task are the same position of the same
/// bucket.
pub proof fn lemma_task_in_at_most_one_bucket(k: Kernel)
    requires
        k.wf_core(),
    ensures
        forall|p1: int, j1: int, p2: int, j2: int|
            0 <= p1 < k.levels() && 0 <= j1 < k.ready(p1).len() && 0 <= p2 < k.levels() && 0 <= j2
                < k.ready(p2).len() && #[trigger] k.ready(p1)[j1] == #[trigger] k.ready(p2)[j2]
                ==> p1 == p2 && j1 == j2,
{
    assert forall|p1: int, j1: int, p2: int, j2: int|
        0 <= p1 < k.levels() && 0 <= j1 < k.ready(p1).len() && 0 <= p2 < k.levels() && 0 <= j2
            < k.ready(p2).len() && #[trigger] k.ready(p1)[j1] == #[trigger] k.ready(p2)[j2] implies p1
        == p2 && j1 == j2 by {
        assert(k.member_ok(p1, j1));
        assert(k.member_ok(p2, j2));
    }
}

/// The running task, if present, is in the Running state and in no ready
/// bucket.
pub proof fn lemma_running_task_isolated(k: Kernel)
    requires
        k.wf(),
    ensures
        k.running_task matches Some(t) ==> k.st(t as int) == TaskSt::Running && (forall|
            p: int,
            j: int,
        |
            0 <= p < k.levels() && 0 <= j < k.ready(p).len() ==> #[trigger] k.ready(p)[j] != t),
{
    match k.running_task {
        Some(t) => {
            assert forall|p: int, j: int|
                0 <= p < k.levels() && 0 <= j < k.ready(p).len() implies #[trigger] k.ready(p)[j]
                != t by {
                assert(k.member_ok(p, j));
            }
        },
        None => {},
    }
}

/// Every task in the Ready state is in the ready bucket of its priority.
pub proof fn lemma_ready_task_queued(k: Kernel)
    requires
        k.wf_core(),
    ensures
        forall|i: int|
            k.valid_task(i) && #[trigger] k.st(i) == TaskSt::Ready ==> k.ready(k.prio(i)).contains(
                i as usize,
            ),
{
}

/// Activating a dormant task and exiting it as soon as it has run leaves
/// the task Dormant and the ready queue unchanged.
///
/// `k0` is an idle, well-formed state — no running task, and no ready
/// task at or above the priority of `t` — with CPU Lock inactive. `k1` is
/// `k0` after `t` was activated; `k2` is `k1` after the requested
/// dispatch ran the scheduler, which picked `t`; `k3` is `k2` after `t`
/// exited. The end state has `t` Dormant again, every ready bucket as in
/// `k0`, every other task in its old state, and no running task.
pub proof fn lemma_activate_exit_round_trip(k0: Kernel, k1: Kernel, k2: Kernel, k3: Kernel, t: int)
    requires
        k0.wf(),
        !k0.cpu_lock,
        k0.running_task is None,
        0 <= t < k0.n_tasks(),
        k0.st(t) == TaskSt::Dormant,
        forall|j: int|
            k0.valid_task(j) && #[trigger] k0.st(j) == TaskSt::Ready ==> k0.prio(j) > k0.prio(t),
        // `k1` is `k0` after the activation made `t` Ready
        k1.tasks@ == k0.tasks@.update(t, (TaskCb { st: TaskSt::Ready, ..k0.tasks@[t] })),
        k1.ready(k0.prio(t)) == k0.ready(k0.prio(t)).push(t as usize),
        forall|p: int|
            0 <= p < k1.levels() && p != k0.prio(t) ==> #[trigger] k1.ready(p) == k0.ready(p),
        k1.levels() == k0.levels(),
        k1.running_task is None,
        // `k2` is `k1` after the dispatcher switched
        Kernel::choose_switch(k1, k2),
        // `k3` is `k2` after the running task exited
        k2.running_task matches Some(i) && k3.tasks@ == k2.tasks@.update(
            i as int,
            (TaskCb { st: TaskSt::Dormant, ..k2.tasks@[i as int] }),
        ),
        k3.ready_queue == k2.ready_queue,
        k3.running_task is None,
    ensures
        k3.st(t) == TaskSt::Dormant,
        forall|p: int| 0 <= p < k0.levels() ==> #[trigger] k3.ready(p) == k0.ready(p),
        forall|j: int| 0 <= j < k0.n_tasks() && j != t ==> #[trigger] k3.st(j) == k0.st(j),
        k3.running_task is None,
{
    let pt = k0.prio(t);
    // The bucket of `t`'s priority was empty: each of its entries would be
    // a Ready task of priority `pt`, which the premises rule out
    if k0.ready(pt).len() > 0 {
        assert(k0.member_ok(pt, 0));
    }
    assert(k0.ready(pt).len() == 0);
    assert(k1.ready(pt) =~= seq![t as usize]);
    // Buckets of better priorities are empty too, so the dispatcher picked
    // `t`
    assert forall|p: int| 0 <= p < pt implies #[trigger] k1.ready(p).len() == 0 by {
        assert(k1.ready(p) == k0.ready(p));
        if k0.ready(p).len() > 0 {
            assert(k0.member_ok(p, 0));
        }
    }
    k1.lemma_lowest_ready_found(0, pt);
    assert(k1.lowest_ready() == pt);
    assert(k1.ready(pt)[0] == t as usize);
    assert(k1.requeue_candidate() is None);
    assert(k2.running_task == Some(t as usize));
    assert(k2.ready(pt) =~= k0.ready(pt));
    assert forall|p: int| 0 <= p < k0.levels() implies #[trigger] k3.ready(p) == k0.ready(p) by {
        assert(k3.ready(p) == k2.ready(p));
        if p != pt {
            assert(k2.ready(p) == k1.ready(p));
            assert(k1.ready(p) == k0.ready(p));
        }
    }
    assert forall|j: int| 0 <= j < k0.n_tasks() && j != t implies #[trigger] k3.st(j) == k0.st(
        j,
    ) by {
        assert(k2.st(j) == k1.st(j));
        assert(k1.st(j) == k0.st(j));
    }
}

/// Entering and leaving CPU Lock is balanced: a matched enter/leave pair
/// restores the state exactly, so any sequence of matched pairs — CPU
/// Lock is not reentrant, so such a sequence is a chain of adjacent pairs
/// — leaves `is_cpu_lock_active` unchanged.
pub proof fn lemma_cpu_lock_pair_balanced(k0: Kernel, k1: Kernel, k2: Kernel)
    requires
        !k0.cpu_lock,
        k1 == (Kernel { cpu_lock: true, ..k0 }),
        k2 == (Kernel { cpu_lock: false, ..k1 }),
    ensures
        k2 == k0,
        k2.cpu_lock == k0.cpu_lock,
{
}

/// The general form of the balance law, over a whole run: a trace of
/// states linked by matched enter/leave pairs ends in the state it
/// started from, so `is_cpu_lock_active` is unchanged.
pub proof fn lemma_cpu_lock_matched_sequence(trace: Seq<Kernel>)
    requires
        trace.len() % 2 == 1,
        trace.len() >= 1,
        forall|i: int|
            0 <= i < trace.len() / 2 ==> !(#[trigger] trace[2 * i]).cpu_lock && trace[2 * i + 1]
                == (Kernel { cpu_lock: true, ..trace[2 * i] }) && trace[2 * i + 2] == (Kernel {
                cpu_lock: false,
                ..trace[2 * i + 1]
            }),
    ensures
        trace.last() == trace.first(),
        trace.last().cpu_lock == trace.first().cpu_lock,
    decreases trace.len(),
{
    if trace.len() > 1 {
        assert(!trace[2 * 0int].cpu_lock && trace[2 * 0int + 1] == (Kernel {
            cpu_lock: true,
            ..trace[2 * 0int]
        }) && trace[2 * 0int + 2] == (Kernel { cpu_lock: false, ..trace[2 * 0int + 1] }));
        assert(trace[2] == trace[0]);
        let rest = trace.subrange(2, trace.len() as int);
        assert forall|i: int|
            0 <= i < rest.len() / 2 implies !(#[trigger] rest[2 * i]).cpu_lock && rest[2 * i + 1]
            == (Kernel { cpu_lock: true, ..rest[2 * i] }) && rest[2 * i + 2] == (Kernel {
            cpu_lock: false,
            ..rest[2 * i + 1]
        }) by {
            assert(rest[2 * i] == trace[2 * (i + 1)]);
            assert(rest[2 * i + 1] == trace[2 * (i + 1) + 1]);
            assert(rest[2 * i + 2] == trace[2 * (i + 1) + 2]);
            assert(!trace[2 * (i + 1)].cpu_lock);
        }
        lemma_cpu_lock_matched_sequence(rest);
        assert(rest.last() == trace.last());
        assert(rest.first() == trace[2]);
    }
}

} // verus!
