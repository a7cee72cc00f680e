//! The platform-level interrupt controller driver.
//!
//! The controller's registers for one context — the one the kernel runs
//! on — are modelled as plain words in a [`Plic`] value: per-source
//! priority registers, word-packed enable and pending bits, and the
//! context's priority threshold. Sources are numbered `1..=max_num`; the
//! kernel's interrupt line `platform_start + n` maps to source `n`. A
//! larger priority value takes precedence, and a source interrupts only
//! while its priority exceeds the threshold.

use vstd::arithmetic::div_mod::lemma_fundamental_div_mod;
use vstd::prelude::*;

use crate::error::{EnableInterruptLineError, QueryInterruptLineError, SetInterruptLinePriorityError};
use crate::{InterruptNum, InterruptPriority};

verus! {

/// Whether bit `b` of `w` is set.
pub open spec fn bit32(w: u32, b: int) -> bool {
    0 <= b < 32 && (w >> (b as u32)) & 1u32 == 1u32
}

proof fn lemma_bit32_or(w: u32, b: u32, c: u32)
    requires
        b < 32,
        c < 32,
    ensures
        bit32(w | (1u32 << b), c as int) == (bit32(w, c as int) || b == c),
{
    assert(((w | (1u32 << b)) >> c) & 1u32 == (if b == c {
        1u32
    } else {
        (w >> c) & 1u32
    })) by (bit_vector)
        requires
            b < 32,
            c < 32,
    ;
}

proof fn lemma_bit32_clear(w: u32, b: u32, c: u32)
    requires
        b < 32,
        c < 32,
    ensures
        bit32(w & !(1u32 << b), c as int) == (bit32(w, c as int) && b != c),
{
    assert(((w & !(1u32 << b)) >> c) & 1u32 == (if b == c {
        0u32
    } else {
        (w >> c) & 1u32
    })) by (bit_vector)
        requires
            b < 32,
            c < 32,
    ;
}

/// The interrupt controller's register state for one context.
///
/// The fields are exposed for specification purposes; drive them through
/// the functions of this module. Sources raise requests by setting their
/// pending bit ([`pend_interrupt_line`] models that side).
pub struct Plic {
    /// Per-source priority registers, indexed by source number. A source
    /// with priority `0` never interrupts.
    pub interrupt_priority: Vec<u32>,
    /// Word-packed enable bits for this context: source `n` is bit
    /// `n % 32` of word `n / 32`.
    pub interrupt_enable: Vec<u32>,
    /// Word-packed pending bits, packed as the enable bits are.
    pub interrupt_pending: Vec<u32>,
    /// This context's priority threshold: only sources with a strictly
    /// greater priority interrupt.
    pub priority_threshold: u32,
    /// The highest valid source number.
    pub max_num: usize,
    /// The largest priority value a line may be given.
    pub max_priority: InterruptPriority,
    /// The kernel interrupt line number of source `0`: line
    /// `platform_start + n` maps to source `n`.
    pub platform_start: usize,
}

impl Plic {
    /// The number of 32-bit words holding one bit per source.
    pub open spec fn n_words(self) -> int {
        (self.max_num + 32) as int / 32
    }

    /// Register-file well-formedness: the vectors are sized for
    /// `max_num + 1` sources and the configuration values are in range.
    pub open spec fn wf(self) -> bool {
        &&& self.interrupt_priority@.len() == self.max_num + 1
        &&& self.interrupt_enable@.len() == self.n_words()
        &&& self.interrupt_pending@.len() == self.n_words()
        &&& self.max_num < 0x1000_0000
        &&& self.platform_start < 0x1000_0000
        &&& self.max_priority >= 0
    }

    /// Whether source `n` is enabled for this context.
    pub open spec fn enabled(self, n: int) -> bool {
        bit32(self.interrupt_enable@[n / 32], n % 32)
    }

    /// Whether source `n` has a pending request.
    pub open spec fn pending(self, n: int) -> bool {
        bit32(self.interrupt_pending@[n / 32], n % 32)
    }

    /// The priority register of source `n`.
    pub open spec fn priority_of(self, n: int) -> u32 {
        self.interrupt_priority@[n]
    }

    /// Whether source `n` is ready to interrupt this context: valid,
    /// pending, enabled, and prioritized above the threshold.
    pub open spec fn eligible(self, n: int) -> bool {
        &&& 1 <= n <= self.max_num
        &&& self.pending(n)
        &&& self.enabled(n)
        &&& self.priority_of(n) > self.priority_threshold
    }

    /// Everything but the enable bits is the same in `self` and `other`.
    pub open spec fn same_but_enable(self, other: Plic) -> bool {
        &&& other.interrupt_priority == self.interrupt_priority
        &&& other.interrupt_pending == self.interrupt_pending
        &&& other.priority_threshold == self.priority_threshold
        &&& other.max_num == self.max_num
        &&& other.max_priority == self.max_priority
        &&& other.platform_start == self.platform_start
        &&& other.interrupt_enable@.len() == self.interrupt_enable@.len()
    }

    /// Everything but the pending bits is the same in `self` and `other`.
    pub open spec fn same_but_pending(self, other: Plic) -> bool {
        &&& other.interrupt_priority == self.interrupt_priority
        &&& other.interrupt_enable == self.interrupt_enable
        &&& other.priority_threshold == self.priority_threshold
        &&& other.max_num == self.max_num
        &&& other.max_priority == self.max_priority
        &&& other.platform_start == self.platform_start
        &&& other.interrupt_pending@.len() == self.interrupt_pending@.len()
    }
}

/// Initialize the controller: disable every interrupt source for this
/// context. Priorities, pending bits and the threshold are left alone.
pub fn init(plic: &mut Plic)
    requires
        old(plic).wf(),
    ensures
        final(plic).wf(),
        old(plic).same_but_enable(*final(plic)),
        forall|n: int| 0 <= n <= final(plic).max_num ==> !final(plic).enabled(n),
{
    let num_ints = plic.max_num + 1;

    // Disable all interrupts
    let mut i: usize = 0;
    while i < (num_ints + 31) / 32
        invariant
            old(plic).wf(),
            old(plic).same_but_enable(*plic),
            num_ints == old(plic).max_num + 1,
            i <= (num_ints + 31) / 32,
            plic.interrupt_enable@.len() == old(plic).interrupt_enable@.len(),
            forall|w: int| 0 <= w < i ==> #[trigger] plic.interrupt_enable@[w] == 0u32,
        decreases (num_ints + 31) / 32 - i,
    {
        proof {
            assert((num_ints + 31) as int / 32 == old(plic).n_words());
        }
        plic.interrupt_enable[i] = 0u32;
        i = i + 1;
    }
    proof {
        assert forall|n: int| 0 <= n <= plic.max_num implies !plic.enabled(n) by {
            lemma_fundamental_div_mod(n, 32);
            assert(plic.interrupt_enable@[n / 32] == 0u32);
            let b = (n % 32) as u32;
            assert(((0u32 >> b) & 1u32) == 0u32) by (bit_vector)
                requires
                    b < 32,
            ;
        }
    }
}

/// Set the priority of an interrupt line, rejecting lines outside
/// `platform_start..=platform_start + max_num` and priorities outside
/// `0..=max_priority`.
pub fn set_interrupt_line_priority(
    plic: &mut Plic,
    line: InterruptNum,
    priority: InterruptPriority,
) -> (r: Result<(), SetInterruptLinePriorityError>)
    requires
        old(plic).wf(),
    ensures
        final(plic).wf(),
        !(old(plic).platform_start <= line <= old(plic).platform_start + old(plic).max_num)
            || priority < 0 || priority > old(plic).max_priority ==> r == Err::<(),
            SetInterruptLinePriorityError,
        >(SetInterruptLinePriorityError::BadParam) && *final(plic) == *old(plic),
        (old(plic).platform_start <= line <= old(plic).platform_start + old(plic).max_num)
            && 0 <= priority <= old(plic).max_priority ==> r == Ok::<(),
            SetInterruptLinePriorityError,
        >(()) && final(plic).interrupt_priority@ == old(plic).interrupt_priority@.update(
            line - old(plic).platform_start,
            priority as u32,
        ) && final(plic).interrupt_enable == old(plic).interrupt_enable && final(plic).interrupt_pending == old(plic).interrupt_pending && final(plic).priority_threshold == old(plic).priority_threshold,
{
    if line < plic.platform_start {
        return Err(SetInterruptLinePriorityError::BadParam);
    }
    let idx = line - plic.platform_start;

    if idx > plic.max_num || priority < 0 || priority > plic.max_priority {
        return Err(SetInterruptLinePriorityError::BadParam);
    }

    plic.interrupt_priority[idx] = priority as u32;
    Ok(())
}

/// Enable an interrupt line for this context.
pub fn enable_interrupt_line(plic: &mut Plic, line: InterruptNum) -> (r: Result<
    (),
    EnableInterruptLineError,
>)
    requires
        old(plic).wf(),
    ensures
        final(plic).wf(),
        !(old(plic).platform_start <= line <= old(plic).platform_start + old(plic).max_num) ==> r
            == Err::<(), EnableInterruptLineError>(EnableInterruptLineError::BadParam) && *final(plic) == *old(plic),
        (old(plic).platform_start <= line <= old(plic).platform_start + old(plic).max_num) ==> r
            == Ok::<(), EnableInterruptLineError>(()) && old(plic).same_but_enable(*final(plic))
            && (forall|n: int|
            0 <= n <= old(plic).max_num ==> final(plic).enabled(n) == (old(plic).enabled(n) || n
                == line - old(plic).platform_start)),
{
    if line < plic.platform_start {
        return Err(EnableInterruptLineError::BadParam);
    }
    let idx = line - plic.platform_start;

    if idx > plic.max_num {
        return Err(EnableInterruptLineError::BadParam);
    }

    let w = plic.interrupt_enable[idx / 32];
    plic.interrupt_enable[idx / 32] = w | (1u32 << ((idx % 32) as u32));

    proof {
        assert forall|n: int|
            0 <= n <= plic.max_num implies plic.enabled(n) == (old(plic).enabled(n) || n == idx
                as int) by {
            lemma_fundamental_div_mod(n, 32);
            lemma_fundamental_div_mod(idx as int, 32);
            if n / 32 == idx as int / 32 {
                lemma_bit32_or(w, (idx % 32) as u32, (n % 32) as u32);
            }
        }
    }
    Ok(())
}

/// Disable an interrupt line for this context.
pub fn disable_interrupt_line(plic: &mut Plic, line: InterruptNum) -> (r: Result<
    (),
    EnableInterruptLineError,
>)
    requires
        old(plic).wf(),
    ensures
        final(plic).wf(),
        !(old(plic).platform_start <= line <= old(plic).platform_start + old(plic).max_num) ==> r
            == Err::<(), EnableInterruptLineError>(EnableInterruptLineError::BadParam) && *final(plic) == *old(plic),
        (old(plic).platform_start <= line <= old(plic).platform_start + old(plic).max_num) ==> r
            == Ok::<(), EnableInterruptLineError>(()) && old(plic).same_but_enable(*final(plic))
            && (forall|n: int|
            0 <= n <= old(plic).max_num ==> final(plic).enabled(n) == (old(plic).enabled(n) && n
                != line - old(plic).platform_start)),
{
    if line < plic.platform_start {
        return Err(EnableInterruptLineError::BadParam);
    }
    let idx = line - plic.platform_start;

    if idx > plic.max_num {
        return Err(EnableInterruptLineError::BadParam);
    }

    let w = plic.interrupt_enable[idx / 32];
    plic.interrupt_enable[idx / 32] = w & !(1u32 << ((idx % 32) as u32));

    proof {
        assert forall|n: int|
            0 <= n <= plic.max_num implies plic.enabled(n) == (old(plic).enabled(n) && n != idx
                as int) by {
            lemma_fundamental_div_mod(n, 32);
            lemma_fundamental_div_mod(idx as int, 32);
            if n / 32 == idx as int / 32 {
                lemma_bit32_clear(w, (idx % 32) as u32, (n % 32) as u32);
            }
        }
    }
    Ok(())
}

/// Read the pending flag of an interrupt line.
pub fn is_interrupt_line_pending(plic: &Plic, line: InterruptNum) -> (r: Result<
    bool,
    QueryInterruptLineError,
>)
    requires
        plic.wf(),
    ensures
        !(plic.platform_start <= line <= plic.platform_start + plic.max_num) ==> r == Err::<
            bool,
            QueryInterruptLineError,
        >(QueryInterruptLineError::BadParam),
        (plic.platform_start <= line <= plic.platform_start + plic.max_num) ==> r == Ok::<
            bool,
            QueryInterruptLineError,
        >(plic.pending(line - plic.platform_start)),
{
    if line < plic.platform_start {
        return Err(QueryInterruptLineError::BadParam);
    }
    let idx = line - plic.platform_start;

    if idx > plic.max_num {
        return Err(QueryInterruptLineError::BadParam);
    }

    proof {
        lemma_fundamental_div_mod(idx as int, 32);
    }
    Ok((plic.interrupt_pending[idx / 32] >> ((idx % 32) as u32)) & 1u32 == 1u32)
}

/// Raise an interrupt request: set the pending bit of a line. This is the
/// source's side of the protocol — in hardware the device does it; a
/// hosted embedding calls this to inject an interrupt.
pub fn pend_interrupt_line(plic: &mut Plic, line: InterruptNum) -> (r: Result<
    (),
    crate::error::PendInterruptLineError,
>)
    requires
        old(plic).wf(),
    ensures
        final(plic).wf(),
        !(old(plic).platform_start <= line <= old(plic).platform_start + old(plic).max_num) ==> r
            == Err::<(), crate::error::PendInterruptLineError>(
            crate::error::PendInterruptLineError::BadParam,
        ) && *final(plic) == *old(plic),
        (old(plic).platform_start <= line <= old(plic).platform_start + old(plic).max_num) ==> r
            == Ok::<(), crate::error::PendInterruptLineError>(()) && old(plic).same_but_pending(
            *final(plic),
        ) && (forall|n: int|
            0 <= n <= old(plic).max_num ==> final(plic).pending(n) == (old(plic).pending(n) || n
                == line - old(plic).platform_start)),
{
    if line < plic.platform_start {
        return Err(crate::error::PendInterruptLineError::BadParam);
    }
    let idx = line - plic.platform_start;

    if idx > plic.max_num {
        return Err(crate::error::PendInterruptLineError::BadParam);
    }

    let w = plic.interrupt_pending[idx / 32];
    plic.interrupt_pending[idx / 32] = w | (1u32 << ((idx % 32) as u32));

    proof {
        assert forall|n: int|
            0 <= n <= plic.max_num implies plic.pending(n) == (old(plic).pending(n) || n == idx
                as int) by {
            lemma_fundamental_div_mod(n, 32);
            lemma_fundamental_div_mod(idx as int, 32);
            if n / 32 == idx as int / 32 {
                lemma_bit32_or(w, (idx % 32) as u32, (n % 32) as u32);
            }
        }
    }
    Ok(())
}

/// Withdraw an interrupt request: clear the pending bit of a line.
pub fn clear_interrupt_line(plic: &mut Plic, line: InterruptNum) -> (r: Result<
    (),
    crate::error::ClearInterruptLineError,
>)
    requires
        old(plic).wf(),
    ensures
        final(plic).wf(),
        !(old(plic).platform_start <= line <= old(plic).platform_start + old(plic).max_num) ==> r
            == Err::<(), crate::error::ClearInterruptLineError>(
            crate::error::ClearInterruptLineError::BadParam,
        ) && *final(plic) == *old(plic),
        (old(plic).platform_start <= line <= old(plic).platform_start + old(plic).max_num) ==> r
            == Ok::<(), crate::error::ClearInterruptLineError>(()) && old(plic).same_but_pending(
            *final(plic),
        ) && (forall|n: int|
            0 <= n <= old(plic).max_num ==> final(plic).pending(n) == (old(plic).pending(n) && n
                != line - old(plic).platform_start)),
{
    if line < plic.platform_start {
        return Err(crate::error::ClearInterruptLineError::BadParam);
    }
    let idx = line - plic.platform_start;

    if idx > plic.max_num {
        return Err(crate::error::ClearInterruptLineError::BadParam);
    }

    let w = plic.interrupt_pending[idx / 32];
    plic.interrupt_pending[idx / 32] = w & !(1u32 << ((idx % 32) as u32));

    proof {
        assert forall|n: int|
            0 <= n <= plic.max_num implies plic.pending(n) == (old(plic).pending(n) && n != idx
                as int) by {
            lemma_fundamental_div_mod(n, 32);
            lemma_fundamental_div_mod(idx as int, 32);
            if n / 32 == idx as int / 32 {
                lemma_bit32_clear(w, (idx % 32) as u32, (n % 32) as u32);
            }
        }
    }
    Ok(())
}

/// Claim the highest-priority eligible interrupt source, if any: the
/// pending, enabled source with the greatest priority above the
/// threshold, the lowest-numbered one among equals.
///
/// On a claim the source's request is consumed, the threshold is raised
/// to the claimed source's priority — masking it and its lessers until
/// [`end_interrupt`] — and the previous threshold is returned together
/// with the kernel line number of the claimed source.
pub fn claim_interrupt(plic: &mut Plic) -> (r: Option<(u32, InterruptNum)>)
    requires
        old(plic).wf(),
    ensures
        final(plic).wf(),
        (forall|n: int| !old(plic).eligible(n)) ==> r is None,
        r is None ==> *final(plic) == *old(plic) && (forall|n: int| !old(plic).eligible(n)),
        r matches Some((old_threshold, line)) ==> ({
            let n = line - old(plic).platform_start;
            &&& old_threshold == old(plic).priority_threshold
            &&& old(plic).eligible(n)
            &&& forall|m: int|
                old(plic).eligible(m) ==> old(plic).priority_of(m) < old(plic).priority_of(n) || (
                old(plic).priority_of(m) == old(plic).priority_of(n) && m >= n)
            &&& final(plic).priority_threshold == old(plic).priority_of(n)
            &&& final(plic).interrupt_priority == old(plic).interrupt_priority
            &&& final(plic).interrupt_enable == old(plic).interrupt_enable
            &&& final(plic).max_num == old(plic).max_num
            &&& final(plic).platform_start == old(plic).platform_start
            &&& final(plic).max_priority == old(plic).max_priority
            &&& final(plic).interrupt_pending@.len() == old(plic).interrupt_pending@.len()
            &&& forall|m: int|
                0 <= m <= old(plic).max_num ==> final(plic).pending(m) == (old(plic).pending(m)
                    && m != n)
        }),
{
    // The claim register: the highest-priority pending and enabled source
    // above the threshold, ties broken towards the lowest number
    let mut best: usize = 0;
    let mut m: usize = 1;
    while m <= plic.max_num
        invariant
            old(plic).wf(),
            *plic == *old(plic),
            1 <= m <= plic.max_num + 1,
            best < m,
            best == 0 ==> forall|q: int| q < m ==> !plic.eligible(q),
            best > 0 ==> plic.eligible(best as int) && (forall|q: int|
                q < m && plic.eligible(q) ==> plic.priority_of(q) < plic.priority_of(best as int)
                    || (plic.priority_of(q) == plic.priority_of(best as int) && q >= best)),
        decreases plic.max_num + 1 - m,
    {
        proof {
            lemma_fundamental_div_mod(m as int, 32);
        }
        let pending = (plic.interrupt_pending[m / 32] >> ((m % 32) as u32)) & 1u32 == 1u32;
        let enabled = (plic.interrupt_enable[m / 32] >> ((m % 32) as u32)) & 1u32 == 1u32;
        if pending && enabled && plic.interrupt_priority[m] > plic.priority_threshold {
            if best == 0 || plic.interrupt_priority[m] > plic.interrupt_priority[best] {
                best = m;
            }
        }
        m = m + 1;
    }

    if best == 0 {
        return None;
    }

    // Raise the priority threshold to mask the claimed source
    let old_threshold = plic.priority_threshold;
    let priority = plic.interrupt_priority[best];
    plic.priority_threshold = priority;

    // Consume the claimed request
    let ghost before = *plic;
    let w = plic.interrupt_pending[best / 32];
    plic.interrupt_pending[best / 32] = w & !(1u32 << ((best % 32) as u32));

    proof {
        assert forall|q: int|
            0 <= q <= plic.max_num implies plic.pending(q) == (old(plic).pending(q) && q != best
                as int) by {
            lemma_fundamental_div_mod(q, 32);
            lemma_fundamental_div_mod(best as int, 32);
            if q / 32 == best as int / 32 {
                lemma_bit32_clear(w, (best % 32) as u32, (q % 32) as u32);
            }
        }
    }

    Some((old_threshold, best + plic.platform_start))
}

/// Finish handling a claimed interrupt: restore the priority threshold
/// that [`claim_interrupt`] saved, unmasking the claimed source's
/// priority level again.
pub fn end_interrupt(plic: &mut Plic, old_threshold: u32)
    requires
        old(plic).wf(),
    ensures
        final(plic).wf(),
        *final(plic) == (Plic { priority_threshold: old_threshold, ..*old(plic) }),
{
    plic.priority_threshold = old_threshold;
}

} // verus!
