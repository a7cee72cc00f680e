//! The initial saved-context image for the Arm-M flavor of the port
//! contract.
//!
//! When a task is activated, the port populates the task's stack so that
//! restoring the context starts execution at the task's entry point. The
//! record laid out here, from the new stack pointer upward, is the extra
//! context that context-switch code saves and restores by hand — `r4`–
//! `r11`, the `EXC_RETURN` value and `CONTROL` — followed by the
//! architecturally-defined exception frame: `r0`–`r3`, `r12`, `LR`, `PC`
//! and `xPSR`.

use vstd::prelude::*;

verus! {

/// `EXC_RETURN` for "return to Thread mode, restore state from the
/// process stack, keep using the process stack".
pub const EXC_RETURN_THREAD_PSP: u32 = 0xfffffffd;

/// `CONTROL` with `SPSEL = 1`: the thread uses the process stack.
pub const CONTROL_SPSEL_PSP: u32 = 0x00000002;

/// `xPSR` with only the Thumb bit set.
pub const XPSR_THUMB: u32 = 0x01000000;

/// The number of bytes the initial context occupies on the stack: ten
/// hand-saved words and an eight-word exception frame.
pub const INITIAL_CONTEXT_BYTES: u32 = 72;

/// Compute a task's initial saved context.
///
/// Given the task's entry point and parameter, the address of the
/// kernel's exit trampoline (so a returning entry function exits the
/// task) and the word-aligned top of the task's stack region, returns the
/// eighteen words to store at the new stack pointer, lowest address
/// first, together with that stack pointer:
/// `stack_top - INITIAL_CONTEXT_BYTES`.
///
/// The registers with no defined initial value are filled with
/// recognizable patterns.
pub fn initialize_task_state(
    entry_point: u32,
    entry_param: u32,
    exit_return: u32,
    stack_top: u32,
) -> (r: (Vec<u32>, u32))
    requires
        stack_top >= INITIAL_CONTEXT_BYTES,
        stack_top % 4 == 0,
    ensures
        r.1 == stack_top - INITIAL_CONTEXT_BYTES,
        r.0@ == seq![
            // r4-r11, saved and restored by context-switch code
            0x04040404u32,
            0x05050505u32,
            0x06060606u32,
            0x07070707u32,
            0x08080808u32,
            0x09090909u32,
            0x10101010u32,
            0x11111111u32,
            EXC_RETURN_THREAD_PSP,
            CONTROL_SPSEL_PSP,
            // The exception frame, popped by exception return
            entry_param,
            0x01010101u32,
            0x02020202u32,
            0x03030303u32,
            0x12121212u32,
            exit_return,
            entry_point,
            XPSR_THUMB,
        ],
{
    let mut frame: Vec<u32> = Vec::new();

    // Extra context (saved and restored by our code as part of context
    // switching): r4-r11, EXC_RETURN, CONTROL
    frame.push(0x04040404);
    frame.push(0x05050505);
    frame.push(0x06060606);
    frame.push(0x07070707);
    frame.push(0x08080808);
    frame.push(0x09090909);
    frame.push(0x10101010);
    frame.push(0x11111111);
    frame.push(EXC_RETURN_THREAD_PSP);
    frame.push(CONTROL_SPSEL_PSP);

    // Exception frame (automatically saved and restored as part of the
    // architecturally-defined exception entry/return sequence)
    // r0: parameter to the entry point
    frame.push(entry_param);
    // r1-r3, r12: uninitialized
    frame.push(0x01010101);
    frame.push(0x02020202);
    frame.push(0x03030303);
    frame.push(0x12121212);
    // LR: the return address
    frame.push(exit_return);
    // PC: the entry point
    frame.push(entry_point);
    // xPSR
    frame.push(XPSR_THUMB);

    let sp = stack_top - INITIAL_CONTEXT_BYTES;
    proof {
        assert(frame@ =~= seq![
            0x04040404u32,
            0x05050505u32,
            0x06060606u32,
            0x07070707u32,
            0x08080808u32,
            0x09090909u32,
            0x10101010u32,
            0x11111111u32,
            EXC_RETURN_THREAD_PSP,
            CONTROL_SPSEL_PSP,
            entry_param,
            0x01010101u32,
            0x02020202u32,
            0x03030303u32,
            0x12121212u32,
            exit_return,
            entry_point,
            XPSR_THUMB,
        ]);
    }
    (frame, sp)
}

} // verus!
