//! The initial saved-context image.

use constance::threading::{
    initialize_task_state, CONTROL_SPSEL_PSP, EXC_RETURN_THREAD_PSP, INITIAL_CONTEXT_BYTES,
    XPSR_THUMB,
};

#[test]
fn initial_context_layout() {
    let entry_point = 0x0800_1234;
    let entry_param = 0xcafe;
    let exit_return = 0x0800_0042;
    let stack_top = 0x2000_1000;

    let (frame, sp) = initialize_task_state(entry_point, entry_param, exit_return, stack_top);

    assert_eq!(sp, stack_top - INITIAL_CONTEXT_BYTES);
    assert_eq!(frame.len(), 18);

    // Hand-saved part: r4-r11, EXC_RETURN, CONTROL
    assert_eq!(
        &frame[0..8],
        &[
            0x04040404, 0x05050505, 0x06060606, 0x07070707, 0x08080808, 0x09090909, 0x10101010,
            0x11111111
        ]
    );
    assert_eq!(frame[8], EXC_RETURN_THREAD_PSP);
    assert_eq!(frame[8], 0xfffffffd);
    assert_eq!(frame[9], CONTROL_SPSEL_PSP);

    // Exception frame: r0-r3, r12, LR, PC, xPSR
    assert_eq!(frame[10], entry_param);
    assert_eq!(&frame[11..15], &[0x01010101, 0x02020202, 0x03030303, 0x12121212]);
    assert_eq!(frame[15], exit_return);
    assert_eq!(frame[16], entry_point);
    assert_eq!(frame[17], XPSR_THUMB);
    assert_eq!(frame[17], 0x01000000);
}

#[test]
fn stack_pointer_leaves_room_for_the_frame() {
    let (frame, sp) = initialize_task_state(0x100, 0, 0x200, 72);
    assert_eq!(sp, 0);
    assert_eq!(frame.len() * 4, 72);
}
