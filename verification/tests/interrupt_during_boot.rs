//! Checks that an interrupt cannot preempt the boot phase: a request
//! raised by a startup hook is not serviced until after the first task
//! starts and CPU Lock is released.

use constance::kernel::Kernel;
use constance::plic::{claim_interrupt, enable_interrupt_line, end_interrupt, init,
    is_interrupt_line_pending, pend_interrupt_line, set_interrupt_line_priority, Plic};
use constance::task::{Hunk, StackHunk, TaskAttr, TaskCb, TaskSt};

const START: usize = 16;
const LINE: usize = START + 4;

#[test]
fn startup_hook() {
    let mut seq = 0;

    let mut k = Kernel::new(
        1,
        vec![TaskCb {
            port_task_state: 0,
            attr: TaskAttr {
                entry_point: 0x3000,
                entry_param: 0,
                stack: StackHunk::from_hunk(Hunk { offset: 0, len: 1024 }),
            },
            priority: 0,
            st: TaskSt::PendingActivation,
        }],
    );
    let mut plic = Plic {
        interrupt_priority: vec![0; 32],
        interrupt_enable: vec![0; 1],
        interrupt_pending: vec![0; 1],
        priority_threshold: 0,
        max_num: 31,
        max_priority: 7,
        platform_start: START,
    };
    init(&mut plic);
    set_interrupt_line_priority(&mut plic, LINE, 1).unwrap();

    k.boot();

    // The startup hook: runs with CPU Lock active, enables and pends the
    // line; the handler must not run yet
    assert_eq!(seq, 0);
    seq = 1;
    assert!(k.has_cpu_lock());
    enable_interrupt_line(&mut plic, LINE).unwrap();
    pend_interrupt_line(&mut plic, LINE).unwrap();
    assert_eq!(seq, 1);
    seq = 2;
    // The request stays pending while CPU Lock masks it
    assert_eq!(is_interrupt_line_pending(&plic, LINE), Ok(true));

    // Dispatch the first task and release CPU Lock; only now does the
    // port take the interrupt
    k.choose_running_task();
    assert_eq!(k.running_task(), Some(0));
    k.leave_cpu_lock();

    let (old_threshold, line) = claim_interrupt(&mut plic).unwrap();
    assert_eq!(line, LINE);
    assert_eq!(seq, 2);
    seq = 3;
    end_interrupt(&mut plic, old_threshold);

    assert_eq!(seq, 3);
    assert_eq!(is_interrupt_line_pending(&plic, LINE), Ok(false));
}
