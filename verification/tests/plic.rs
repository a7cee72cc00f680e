//! The platform-level interrupt controller driver: line bookkeeping and
//! the claim/complete protocol.

use constance::error::{EnableInterruptLineError, QueryInterruptLineError, SetInterruptLinePriorityError};
use constance::plic::{
    claim_interrupt, clear_interrupt_line, disable_interrupt_line, enable_interrupt_line,
    end_interrupt, init, is_interrupt_line_pending, pend_interrupt_line,
    set_interrupt_line_priority, Plic,
};

const START: usize = 16;

fn fresh_plic() -> Plic {
    let mut plic = Plic {
        interrupt_priority: vec![0; 64],
        interrupt_enable: vec![0xffff_ffff; 2],
        interrupt_pending: vec![0; 2],
        priority_threshold: 0,
        max_num: 63,
        max_priority: 7,
        platform_start: START,
    };
    init(&mut plic);
    plic
}

#[test]
fn init_disables_every_source() {
    let plic = fresh_plic();
    for line in START..START + 64 {
        // A disabled source never becomes eligible, but its pending flag
        // is still readable
        assert_eq!(is_interrupt_line_pending(&plic, line), Ok(false));
    }
    assert!(plic.interrupt_enable.iter().all(|w| *w == 0));
}

#[test]
fn set_interrupt_line_priority_checks_ranges() {
    let mut plic = fresh_plic();
    assert_eq!(set_interrupt_line_priority(&mut plic, START + 5, 3), Ok(()));
    assert_eq!(plic.interrupt_priority[5], 3);

    // Out-of-range lines and priorities are rejected
    assert_eq!(
        set_interrupt_line_priority(&mut plic, START - 1, 3),
        Err(SetInterruptLinePriorityError::BadParam)
    );
    assert_eq!(
        set_interrupt_line_priority(&mut plic, START + 64, 3),
        Err(SetInterruptLinePriorityError::BadParam)
    );
    assert_eq!(
        set_interrupt_line_priority(&mut plic, START + 5, -1),
        Err(SetInterruptLinePriorityError::BadParam)
    );
    assert_eq!(
        set_interrupt_line_priority(&mut plic, START + 5, 8),
        Err(SetInterruptLinePriorityError::BadParam)
    );
}

#[test]
fn enable_and_disable_flip_one_bit() {
    let mut plic = fresh_plic();
    assert_eq!(enable_interrupt_line(&mut plic, START + 33), Ok(()));
    assert_eq!(plic.interrupt_enable[1], 1 << 1);
    assert_eq!(plic.interrupt_enable[0], 0);

    assert_eq!(enable_interrupt_line(&mut plic, START + 2), Ok(()));
    assert_eq!(plic.interrupt_enable[0], 1 << 2);

    assert_eq!(disable_interrupt_line(&mut plic, START + 33), Ok(()));
    assert_eq!(plic.interrupt_enable[1], 0);
    assert_eq!(plic.interrupt_enable[0], 1 << 2);

    assert_eq!(
        enable_interrupt_line(&mut plic, START - 1),
        Err(EnableInterruptLineError::BadParam)
    );
    assert_eq!(
        disable_interrupt_line(&mut plic, START + 64),
        Err(EnableInterruptLineError::BadParam)
    );
}

#[test]
fn pending_flag_round_trip() {
    let mut plic = fresh_plic();
    assert_eq!(is_interrupt_line_pending(&plic, START + 40), Ok(false));
    assert_eq!(pend_interrupt_line(&mut plic, START + 40), Ok(()));
    assert_eq!(is_interrupt_line_pending(&plic, START + 40), Ok(true));
    assert_eq!(is_interrupt_line_pending(&plic, START + 41), Ok(false));
    assert_eq!(clear_interrupt_line(&mut plic, START + 40), Ok(()));
    assert_eq!(is_interrupt_line_pending(&plic, START + 40), Ok(false));
    assert_eq!(
        is_interrupt_line_pending(&plic, START + 64),
        Err(QueryInterruptLineError::BadParam)
    );
}

#[test]
fn claim_picks_highest_priority_then_lowest_number() {
    let mut plic = fresh_plic();
    for (line, pri) in [(START + 3, 2), (START + 5, 6), (START + 9, 6)] {
        assert_eq!(set_interrupt_line_priority(&mut plic, line, pri), Ok(()));
        assert_eq!(enable_interrupt_line(&mut plic, line), Ok(()));
        assert_eq!(pend_interrupt_line(&mut plic, line), Ok(()));
    }

    // Highest priority wins; the lowest-numbered source among equals
    let (old_threshold, line) = claim_interrupt(&mut plic).unwrap();
    assert_eq!(old_threshold, 0);
    assert_eq!(line, START + 5);
    assert_eq!(plic.priority_threshold, 6);
    assert_eq!(is_interrupt_line_pending(&plic, START + 5), Ok(false));

    // While the threshold is raised, no remaining source is prioritized
    // above it, so nothing can be claimed
    assert_eq!(claim_interrupt(&mut plic), None);

    // Completing the interrupt unmasks the others
    end_interrupt(&mut plic, old_threshold);
    assert_eq!(plic.priority_threshold, 0);
    let (t2, line2) = claim_interrupt(&mut plic).unwrap();
    assert_eq!(t2, 0);
    assert_eq!(line2, START + 9);
    end_interrupt(&mut plic, t2);

    let (t3, line3) = claim_interrupt(&mut plic).unwrap();
    assert_eq!(line3, START + 3);
    end_interrupt(&mut plic, t3);

    assert_eq!(claim_interrupt(&mut plic), None);
}

#[test]
fn claim_ignores_disabled_and_masked_sources() {
    let mut plic = fresh_plic();
    // Pending but disabled: not eligible
    assert_eq!(set_interrupt_line_priority(&mut plic, START + 7, 4), Ok(()));
    assert_eq!(pend_interrupt_line(&mut plic, START + 7), Ok(()));
    assert_eq!(claim_interrupt(&mut plic), None);

    // Enabled but prioritized at zero: never above the threshold
    assert_eq!(enable_interrupt_line(&mut plic, START + 8), Ok(()));
    assert_eq!(pend_interrupt_line(&mut plic, START + 8), Ok(()));
    assert_eq!(set_interrupt_line_priority(&mut plic, START + 8, 0), Ok(()));
    assert_eq!(claim_interrupt(&mut plic), None);

    // Enabling the first source makes it claimable
    assert_eq!(enable_interrupt_line(&mut plic, START + 7), Ok(()));
    let (_, line) = claim_interrupt(&mut plic).unwrap();
    assert_eq!(line, START + 7);
}
