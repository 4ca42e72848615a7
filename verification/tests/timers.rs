use arm_core::mem::{Width, HW};
use arm_core::scheduler::{Event, Scheduler};
use arm_core::timers::{Timer, Timers, TMCNT};

#[test]
fn scheduler_replaces_and_orders() {
    let mut s = Scheduler::new();
    s.schedule(Event::TimerOverflow(true, 0), 10);
    s.schedule(Event::TimerOverflow(true, 1), 5);
    s.schedule(Event::TimerOverflow(true, 0), 3);
    assert_eq!(s.events.len(), 2);
    s.advance(6);
    assert_eq!(s.pop_due(), Some(Event::TimerOverflow(true, 0)));
    assert_eq!(s.pop_due(), Some(Event::TimerOverflow(true, 1)));
    assert_eq!(s.pop_due(), None);
    s.schedule(Event::TimerOverflow(false, 2), 1);
    s.remove(Event::TimerOverflow(false, 2));
    assert_eq!(s.events.len(), 0);
}

#[test]
fn timer_register_readback() {
    let mut s = Scheduler::new();
    let mut t = Timer::new(true, 0, 0x8);
    t.write(&mut s, 0, 0x34);
    t.write(&mut s, 1, 0x12);
    assert_eq!(t.reload, 0x1234);
    // start, interrupt enabled, prescaler 0
    t.write(&mut s, 2, 0xC0);
    assert!(t.cnt.start && t.cnt.irq && !t.cnt.count_up);
    assert_eq!(t.read(&s, 2) & 0xC0, 0xC0);
    assert_eq!(t.read(&s, 3), 0);
}

#[test]
fn regular_timer_derives_counter_live() {
    let mut s = Scheduler::new();
    let mut t = Timer::new(true, 0, 0x8);
    // reload 0, prescaler 1, start
    t.write(&mut s, 2, 0x80);
    assert_eq!(s.events.len(), 1);
    // the counter is derived from the elapsed cycles, not stored
    s.advance(10);
    let lo = t.read(&s, 0) as u16;
    let hi = t.read(&s, 1) as u16;
    // started at cycle 1 with one cycle of latency: 10 cycles in, 9 ticks
    assert_eq!(hi << 8 | lo, 9);
}

#[test]
fn count_up_cascade_n_overflows() {
    let mut hw = HW::new();
    // timer 1 of the second core: count-up, started, reload 0
    hw.arm9_write(Width::Byte, 0x0400_0106, 0x84);
    // drive N overflows of timer 0
    let n = 3;
    for _ in 0..n {
        hw.on_timer_overflow(Event::TimerOverflow(true, 0));
    }
    // the derived counter of the count-up timer equals N
    assert_eq!(hw.arm9_read(Width::Byte, 0x0400_0104), n as u32);
    // a count-up timer never schedules an overflow event of its own; timer 0
    // is regular and rescheduled itself on each overflow
    assert_eq!(hw.scheduler.events.len(), 1);
}

#[test]
fn count_up_wraps_to_reload_on_cascade() {
    let mut s = Scheduler::new();
    let mut t = Timer::new(true, 1, 0x10);
    t.write(&mut s, 0, 0xFE);
    t.write(&mut s, 1, 0xFF);
    // count-up + start
    t.write(&mut s, 2, 0x84);
    assert!(!t.clock()); // 0xFFFE -> 0xFFFF
    assert!(t.clock()); // overflow, back to reload
    assert_eq!(t.reload, 0xFFFE);
    assert!(!t.clock());
}

#[test]
fn timer_interrupt_request_raised() {
    let mut hw = HW::new();
    // timer 0: irq enable + start
    hw.arm9_write(Width::Byte, 0x0400_0102, 0xC0);
    hw.scheduler.advance(0x1_0000 + 2);
    let fired = hw.run_next_event();
    assert!(fired.is_some());
    assert_eq!(hw.interrupt_request9 & 0x8, 0x8);
}

#[test]
fn timers_new_layout() {
    let blocks = Timers::new(true);
    assert_eq!(blocks.timers.len(), 4);
    for (k, t) in blocks.timers.iter().enumerate() {
        assert_eq!(t.index, k);
        assert!(!t.cnt.start);
    }
    let c = TMCNT::new();
    assert!(!c.start && !c.irq && !c.count_up && c.prescaler == 0);
}

#[test]
fn stopping_a_timer_cancels_its_event() {
    let mut hw = HW::new();
    hw.arm9_write(Width::Byte, 0x0400_0102, 0x80);
    assert_eq!(hw.scheduler.events.len(), 1);
    hw.arm9_write(Width::Byte, 0x0400_0102, 0x00);
    assert_eq!(hw.scheduler.events.len(), 0);
}

#[test]
fn io_registers_roundtrip() {
    let mut hw = HW::new();
    hw.arm9_write(Width::Word, 0x0400_0210, 0x0001_0008);
    assert_eq!(hw.ie9, 0x0001_0008);
    assert_eq!(hw.arm9_read(Width::Word, 0x0400_0210), 0x0001_0008);
    // acknowledging a request bit clears it
    hw.interrupt_request9 = 0x8;
    hw.arm9_write(Width::Word, 0x0400_0214, 0x8);
    assert_eq!(hw.interrupt_request9, 0);
}

#[test]
fn midrun_control_write_keeps_derived_counter_timing() {
    let mut s = Scheduler::new();
    let mut t = Timer::new(true, 0, 0x8);
    // reload 0, prescaler 1, start: first tick one cycle after the start
    t.write(&mut s, 2, 0x80);
    assert_eq!(s.events[0].1, 0x10001);
    // a hundred cycles in, the derived counter stands at 99
    s.advance(100);
    assert_eq!(t.read(&s, 0), 99);
    // rewriting the control word of the running timer banks that counter and
    // schedules the rest of the run from it - not a full period from reload
    t.write(&mut s, 2, 0x80);
    assert_eq!(t.read(&s, 0), 99);
    assert_eq!(s.events[0].1, 0x10001);
}
