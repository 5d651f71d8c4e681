use systick::counter::{elapsed_ticks, next_tick, TickCounter};
use systick::exception::{deliver_wrap, deliver_wraps};
use systick::registers::{
    Register, RegisterBlock, SYST_CSR_CLKSOURCE, SYST_CSR_COUNTFLAG, SYST_CSR_ENABLE,
    SYST_CSR_TICKINT,
};

fn running_block(interrupt: bool) -> RegisterBlock {
    let mut block = RegisterBlock::new(0);
    let mut word = SYST_CSR_CLKSOURCE | SYST_CSR_ENABLE;
    if interrupt {
        word |= SYST_CSR_TICKINT;
    }
    block.write(Register::ControlStatus, word);
    block
}

#[test]
fn counter_starts_at_zero() {
    assert_eq!(TickCounter::new().get(), 0);
}

#[test]
fn tick_increments_by_one() {
    let mut counter = TickCounter::new();
    counter.tick();
    assert_eq!(counter.get(), 1);
    counter.tick();
    counter.tick();
    assert_eq!(counter.get(), 3);
}

#[test]
fn counter_at_maximum_becomes_zero_on_one_wrap() {
    let mut counter = TickCounter::starting_at(0xFFFF_FFFF);
    counter.tick();
    assert_eq!(counter.get(), 0);
}

#[test]
fn wrap_event_at_maximum_resets_counter_through_the_handler() {
    let mut block = running_block(true);
    let mut counter = TickCounter::starting_at(0xFFFF_FFFF);
    let handled = deliver_wrap(&mut block, &mut counter);
    assert!(handled);
    assert_eq!(counter.get(), 0);
}

#[test]
fn next_tick_steps_and_wraps() {
    assert_eq!(next_tick(0), 1);
    assert_eq!(next_tick(41), 42);
    assert_eq!(next_tick(0xFFFF_FFFE), 0xFFFF_FFFF);
    assert_eq!(next_tick(0xFFFF_FFFF), 0);
}

#[test]
fn n_wraps_add_n_modulo_two_to_the_32() {
    let cases: [(u32, u32); 6] = [
        (0, 0),
        (0, 1),
        (7, 1000),
        (0xFFFF_FFF0, 0x10),
        (0xFFFF_FFF0, 0x25),
        (0xFFFF_FFFF, 3),
    ];
    for (initial, events) in cases {
        let mut block = running_block(true);
        let mut counter = TickCounter::starting_at(initial);
        deliver_wraps(&mut block, &mut counter, events);
        let expected = ((initial as u64 + events as u64) % (1u64 << 32)) as u32;
        assert_eq!(counter.get(), expected);
    }
}

#[test]
fn wraps_across_the_end_give_exact_values() {
    let mut block = running_block(true);
    let mut counter = TickCounter::starting_at(0xFFFF_FFF0);
    deliver_wraps(&mut block, &mut counter, 0x25);
    assert_eq!(counter.get(), 0x15);
}

#[test]
fn wraps_with_interrupt_disabled_leave_counter_alone() {
    let mut block = running_block(false);
    let mut counter = TickCounter::starting_at(5);
    assert!(!deliver_wrap(&mut block, &mut counter));
    deliver_wraps(&mut block, &mut counter, 100);
    assert_eq!(counter.get(), 5);
    assert_ne!(block.state().control_status & SYST_CSR_COUNTFLAG, 0);
}

#[test]
fn stopped_counter_does_not_wrap() {
    let mut block = RegisterBlock::new(0);
    block.write(Register::ControlStatus, SYST_CSR_CLKSOURCE | SYST_CSR_TICKINT);
    let mut counter = TickCounter::starting_at(5);
    assert!(!deliver_wrap(&mut block, &mut counter));
    deliver_wraps(&mut block, &mut counter, 9);
    assert_eq!(counter.get(), 5);
    assert_eq!(block.state().control_status, SYST_CSR_CLKSOURCE | SYST_CSR_TICKINT);
}

#[test]
fn elapsed_ticks_is_plain_difference_without_wrap() {
    assert_eq!(elapsed_ticks(10, 10), 0);
    assert_eq!(elapsed_ticks(10, 60), 50);
    assert_eq!(elapsed_ticks(0, 0xFFFF_FFFF), 0xFFFF_FFFF);
}

#[test]
fn elapsed_ticks_counts_around_the_end() {
    assert_eq!(elapsed_ticks(0xFFFF_FFFE, 3), 5);
    assert_eq!(elapsed_ticks(0xFFFF_FFFF, 0), 1);
    assert_eq!(elapsed_ticks(1, 0), 0xFFFF_FFFF);
}

#[test]
fn elapsed_after_ticks_is_the_number_of_ticks() {
    let start: u32 = 0xFFFF_FFFA;
    let mut counter = TickCounter::starting_at(start);
    for n in 1..=20u32 {
        counter.tick();
        assert_eq!(elapsed_ticks(start, counter.get()), n);
    }
}
