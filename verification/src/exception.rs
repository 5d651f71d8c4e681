//! Delivery of the tick exception: what a wrap of the counter does to the
//! registers and, through the tick handler, to the shared tick counter.
//!
//! The handler runs once for every wrap that happens while the counter runs
//! with the tick interrupt enabled, and all it does is advance the counter by
//! one step. A wrap with the interrupt disabled raises the count flag and
//! leaves the counter alone.

use vstd::prelude::*;
use crate::counter::{
    after_ticks,
    counter_modulus,
    lemma_after_ticks_is_modular_sum,
    next_tick_spec,
    TickCounter,
};
use crate::registers::{
    counting_enabled,
    lemma_wrap_raises_count_flag,
    RegisterBlock,
    RegisterState,
};

verus! {

/// The registers after `events` wraps with no read between them: the first
/// wrap raises the flag and restarts the counter, the later ones find it so.
pub open spec fn after_wraps(registers: RegisterState, events: nat) -> RegisterState {
    if events == 0 {
        registers
    } else {
        registers.after_wrap()
    }
}

/// A wrap leaves the registers in a state that another wrap does not change,
/// and it does not touch what decides whether the handler is called.
pub proof fn lemma_wrap_is_idempotent(registers: RegisterState)
    ensures
        registers.after_wrap().after_wrap() == registers.after_wrap(),
        registers.after_wrap().wrap_interrupts() == registers.wrap_interrupts(),
{
    if counting_enabled(registers.control_status) {
        lemma_wrap_raises_count_flag(registers);
        let word = registers.control_status;
        assert((word | 0x0001_0000u32) | 0x0001_0000u32 == word | 0x0001_0000u32)
            by (bit_vector);
    }
}

/// One wrap event: the peripheral raises the count flag and restarts the
/// counter, and where the tick interrupt is enabled the handler advances the
/// tick counter by one step. Returns whether the handler ran.
pub fn deliver_wrap(registers: &mut RegisterBlock, counter: &mut TickCounter) -> (handled: bool)
    ensures
        handled == old(registers)@.wrap_interrupts(),
        final(registers)@ == old(registers)@.after_wrap(),
        final(counter)@ == if handled {
            next_tick_spec(old(counter)@)
        } else {
            old(counter)@
        },
{
    let handled: bool = registers.wrap();
    if handled {
        counter.tick();
    }
    handled
}

/// `events` wrap events, one after the other. With the counter running and
/// the tick interrupt enabled, the tick counter ends at
/// `(initial + events) mod 2^32`; otherwise it ends where it began.
pub fn deliver_wraps(registers: &mut RegisterBlock, counter: &mut TickCounter, events: u32)
    ensures
        final(registers)@ == after_wraps(old(registers)@, events as nat),
        old(registers)@.wrap_interrupts() ==> final(counter)@ as int == (old(counter)@ + events)
            % counter_modulus(),
        !old(registers)@.wrap_interrupts() ==> final(counter)@ == old(counter)@,
{
    let mut delivered: u32 = 0;
    while delivered < events
        invariant
            delivered <= events,
            registers@ == after_wraps(old(registers)@, delivered as nat),
            old(registers)@.wrap_interrupts() ==> counter@ == after_ticks(
                old(counter)@,
                delivered as nat,
            ),
            !old(registers)@.wrap_interrupts() ==> counter@ == old(counter)@,
        decreases events - delivered,
    {
        proof {
            lemma_wrap_is_idempotent(old(registers)@);
        }
        deliver_wrap(registers, counter);
        delivered = delivered + 1;
    }
    proof {
        lemma_after_ticks_is_modular_sum(old(counter)@, events as nat);
    }
}

} // verus!
