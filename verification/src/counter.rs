//! The shared tick counter: one unsigned word that advances by one on every
//! wrap of the timer and starts again at zero after its largest value.

use vstd::prelude::*;

verus! {

/// How many values the counter can take: one more than its largest value.
pub open spec fn counter_modulus() -> int {
    0x1_0000_0000
}

/// The counter value that follows `value`.
pub open spec fn next_tick_spec(value: u32) -> u32 {
    if value == u32::MAX {
        0
    } else {
        (value + 1) as u32
    }
}

/// The counter value reached from `initial` after `n` wrap events.
pub open spec fn after_ticks(initial: u32, n: nat) -> u32
    decreases n,
{
    if n == 0 {
        initial
    } else {
        next_tick_spec(after_ticks(initial, (n - 1) as nat))
    }
}

/// How far the counter has come from `start` to `now`, counted around the
/// end of its range.
pub open spec fn elapsed_spec(start: u32, now: u32) -> int {
    (now - start) % counter_modulus()
}

/// One step of the counter, as the tick handler takes it: the largest value
/// is followed by zero, every other value by its successor.
pub fn next_tick(value: u32) -> (next: u32)
    ensures
        next == next_tick_spec(value),
        next as int == (value + 1) % counter_modulus(),
{
    if value == 0xFFFF_FFFF {
        0
    } else {
        value + 1
    }
}

/// The number of ticks between two readings of the counter. The difference is
/// taken modulo the counter's range, so a reading taken after the counter
/// started again at zero still gives the true distance.
pub fn elapsed_ticks(start: u32, now: u32) -> (ticks: u32)
    ensures
        ticks as int == elapsed_spec(start, now),
        now >= start ==> ticks == now - start,
        now < start ==> ticks == now + counter_modulus() - start,
{
    now.wrapping_sub(start)
}

/// Wraparound law: `n` wrap events take the counter from `initial` to
/// `(initial + n) mod 2^32`.
pub proof fn lemma_after_ticks_is_modular_sum(initial: u32, n: nat)
    ensures
        after_ticks(initial, n) as int == (initial + n) % counter_modulus(),
    decreases n,
{
    if n > 0 {
        lemma_after_ticks_is_modular_sum(initial, (n - 1) as nat);
    }
}

/// The distance from `initial` to the value reached after `n` ticks is
/// `n mod 2^32`: a reader that subtracts around the end of the range sees
/// every tick, as long as fewer than 2^32 of them passed.
pub proof fn lemma_elapsed_after_ticks(initial: u32, n: nat)
    ensures
        elapsed_spec(initial, after_ticks(initial, n)) == n as int % counter_modulus(),
{
    lemma_after_ticks_is_modular_sum(initial, n);
    vstd::arithmetic::div_mod::lemma_sub_mod_noop(initial + n, initial as int, counter_modulus());
    vstd::arithmetic::div_mod::lemma_small_mod(initial as nat, counter_modulus() as nat);
}

/// The tick counter. Its view is the value a reader sees.
pub struct TickCounter {
    value: u32,
}

impl View for TickCounter {
    type V = u32;

    closed spec fn view(&self) -> u32 {
        self.value
    }
}

impl TickCounter {
    /// A counter at zero, as it stands before the first wrap.
    pub fn new() -> (counter: TickCounter)
        ensures
            counter@ == 0,
    {
        TickCounter { value: 0 }
    }

    /// A counter that stands at `value`.
    pub fn starting_at(value: u32) -> (counter: TickCounter)
        ensures
            counter@ == value,
    {
        TickCounter { value }
    }

    /// The current value.
    pub fn get(&self) -> (value: u32)
        ensures
            value == self@,
    {
        self.value
    }

    /// What the tick handler does on one wrap event, and all it does.
    pub fn tick(&mut self)
        ensures
            final(self)@ == next_tick_spec(old(self)@),
            final(self)@ as int == (old(self)@ + 1) % counter_modulus(),
    {
        self.value = next_tick(self.value);
    }
}

} // verus!
