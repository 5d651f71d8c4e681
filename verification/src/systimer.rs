//! The tick timer: what to program into the peripheral so that it wraps once
//! per tick interval, how a wrap is recognised, and how long a delay waits.
//!
//! The timer decides and the caller carries out. `init` and the enable and
//! disable operations return the register transactions to perform, in order;
//! `has_wrapped` takes the control/status word that the caller has just read.

use vstd::prelude::*;
use crate::delay::{ticks_needed_spec, Delay, DelayState, DelayStrategy};
use crate::registers::{
    count_flag,
    count_flag_set,
    counting_enabled,
    core_clock_selected,
    interrupt_enabled,
    set_bits,
    with_bits_set,
    Register,
    RegisterOp,
    RegisterState,
    SYST_CSR_CLKSOURCE,
    SYST_CSR_ENABLE,
    SYST_CSR_TICKINT,
};

verus! {

/// The tick interval of a timer that was not told another, in milliseconds.
pub const TIMER_PERIOD: u32 = 10;

/// The core clock of a timer that was not told another, in kilohertz.
pub const TMCLK_KHZ: u32 = 125_000;

/// The clock that drives the counter.
#[derive(Clone, Copy, Debug, PartialEq, Eq, Structural)]
pub enum ClockSource {
    /// The core clock.
    Core,
    /// The external reference clock.
    External,
}

/// What a timer is made with.
#[derive(Clone, Copy, Debug, PartialEq, Eq, Structural)]
pub struct TimerConfig {
    /// Frequency of the clock that drives the counter, in hertz.
    pub clock_hz: u32,
    /// Which clock that is.
    pub clock_source: ClockSource,
    /// Whether a wrap is to raise the tick interrupt.
    pub interrupt: bool,
    /// How delays find their ticks.
    pub strategy: DelayStrategy,
}

/// What a timer knows of itself and of what it has programmed.
#[derive(Clone, Copy, Debug, PartialEq, Eq, Structural)]
pub struct TimerState {
    /// Frequency of the clock that drives the counter, in hertz.
    pub clock_hz: u32,
    /// Which clock that is.
    pub clock_source: ClockSource,
    /// How delays find their ticks.
    pub strategy: DelayStrategy,
    /// The time from one wrap to the next, in milliseconds. Never zero.
    pub tick_interval_ms: u32,
    /// Whether the timer has set the counter running.
    pub counting: bool,
    /// Whether a wrap raises the tick interrupt, or will once the counter
    /// runs.
    pub interrupt: bool,
}

/// Clock cycles in one millisecond: the frequency in hertz over 1000, rounded
/// down.
pub open spec fn ticks_per_ms(clock_hz: u32) -> int {
    clock_hz as int / 1000
}

/// The reload value for a tick interval: the clock cycles in the interval,
/// less one, because the counter counts from the reload value down to zero,
/// zero included, before it wraps.
pub open spec fn reload_value_spec(tick_interval_ms: u32, clock_hz: u32) -> int {
    tick_interval_ms * ticks_per_ms(clock_hz) - 1
}

/// Whether a tick interval can be programmed: it is not zero, it holds at
/// least one clock cycle, and its reload value fits the register.
pub open spec fn reload_fits(tick_interval_ms: u32, clock_hz: u32) -> bool {
    &&& tick_interval_ms > 0
    &&& 0 <= reload_value_spec(tick_interval_ms, clock_hz) <= u32::MAX
}

/// The control/status word with the given clock source, interrupt enable and
/// counter enable, and nothing else in it.
pub open spec fn control_word_spec(source: ClockSource, interrupt: bool, counting: bool) -> u32 {
    with_bits_set(
        with_bits_set(
            if source is Core {
                SYST_CSR_CLKSOURCE
            } else {
                0
            },
            if interrupt {
                SYST_CSR_TICKINT
            } else {
                0
            },
        ),
        if counting {
            SYST_CSR_ENABLE
        } else {
            0
        },
    )
}

/// The transactions that program the timer: stop the counter with clock
/// source and interrupt enable as wanted and all else cleared; set the reload
/// value; set the counter to the same value, so that the first interval is a
/// whole one; start the counter.
pub open spec fn init_sequence(source: ClockSource, interrupt: bool, reload: u32) -> Seq<
    RegisterOp,
> {
    seq![
        RegisterOp::Write {
            register: Register::ControlStatus,
            value: control_word_spec(source, interrupt, false),
        },
        RegisterOp::Write { register: Register::ReloadValue, value: reload },
        RegisterOp::Write { register: Register::CurrentValue, value: reload },
        RegisterOp::Write {
            register: Register::ControlStatus,
            value: control_word_spec(source, interrupt, true),
        },
    ]
}

/// The reload value for a tick interval of `tick_interval_ms` milliseconds on
/// a clock of `clock_hz` hertz, or `None` where there is none: for an interval
/// of zero, for a clock below one kilohertz, and where the value does not fit
/// the register.
pub fn reload_value(tick_interval_ms: u32, clock_hz: u32) -> (reload: Option<u32>)
    ensures
        reload is Some <==> reload_fits(tick_interval_ms, clock_hz),
        reload matches Some(value) ==> value == tick_interval_ms * (clock_hz as int / 1000) - 1,
{
    let per_ms: u64 = (clock_hz / 1000) as u64;
    let interval: u64 = tick_interval_ms as u64;
    assert(interval * per_ms <= 0xFFFF_FFFF * 0xFFFF_FFFF) by (nonlinear_arith)
        requires
            0 <= interval <= 0xFFFF_FFFF,
            0 <= per_ms <= 0xFFFF_FFFF,
    ;
    let cycles: u64 = interval * per_ms;
    assert(interval == 0 ==> cycles == 0) by (nonlinear_arith)
        requires
            cycles == interval * per_ms,
    ;
    assert(interval > 0 && per_ms == 0 ==> cycles == 0) by (nonlinear_arith)
        requires
            cycles == interval * per_ms,
    ;
    assert(interval > 0 && per_ms > 0 ==> cycles > 0) by (nonlinear_arith)
        requires
            cycles == interval * per_ms,
    ;
    if cycles == 0 || cycles > 0x1_0000_0000 {
        None
    } else {
        Some((cycles - 1) as u32)
    }
}

/// The control/status word with the given clock source, interrupt enable and
/// counter enable. The count flag and all other bits are zero in it.
pub fn control_word(source: ClockSource, interrupt: bool, counting: bool) -> (word: u32)
    ensures
        word == control_word_spec(source, interrupt, counting),
        core_clock_selected(word) == (source is Core),
        interrupt_enabled(word) == interrupt,
        counting_enabled(word) == counting,
        !count_flag(word),
{
    let clock: u32 = match source {
        ClockSource::Core => SYST_CSR_CLKSOURCE,
        ClockSource::External => 0,
    };
    let tick: u32 = if interrupt {
        SYST_CSR_TICKINT
    } else {
        0
    };
    let enable: u32 = if counting {
        SYST_CSR_ENABLE
    } else {
        0
    };
    proof {
        lemma_control_word_decodes(source, interrupt, counting);
    }
    set_bits(set_bits(clock, tick), enable)
}

/// A control word reads back as it was made: each of the three enable bits
/// says what went in, and the count flag is clear.
pub proof fn lemma_control_word_decodes(source: ClockSource, interrupt: bool, counting: bool)
    ensures
        core_clock_selected(control_word_spec(source, interrupt, counting)) == (source is Core),
        interrupt_enabled(control_word_spec(source, interrupt, counting)) == interrupt,
        counting_enabled(control_word_spec(source, interrupt, counting)) == counting,
        !count_flag(control_word_spec(source, interrupt, counting)),
{
    let clock: u32 = if source is Core {
        SYST_CSR_CLKSOURCE
    } else {
        0
    };
    let tick: u32 = if interrupt {
        SYST_CSR_TICKINT
    } else {
        0
    };
    let enable: u32 = if counting {
        SYST_CSR_ENABLE
    } else {
        0
    };
    assert({
        &&& (((clock | tick) | enable) & 0x0000_0004 != 0) == (clock == 0x0000_0004)
        &&& (((clock | tick) | enable) & 0x0000_0002 != 0) == (tick == 0x0000_0002)
        &&& (((clock | tick) | enable) & 0x0000_0001 != 0) == (enable == 0x0000_0001)
        &&& ((clock | tick) | enable) & 0x0001_0000 == 0
    }) by (bit_vector)
        requires
            clock == 0x0000_0004 || clock == 0,
            tick == 0x0000_0002 || tick == 0,
            enable == 0x0000_0001 || enable == 0,
    ;
}

/// The tick timer.
pub struct SystemTimer {
    state: TimerState,
}

impl View for SystemTimer {
    type V = TimerState;

    closed spec fn view(&self) -> TimerState {
        self.state
    }
}

impl Default for SystemTimer {
    fn default() -> (timer: SystemTimer)
        ensures
            timer@ == SystemTimer::initial_state(),
    {
        SystemTimer::new()
    }
}

impl SystemTimer {
    #[verifier::type_invariant]
    spec fn well_formed(self) -> bool {
        self.state.tick_interval_ms > 0
    }

    /// What a timer is made with when nothing else is said: the core clock at
    /// 125 MHz, the tick interrupt wanted, delays by polling.
    pub open spec fn default_config() -> TimerConfig {
        TimerConfig {
            clock_hz: 125_000_000,
            clock_source: ClockSource::Core,
            interrupt: true,
            strategy: DelayStrategy::Polling,
        }
    }

    /// A timer fresh from `with_config`: nothing programmed yet, the counter
    /// taken to be stopped, the tick interval at `TIMER_PERIOD`.
    pub open spec fn configured(config: TimerConfig) -> TimerState {
        TimerState {
            clock_hz: config.clock_hz,
            clock_source: config.clock_source,
            strategy: config.strategy,
            tick_interval_ms: TIMER_PERIOD,
            counting: false,
            interrupt: config.interrupt,
        }
    }

    /// A timer fresh from `new`.
    pub open spec fn initial_state() -> TimerState {
        Self::configured(Self::default_config())
    }

    /// A timer for the peripheral on a 125 MHz core clock, with the tick
    /// interrupt wanted and delays by polling. Nothing is programmed before
    /// `init`.
    pub fn new() -> (timer: SystemTimer)
        ensures
            timer@ == SystemTimer::initial_state(),
    {
        SystemTimer::with_config(
            TimerConfig {
                clock_hz: TMCLK_KHZ * 1000,
                clock_source: ClockSource::Core,
                interrupt: true,
                strategy: DelayStrategy::Polling,
            },
        )
    }

    /// A timer for a given clock, interrupt wish and delay strategy.
    pub fn with_config(config: TimerConfig) -> (timer: SystemTimer)
        ensures
            timer@ == SystemTimer::configured(config),
    {
        SystemTimer {
            state: TimerState {
                clock_hz: config.clock_hz,
                clock_source: config.clock_source,
                strategy: config.strategy,
                tick_interval_ms: TIMER_PERIOD,
                counting: false,
                interrupt: config.interrupt,
            },
        }
    }

    /// What the timer knows. The tick interval in it is never zero.
    pub fn state(&self) -> (state: TimerState)
        ensures
            state == self@,
            state.tick_interval_ms > 0,
    {
        proof {
            use_type_invariant(self);
        }
        self.state
    }

    /// Programs a tick interval. Returns the four writes of `init_sequence`,
    /// to be performed in order: after them the counter runs and wraps every
    /// `tick_interval_ms` milliseconds, with the reload value
    /// `tick_interval_ms * (clock_hz / 1000) - 1`. The interval must be one
    /// that `reload_value` has a value for.
    pub fn init(&mut self, tick_interval_ms: u32) -> (ops: [RegisterOp; 4])
        requires
            reload_fits(tick_interval_ms, old(self)@.clock_hz),
        ensures
            ops@ == init_sequence(
                old(self)@.clock_source,
                old(self)@.interrupt,
                reload_value_spec(tick_interval_ms, old(self)@.clock_hz) as u32,
            ),
            final(self)@ == (TimerState { tick_interval_ms, counting: true, ..old(self)@ }),
    {
        let state: TimerState = self.state;
        let reload: u32 = match reload_value(tick_interval_ms, state.clock_hz) {
            Some(value) => value,
            None => 0,
        };
        let ops: [RegisterOp; 4] = [
            RegisterOp::Write {
                register: Register::ControlStatus,
                value: control_word(state.clock_source, state.interrupt, false),
            },
            RegisterOp::Write { register: Register::ReloadValue, value: reload },
            RegisterOp::Write { register: Register::CurrentValue, value: reload },
            RegisterOp::Write {
                register: Register::ControlStatus,
                value: control_word(state.clock_source, state.interrupt, true),
            },
        ];
        proof {
            assert(ops@ =~= init_sequence(state.clock_source, state.interrupt, reload));
        }
        self.state = TimerState {
            clock_hz: state.clock_hz,
            clock_source: state.clock_source,
            strategy: state.strategy,
            tick_interval_ms,
            counting: true,
            interrupt: state.interrupt,
        };
        ops
    }

    /// Whether the counter has wrapped, judged from a control/status word
    /// that the caller has just read. The read itself took the flag from the
    /// register: each word is to be judged once, and none is to be read only
    /// to look.
    pub fn has_wrapped(&self, control_status: u32) -> (wrapped: bool)
        ensures
            wrapped == count_flag(control_status),
    {
        count_flag_set(control_status)
    }

    /// The write that sets the reload value. The tick interval that delays go
    /// by stays as `init` left it.
    pub fn set_reload(&self, value: u32) -> (op: RegisterOp)
        ensures
            op == (RegisterOp::Write { register: Register::ReloadValue, value }),
    {
        RegisterOp::Write { register: Register::ReloadValue, value }
    }

    /// Sets the counter running: the transaction that sets the enable bit.
    pub fn enable_counter(&mut self) -> (op: RegisterOp)
        ensures
            op == (RegisterOp::SetBits {
                register: Register::ControlStatus,
                mask: SYST_CSR_ENABLE,
            }),
            final(self)@ == (TimerState { counting: true, ..old(self)@ }),
    {
        proof {
            use_type_invariant(&*self);
        }
        let state: TimerState = self.state;
        self.state = TimerState {
            clock_hz: state.clock_hz,
            clock_source: state.clock_source,
            strategy: state.strategy,
            tick_interval_ms: state.tick_interval_ms,
            counting: true,
            interrupt: state.interrupt,
        };
        RegisterOp::SetBits { register: Register::ControlStatus, mask: SYST_CSR_ENABLE }
    }

    /// Stops the counter: the transaction that clears the enable bit.
    pub fn disable_counter(&mut self) -> (op: RegisterOp)
        ensures
            op == (RegisterOp::ClearBits {
                register: Register::ControlStatus,
                mask: SYST_CSR_ENABLE,
            }),
            final(self)@ == (TimerState { counting: false, ..old(self)@ }),
    {
        proof {
            use_type_invariant(&*self);
        }
        let state: TimerState = self.state;
        self.state = TimerState {
            clock_hz: state.clock_hz,
            clock_source: state.clock_source,
            strategy: state.strategy,
            tick_interval_ms: state.tick_interval_ms,
            counting: false,
            interrupt: state.interrupt,
        };
        RegisterOp::ClearBits { register: Register::ControlStatus, mask: SYST_CSR_ENABLE }
    }

    /// Lets a wrap raise the tick interrupt: the transaction that sets the
    /// interrupt enable bit.
    pub fn enable_interrupt(&mut self) -> (op: RegisterOp)
        ensures
            op == (RegisterOp::SetBits {
                register: Register::ControlStatus,
                mask: SYST_CSR_TICKINT,
            }),
            final(self)@ == (TimerState { interrupt: true, ..old(self)@ }),
    {
        proof {
            use_type_invariant(&*self);
        }
        let state: TimerState = self.state;
        self.state = TimerState {
            clock_hz: state.clock_hz,
            clock_source: state.clock_source,
            strategy: state.strategy,
            tick_interval_ms: state.tick_interval_ms,
            counting: state.counting,
            interrupt: true,
        };
        RegisterOp::SetBits { register: Register::ControlStatus, mask: SYST_CSR_TICKINT }
    }

    /// Keeps a wrap from raising the tick interrupt: the transaction that
    /// clears the interrupt enable bit.
    pub fn disable_interrupt(&mut self) -> (op: RegisterOp)
        ensures
            op == (RegisterOp::ClearBits {
                register: Register::ControlStatus,
                mask: SYST_CSR_TICKINT,
            }),
            final(self)@ == (TimerState { interrupt: false, ..old(self)@ }),
    {
        proof {
            use_type_invariant(&*self);
        }
        let state: TimerState = self.state;
        self.state = TimerState {
            clock_hz: state.clock_hz,
            clock_source: state.clock_source,
            strategy: state.strategy,
            tick_interval_ms: state.tick_interval_ms,
            counting: state.counting,
            interrupt: false,
        };
        RegisterOp::ClearBits { register: Register::ControlStatus, mask: SYST_CSR_TICKINT }
    }

    /// Begins a delay of `ms` milliseconds: one that waits for `ms` over the
    /// tick interval ticks, rounded down, by the timer's strategy. The caller
    /// spins on it: while `wants` names a word, read that word and `observe`
    /// it. There is no other way out of a delay; without ticks it never ends.
    pub fn delay_ms(&self, ms: u32) -> (delay: Delay)
        ensures
            delay@ == DelayState::start(
                self@.strategy,
                ticks_needed_spec(ms, self@.tick_interval_ms),
            ),
    {
        proof {
            use_type_invariant(self);
        }
        Delay::for_ms(self.state.strategy, ms, self.state.tick_interval_ms)
    }
}

/// Transactions take effect one after the other: a sequence with one more at
/// its end does what the sequence does and then what the last one does.
pub proof fn lemma_after_ops_push(registers: RegisterState, ops: Seq<RegisterOp>, op: RegisterOp)
    ensures
        registers.after_ops(ops.push(op)) == registers.after_ops(ops).after_op(op),
{
    assert(ops.push(op).drop_last() =~= ops);
}

/// What `init` programs. Whatever the registers held before, after the
/// transactions of `init` for a tick interval of `tick_interval_ms`
/// milliseconds on a clock of `clock_hz` hertz the reload register holds
/// `tick_interval_ms * (clock_hz / 1000) - 1` and the counter starts from the
/// same value; the counter runs on the wanted clock with the interrupt enable
/// as wanted; no count flag is pending; the calibration word is untouched.
pub proof fn lemma_init_programs_reload(
    registers: RegisterState,
    source: ClockSource,
    interrupt: bool,
    tick_interval_ms: u32,
    clock_hz: u32,
)
    requires
        reload_fits(tick_interval_ms, clock_hz),
    ensures
        ({
            let reload = reload_value_spec(tick_interval_ms, clock_hz) as u32;
            let after = registers.after_ops(init_sequence(source, interrupt, reload));
            &&& after.reload_value == tick_interval_ms * (clock_hz as int / 1000) - 1
            &&& after.current_value == after.reload_value
            &&& after.control_status == control_word_spec(source, interrupt, true)
            &&& counting_enabled(after.control_status)
            &&& interrupt_enabled(after.control_status) == interrupt
            &&& core_clock_selected(after.control_status) == (source is Core)
            &&& !count_flag(after.control_status)
            &&& after.calibration == registers.calibration
        }),
{
    let reload = reload_value_spec(tick_interval_ms, clock_hz) as u32;
    let stop = RegisterOp::Write {
        register: Register::ControlStatus,
        value: control_word_spec(source, interrupt, false),
    };
    let set_reload = RegisterOp::Write { register: Register::ReloadValue, value: reload };
    let set_current = RegisterOp::Write { register: Register::CurrentValue, value: reload };
    let go = RegisterOp::Write {
        register: Register::ControlStatus,
        value: control_word_spec(source, interrupt, true),
    };
    let none = Seq::<RegisterOp>::empty();
    assert(init_sequence(source, interrupt, reload) =~= none.push(stop).push(set_reload).push(
        set_current,
    ).push(go));
    assert(registers.after_ops(none) == registers);
    lemma_after_ops_push(registers, none, stop);
    lemma_after_ops_push(registers, none.push(stop), set_reload);
    lemma_after_ops_push(registers, none.push(stop).push(set_reload), set_current);
    lemma_after_ops_push(registers, none.push(stop).push(set_reload).push(set_current), go);
    lemma_control_word_decodes(source, interrupt, true);
}

/// The count flag is used up by looking: of two reads of the control/status
/// register with no wrap between them, `has_wrapped` says of the first what
/// the flag was, and says no of the second. After a wrap that is yes, then no.
pub proof fn lemma_has_wrapped_consumes_flag(registers: RegisterState)
    ensures
        ({
            let first = registers.get(Register::ControlStatus);
            let between = registers.after_read(Register::ControlStatus);
            let second = between.get(Register::ControlStatus);
            &&& count_flag(first) == count_flag(registers.control_status)
            &&& !count_flag(second)
            &&& counting_enabled(registers.control_status) ==> {
                let wrapped = registers.after_wrap();
                &&& count_flag(wrapped.get(Register::ControlStatus))
                &&& !count_flag(
                    wrapped.after_read(Register::ControlStatus).get(Register::ControlStatus),
                )
            }
        }),
{
    crate::registers::lemma_read_consumes_count_flag(registers);
    crate::registers::lemma_read_consumes_count_flag(registers.after_wrap());
    if counting_enabled(registers.control_status) {
        crate::registers::lemma_wrap_raises_count_flag(registers);
    }
}

} // verus!
