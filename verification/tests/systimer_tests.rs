use systick::delay::DelayStrategy;
use systick::registers::{
    Register, RegisterBlock, RegisterOp, RegisterState, SYST_CSR_CLKSOURCE, SYST_CSR_COUNTFLAG,
    SYST_CSR_ENABLE, SYST_CSR_TICKINT,
};
use systick::systimer::{
    control_word, reload_value, ClockSource, SystemTimer, TimerConfig, TimerState, TIMER_PERIOD,
    TMCLK_KHZ,
};

fn config(clock_hz: u32, clock_source: ClockSource, interrupt: bool) -> TimerConfig {
    TimerConfig { clock_hz, clock_source, interrupt, strategy: DelayStrategy::Polling }
}

#[test]
fn defaults_are_ten_milliseconds_on_125_mhz() {
    assert_eq!(TIMER_PERIOD, 10);
    assert_eq!(TMCLK_KHZ, 125_000);
    let expected = TimerState {
        clock_hz: 125_000_000,
        clock_source: ClockSource::Core,
        strategy: DelayStrategy::Polling,
        tick_interval_ms: 10,
        counting: false,
        interrupt: true,
    };
    assert_eq!(SystemTimer::new().state(), expected);
    assert_eq!(SystemTimer::default().state(), expected);
}

#[test]
fn with_config_takes_the_config_over() {
    let timer = SystemTimer::with_config(TimerConfig {
        clock_hz: 48_000_000,
        clock_source: ClockSource::External,
        interrupt: false,
        strategy: DelayStrategy::InterruptDriven,
    });
    assert_eq!(
        timer.state(),
        TimerState {
            clock_hz: 48_000_000,
            clock_source: ClockSource::External,
            strategy: DelayStrategy::InterruptDriven,
            tick_interval_ms: 10,
            counting: false,
            interrupt: false,
        }
    );
}

#[test]
fn init_10_ms_at_125_mhz_writes_reload_1_249_999() {
    let mut timer = SystemTimer::new();
    let ops = timer.init(10);
    assert_eq!(
        ops,
        [
            RegisterOp::Write {
                register: Register::ControlStatus,
                value: SYST_CSR_CLKSOURCE | SYST_CSR_TICKINT,
            },
            RegisterOp::Write { register: Register::ReloadValue, value: 1_249_999 },
            RegisterOp::Write { register: Register::CurrentValue, value: 1_249_999 },
            RegisterOp::Write {
                register: Register::ControlStatus,
                value: SYST_CSR_CLKSOURCE | SYST_CSR_TICKINT | SYST_CSR_ENABLE,
            },
        ]
    );
    let mut block = RegisterBlock::new(0x4000_0000);
    block.apply_all(&ops);
    assert_eq!(
        block.state(),
        RegisterState {
            control_status: 0b111,
            reload_value: 1_249_999,
            current_value: 1_249_999,
            calibration: 0x4000_0000,
        }
    );
    assert_eq!(block.read(Register::ReloadValue), 1_249_999);
}

#[test]
fn init_records_interval_and_running_counter() {
    let mut timer = SystemTimer::new();
    timer.init(25);
    let state = timer.state();
    assert_eq!(state.tick_interval_ms, 25);
    assert!(state.counting);
    assert!(state.interrupt);
    assert_eq!(state.clock_hz, 125_000_000);
}

#[test]
fn init_overwrites_whatever_the_registers_held() {
    let mut block = RegisterBlock::new(0);
    block.write(Register::ControlStatus, 0xFFFF_FFFF);
    block.write(Register::ReloadValue, 0xFFFF_FFFF);
    block.write(Register::CurrentValue, 0x1234);
    let mut timer = SystemTimer::with_config(config(1_000_000, ClockSource::External, false));
    block.apply_all(&timer.init(1));
    assert_eq!(
        block.state(),
        RegisterState {
            control_status: SYST_CSR_ENABLE,
            reload_value: 999,
            current_value: 999,
            calibration: 0,
        }
    );
}

#[test]
fn init_reload_is_interval_times_cycles_per_ms_less_one() {
    let cases: [(u32, u32); 7] = [
        (1, 125_000_000),
        (10, 125_000_000),
        (34, 125_000_000),
        (1, 1_000),
        (1000, 48_000_000 / 16),
        (7, 12_345_678),
        (u32::MAX, 1_999),
    ];
    for (interval, clock_hz) in cases {
        let expected = (interval as u64 * (clock_hz as u64 / 1000) - 1) as u32;
        assert_eq!(reload_value(interval, clock_hz), Some(expected));
        let mut timer = SystemTimer::with_config(config(clock_hz, ClockSource::Core, true));
        let mut block = RegisterBlock::new(0);
        block.apply_all(&timer.init(interval));
        assert_eq!(block.state().reload_value, expected);
        assert_eq!(block.state().current_value, expected);
    }
}

#[test]
fn reload_value_exact_values() {
    assert_eq!(reload_value(10, 125_000_000), Some(1_249_999));
    assert_eq!(reload_value(1, 125_000_000), Some(124_999));
    assert_eq!(reload_value(7, 12_345_678), Some(7 * 12_345 - 1));
    assert_eq!(reload_value(1, 1_999), Some(0));
}

#[test]
fn reload_value_rounds_the_clock_down_to_whole_kilohertz() {
    assert_eq!(reload_value(10, 125_000_999), Some(1_249_999));
    assert_eq!(reload_value(10, 124_999_999), Some(1_249_989));
}

#[test]
fn reload_value_is_none_outside_the_register() {
    assert_eq!(reload_value(0, 125_000_000), None);
    assert_eq!(reload_value(10, 999), None);
    assert_eq!(reload_value(10, 0), None);
    assert_eq!(reload_value(34_359, 125_000_000), Some(34_359 * 125_000 - 1));
    assert_eq!(reload_value(34_360, 125_000_000), None);
    assert_eq!(reload_value(u32::MAX, u32::MAX), None);
    // 65_536 * 65_536 cycles is the longest interval that fits.
    assert_eq!(reload_value(65_536, 65_536_000), Some(u32::MAX));
    assert_eq!(reload_value(65_537, 65_536_000), None);
}

#[test]
fn control_word_combines_the_three_enable_bits() {
    assert_eq!(control_word(ClockSource::External, false, false), 0);
    assert_eq!(control_word(ClockSource::Core, false, false), 0b100);
    assert_eq!(control_word(ClockSource::External, true, false), 0b010);
    assert_eq!(control_word(ClockSource::External, false, true), 0b001);
    assert_eq!(control_word(ClockSource::Core, true, false), 0b110);
    assert_eq!(control_word(ClockSource::Core, true, true), 0b111);
    assert_eq!(control_word(ClockSource::External, true, true), 0b011);
    assert_eq!(control_word(ClockSource::Core, false, true), 0b101);
}

#[test]
fn init_without_interrupt_leaves_tickint_clear() {
    let mut timer = SystemTimer::with_config(config(125_000_000, ClockSource::Core, false));
    let ops = timer.init(10);
    assert_eq!(
        ops[0],
        RegisterOp::Write { register: Register::ControlStatus, value: SYST_CSR_CLKSOURCE }
    );
    assert_eq!(
        ops[3],
        RegisterOp::Write {
            register: Register::ControlStatus,
            value: SYST_CSR_CLKSOURCE | SYST_CSR_ENABLE,
        }
    );
}

#[test]
fn has_wrapped_tests_the_count_flag() {
    let timer = SystemTimer::new();
    assert!(timer.has_wrapped(SYST_CSR_COUNTFLAG));
    assert!(timer.has_wrapped(SYST_CSR_COUNTFLAG | 0b111));
    assert!(!timer.has_wrapped(0b111));
    assert!(!timer.has_wrapped(0));
}

#[test]
fn has_wrapped_twice_without_a_wrap_is_true_then_false() {
    let mut timer = SystemTimer::new();
    let mut block = RegisterBlock::new(0);
    block.apply_all(&timer.init(10));
    assert!(!timer.has_wrapped(block.read(Register::ControlStatus)));
    block.wrap();
    assert!(timer.has_wrapped(block.read(Register::ControlStatus)));
    assert!(!timer.has_wrapped(block.read(Register::ControlStatus)));
    assert!(!timer.has_wrapped(block.read(Register::ControlStatus)));
    block.wrap();
    block.wrap();
    assert!(timer.has_wrapped(block.read(Register::ControlStatus)));
    assert!(!timer.has_wrapped(block.read(Register::ControlStatus)));
}

#[test]
fn set_reload_writes_the_reload_register_only() {
    let mut timer = SystemTimer::new();
    timer.init(10);
    let before = timer.state();
    let op = timer.set_reload(4711);
    assert_eq!(op, RegisterOp::Write { register: Register::ReloadValue, value: 4711 });
    assert_eq!(timer.state(), before);
}

#[test]
fn enable_and_disable_counter() {
    let mut timer = SystemTimer::new();
    let on = timer.enable_counter();
    assert_eq!(
        on,
        RegisterOp::SetBits { register: Register::ControlStatus, mask: SYST_CSR_ENABLE }
    );
    assert!(timer.state().counting);
    let off = timer.disable_counter();
    assert_eq!(
        off,
        RegisterOp::ClearBits { register: Register::ControlStatus, mask: SYST_CSR_ENABLE }
    );
    assert!(!timer.state().counting);
    assert_eq!(timer.state().tick_interval_ms, 10);

    let mut block = RegisterBlock::new(0);
    block.write(Register::ControlStatus, 0b110);
    block.apply(&on);
    assert_eq!(block.state().control_status, 0b111);
    block.apply(&off);
    assert_eq!(block.state().control_status, 0b110);
}

#[test]
fn enable_and_disable_interrupt() {
    let mut timer = SystemTimer::new();
    let off = timer.disable_interrupt();
    assert_eq!(
        off,
        RegisterOp::ClearBits { register: Register::ControlStatus, mask: SYST_CSR_TICKINT }
    );
    assert!(!timer.state().interrupt);
    let on = timer.enable_interrupt();
    assert_eq!(
        on,
        RegisterOp::SetBits { register: Register::ControlStatus, mask: SYST_CSR_TICKINT }
    );
    assert!(timer.state().interrupt);

    let mut block = RegisterBlock::new(0);
    block.write(Register::ControlStatus, 0b111);
    block.apply(&off);
    assert_eq!(block.state().control_status, 0b101);
    block.apply(&on);
    assert_eq!(block.state().control_status, 0b111);
}

#[test]
fn disabled_interrupt_is_what_init_then_programs() {
    let mut timer = SystemTimer::new();
    timer.disable_interrupt();
    let ops = timer.init(10);
    assert_eq!(
        ops[3],
        RegisterOp::Write {
            register: Register::ControlStatus,
            value: SYST_CSR_CLKSOURCE | SYST_CSR_ENABLE,
        }
    );
}

#[test]
fn delay_ms_divides_by_the_tick_interval_rounding_down() {
    let mut timer = SystemTimer::new();
    assert_eq!(timer.delay_ms(500).state().needed, 50);
    assert_eq!(timer.delay_ms(25).state().needed, 2);
    assert_eq!(timer.delay_ms(9).state().needed, 0);
    assert_eq!(timer.delay_ms(0).state().needed, 0);
    assert_eq!(timer.delay_ms(u32::MAX).state().needed, 429_496_729);
    timer.init(3);
    assert_eq!(timer.delay_ms(500).state().needed, 166);
    timer.init(1);
    assert_eq!(timer.delay_ms(u32::MAX).state().needed, u32::MAX);
}

#[test]
fn delay_ms_follows_the_configured_strategy() {
    let polling = SystemTimer::new();
    assert_eq!(polling.delay_ms(100).state().strategy, DelayStrategy::Polling);
    let counting = SystemTimer::with_config(TimerConfig {
        clock_hz: 125_000_000,
        clock_source: ClockSource::Core,
        interrupt: true,
        strategy: DelayStrategy::InterruptDriven,
    });
    assert_eq!(counting.delay_ms(100).state().strategy, DelayStrategy::InterruptDriven);
}
