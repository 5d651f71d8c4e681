//! The register interface of the tick timer: where its four registers lie,
//! what the bits of the control/status word mean, the transactions a driver
//! asks for, and a register block of plain words that shows what those
//! transactions do.

use vstd::prelude::*;

verus! {

/// Address of the first of the four registers.
pub const SYST_BASE_ADDRESS: u32 = 0xE000_E010;

/// Control/status bit 0: the counter runs.
pub const SYST_CSR_ENABLE: u32 = 0x0000_0001;

/// Control/status bit 1: a wrap raises the tick interrupt.
pub const SYST_CSR_TICKINT: u32 = 0x0000_0002;

/// Control/status bit 2: the counter runs on the core clock, not on the
/// external reference.
pub const SYST_CSR_CLKSOURCE: u32 = 0x0000_0004;

/// Control/status bit 16: the counter has wrapped since the word was last read.
pub const SYST_CSR_COUNTFLAG: u32 = 0x0001_0000;

/// Whether bit `index` of `word` is one.
pub open spec fn bit_is_set(word: u32, index: u32) -> bool {
    (word >> index) & 1 == 1
}

/// The counter runs: bit 0 of the control/status word.
pub open spec fn counting_enabled(control_status: u32) -> bool {
    control_status & SYST_CSR_ENABLE != 0
}

/// A wrap raises the tick interrupt: bit 1 of the control/status word.
pub open spec fn interrupt_enabled(control_status: u32) -> bool {
    control_status & SYST_CSR_TICKINT != 0
}

/// The core clock drives the counter: bit 2 of the control/status word.
pub open spec fn core_clock_selected(control_status: u32) -> bool {
    control_status & SYST_CSR_CLKSOURCE != 0
}

/// The counter has wrapped since the last read: bit 16 of the control/status
/// word.
pub open spec fn count_flag(control_status: u32) -> bool {
    control_status & SYST_CSR_COUNTFLAG != 0
}

/// `word` with every bit of `mask` set.
pub open spec fn with_bits_set(word: u32, mask: u32) -> u32 {
    word | mask
}

/// `word` with every bit of `mask` cleared.
pub open spec fn with_bits_cleared(word: u32, mask: u32) -> u32 {
    word & !mask
}

/// The four masks name the bits 0, 1, 2 and 16 of the control/status word.
pub proof fn lemma_control_status_layout(control_status: u32)
    ensures
        counting_enabled(control_status) == bit_is_set(control_status, 0),
        interrupt_enabled(control_status) == bit_is_set(control_status, 1),
        core_clock_selected(control_status) == bit_is_set(control_status, 2),
        count_flag(control_status) == bit_is_set(control_status, 16),
{
    assert((control_status & 0x0000_0001 != 0) == ((control_status >> 0) & 1 == 1))
        by (bit_vector);
    assert((control_status & 0x0000_0002 != 0) == ((control_status >> 1) & 1 == 1))
        by (bit_vector);
    assert((control_status & 0x0000_0004 != 0) == ((control_status >> 2) & 1 == 1))
        by (bit_vector);
    assert((control_status & 0x0001_0000 != 0) == ((control_status >> 16) & 1 == 1))
        by (bit_vector);
}

/// Setting and clearing work bit by bit: a bit of the result is that of the
/// mask where the mask has one, and that of the word elsewhere.
pub proof fn lemma_masks_act_bitwise(word: u32, mask: u32, index: u32)
    requires
        index < 32,
    ensures
        bit_is_set(with_bits_set(word, mask), index) == (bit_is_set(word, index) || bit_is_set(
            mask,
            index,
        )),
        bit_is_set(with_bits_cleared(word, mask), index) == (bit_is_set(word, index)
            && !bit_is_set(mask, index)),
{
    assert((((word | mask) >> index) & 1 == 1) == (((word >> index) & 1 == 1) || ((mask >> index)
        & 1 == 1))) by (bit_vector)
        requires
            index < 32,
    ;
    assert((((word & !mask) >> index) & 1 == 1) == (((word >> index) & 1 == 1) && !((mask >> index)
        & 1 == 1))) by (bit_vector)
        requires
            index < 32,
    ;
}

/// Whether the count flag stands in a control/status word that was read.
pub fn count_flag_set(control_status: u32) -> (set: bool)
    ensures
        set == count_flag(control_status),
{
    control_status & SYST_CSR_COUNTFLAG != 0
}

/// `word` with every bit of `mask` set and the others as they were.
pub fn set_bits(word: u32, mask: u32) -> (result: u32)
    ensures
        result == with_bits_set(word, mask),
{
    word | mask
}

/// `word` with every bit of `mask` cleared and the others as they were.
pub fn clear_bits(word: u32, mask: u32) -> (result: u32)
    ensures
        result == with_bits_cleared(word, mask),
{
    word & !mask
}

/// One of the four registers, in the order in which they lie in memory.
#[derive(Clone, Copy, Debug, PartialEq, Eq, Structural)]
pub enum Register {
    /// Enable bits and the count flag. Read/write.
    ControlStatus,
    /// The value the counter starts again from. Read/write.
    ReloadValue,
    /// The counter itself. Read/write.
    CurrentValue,
    /// Calibration data. Read-only.
    Calibration,
}

impl Register {
    /// Position among the four registers, counted from zero.
    pub open spec fn index(self) -> int {
        match self {
            Register::ControlStatus => 0,
            Register::ReloadValue => 1,
            Register::CurrentValue => 2,
            Register::Calibration => 3,
        }
    }

    /// Whether a write changes the register.
    pub open spec fn writable_spec(self) -> bool {
        self != Register::Calibration
    }

    /// Distance in bytes from the base address: the registers are consecutive
    /// 32-bit words.
    pub fn offset(self) -> (bytes: u32)
        ensures
            bytes == 4 * self.index(),
    {
        match self {
            Register::ControlStatus => 0,
            Register::ReloadValue => 4,
            Register::CurrentValue => 8,
            Register::Calibration => 12,
        }
    }

    /// The address of the register.
    pub fn address(self) -> (address: u32)
        ensures
            address == SYST_BASE_ADDRESS + 4 * self.index(),
    {
        SYST_BASE_ADDRESS + self.offset()
    }

    /// Whether a write changes the register: all but the calibration register.
    #[verifier::when_used_as_spec(writable_spec)]
    pub fn writable(self) -> (writable: bool)
        ensures
            writable == self.writable_spec(),
    {
        match self {
            Register::Calibration => false,
            _ => true,
        }
    }
}

/// A transaction that changes a register. The driver decides on it; whoever
/// owns the bus carries it out.
#[derive(Clone, Copy, Debug, PartialEq, Eq, Structural)]
pub enum RegisterOp {
    /// Store `value` in the register.
    Write { register: Register, value: u32 },
    /// Read the register, set the bits of `mask`, store the result.
    SetBits { register: Register, mask: u32 },
    /// Read the register, clear the bits of `mask`, store the result.
    ClearBits { register: Register, mask: u32 },
}

impl RegisterOp {
    /// The register the transaction goes to.
    pub open spec fn target(self) -> Register {
        match self {
            RegisterOp::Write { register, .. } => register,
            RegisterOp::SetBits { register, .. } => register,
            RegisterOp::ClearBits { register, .. } => register,
        }
    }

    /// The word the transaction stores when the register read as `current`.
    pub open spec fn stored_word(self, current: u32) -> u32 {
        match self {
            RegisterOp::Write { value, .. } => value,
            RegisterOp::SetBits { mask, .. } => with_bits_set(current, mask),
            RegisterOp::ClearBits { mask, .. } => with_bits_cleared(current, mask),
        }
    }

    /// Whether the transaction reads the register before it stores.
    pub open spec fn reads_first(self) -> bool {
        !(self is Write)
    }

    /// The register the transaction goes to.
    pub fn register(&self) -> (register: Register)
        ensures
            register == self.target(),
    {
        match self {
            RegisterOp::Write { register, .. } => *register,
            RegisterOp::SetBits { register, .. } => *register,
            RegisterOp::ClearBits { register, .. } => *register,
        }
    }

    /// The word to store, given the word that the register holds. For a plain
    /// write the argument does not matter. This is the function to hand to a
    /// read-modify-write of the bus.
    pub fn word_to_store(&self, current: u32) -> (word: u32)
        ensures
            word == self.stored_word(current),
    {
        match self {
            RegisterOp::Write { value, .. } => *value,
            RegisterOp::SetBits { mask, .. } => set_bits(current, *mask),
            RegisterOp::ClearBits { mask, .. } => clear_bits(current, *mask),
        }
    }

    /// Whether the transaction is a read-modify-write.
    pub fn is_read_modify_write(&self) -> (rmw: bool)
        ensures
            rmw == self.reads_first(),
    {
        match self {
            RegisterOp::Write { .. } => false,
            _ => true,
        }
    }
}

/// The words that the four registers hold.
#[derive(Clone, Copy, Debug, PartialEq, Eq, Structural)]
pub struct RegisterState {
    pub control_status: u32,
    pub reload_value: u32,
    pub current_value: u32,
    pub calibration: u32,
}

impl RegisterState {
    /// The word a register holds.
    pub open spec fn get(self, register: Register) -> u32 {
        match register {
            Register::ControlStatus => self.control_status,
            Register::ReloadValue => self.reload_value,
            Register::CurrentValue => self.current_value,
            Register::Calibration => self.calibration,
        }
    }

    /// The registers after a read. Reading the control/status register takes
    /// the count flag away; every other read leaves all as it was.
    pub open spec fn after_read(self, register: Register) -> RegisterState {
        match register {
            Register::ControlStatus => RegisterState {
                control_status: with_bits_cleared(self.control_status, SYST_CSR_COUNTFLAG),
                ..self
            },
            _ => self,
        }
    }

    /// The registers after `value` was written. The calibration register
    /// keeps its word.
    pub open spec fn after_write(self, register: Register, value: u32) -> RegisterState {
        match register {
            Register::ControlStatus => RegisterState { control_status: value, ..self },
            Register::ReloadValue => RegisterState { reload_value: value, ..self },
            Register::CurrentValue => RegisterState { current_value: value, ..self },
            Register::Calibration => self,
        }
    }

    /// The registers after a transaction: a plain write stores its word, a
    /// read-modify-write reads first and stores the word made from what it
    /// read.
    pub open spec fn after_op(self, op: RegisterOp) -> RegisterState {
        if op.reads_first() {
            self.after_read(op.target()).after_write(
                op.target(),
                op.stored_word(self.get(op.target())),
            )
        } else {
            self.after_write(op.target(), op.stored_word(0))
        }
    }

    /// The registers after a sequence of transactions, first to last.
    pub open spec fn after_ops(self, ops: Seq<RegisterOp>) -> RegisterState
        decreases ops.len(),
    {
        if ops.len() == 0 {
            self
        } else {
            self.after_ops(ops.drop_last()).after_op(ops.last())
        }
    }

    /// The registers after the counter ran through zero. A stopped counter
    /// does not wrap. A running one starts again from the reload value and
    /// raises the count flag.
    pub open spec fn after_wrap(self) -> RegisterState {
        if counting_enabled(self.control_status) {
            RegisterState {
                control_status: with_bits_set(self.control_status, SYST_CSR_COUNTFLAG),
                current_value: self.reload_value,
                ..self
            }
        } else {
            self
        }
    }

    /// Whether a wrap in this state calls the tick handler: the counter runs
    /// and the interrupt is enabled.
    pub open spec fn wrap_interrupts(self) -> bool {
        counting_enabled(self.control_status) && interrupt_enabled(self.control_status)
    }
}

/// A register block made of plain words. It answers reads and takes writes as
/// the peripheral does, and `wrap` plays the part of the running counter.
/// Nothing is read from its fields directly: all access is a transaction.
pub struct RegisterBlock {
    state: RegisterState,
}

impl View for RegisterBlock {
    type V = RegisterState;

    closed spec fn view(&self) -> RegisterState {
        self.state
    }
}

impl RegisterBlock {
    /// A block with the counter stopped, all three writable registers zero
    /// and the given calibration word.
    pub fn new(calibration: u32) -> (block: RegisterBlock)
        ensures
            block@ == (RegisterState {
                control_status: 0,
                reload_value: 0,
                current_value: 0,
                calibration,
            }),
    {
        RegisterBlock {
            state: RegisterState {
                control_status: 0,
                reload_value: 0,
                current_value: 0,
                calibration,
            },
        }
    }

    /// The words the registers hold, seen without a bus transaction: no flag
    /// is taken away.
    pub fn state(&self) -> (state: RegisterState)
        ensures
            state == self@,
    {
        self.state
    }

    /// Reads a register. A read of the control/status register returns the
    /// word with the count flag as it stood and leaves the flag cleared.
    pub fn read(&mut self, register: Register) -> (value: u32)
        ensures
            value == old(self)@.get(register),
            final(self)@ == old(self)@.after_read(register),
    {
        match register {
            Register::ControlStatus => {
                let value: u32 = self.state.control_status;
                self.state.control_status = clear_bits(value, SYST_CSR_COUNTFLAG);
                value
            },
            Register::ReloadValue => self.state.reload_value,
            Register::CurrentValue => self.state.current_value,
            Register::Calibration => self.state.calibration,
        }
    }

    /// Writes a register. A write to the calibration register changes nothing.
    pub fn write(&mut self, register: Register, value: u32)
        ensures
            final(self)@ == old(self)@.after_write(register, value),
    {
        match register {
            Register::ControlStatus => {
                self.state.control_status = value;
            },
            Register::ReloadValue => {
                self.state.reload_value = value;
            },
            Register::CurrentValue => {
                self.state.current_value = value;
            },
            Register::Calibration => {},
        }
    }

    /// Read-modify-write: reads the register, hands the word to `f` and
    /// writes what `f` returns.
    pub fn modify<F: FnOnce(u32) -> u32>(&mut self, register: Register, f: F)
        requires
            f.requires((old(self)@.get(register),)),
        ensures
            exists|word: u32|
                f.ensures((old(self)@.get(register),), word) && final(self)@ == old(
                    self,
                )@.after_read(register).after_write(register, word),
    {
        let current: u32 = self.read(register);
        let word: u32 = f(current);
        self.write(register, word);
    }

    /// Carries out one transaction of a driver.
    pub fn apply(&mut self, op: &RegisterOp)
        ensures
            final(self)@ == old(self)@.after_op(*op),
    {
        if op.is_read_modify_write() {
            let current: u32 = self.read(op.register());
            self.write(op.register(), op.word_to_store(current));
        } else {
            self.write(op.register(), op.word_to_store(0));
        }
    }

    /// Carries out a sequence of transactions, first to last.
    pub fn apply_all(&mut self, ops: &[RegisterOp])
        ensures
            final(self)@ == old(self)@.after_ops(ops@),
    {
        let mut done: usize = 0;
        while done < ops.len()
            invariant
                done <= ops@.len(),
                self@ == old(self)@.after_ops(ops@.take(done as int)),
            decreases ops@.len() - done,
        {
            proof {
                assert(ops@.take(done + 1).drop_last() =~= ops@.take(done as int));
            }
            self.apply(&ops[done]);
            done = done + 1;
        }
        proof {
            assert(ops@.take(done as int) =~= ops@);
        }
    }

    /// The counter runs through zero. Returns whether the tick handler is to
    /// be called. With the counter stopped nothing happens.
    pub fn wrap(&mut self) -> (interrupt: bool)
        ensures
            final(self)@ == old(self)@.after_wrap(),
            interrupt == old(self)@.wrap_interrupts(),
    {
        if self.state.control_status & SYST_CSR_ENABLE != 0 {
            let interrupt: bool = self.state.control_status & SYST_CSR_TICKINT != 0;
            self.state.control_status = set_bits(self.state.control_status, SYST_CSR_COUNTFLAG);
            self.state.current_value = self.state.reload_value;
            interrupt
        } else {
            false
        }
    }
}

/// A read takes the count flag: whatever the registers held, the word that
/// the next read of the control/status register returns has no count flag,
/// unless the counter wrapped in between.
pub proof fn lemma_read_consumes_count_flag(state: RegisterState)
    ensures
        !count_flag(
            state.after_read(Register::ControlStatus).get(Register::ControlStatus),
        ),
        state.after_read(Register::ControlStatus).after_read(Register::ControlStatus)
            == state.after_read(Register::ControlStatus),
{
    let word = state.control_status;
    assert((word & !0x0001_0000u32) & 0x0001_0000u32 == 0) by (bit_vector);
    assert((word & !0x0001_0000u32) & !0x0001_0000u32 == word & !0x0001_0000u32) by (bit_vector);
}

/// A wrap of a running counter is seen by the next read of the control/status
/// register and by that read only; the enable bits stay as they were.
pub proof fn lemma_wrap_raises_count_flag(state: RegisterState)
    requires
        counting_enabled(state.control_status),
    ensures
        count_flag(state.after_wrap().get(Register::ControlStatus)),
        counting_enabled(state.after_wrap().control_status),
        interrupt_enabled(state.after_wrap().control_status) == interrupt_enabled(
            state.control_status,
        ),
        core_clock_selected(state.after_wrap().control_status) == core_clock_selected(
            state.control_status,
        ),
        state.after_wrap().current_value == state.reload_value,
{
    let word = state.control_status;
    assert((word | 0x0001_0000u32) & 0x0001_0000u32 != 0) by (bit_vector);
    assert(((word | 0x0001_0000u32) & 0x0000_0001u32 != 0) == (word & 0x0000_0001u32 != 0))
        by (bit_vector);
    assert(((word | 0x0001_0000u32) & 0x0000_0002u32 != 0) == (word & 0x0000_0002u32 != 0))
        by (bit_vector);
    assert(((word | 0x0001_0000u32) & 0x0000_0004u32 != 0) == (word & 0x0000_0004u32 != 0))
        by (bit_vector);
}

} // verus!
