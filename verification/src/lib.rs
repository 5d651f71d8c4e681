//! Millisecond time base on a system tick peripheral.
//!
//! The crate holds the logic of a tick timer driver and nothing that touches
//! the bus: which words go to which register and in what order, how a wrap is
//! recognised in a control/status word, how the shared tick counter advances,
//! and how a blocking delay counts wraps. The program around it performs the
//! register transactions and hands the words it read back in.

pub mod counter;
pub mod delay;
pub mod exception;
pub mod registers;
pub mod systimer;
