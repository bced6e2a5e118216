//! Driver logic for a battery-backed real-time clock that counts seconds in a
//! 32-bit register, and the calendar that goes with it.
//!
//! The crate touches no hardware. `rtc` says, for each operation of the
//! driver, which accesses to the registers make it up; `sequencer` walks such
//! a transaction one access at a time and bounds every wait, so that the
//! owner of the peripheral only has to carry out what it is handed and report
//! what it read. `simulator` is a register set in software that keeps the
//! rules of the hardware, and `effects` proves of it what the transactions
//! achieve. `datetime` turns a counter value into date, time and weekday,
//! and `text` prints the numbers.

pub mod datetime;
pub mod effects;
pub mod registers;
pub mod rtc;
pub mod sequencer;
pub mod simulator;
pub mod text;
