//! The register interface of the clock, by named fields.
//!
//! The library never touches a register. It says which fields are to be
//! written or polled, in which order, and whoever owns the peripheral does so.

use vstd::prelude::*;

verus! {

/// The one-bit fields of the clock and of the units that feed it.
#[derive(Debug, Clone, Copy, PartialEq, Eq, Structural)]
pub enum Flag {
    /// Clock gate of the power interface.
    PowerClock,
    /// Clock gate of the backup interface.
    BackupClock,
    /// Write protection of the backup domain lifted. It can be written only
    /// while the power interface is clocked.
    BackupAccess,
    /// The external low-speed oscillator is bypassed by an outside clock.
    OscillatorBypass,
    /// The external low-speed oscillator is switched on.
    OscillatorOn,
    /// The external low-speed oscillator is stable. Read only.
    OscillatorReady,
    /// The clock receives its source and counts.
    ClockEnable,
    /// Configuration mode: prescaler and counter accept writes.
    ConfigMode,
    /// The registers that are read mirror the counting domain.
    Synchronized,
    /// The last write to the clock's registers has been carried out. Read only.
    WriteComplete,
    /// The interrupt on every second is enabled.
    SecondInterrupt,
    /// A second has passed since the field was last cleared.
    SecondFlag,
}

/// One step of a transaction with the registers.
#[derive(Debug, Clone, Copy, PartialEq, Eq, Structural)]
pub enum Step {
    /// Set the field, leaving the others of its register as they are.
    SetFlag(Flag),
    /// Clear the field, leaving the others of its register as they are.
    ClearFlag(Flag),
    /// Read the field again and again until it reads as set.
    AwaitFlag(Flag),
    /// Make the external low-speed oscillator the source of the clock.
    SelectExternalOscillator,
    /// Write the upper four bits of the prescaler's reload value.
    WritePrescalerHigh(u8),
    /// Write the lower sixteen bits of the prescaler's reload value.
    WritePrescalerLow(u16),
    /// Write the lower half of the counter.
    WriteCounterLow(u16),
    /// Write the upper half of the counter.
    WriteCounterHigh(u16),
    /// Let the interrupt controller pass the clock's interrupt on.
    UnmaskInterrupt,
}

/// A field that was awaited stayed clear for as long as the caller would poll.
#[derive(Debug, Clone, Copy, PartialEq, Eq, Structural)]
pub struct TimeoutError {
    /// The field that did not come up.
    pub flag: Flag,
}

} // verus!
