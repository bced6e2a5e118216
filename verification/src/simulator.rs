//! A register set in software, to run the driver's transactions against.
//!
//! The simulator keeps the rules of the hardware that the protocol is built
//! around: the backup domain takes writes only once its protection is lifted,
//! the clock's own registers only while the backup interface is clocked and
//! no earlier write is under way, prescaler and counter only in
//! configuration mode; what was written there takes effect only after
//! configuration mode was left and the write was seen to be complete; and a
//! field that reports readiness may stay clear for some readings, or for
//! ever.

use crate::registers::{Flag, Step, TimeoutError};
use crate::rtc::joined;
use crate::sequencer::{Progress, Sequencer};
use vstd::prelude::*;

verus! {

/// The state of the simulated registers.
#[derive(Debug, Clone, Copy)]
pub struct Simulator {
    /// Clock gate of the power interface.
    pub power_clock: bool,
    /// Clock gate of the backup interface.
    pub backup_clock: bool,
    /// Write protection of the backup domain lifted.
    pub backup_access: bool,
    /// The oscillator is bypassed.
    pub oscillator_bypass: bool,
    /// The oscillator is switched on.
    pub oscillator_on: bool,
    /// The external oscillator is the source of the clock.
    pub external_oscillator: bool,
    /// The clock counts.
    pub clock_enable: bool,
    /// Configuration mode.
    pub config_mode: bool,
    /// The interrupt on every second is enabled.
    pub second_interrupt: bool,
    /// A second has passed since the field was last cleared.
    pub second_flag: bool,
    /// The interrupt controller passes the clock's interrupt on.
    pub interrupt_unmasked: bool,
    /// The prescaler's reload value that is in effect.
    pub prescaler: u32,
    /// The counter as a reader sees it.
    pub counter: u32,
    /// What was written to the upper bits of the prescaler and has not taken effect.
    pub staged_prescaler_high: Option<u8>,
    /// What was written to the lower bits of the prescaler and has not taken effect.
    pub staged_prescaler_low: Option<u16>,
    /// What was written to the upper half of the counter and has not taken effect.
    pub staged_counter_high: Option<u16>,
    /// What was written to the lower half of the counter and has not taken effect.
    pub staged_counter_low: Option<u16>,
    /// Readings of `OscillatorReady` that still come out clear once the
    /// oscillator is on; `None` for an oscillator that never starts.
    pub oscillator_wait: Option<u32>,
    /// Readings of `Synchronized` that still come out clear; `None` for ever.
    pub sync_wait: Option<u32>,
    /// Readings of `WriteComplete` that still come out clear; `None` for ever.
    pub write_wait: Option<u32>,
    /// What `write_wait` becomes when configuration mode is left.
    pub write_latency: Option<u32>,
}

/// A wait after one more reading.
pub open spec fn counted_down(wait: Option<u32>) -> Option<u32> {
    match wait {
        Some(left) => if left > 0 {
            Some((left - 1) as u32)
        } else {
            wait
        },
        None => None,
    }
}

/// A wait that is over after at most `patience` clear readings.
pub open spec fn within(wait: Option<u32>, patience: nat) -> bool {
    match wait {
        Some(left) => left <= patience,
        None => false,
    }
}

impl Simulator {
    /// The clock's registers take a write: the backup interface is clocked,
    /// the protection of the backup domain is lifted, and no earlier write is
    /// still under way.
    pub open spec fn accepts_writes(self) -> bool {
        self.backup_clock && self.backup_access && self.write_wait == Some(0u32)
    }

    /// The clock counts: it is enabled, and its source is the external
    /// oscillator, which is stable.
    pub open spec fn counts(self) -> bool {
        self.clock_enable && self.external_oscillator && self.reading(Flag::OscillatorReady)
    }

    /// The clock's interrupt reaches the processor.
    pub open spec fn interrupt_requested(self) -> bool {
        self.second_interrupt && self.second_flag && self.interrupt_unmasked
    }

    /// What the field reads as.
    pub open spec fn reading(self, flag: Flag) -> bool {
        match flag {
            Flag::PowerClock => self.power_clock,
            Flag::BackupClock => self.backup_clock,
            Flag::BackupAccess => self.backup_access,
            Flag::OscillatorBypass => self.oscillator_bypass,
            Flag::OscillatorOn => self.oscillator_on,
            Flag::OscillatorReady => self.oscillator_on && self.oscillator_wait == Some(0u32),
            Flag::ClockEnable => self.clock_enable,
            Flag::ConfigMode => self.config_mode,
            Flag::Synchronized => self.sync_wait == Some(0u32),
            Flag::WriteComplete => self.write_wait == Some(0u32),
            Flag::SecondInterrupt => self.second_interrupt,
            Flag::SecondFlag => self.second_flag,
        }
    }

    /// The counter once the staged halves have taken effect.
    pub open spec fn staged_counter(self) -> u32 {
        joined(
            match self.staged_counter_high {
                Some(high) => high,
                None => (self.counter / 0x1_0000) as u16,
            },
            match self.staged_counter_low {
                Some(low) => low,
                None => (self.counter % 0x1_0000) as u16,
            },
        )
    }

    /// The prescaler once the staged parts have taken effect. Of the upper
    /// part only four bits exist.
    pub open spec fn staged_prescaler(self) -> u32 {
        let high: int = match self.staged_prescaler_high {
            Some(high) => high as int % 16,
            None => self.prescaler as int / 0x1_0000,
        };
        let low: int = match self.staged_prescaler_low {
            Some(low) => low as int,
            None => self.prescaler as int % 0x1_0000,
        };
        (high * 0x1_0000 + low) as u32
    }

    /// The state once a complete write has been seen: outside configuration
    /// mode what was staged takes effect.
    pub open spec fn landed(self) -> Simulator {
        if self.config_mode {
            self
        } else {
            Simulator {
                counter: self.staged_counter(),
                prescaler: self.staged_prescaler(),
                staged_prescaler_high: None,
                staged_prescaler_low: None,
                staged_counter_high: None,
                staged_counter_low: None,
                ..self
            }
        }
    }

    /// The state after the field was read once.
    pub open spec fn polled(self, flag: Flag) -> Simulator {
        match flag {
            Flag::OscillatorReady => if self.oscillator_on {
                Simulator { oscillator_wait: counted_down(self.oscillator_wait), ..self }
            } else {
                self
            },
            Flag::Synchronized => Simulator { sync_wait: counted_down(self.sync_wait), ..self },
            Flag::WriteComplete => if self.write_wait == Some(0u32) {
                self.landed()
            } else {
                Simulator { write_wait: counted_down(self.write_wait), ..self }
            },
            _ => self,
        }
    }

    /// The state after `value` was written to the field. The backup access
    /// bit takes a write only while the power interface is clocked, the bits
    /// of oscillator and clock enable only while the backup domain is open,
    /// the clock's own fields only as `accepts_writes` says. Leaving
    /// configuration mode starts a write. The fields that report readiness
    /// take no write, and `SecondFlag` can only be cleared.
    pub open spec fn written(self, flag: Flag, value: bool) -> Simulator {
        match flag {
            Flag::PowerClock => Simulator { power_clock: value, ..self },
            Flag::BackupClock => Simulator { backup_clock: value, ..self },
            Flag::BackupAccess => if self.power_clock {
                Simulator { backup_access: value, ..self }
            } else {
                self
            },
            Flag::OscillatorBypass => if self.backup_access {
                Simulator { oscillator_bypass: value, ..self }
            } else {
                self
            },
            Flag::OscillatorOn => if self.backup_access {
                Simulator { oscillator_on: value, ..self }
            } else {
                self
            },
            Flag::ClockEnable => if self.backup_access {
                Simulator { clock_enable: value, ..self }
            } else {
                self
            },
            Flag::ConfigMode => if !self.accepts_writes() || self.config_mode == value {
                self
            } else if value {
                Simulator { config_mode: true, ..self }
            } else {
                Simulator { config_mode: false, write_wait: self.write_latency, ..self }
            },
            Flag::SecondInterrupt => if self.accepts_writes() {
                Simulator { second_interrupt: value, ..self }
            } else {
                self
            },
            Flag::SecondFlag => if self.accepts_writes() && !value {
                Simulator { second_flag: false, ..self }
            } else {
                self
            },
            Flag::OscillatorReady | Flag::Synchronized | Flag::WriteComplete => self,
        }
    }

    /// The state after the step was carried out once; for a step that awaits
    /// a field, after the field was read once.
    pub open spec fn performed(self, step: Step) -> Simulator {
        match step {
            Step::SetFlag(flag) => self.written(flag, true),
            Step::ClearFlag(flag) => self.written(flag, false),
            Step::AwaitFlag(flag) => self.polled(flag),
            Step::SelectExternalOscillator => if self.backup_access {
                Simulator { external_oscillator: true, ..self }
            } else {
                self
            },
            Step::WritePrescalerHigh(value) => if self.config_mode {
                Simulator { staged_prescaler_high: Some(value), ..self }
            } else {
                self
            },
            Step::WritePrescalerLow(value) => if self.config_mode {
                Simulator { staged_prescaler_low: Some(value), ..self }
            } else {
                self
            },
            Step::WriteCounterLow(value) => if self.config_mode {
                Simulator { staged_counter_low: Some(value), ..self }
            } else {
                self
            },
            Step::WriteCounterHigh(value) => if self.config_mode {
                Simulator { staged_counter_high: Some(value), ..self }
            } else {
                self
            },
            Step::UnmaskInterrupt => Simulator { interrupt_unmasked: true, ..self },
        }
    }

    /// What the step reports: the reading of an awaited field, and `true`
    /// for every other step.
    pub open spec fn answer(self, step: Step) -> bool {
        match step {
            Step::AwaitFlag(flag) => self.reading(flag),
            _ => true,
        }
    }

    /// The state in which `progress` leaves the registers when it is carried
    /// through from this state, each step performed as the sequencer asks for
    /// it, and the timeout at which it stopped, if it did.
    pub open spec fn carried(self, progress: Progress) -> (Simulator, Option<TimeoutError>)
        decreases progress.steps.len() - progress.position, progress.patience - progress.misses,
    {
        match progress.pending() {
            None => (self, None),
            Some(step) => {
                let answer = self.answer(step);
                match progress.exhausted(answer) {
                    Some(flag) => (self.performed(step), Some(TimeoutError { flag })),
                    None => self.performed(step).carried(progress.advanced(answer)),
                }
            },
        }
    }

    /// The state after the transaction `steps`, started from this state by a
    /// caller who puts up with `patience` clear readings of an awaited field,
    /// and the timeout at which the transaction stopped, if it did.
    pub open spec fn executed(self, steps: Seq<Step>, patience: nat) -> (
        Simulator,
        Option<TimeoutError>,
    ) {
        self.carried(Progress { steps, position: 0, misses: 0, patience })
    }

    /// The state a second later: a clock that counts has counted one further,
    /// wrapping round at the end of its range, and has raised `SecondFlag`.
    pub open spec fn ticked(self) -> Simulator {
        if self.counts() {
            Simulator {
                counter: if self.counter == u32::MAX {
                    0
                } else {
                    (self.counter + 1) as u32
                },
                second_flag: true,
                ..self
            }
        } else {
            self
        }
    }
}

/// A wait after one more reading.
fn count_down(wait: Option<u32>) -> (after: Option<u32>)
    ensures
        after == counted_down(wait),
{
    match wait {
        Some(left) => if left > 0 {
            Some(left - 1)
        } else {
            wait
        },
        None => None,
    }
}

impl Simulator {
    /// The registers after a reset: every field clear, prescaler and counter
    /// at zero, nothing staged, and nothing to wait for.
    pub open spec fn reset() -> Simulator {
        Simulator {
            power_clock: false,
            backup_clock: false,
            backup_access: false,
            oscillator_bypass: false,
            oscillator_on: false,
            external_oscillator: false,
            clock_enable: false,
            config_mode: false,
            second_interrupt: false,
            second_flag: false,
            interrupt_unmasked: false,
            prescaler: 0,
            counter: 0,
            staged_prescaler_high: None,
            staged_prescaler_low: None,
            staged_counter_high: None,
            staged_counter_low: None,
            oscillator_wait: Some(0),
            sync_wait: Some(0),
            write_wait: Some(0),
            write_latency: Some(0),
        }
    }

    /// The registers after a reset.
    pub fn new() -> (simulator: Simulator)
        ensures
            simulator == Simulator::reset(),
    {
        Simulator {
            power_clock: false,
            backup_clock: false,
            backup_access: false,
            oscillator_bypass: false,
            oscillator_on: false,
            external_oscillator: false,
            clock_enable: false,
            config_mode: false,
            second_interrupt: false,
            second_flag: false,
            interrupt_unmasked: false,
            prescaler: 0,
            counter: 0,
            staged_prescaler_high: None,
            staged_prescaler_low: None,
            staged_counter_high: None,
            staged_counter_low: None,
            oscillator_wait: Some(0),
            sync_wait: Some(0),
            write_wait: Some(0),
            write_latency: Some(0),
        }
    }

    /// Reads the field, without any effect on the registers.
    pub fn read(&self, flag: Flag) -> (value: bool)
        ensures
            value == self.reading(flag),
    {
        match flag {
            Flag::PowerClock => self.power_clock,
            Flag::BackupClock => self.backup_clock,
            Flag::BackupAccess => self.backup_access,
            Flag::OscillatorBypass => self.oscillator_bypass,
            Flag::OscillatorOn => self.oscillator_on,
            Flag::OscillatorReady => self.oscillator_on && is_over(self.oscillator_wait),
            Flag::ClockEnable => self.clock_enable,
            Flag::ConfigMode => self.config_mode,
            Flag::Synchronized => is_over(self.sync_wait),
            Flag::WriteComplete => is_over(self.write_wait),
            Flag::SecondInterrupt => self.second_interrupt,
            Flag::SecondFlag => self.second_flag,
        }
    }

    /// The upper half of the counter as a reader sees it.
    pub fn counter_high(&self) -> (high: u16)
        ensures
            high == self.counter / 0x1_0000,
    {
        (self.counter / 0x1_0000) as u16
    }

    /// The lower half of the counter as a reader sees it.
    pub fn counter_low(&self) -> (low: u16)
        ensures
            low == self.counter % 0x1_0000,
    {
        (self.counter % 0x1_0000) as u16
    }

    /// Whether the clock's registers take a write.
    pub fn takes_writes(&self) -> (open: bool)
        ensures
            open == self.accepts_writes(),
    {
        self.backup_clock && self.backup_access && is_over(self.write_wait)
    }

    /// Whether the clock counts.
    pub fn is_counting(&self) -> (counting: bool)
        ensures
            counting == self.counts(),
    {
        self.clock_enable && self.external_oscillator && self.oscillator_on && is_over(
            self.oscillator_wait,
        )
    }

    /// Whether the clock's interrupt reaches the processor.
    pub fn interrupt_is_requested(&self) -> (requested: bool)
        ensures
            requested == self.interrupt_requested(),
    {
        self.second_interrupt && self.second_flag && self.interrupt_unmasked
    }

    /// Lets what was staged take effect, unless configuration mode is on.
    fn land(&mut self)
        ensures
            *final(self) == old(self).landed(),
    {
        if !self.config_mode {
            let high: u16 = match self.staged_counter_high {
                Some(high) => high,
                None => (self.counter / 0x1_0000) as u16,
            };
            let low: u16 = match self.staged_counter_low {
                Some(low) => low,
                None => (self.counter % 0x1_0000) as u16,
            };
            let upper: u32 = match self.staged_prescaler_high {
                Some(upper) => (upper % 16) as u32,
                None => self.prescaler / 0x1_0000,
            };
            let lower: u32 = match self.staged_prescaler_low {
                Some(lower) => lower as u32,
                None => self.prescaler % 0x1_0000,
            };
            self.counter = high as u32 * 0x1_0000 + low as u32;
            self.prescaler = upper * 0x1_0000 + lower;
            self.staged_prescaler_high = None;
            self.staged_prescaler_low = None;
            self.staged_counter_high = None;
            self.staged_counter_low = None;
        }
    }

    /// Reads the field once, for what the reading does to the registers.
    fn poll(&mut self, flag: Flag)
        ensures
            *final(self) == old(self).polled(flag),
    {
        match flag {
            Flag::OscillatorReady => {
                if self.oscillator_on {
                    self.oscillator_wait = count_down(self.oscillator_wait);
                }
            },
            Flag::Synchronized => {
                self.sync_wait = count_down(self.sync_wait);
            },
            Flag::WriteComplete => {
                if is_over(self.write_wait) {
                    self.land();
                } else {
                    self.write_wait = count_down(self.write_wait);
                }
            },
            _ => {},
        }
    }

    /// Writes `value` to one of the clock's own fields.
    fn write_clock_field(&mut self, flag: Flag, value: bool)
        requires
            flag == Flag::ConfigMode || flag == Flag::SecondInterrupt || flag == Flag::SecondFlag,
        ensures
            *final(self) == old(self).written(flag, value),
    {
        if self.takes_writes() {
            match flag {
                Flag::ConfigMode => {
                    if self.config_mode != value {
                        self.config_mode = value;
                        if !value {
                            self.write_wait = self.write_latency;
                        }
                    }
                },
                Flag::SecondInterrupt => {
                    self.second_interrupt = value;
                },
                _ => {
                    if !value {
                        self.second_flag = false;
                    }
                },
            }
        }
    }

    /// Writes `value` to the field.
    fn write(&mut self, flag: Flag, value: bool)
        ensures
            *final(self) == old(self).written(flag, value),
    {
        match flag {
            Flag::PowerClock => {
                self.power_clock = value;
            },
            Flag::BackupClock => {
                self.backup_clock = value;
            },
            Flag::BackupAccess => {
                if self.power_clock {
                    self.backup_access = value;
                }
            },
            Flag::OscillatorBypass => {
                if self.backup_access {
                    self.oscillator_bypass = value;
                }
            },
            Flag::OscillatorOn => {
                if self.backup_access {
                    self.oscillator_on = value;
                }
            },
            Flag::ClockEnable => {
                if self.backup_access {
                    self.clock_enable = value;
                }
            },
            Flag::ConfigMode | Flag::SecondInterrupt | Flag::SecondFlag => {
                self.write_clock_field(flag, value);
            },
            Flag::OscillatorReady | Flag::Synchronized | Flag::WriteComplete => {},
        }
    }

    /// Carries the step out once and returns what it reports: the reading of
    /// an awaited field, `true` for every other step.
    pub fn perform(&mut self, step: Step) -> (answer: bool)
        ensures
            *final(self) == old(self).performed(step),
            answer == old(self).answer(step),
    {
        match step {
            Step::SetFlag(flag) => {
                self.write(flag, true);
                true
            },
            Step::ClearFlag(flag) => {
                self.write(flag, false);
                true
            },
            Step::AwaitFlag(flag) => {
                let value = self.read(flag);
                self.poll(flag);
                value
            },
            Step::SelectExternalOscillator => {
                if self.backup_access {
                    self.external_oscillator = true;
                }
                true
            },
            Step::WritePrescalerHigh(value) => {
                if self.config_mode {
                    self.staged_prescaler_high = Some(value);
                }
                true
            },
            Step::WritePrescalerLow(value) => {
                if self.config_mode {
                    self.staged_prescaler_low = Some(value);
                }
                true
            },
            Step::WriteCounterLow(value) => {
                if self.config_mode {
                    self.staged_counter_low = Some(value);
                }
                true
            },
            Step::WriteCounterHigh(value) => {
                if self.config_mode {
                    self.staged_counter_high = Some(value);
                }
                true
            },
            Step::UnmaskInterrupt => {
                self.interrupt_unmasked = true;
                true
            },
        }
    }

    /// Lets one second pass.
    pub fn tick(&mut self)
        ensures
            *final(self) == old(self).ticked(),
    {
        if self.is_counting() {
            self.counter = if self.counter == u32::MAX {
                0
            } else {
                self.counter + 1
            };
            self.second_flag = true;
        }
    }

    /// Carries the transaction `steps` out on the registers, with a
    /// sequencer of the given patience, and stops at the first timeout.
    pub fn run(&mut self, steps: Vec<Step>, patience: u32) -> (outcome: Result<(), TimeoutError>)
        ensures
            *final(self) == old(self).executed(steps@, patience as nat).0,
            (match old(self).executed(steps@, patience as nat).1 {
                Some(timeout) => outcome == Err::<(), TimeoutError>(timeout),
                None => outcome.is_ok(),
            }),
    {
        let mut sequencer = Sequencer::new(steps, patience);
        loop
            invariant
                sequencer@.steps == steps@,
                sequencer@.patience == patience,
                self.carried(sequencer@) == old(self).executed(steps@, patience as nat),
            decreases sequencer@.steps.len() - sequencer@.position, sequencer@.patience - sequencer@.misses,
        {
            match sequencer.pending() {
                None => {
                    return Ok(());
                },
                Some(step) => {
                    let answer = self.perform(step);
                    match sequencer.advance(answer) {
                        Ok(_) => {},
                        Err(timeout) => {
                            return Err(timeout);
                        },
                    }
                },
            }
        }
    }
}

/// Whether a wait is over.
fn is_over(wait: Option<u32>) -> (over: bool)
    ensures
        over == (wait == Some(0u32)),
{
    match wait {
        Some(left) => left == 0,
        None => false,
    }
}

} // verus!
