//! The driver of the clock: which register accesses make up each of its
//! operations, and how the counter is put together from its halves.
//!
//! The driver holds no peripheral. Each operation hands out a transaction, a
//! list of steps, which the owner of the registers carries out in order, with
//! a `Sequencer` to bound the waits. An `Rtc` stands for a clock that runs;
//! while a `RtcCommit` borrows it, the clock is in configuration mode, and
//! the counter cannot be asked for.

use crate::registers::{Flag, Step};
use vstd::prelude::*;

verus! {

/// Nominal frequency of the external low-speed oscillator, in hertz.
pub const OSCILLATOR_HZ: u32 = 32768;

/// The highest frequency that the prescaler can divide down to one hertz.
pub const MAX_SOURCE_HZ: u32 = 0x10_0000;

/// The lower half of a counter value.
pub open spec fn low_half(value: u32) -> u16 {
    (value % 0x1_0000) as u16
}

/// The upper half of a counter value.
pub open spec fn high_half(value: u32) -> u16 {
    (value / 0x1_0000) as u16
}

/// The counter value that has the two halves.
pub open spec fn joined(high: u16, low: u16) -> u32 {
    (high * 0x1_0000 + low) as u32
}

/// The wait that makes reads and writes safe: first for the registers to
/// mirror the counting domain, then for the last write to be complete.
pub open spec fn sync_steps() -> Seq<Step> {
    seq![Step::AwaitFlag(Flag::Synchronized), Step::AwaitFlag(Flag::WriteComplete)]
}

/// The way into configuration mode and the writes made there: wait as in
/// `sync_steps`, switch configuration mode on, then write.
pub open spec fn entry_steps(writes: Seq<Step>) -> Seq<Step> {
    sync_steps() + seq![Step::SetFlag(Flag::ConfigMode)] + writes
}

/// The way out of configuration mode: switch it off, then wait as in
/// `sync_steps` for what was written to take effect.
pub open spec fn commit_steps() -> Seq<Step> {
    seq![Step::ClearFlag(Flag::ConfigMode)] + sync_steps()
}

/// The writes that set the counter to `value`: the lower half, then the upper.
pub open spec fn counter_writes(value: u32) -> Seq<Step> {
    seq![Step::WriteCounterLow(low_half(value)), Step::WriteCounterHigh(high_half(value))]
}

/// The writes that make a source of `frequency` hertz tick once a second:
/// the reload value is one less than the frequency, its upper bits are
/// written first.
pub open spec fn prescaler_writes(frequency: u32) -> Seq<Step> {
    seq![
        Step::WritePrescalerHigh(((frequency - 1) / 0x1_0000) as u8),
        Step::WritePrescalerLow(((frequency - 1) % 0x1_0000) as u16),
    ]
}

/// The steps that bring a clock up that has no source yet: clock the power
/// and backup interfaces, lift the write protection of the backup domain,
/// start the external oscillator and wait until it is stable, make it the
/// source, and let the clock count.
pub open spec fn power_up_steps() -> Seq<Step> {
    seq![
        Step::SetFlag(Flag::PowerClock),
        Step::SetFlag(Flag::BackupClock),
        Step::SetFlag(Flag::BackupAccess),
        Step::ClearFlag(Flag::OscillatorBypass),
        Step::SetFlag(Flag::OscillatorOn),
        Step::AwaitFlag(Flag::OscillatorReady),
        Step::SelectExternalOscillator,
        Step::SetFlag(Flag::ClockEnable),
    ]
}

/// The steps that make the clock ready for use. Where the backup interface
/// is clocked already, the clock has been set up before and is only waited
/// for. Otherwise it is brought up, its prescaler is set for a tick a second
/// in configuration mode, and then it is waited for.
pub open spec fn start_steps(backup_clock_on: bool) -> Seq<Step> {
    if backup_clock_on {
        sync_steps()
    } else {
        power_up_steps() + entry_steps(prescaler_writes(OSCILLATOR_HZ)) + commit_steps()
            + sync_steps()
    }
}

/// The steps that let the clock interrupt the processor every second.
pub open spec fn enable_interrupt_steps() -> Seq<Step> {
    seq![Step::SetFlag(Flag::SecondInterrupt), Step::UnmaskInterrupt]
}

/// The step that acknowledges the interrupt of a second.
pub open spec fn clear_interrupt_steps() -> Seq<Step> {
    seq![Step::ClearFlag(Flag::SecondFlag)]
}

/// A clock that has been started and is not in configuration mode.
pub struct Rtc {}

/// A clock in configuration mode. It gives the clock back when the write is
/// committed.
pub struct RtcCommit<'a> {
    rtc: &'a mut Rtc,
}

/// The two prescaler writes for a source of `frequency` hertz.
pub fn prescaler_for(frequency: u32) -> (writes: Vec<Step>)
    requires
        1 <= frequency <= MAX_SOURCE_HZ,
    ensures
        writes@ == prescaler_writes(frequency),
{
    let reload: u32 = frequency - 1;
    let mut writes: Vec<Step> = Vec::new();
    writes.push(Step::WritePrescalerHigh((reload / 0x1_0000) as u8));
    writes.push(Step::WritePrescalerLow((reload % 0x1_0000) as u16));
    assert(writes@ =~= prescaler_writes(frequency));
    writes
}

impl Rtc {
    /// Starts the driver. `backup_clock_on` is the reading of
    /// `Flag::BackupClock`; the steps returned are `start_steps`, and once they
    /// are carried out the clock runs and can be read.
    pub fn new(backup_clock_on: bool) -> (started: (Rtc, Vec<Step>))
        ensures
            started.1@ == start_steps(backup_clock_on),
    {
        let mut rtc = Rtc {  };
        let mut steps: Vec<Step> = Vec::new();
        if !backup_clock_on {
            steps.push(Step::SetFlag(Flag::PowerClock));
            steps.push(Step::SetFlag(Flag::BackupClock));
            steps.push(Step::SetFlag(Flag::BackupAccess));
            steps.push(Step::ClearFlag(Flag::OscillatorBypass));
            steps.push(Step::SetFlag(Flag::OscillatorOn));
            steps.push(Step::AwaitFlag(Flag::OscillatorReady));
            steps.push(Step::SelectExternalOscillator);
            steps.push(Step::SetFlag(Flag::ClockEnable));
            assert(steps@ =~= power_up_steps());
            let (guard, mut entry) = rtc.modify(prescaler_for(OSCILLATOR_HZ));
            steps.append(&mut entry);
            let mut exit = guard.commit();
            steps.append(&mut exit);
        }
        let mut wait = rtc.sync();
        steps.append(&mut wait);
        (rtc, steps)
    }

    /// The steps to wait until the clock can be read and written:
    /// `sync_steps`. They are due after the start, after a wake-up from a
    /// low-power state, and around every write.
    pub fn sync(&self) -> (steps: Vec<Step>)
        ensures
            steps@ == sync_steps(),
    {
        let mut steps: Vec<Step> = Vec::new();
        steps.push(Step::AwaitFlag(Flag::Synchronized));
        steps.push(Step::AwaitFlag(Flag::WriteComplete));
        assert(steps@ =~= sync_steps());
        steps
    }

    /// The counter, from its two halves as they were read, the upper first.
    pub fn get_cnt(&self, high: u16, low: u16) -> (value: u32)
        ensures
            value == joined(high, low),
            high_half(value) == high,
            low_half(value) == low,
    {
        high as u32 * 0x1_0000 + low as u32
    }

    /// Begins to set the counter to `cnt`. The steps returned lead into
    /// configuration mode and write both halves there: `entry_steps` of
    /// `counter_writes`. The write takes effect when the steps of the guard's
    /// `commit` have been carried out as well.
    pub fn set_cnt(&mut self, cnt: u32) -> (begun: (RtcCommit<'_>, Vec<Step>))
        ensures
            begun.1@ == entry_steps(counter_writes(cnt)),
    {
        let mut writes: Vec<Step> = Vec::new();
        writes.push(Step::WriteCounterLow((cnt % 0x1_0000) as u16));
        writes.push(Step::WriteCounterHigh((cnt / 0x1_0000) as u16));
        assert(writes@ =~= counter_writes(cnt));
        self.modify(writes)
    }

    /// The steps that switch the interrupt of every second on:
    /// `enable_interrupt_steps`.
    pub fn enable_second_interrupt(&mut self) -> (steps: Vec<Step>)
        ensures
            steps@ == enable_interrupt_steps(),
    {
        let mut steps: Vec<Step> = Vec::new();
        steps.push(Step::SetFlag(Flag::SecondInterrupt));
        steps.push(Step::UnmaskInterrupt);
        assert(steps@ =~= enable_interrupt_steps());
        steps
    }

    /// The step that acknowledges a second's interrupt:
    /// `clear_interrupt_steps`. Every run of the interrupt handler carries
    /// it out, or the handler is entered again at once.
    pub fn clear_second_interrupt(&mut self) -> (steps: Vec<Step>)
        ensures
            steps@ == clear_interrupt_steps(),
    {
        let mut steps: Vec<Step> = Vec::new();
        steps.push(Step::ClearFlag(Flag::SecondFlag));
        assert(steps@ =~= clear_interrupt_steps());
        steps
    }

    /// Wraps `writes` into the way into configuration mode, and hands out
    /// the guard that leads out of it again.
    fn modify(&mut self, writes: Vec<Step>) -> (begun: (RtcCommit<'_>, Vec<Step>))
        ensures
            begun.1@ == entry_steps(writes@),
    {
        let ghost wanted = writes@;
        let mut writes = writes;
        let mut steps = self.sync();
        steps.push(Step::SetFlag(Flag::ConfigMode));
        steps.append(&mut writes);
        assert(steps@ =~= entry_steps(wanted));
        (RtcCommit { rtc: self }, steps)
    }
}

impl<'a> RtcCommit<'a> {
    /// Ends the write. The steps returned switch configuration mode off and
    /// wait until what was written has taken effect: `commit_steps`.
    pub fn commit(self) -> (steps: Vec<Step>)
        ensures
            steps@ == commit_steps(),
    {
        let mut steps: Vec<Step> = Vec::new();
        steps.push(Step::ClearFlag(Flag::ConfigMode));
        let mut wait = self.rtc.sync();
        steps.append(&mut wait);
        assert(steps@ =~= commit_steps());
        steps
    }
}

} // verus!
