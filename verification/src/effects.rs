//! What the driver's transactions do to the registers: the laws of the
//! protocol, proved of the simulator.

use crate::registers::{Flag, Step, TimeoutError};
use crate::rtc::{
    clear_interrupt_steps, commit_steps, counter_writes, enable_interrupt_steps, entry_steps,
    high_half, joined, low_half, power_up_steps, prescaler_writes, start_steps, sync_steps,
    OSCILLATOR_HZ,
};
use crate::sequencer::Progress;
use crate::simulator::{within, Simulator};
use vstd::prelude::*;

verus! {

/// The clear readings that the field still gives before it reads as set;
/// `None` where it never will.
pub open spec fn wait_for(sim: Simulator, flag: Flag) -> Option<u32> {
    match flag {
        Flag::OscillatorReady => if sim.oscillator_on {
            sim.oscillator_wait
        } else {
            None
        },
        Flag::Synchronized => sim.sync_wait,
        Flag::WriteComplete => sim.write_wait,
        _ => if sim.reading(flag) {
            Some(0u32)
        } else {
            None
        },
    }
}

/// The state in which the wait for the field is over and the field has been
/// read as set.
pub open spec fn seen_ready(sim: Simulator, flag: Flag) -> Simulator {
    match flag {
        Flag::OscillatorReady => Simulator { oscillator_wait: Some(0u32), ..sim },
        Flag::Synchronized => Simulator { sync_wait: Some(0u32), ..sim },
        Flag::WriteComplete => (Simulator { write_wait: Some(0u32), ..sim }).landed(),
        _ => sim,
    }
}

/// A progress moved on to the step after the pending one.
pub open spec fn past_pending(progress: Progress) -> Progress {
    Progress { position: progress.position + 1, misses: 0, ..progress }
}

/// A field whose wait is not over reads as clear, and the reading brings the
/// end of the wait one reading nearer.
proof fn lemma_clear_reading(sim: Simulator, flag: Flag)
    requires
        wait_for(sim, flag) is Some,
        wait_for(sim, flag).unwrap() > 0,
    ensures
        !sim.reading(flag),
        wait_for(sim.polled(flag), flag) == Some((wait_for(sim, flag).unwrap() - 1) as u32),
        seen_ready(sim.polled(flag), flag) == seen_ready(sim, flag),
{
}

/// A field whose wait is over reads as set.
proof fn lemma_set_reading(sim: Simulator, flag: Flag)
    requires
        wait_for(sim, flag) == Some(0u32),
    ensures
        sim.reading(flag),
        sim.polled(flag) == seen_ready(sim, flag),
{
}

/// An awaited field that comes up in time is polled until it reads as set,
/// and the transaction goes on with the next step.
pub proof fn lemma_await_succeeds(sim: Simulator, progress: Progress, flag: Flag)
    requires
        progress.pending() == Some(Step::AwaitFlag(flag)),
        within(wait_for(sim, flag), (progress.patience - progress.misses) as nat),
        progress.misses <= progress.patience,
    ensures
        sim.carried(progress) == seen_ready(sim, flag).carried(past_pending(progress)),
    decreases wait_for(sim, flag).unwrap(),
{
    let step = Step::AwaitFlag(flag);
    if wait_for(sim, flag).unwrap() > 0 {
        lemma_clear_reading(sim, flag);
        assert(!sim.answer(step));
        assert(progress.exhausted(false) is None);
        assert(sim.carried(progress) == sim.performed(step).carried(progress.advanced(false)));
        lemma_await_succeeds(sim.polled(flag), progress.advanced(false), flag);
    } else {
        lemma_set_reading(sim, flag);
        assert(sim.answer(step));
        assert(progress.exhausted(true) is None);
        assert(progress.advanced(true) == past_pending(progress));
    }
}

/// A field whose wait is not over within `budget` readings reads as clear,
/// and after the reading its wait is not over within one reading less.
proof fn lemma_wait_goes_on(sim: Simulator, flag: Flag, budget: nat)
    requires
        !within(wait_for(sim, flag), budget),
    ensures
        !sim.reading(flag),
        budget > 0 ==> !within(wait_for(sim.polled(flag), flag), (budget - 1) as nat),
{
}

/// An awaited field that does not come up in time ends the transaction with
/// a timeout that names it.
pub proof fn lemma_await_times_out(sim: Simulator, progress: Progress, flag: Flag)
    requires
        progress.pending() == Some(Step::AwaitFlag(flag)),
        !within(wait_for(sim, flag), (progress.patience - progress.misses) as nat),
        progress.misses <= progress.patience,
    ensures
        sim.carried(progress).1 == Some(TimeoutError { flag }),
    decreases progress.patience - progress.misses,
{
    let step = Step::AwaitFlag(flag);
    lemma_wait_goes_on(sim, flag, (progress.patience - progress.misses) as nat);
    assert(!sim.answer(step));
    if progress.misses < progress.patience {
        assert(progress.exhausted(false) is None);
        lemma_await_times_out(sim.polled(flag), progress.advanced(false), flag);
    } else {
        assert(progress.exhausted(false) == Some(flag));
    }
}

/// Steps that stand behind others in a transaction are carried out as they
/// would be on their own.
proof fn lemma_carried_behind(
    sim: Simulator,
    first: Seq<Step>,
    second: Seq<Step>,
    progress: Progress,
)
    requires
        progress.steps == second,
    ensures
        sim.carried(
            Progress {
                steps: first + second,
                position: first.len() + progress.position,
                ..progress
            },
        ) == sim.carried(progress),
    decreases progress.steps.len() - progress.position, progress.patience - progress.misses,
{
    let joint = Progress {
        steps: first + second,
        position: first.len() + progress.position,
        ..progress
    };
    if progress.position < second.len() {
        let step = second[progress.position as int];
        assert(joint.pending() == Some(step));
        let answer = sim.answer(step);
        if progress.exhausted(answer) is None {
            lemma_carried_behind(sim.performed(step), first, second, progress.advanced(answer));
            assert(joint.advanced(answer) == Progress {
                steps: first + second,
                position: first.len() + progress.advanced(answer).position,
                ..progress.advanced(answer)
            });
        }
    } else {
        assert(joint.pending() is None);
    }
}

/// The front part of a transaction is carried out as it would be on its own,
/// and where it ends without a timeout the rest follows from its first step.
proof fn lemma_carried_in_front(
    sim: Simulator,
    first: Seq<Step>,
    second: Seq<Step>,
    progress: Progress,
)
    requires
        progress.steps == first,
        progress.position <= first.len(),
        progress.position == first.len() ==> progress.misses == 0,
    ensures
        sim.carried(Progress { steps: first + second, ..progress }) == (match sim.carried(
            progress,
        ).1 {
            Some(_) => sim.carried(progress),
            None => sim.carried(progress).0.carried(
                Progress { steps: second, position: 0, misses: 0, patience: progress.patience },
            ),
        }),
    decreases progress.steps.len() - progress.position, progress.patience - progress.misses,
{
    let joint = Progress { steps: first + second, ..progress };
    if progress.position < first.len() {
        let step = first[progress.position as int];
        assert(joint.pending() == Some(step));
        let answer = sim.answer(step);
        if progress.exhausted(answer) is None {
            lemma_carried_in_front(sim.performed(step), first, second, progress.advanced(answer));
            assert(joint.advanced(answer) == Progress {
                steps: first + second,
                ..progress.advanced(answer)
            });
        }
    } else {
        lemma_carried_behind(
            sim,
            first,
            second,
            Progress { steps: second, position: 0, misses: 0, patience: progress.patience },
        );
    }
}

/// Two transactions in a row do what the first does and then, unless the
/// first timed out, what the second does.
pub proof fn lemma_transactions_in_a_row(
    sim: Simulator,
    first: Seq<Step>,
    second: Seq<Step>,
    patience: nat,
)
    ensures
        sim.executed(first + second, patience) == (match sim.executed(first, patience).1 {
            Some(_) => sim.executed(first, patience),
            None => sim.executed(first, patience).0.executed(second, patience),
        }),
{
    lemma_carried_in_front(
        sim,
        first,
        second,
        Progress { steps: first, position: 0, misses: 0, patience },
    );
}

/// A step that awaits nothing is carried out once, and the transaction goes
/// on with the next step.
proof fn lemma_write_is_one_step(sim: Simulator, progress: Progress)
    requires
        progress.pending() is Some,
        !(progress.pending().unwrap() is AwaitFlag),
    ensures
        sim.carried(progress) == sim.performed(progress.pending().unwrap()).carried(
            past_pending(progress),
        ),
{
}

/// The state after a wait as in `sync_steps` that did not time out: both
/// fields have been read as set, and a write that was under way has taken
/// effect.
pub open spec fn synced(sim: Simulator) -> Simulator {
    seen_ready(seen_ready(sim, Flag::Synchronized), Flag::WriteComplete)
}

/// The wait of `sync_steps` ends well exactly when both fields come up in
/// time; otherwise it ends with a timeout that names the first field that
/// did not. Where it ends well it leaves the registers as `synced` says.
pub proof fn lemma_sync_waits_for_both(sim: Simulator, patience: nat)
    ensures
        sim.executed(sync_steps(), patience).1 == (if !within(sim.sync_wait, patience) {
            Some(TimeoutError { flag: Flag::Synchronized })
        } else if !within(sim.write_wait, patience) {
            Some(TimeoutError { flag: Flag::WriteComplete })
        } else {
            None
        }),
        within(sim.sync_wait, patience) && within(sim.write_wait, patience) ==> sim.executed(
            sync_steps(),
            patience,
        ).0 == synced(sim),
{
    let start = Progress { steps: sync_steps(), position: 0, misses: 0, patience };
    if within(sim.sync_wait, patience) {
        lemma_await_succeeds(sim, start, Flag::Synchronized);
        let half = seen_ready(sim, Flag::Synchronized);
        if within(sim.write_wait, patience) {
            lemma_await_succeeds(half, past_pending(start), Flag::WriteComplete);
            assert(past_pending(past_pending(start)).pending() is None);
        } else {
            lemma_await_times_out(half, past_pending(start), Flag::WriteComplete);
        }
    } else {
        lemma_await_times_out(sim, start, Flag::Synchronized);
    }
}

/// The counter changes in one way only: when a write is seen to be complete
/// outside configuration mode, and then to the value that was staged, both
/// halves at once.
pub proof fn lemma_counter_changes_by_landing_only(sim: Simulator, step: Step)
    ensures
        sim.performed(step).counter == sim.counter || (step == Step::AwaitFlag(
            Flag::WriteComplete,
        ) && sim.write_wait == Some(0u32) && !sim.config_mode && sim.performed(step).counter
            == sim.staged_counter()),
{
}

/// The registers in configuration mode with both halves of `value` staged.
pub open spec fn counter_staged(sim: Simulator, value: u32) -> Simulator {
    Simulator {
        config_mode: true,
        staged_counter_low: Some(low_half(value)),
        staged_counter_high: Some(high_half(value)),
        ..sim
    }
}

/// The way into a write of the counter: on a clock outside configuration
/// mode whose backup domain takes writes and whose readiness fields come up
/// in time, the steps of `set_cnt` end without a timeout, in configuration
/// mode, with `value` staged as a whole. The counter that a reader sees is
/// not touched by them.
pub proof fn lemma_set_cnt_stages(sim: Simulator, value: u32, patience: nat)
    requires
        sim.backup_clock,
        sim.backup_access,
        !sim.config_mode,
        within(sim.sync_wait, patience),
        within(sim.write_wait, patience),
    ensures
        sim.executed(entry_steps(counter_writes(value)), patience) == (
            counter_staged(synced(sim), value),
            None::<TimeoutError>,
        ),
        counter_staged(synced(sim), value).counter == synced(sim).counter,
        counter_staged(synced(sim), value).staged_counter() == value,
        sim.staged_counter_high is None && sim.staged_counter_low is None ==> synced(sim).counter
            == sim.counter,
{
    let front = sync_steps() + seq![Step::SetFlag(Flag::ConfigMode)];
    lemma_sync_waits_for_both(sim, patience);
    lemma_transactions_in_a_row(sim, sync_steps(), seq![Step::SetFlag(Flag::ConfigMode)], patience);
    lemma_transactions_in_a_row(sim, front, counter_writes(value), patience);
    let ready = synced(sim);
    let switch = Progress {
        steps: seq![Step::SetFlag(Flag::ConfigMode)],
        position: 0,
        misses: 0,
        patience,
    };
    lemma_write_is_one_step(ready, switch);
    let inside = Simulator { config_mode: true, ..ready };
    assert(past_pending(switch).pending() is None);
    assert(ready.executed(seq![Step::SetFlag(Flag::ConfigMode)], patience) == (
        inside,
        None::<TimeoutError>,
    ));
    let writes = Progress { steps: counter_writes(value), position: 0, misses: 0, patience };
    lemma_write_is_one_step(inside, writes);
    lemma_write_is_one_step(
        inside.performed(Step::WriteCounterLow(low_half(value))),
        past_pending(writes),
    );
    assert(past_pending(past_pending(writes)).pending() is None);
    assert(inside.executed(counter_writes(value), patience) == (
        counter_staged(ready, value),
        None::<TimeoutError>,
    ));
}

/// The state after the steps of `commit` that did not time out: out of
/// configuration mode, with what was staged in effect.
pub open spec fn committed(sim: Simulator) -> Simulator {
    synced(Simulator { config_mode: false, write_wait: sim.write_latency, ..sim })
}

/// The way out of configuration mode: where the readiness fields come up in
/// time, the steps of `commit` end without a timeout and leave the registers
/// as `committed` says.
pub proof fn lemma_commit_lands(sim: Simulator, patience: nat)
    requires
        sim.config_mode,
        sim.accepts_writes(),
        within(sim.sync_wait, patience),
        within(sim.write_latency, patience),
    ensures
        sim.executed(commit_steps(), patience) == (committed(sim), None::<TimeoutError>),
        !committed(sim).config_mode,
        committed(sim).counter == sim.staged_counter(),
        committed(sim).prescaler == sim.staged_prescaler(),
{
    lemma_transactions_in_a_row(sim, seq![Step::ClearFlag(Flag::ConfigMode)], sync_steps(), patience);
    let switch = Progress {
        steps: seq![Step::ClearFlag(Flag::ConfigMode)],
        position: 0,
        misses: 0,
        patience,
    };
    lemma_write_is_one_step(sim, switch);
    assert(past_pending(switch).pending() is None);
    let outside = Simulator { config_mode: false, write_wait: sim.write_latency, ..sim };
    assert(sim.executed(seq![Step::ClearFlag(Flag::ConfigMode)], patience) == (
        outside,
        None::<TimeoutError>,
    ));
    lemma_sync_waits_for_both(outside, patience);
}

/// A counter that is written and committed reads as what was written: on a
/// clock outside configuration mode whose backup domain takes writes and
/// whose readiness fields come up in time, the steps of `set_cnt` followed by
/// those of `commit` end without a timeout, and the two halves of the
/// counter, put together as `get_cnt` does, are `value`.
pub proof fn lemma_write_then_read(sim: Simulator, value: u32, patience: nat)
    requires
        sim.backup_clock,
        sim.backup_access,
        !sim.config_mode,
        within(sim.sync_wait, patience),
        within(sim.write_wait, patience),
        within(sim.write_latency, patience),
    ensures
        ({
            let begun = sim.executed(entry_steps(counter_writes(value)), patience);
            let ended = begun.0.executed(commit_steps(), patience);
            &&& begun.1 is None
            &&& ended.1 is None
            &&& ended.0 == committed(counter_staged(synced(sim), value))
            &&& !ended.0.config_mode
            &&& ended.0.accepts_writes()
            &&& ended.0.counter == value
            &&& joined(high_half(ended.0.counter), low_half(ended.0.counter)) == value
        }),
{
    lemma_set_cnt_stages(sim, value, patience);
    lemma_commit_lands(counter_staged(synced(sim), value), patience);
}

/// The registers after `power_up_steps` on an oscillator that starts.
pub open spec fn powered_up(sim: Simulator) -> Simulator {
    Simulator {
        power_clock: true,
        backup_clock: true,
        backup_access: true,
        oscillator_bypass: false,
        oscillator_on: true,
        oscillator_wait: Some(0u32),
        external_oscillator: true,
        clock_enable: true,
        ..sim
    }
}

/// Bringing the clock up: where the oscillator starts in time, the steps of
/// `power_up_steps` leave the registers as `powered_up` says; where it does
/// not, they end with a timeout that names `OscillatorReady`, before a
/// source is selected or the clock is let count.
pub proof fn lemma_power_up(sim: Simulator, patience: nat)
    ensures
        within(sim.oscillator_wait, patience) ==> sim.executed(power_up_steps(), patience) == (
            powered_up(sim),
            None::<TimeoutError>,
        ),
        !within(sim.oscillator_wait, patience) ==> ({
            let stopped = sim.executed(power_up_steps(), patience);
            &&& stopped.1 == Some(TimeoutError { flag: Flag::OscillatorReady })
            &&& stopped.0.external_oscillator == sim.external_oscillator
            &&& stopped.0.clock_enable == sim.clock_enable
        }),
{
    let at0 = Progress { steps: power_up_steps(), position: 0, misses: 0, patience };
    let sim1 = sim.performed(Step::SetFlag(Flag::PowerClock));
    lemma_write_is_one_step(sim, at0);
    let at1 = past_pending(at0);
    let sim2 = sim1.performed(Step::SetFlag(Flag::BackupClock));
    lemma_write_is_one_step(sim1, at1);
    let at2 = past_pending(at1);
    let sim3 = sim2.performed(Step::SetFlag(Flag::BackupAccess));
    lemma_write_is_one_step(sim2, at2);
    let at3 = past_pending(at2);
    let sim4 = sim3.performed(Step::ClearFlag(Flag::OscillatorBypass));
    lemma_write_is_one_step(sim3, at3);
    let at4 = past_pending(at3);
    let sim5 = sim4.performed(Step::SetFlag(Flag::OscillatorOn));
    lemma_write_is_one_step(sim4, at4);
    let at5 = past_pending(at4);
    assert(sim.carried(at0) == sim5.carried(at5));
    assert(at5.pending() == Some(Step::AwaitFlag(Flag::OscillatorReady)));
    if within(sim.oscillator_wait, patience) {
        lemma_await_succeeds(sim5, at5, Flag::OscillatorReady);
        let sim6 = seen_ready(sim5, Flag::OscillatorReady);
        let at6 = past_pending(at5);
        let sim7 = sim6.performed(Step::SelectExternalOscillator);
        lemma_write_is_one_step(sim6, at6);
        let at7 = past_pending(at6);
        lemma_write_is_one_step(sim7, at7);
        assert(past_pending(at7).pending() is None);
    } else {
        lemma_await_times_out(sim5, at5, Flag::OscillatorReady);
        lemma_vain_wait_leaves_clock_alone(sim5, at5);
    }
}

/// A wait for the oscillator that runs out has polled and done nothing else:
/// source and enable bit of the clock are as they were.
proof fn lemma_vain_wait_leaves_clock_alone(sim: Simulator, progress: Progress)
    requires
        progress.pending() == Some(Step::AwaitFlag(Flag::OscillatorReady)),
        !within(wait_for(sim, Flag::OscillatorReady), (progress.patience - progress.misses) as nat),
        progress.misses <= progress.patience,
    ensures
        sim.carried(progress).0.external_oscillator == sim.external_oscillator,
        sim.carried(progress).0.clock_enable == sim.clock_enable,
    decreases progress.patience - progress.misses,
{
    assert(!sim.answer(Step::AwaitFlag(Flag::OscillatorReady)));
    if progress.misses < progress.patience {
        let next = sim.performed(Step::AwaitFlag(Flag::OscillatorReady));
        lemma_vain_wait_leaves_clock_alone(next, progress.advanced(false));
    }
}

/// The registers in configuration mode with the prescaler for the external
/// oscillator staged.
pub open spec fn prescaler_staged(sim: Simulator) -> Simulator {
    Simulator {
        config_mode: true,
        staged_prescaler_high: Some(0u8),
        staged_prescaler_low: Some(32767u16),
        ..sim
    }
}

/// The registers after `start_steps(false)` on hardware that comes up.
pub open spec fn started(sim: Simulator) -> Simulator {
    Simulator {
        power_clock: true,
        backup_clock: true,
        backup_access: true,
        oscillator_bypass: false,
        oscillator_on: true,
        external_oscillator: true,
        clock_enable: true,
        config_mode: false,
        prescaler: (OSCILLATOR_HZ - 1) as u32,
        counter: sim.staged_counter(),
        staged_prescaler_high: None,
        staged_prescaler_low: None,
        staged_counter_high: None,
        staged_counter_low: None,
        oscillator_wait: Some(0u32),
        sync_wait: Some(0u32),
        write_wait: Some(0u32),
        ..sim
    }
}

/// The start of a clock that has not been set up: where oscillator and
/// readiness fields come up in time, `start_steps(false)` ends without a
/// timeout and leaves the registers as `started` says. The clock then counts
/// from the external oscillator, once a second, outside configuration mode,
/// and can be read and written. Its counter is the one it had, unless a
/// write to it was still under way.
pub proof fn lemma_start_brings_clock_up(sim: Simulator, patience: nat)
    requires
        within(sim.oscillator_wait, patience),
        within(sim.sync_wait, patience),
        within(sim.write_wait, patience),
        within(sim.write_latency, patience),
    ensures
        ({
            let up = sim.executed(start_steps(false), patience);
            &&& up.1 is None
            &&& up.0 == started(sim)
            &&& up.0.counts()
            &&& up.0.accepts_writes()
            &&& up.0.reading(Flag::Synchronized)
            &&& up.0.prescaler == OSCILLATOR_HZ - 1
            &&& sim.staged_counter_high is None && sim.staged_counter_low is None ==> up.0.counter
                == sim.counter
        }),
{
    let writes = prescaler_writes(OSCILLATOR_HZ);
    let entry = entry_steps(writes);
    lemma_transactions_in_a_row(
        sim,
        power_up_steps() + entry + commit_steps(),
        sync_steps(),
        patience,
    );
    lemma_transactions_in_a_row(sim, power_up_steps() + entry, commit_steps(), patience);
    lemma_transactions_in_a_row(sim, power_up_steps(), entry, patience);
    lemma_power_up(sim, patience);
    let powered = powered_up(sim);

    let front = sync_steps() + seq![Step::SetFlag(Flag::ConfigMode)];
    lemma_sync_waits_for_both(powered, patience);
    lemma_transactions_in_a_row(
        powered,
        sync_steps(),
        seq![Step::SetFlag(Flag::ConfigMode)],
        patience,
    );
    lemma_transactions_in_a_row(powered, front, writes, patience);
    let ready = synced(powered);
    let switch = Progress {
        steps: seq![Step::SetFlag(Flag::ConfigMode)],
        position: 0,
        misses: 0,
        patience,
    };
    lemma_write_is_one_step(ready, switch);
    assert(past_pending(switch).pending() is None);
    let inside = ready.written(Flag::ConfigMode, true);
    assert(inside.config_mode);
    let staging = Progress { steps: writes, position: 0, misses: 0, patience };
    lemma_write_is_one_step(inside, staging);
    lemma_write_is_one_step(inside.performed(Step::WritePrescalerHigh(0u8)), past_pending(staging));
    assert(past_pending(past_pending(staging)).pending() is None);
    let staged = prescaler_staged(inside);
    assert(powered.executed(entry, patience) == (staged, None::<TimeoutError>));
    lemma_commit_lands(staged, patience);
    let done = committed(staged);
    lemma_sync_waits_for_both(done, patience);
}

/// The start of a clock that has been set up before: `start_steps(true)`
/// only waits. Where the readiness fields come up in time it ends without a
/// timeout, and no field of the configuration has changed.
pub proof fn lemma_restart_keeps_configuration(sim: Simulator, patience: nat)
    requires
        within(sim.sync_wait, patience),
        within(sim.write_wait, patience),
    ensures
        ({
            let up = sim.executed(start_steps(true), patience);
            &&& up.1 is None
            &&& up.0 == synced(sim)
            &&& up.0.power_clock == sim.power_clock
            &&& up.0.backup_clock == sim.backup_clock
            &&& up.0.backup_access == sim.backup_access
            &&& up.0.oscillator_bypass == sim.oscillator_bypass
            &&& up.0.oscillator_on == sim.oscillator_on
            &&& up.0.external_oscillator == sim.external_oscillator
            &&& up.0.clock_enable == sim.clock_enable
            &&& up.0.config_mode == sim.config_mode
            &&& up.0.second_interrupt == sim.second_interrupt
            &&& up.0.interrupt_unmasked == sim.interrupt_unmasked
            &&& sim.config_mode || (sim.staged_prescaler_high is None && sim.staged_prescaler_low
                is None) ==> up.0.prescaler == sim.prescaler
            &&& sim.config_mode || (sim.staged_counter_high is None && sim.staged_counter_low
                is None) ==> up.0.counter == sim.counter
        }),
{
    lemma_sync_waits_for_both(sim, patience);
}

/// One acknowledgement per second: once the steps of
/// `enable_second_interrupt` are carried out, every second of a clock that
/// counts raises the interrupt; the step of `clear_second_interrupt` takes
/// it back, so that the handler is not entered again, and leaves it enabled
/// for the second that follows.
pub proof fn lemma_one_acknowledgement_per_second(sim: Simulator, patience: nat)
    requires
        sim.counts(),
        sim.accepts_writes(),
    ensures
        ({
            let enabled = sim.executed(enable_interrupt_steps(), patience);
            let second = enabled.0.ticked();
            let served = second.executed(clear_interrupt_steps(), patience);
            &&& enabled.1 is None
            &&& enabled.0 == Simulator { second_interrupt: true, interrupt_unmasked: true, ..sim }
            &&& enabled.0.interrupt_requested() == sim.second_flag
            &&& second.interrupt_requested()
            &&& served.1 is None
            &&& !served.0.interrupt_requested()
            &&& served.0 == Simulator { second_flag: false, ..second }
            &&& served.0.ticked().interrupt_requested()
        }),
{
    let arm = Progress { steps: enable_interrupt_steps(), position: 0, misses: 0, patience };
    lemma_write_is_one_step(sim, arm);
    lemma_write_is_one_step(sim.performed(Step::SetFlag(Flag::SecondInterrupt)), past_pending(arm));
    assert(past_pending(past_pending(arm)).pending() is None);
    let enabled = sim.executed(enable_interrupt_steps(), patience);
    let second = enabled.0.ticked();
    let serve = Progress { steps: clear_interrupt_steps(), position: 0, misses: 0, patience };
    lemma_write_is_one_step(second, serve);
    assert(past_pending(serve).pending() is None);
}

} // verus!
