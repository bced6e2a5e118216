//! Walking a transaction one register access at a time.
//!
//! A `Sequencer` decides what is done next; the caller does it and reports
//! what it read. Waiting for a field is bounded: the caller reads the field
//! once per turn, and after too many clear readings the sequencer reports a
//! timeout and leaves it to the caller to go on polling or to give up.

use crate::registers::{Flag, Step, TimeoutError};
use vstd::prelude::*;

verus! {

/// What a `Sequencer` holds, as plain values.
pub struct Progress {
    /// The steps of the transaction.
    pub steps: Seq<Step>,
    /// How many of them are done.
    pub position: nat,
    /// How often the field that is awaited at `position` has read as clear.
    pub misses: nat,
    /// How many clear readings of one awaited field are put up with.
    pub patience: nat,
}

impl Progress {
    /// The step that is to be carried out now, if any is left.
    pub open spec fn pending(self) -> Option<Step> {
        if self.position < self.steps.len() {
            Some(self.steps[self.position as int])
        } else {
            None
        }
    }

    /// The progress after the pending step was carried out once, where
    /// `observed` is what an awaited field read as. A step that writes is
    /// done. An awaited field that read as set is done with; one that read
    /// as clear is polled again, unless it had read as clear `patience`
    /// times before: then the count starts anew.
    pub open spec fn advanced(self, observed: bool) -> Progress {
        match self.pending() {
            None => self,
            Some(Step::AwaitFlag(_)) => if observed {
                Progress { position: self.position + 1, misses: 0, ..self }
            } else if self.misses >= self.patience {
                Progress { misses: 0, ..self }
            } else {
                Progress { misses: self.misses + 1, ..self }
            },
            Some(_) => Progress { position: self.position + 1, misses: 0, ..self },
        }
    }

    /// The field whose wait runs out with one more clear reading, if the
    /// pending step awaits one and it has read as clear `patience` times.
    pub open spec fn exhausted(self, observed: bool) -> Option<Flag> {
        match self.pending() {
            Some(Step::AwaitFlag(flag)) => if !observed && self.misses >= self.patience {
                Some(flag)
            } else {
                None
            },
            _ => None,
        }
    }
}

/// A transaction in progress.
pub struct Sequencer {
    steps: Vec<Step>,
    position: usize,
    misses: u32,
    patience: u32,
}

impl View for Sequencer {
    type V = Progress;

    closed spec fn view(&self) -> Progress {
        Progress {
            steps: self.steps@,
            position: self.position as nat,
            misses: self.misses as nat,
            patience: self.patience as nat,
        }
    }
}

impl Sequencer {
    /// A sequencer at the start of `steps`. A field that is awaited may read
    /// as clear `patience` times; the next clear reading is a timeout.
    pub fn new(steps: Vec<Step>, patience: u32) -> (sequencer: Sequencer)
        ensures
            sequencer@ == (Progress {
                steps: steps@,
                position: 0,
                misses: 0,
                patience: patience as nat,
            }),
    {
        Sequencer { steps, position: 0, misses: 0, patience }
    }

    /// The step to carry out now: a write to perform, or a field to read
    /// once. `None` when the transaction is done.
    pub fn pending(&self) -> (step: Option<Step>)
        ensures
            step == self@.pending(),
    {
        if self.position < self.steps.len() {
            Some(self.steps[self.position])
        } else {
            None
        }
    }

    /// Takes note that the pending step was carried out, with `observed` the
    /// reading of the field if the step awaits one. Returns an error exactly
    /// when the field read as clear once more than the sequencer's patience
    /// allows; the wait then starts anew, should the caller go on.
    pub fn advance(&mut self, observed: bool) -> (outcome: Result<(), TimeoutError>)
        ensures
            final(self)@ == old(self)@.advanced(observed),
            (match old(self)@.exhausted(observed) {
                Some(flag) => outcome == Err::<(), TimeoutError>(TimeoutError { flag }),
                None => outcome.is_ok(),
            }),
    {
        if self.position >= self.steps.len() {
            return Ok(());
        }
        match self.steps[self.position] {
            Step::AwaitFlag(flag) => {
                if observed {
                    self.position = self.position + 1;
                    self.misses = 0;
                    Ok(())
                } else if self.misses >= self.patience {
                    self.misses = 0;
                    Err(TimeoutError { flag })
                } else {
                    self.misses = self.misses + 1;
                    Ok(())
                }
            },
            _ => {
                self.position = self.position + 1;
                self.misses = 0;
                Ok(())
            },
        }
    }
}

} // verus!
