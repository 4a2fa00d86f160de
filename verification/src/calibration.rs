//! Bookkeeping of the gyro bias calibration.
//!
//! Right after power-up the gyro reports full-scale readings while it spins
//! up, and a single such sample in the average shifts the bias by tens of
//! dps. The calibration therefore first throws away a number of samples and
//! then averages only samples taken at rest, giving up after a bounded
//! number of attempts. The caller reads the sensor, decides whether a sample
//! is at rest and sums the kept samples; this state machine decides what to
//! do next and whether the calibration succeeded.
use vstd::prelude::*;

verus! {

/// Upper bound on the number of attempts per wanted sample.
pub const MAX_ATTEMPTS: usize = 10;

/// What the caller must do next.
#[derive(PartialEq, Eq, Structural, Clone, Copy, Debug)]
pub enum CalibrationStep {
    /// Read one sample and throw it away.
    Discard,
    /// Read one sample, classify it as at rest or not, and report it.
    Sample,
    /// No more samples are needed.
    Done,
}

/// Why a calibration failed.
#[derive(PartialEq, Eq, Structural, Clone, Copy, Debug)]
pub enum CalibrationError {
    /// Not a single sample was at rest (the board was moved throughout).
    NoRestSamples,
}

/// Abstract state of a calibration.
pub struct CalibrationState {
    /// Samples still to be thrown away.
    pub discard_left: nat,
    /// Number of at-rest samples wanted.
    pub target: nat,
    /// Most samples that will be taken after the discarded ones.
    pub max_attempts: nat,
    /// Samples taken so far after the discarded ones.
    pub attempts: nat,
    /// Samples taken that were at rest (they go into the average).
    pub kept: nat,
    /// Samples taken that were not at rest (excluded from the average).
    pub rejected: nat,
}

/// The invariant of every calibration state.
pub open spec fn calibration_valid(c: CalibrationState) -> bool {
    &&& c.max_attempts == c.target * MAX_ATTEMPTS
    &&& c.kept + c.rejected == c.attempts
    &&& c.attempts <= c.max_attempts
    &&& c.kept <= c.target
}

/// The next step: first the discards, then samples until enough were kept
/// or the attempts run out.
pub open spec fn calibration_next(c: CalibrationState) -> CalibrationStep {
    if c.discard_left > 0 {
        CalibrationStep::Discard
    } else if c.kept >= c.target || c.attempts >= c.max_attempts {
        CalibrationStep::Done
    } else {
        CalibrationStep::Sample
    }
}

/// Number of sensor reads still to come at most.
pub open spec fn calibration_remaining(c: CalibrationState) -> nat {
    c.discard_left + (c.max_attempts - c.attempts) as nat
}

/// The outcome of a finished calibration: the number of samples to average,
/// or the failure when none was at rest.
pub open spec fn calibration_outcome(c: CalibrationState) -> Result<usize, CalibrationError> {
    if c.kept == 0 {
        Err(CalibrationError::NoRestSamples)
    } else {
        Ok(c.kept as usize)
    }
}

/// Calibration in progress.
pub struct Calibration {
    discard_left: usize,
    target: usize,
    max_attempts: usize,
    attempts: usize,
    kept: usize,
    rejected: usize,
}

impl View for Calibration {
    type V = CalibrationState;

    closed spec fn view(&self) -> CalibrationState {
        CalibrationState {
            discard_left: self.discard_left as nat,
            target: self.target as nat,
            max_attempts: self.max_attempts as nat,
            attempts: self.attempts as nat,
            kept: self.kept as nat,
            rejected: self.rejected as nat,
        }
    }
}

impl Calibration {
    #[verifier::type_invariant]
    spec fn inv(self) -> bool {
        calibration_valid(self@)
    }

    /// Starts a calibration that throws away `discard` samples and then
    /// averages `samples` samples at rest, taking at most
    /// `samples * MAX_ATTEMPTS` samples.
    pub fn new(discard: usize, samples: usize) -> (c: Calibration)
        requires
            samples * MAX_ATTEMPTS <= usize::MAX,
        ensures
            c@ == (CalibrationState {
                discard_left: discard as nat,
                target: samples as nat,
                max_attempts: (samples * MAX_ATTEMPTS) as nat,
                attempts: 0,
                kept: 0,
                rejected: 0,
            }),
            calibration_valid(c@),
    {
        Calibration {
            discard_left: discard,
            target: samples,
            max_attempts: samples * MAX_ATTEMPTS,
            attempts: 0,
            kept: 0,
            rejected: 0,
        }
    }

    /// What to do next.
    pub fn next_step(&self) -> (s: CalibrationStep)
        ensures
            s == calibration_next(self@),
            calibration_valid(self@),
            s == CalibrationStep::Done <==> calibration_remaining(self@) == 0 || (self@.discard_left
                == 0 && self@.kept >= self@.target),
    {
        proof {
            use_type_invariant(self);
        }
        if self.discard_left > 0 {
            CalibrationStep::Discard
        } else if self.kept >= self.target || self.attempts >= self.max_attempts {
            CalibrationStep::Done
        } else {
            CalibrationStep::Sample
        }
    }

    /// One sample was read and thrown away.
    pub fn discarded(&mut self)
        requires
            calibration_next(old(self)@) == CalibrationStep::Discard,
        ensures
            final(self)@ == (CalibrationState {
                discard_left: (old(self)@.discard_left - 1) as nat,
                ..old(self)@
            }),
            calibration_remaining(final(self)@) + 1 == calibration_remaining(old(self)@),
    {
        proof {
            use_type_invariant(&*self);
        }
        self.discard_left = self.discard_left - 1;
    }

    /// One sample was read; `at_rest` tells whether all of its axes were
    /// within the rest limit. Samples at rest are kept for the average, the
    /// others are counted as rejected.
    pub fn record(&mut self, at_rest: bool)
        requires
            calibration_next(old(self)@) == CalibrationStep::Sample,
        ensures
            final(self)@ == (if at_rest {
                CalibrationState {
                    attempts: old(self)@.attempts + 1,
                    kept: old(self)@.kept + 1,
                    ..old(self)@
                }
            } else {
                CalibrationState {
                    attempts: old(self)@.attempts + 1,
                    rejected: old(self)@.rejected + 1,
                    ..old(self)@
                }
            }),
            calibration_valid(final(self)@),
            calibration_remaining(final(self)@) + 1 == calibration_remaining(old(self)@),
    {
        proof {
            use_type_invariant(&*self);
        }
        if at_rest {
            *self = Calibration { attempts: self.attempts + 1, kept: self.kept + 1, ..*self };
        } else {
            *self = Calibration {
                attempts: self.attempts + 1,
                rejected: self.rejected + 1,
                ..*self
            };
        }
    }

    /// Number of samples at rest so far.
    pub fn kept(&self) -> (n: usize)
        ensures
            n == self@.kept,
    {
        self.kept
    }

    /// Number of samples excluded so far because they were not at rest.
    pub fn rejected(&self) -> (n: usize)
        ensures
            n == self@.rejected,
    {
        self.rejected
    }

    /// The outcome: how many samples to average, or the failure when no
    /// sample was at rest.
    pub fn outcome(&self) -> (r: Result<usize, CalibrationError>)
        ensures
            r == calibration_outcome(self@),
    {
        if self.kept == 0 {
            Err(CalibrationError::NoRestSamples)
        } else {
            Ok(self.kept)
        }
    }
}

/// A calibration always comes to an end: as long as it is not done there is
/// a read left, and every read (discarded or recorded) uses one up, so it
/// finishes after at most `discard + samples * MAX_ATTEMPTS` reads.
pub proof fn lemma_calibration_terminates(c: CalibrationState)
    requires
        calibration_valid(c),
    ensures
        calibration_next(c) != CalibrationStep::Done ==> calibration_remaining(c) > 0,
        calibration_remaining(c) <= c.discard_left + c.target * MAX_ATTEMPTS,
{
}

/// A finished calibration averages over exactly the samples kept at rest:
/// its outcome is `Ok(kept)` whenever any sample was kept, and the failure
/// exactly when none was. It never averages more than the wanted number of
/// samples nor more than were taken.
pub proof fn lemma_calibration_outcome(c: CalibrationState)
    requires
        calibration_valid(c),
        c.kept <= usize::MAX,
    ensures
        c.kept > 0 ==> calibration_outcome(c) == Ok::<usize, CalibrationError>(c.kept as usize),
        c.kept == 0 ==> calibration_outcome(c) == Err::<usize, CalibrationError>(
            CalibrationError::NoRestSamples,
        ),
        calibration_outcome(c) matches Ok(n) ==> 1 <= n <= c.target && n <= c.attempts,
        c.kept + c.rejected <= c.target * MAX_ATTEMPTS,
{
}

/// The calibration order: while samples remain to be thrown away, the next
/// step is always a discard, so no sample is taken before all discards are
/// done; afterwards samples are taken exactly while fewer than the wanted
/// number were kept and attempts remain, and then the calibration is done.
pub proof fn lemma_calibration_order(c: CalibrationState)
    ensures
        c.discard_left > 0 ==> calibration_next(c) == CalibrationStep::Discard,
        c.discard_left == 0 && c.kept < c.target && c.attempts < c.max_attempts
            ==> calibration_next(c) == CalibrationStep::Sample,
        c.discard_left == 0 && (c.kept >= c.target || c.attempts >= c.max_attempts)
            ==> calibration_next(c) == CalibrationStep::Done,
{
}

} // verus!
