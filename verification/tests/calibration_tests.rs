use esp32c3_airmouse::calibration::{Calibration, CalibrationError, CalibrationStep, MAX_ATTEMPTS};

fn run(c: &mut Calibration, rest: impl Fn(usize) -> bool) -> usize {
    let mut reads = 0;
    loop {
        match c.next_step() {
            CalibrationStep::Discard => c.discarded(),
            CalibrationStep::Sample => c.record(rest(reads)),
            CalibrationStep::Done => return reads,
        }
        reads += 1;
    }
}

#[test]
fn discards_first_then_samples() {
    let mut c = Calibration::new(2, 3);
    assert_eq!(c.next_step(), CalibrationStep::Discard);
    c.discarded();
    assert_eq!(c.next_step(), CalibrationStep::Discard);
    c.discarded();
    assert_eq!(c.next_step(), CalibrationStep::Sample);
}

#[test]
fn all_at_rest_keeps_exactly_the_wanted_samples() {
    let mut c = Calibration::new(60, 200);
    let reads = run(&mut c, |_| true);
    assert_eq!(reads, 260);
    assert_eq!(c.kept(), 200);
    assert_eq!(c.rejected(), 0);
    assert_eq!(c.outcome(), Ok(200));
}

#[test]
fn moving_samples_are_excluded() {
    let mut c = Calibration::new(0, 4);
    // every other sample is taken while moving
    let reads = run(&mut c, |i| i % 2 == 1);
    assert_eq!(reads, 8);
    assert_eq!(c.kept(), 4);
    assert_eq!(c.rejected(), 4);
    assert_eq!(c.outcome(), Ok(4));
}

#[test]
fn gives_up_after_max_attempts() {
    let mut c = Calibration::new(10, 5);
    let reads = run(&mut c, |_| false);
    assert_eq!(reads, 10 + 5 * MAX_ATTEMPTS);
    assert_eq!(c.kept(), 0);
    assert_eq!(c.rejected(), 5 * MAX_ATTEMPTS);
    assert_eq!(c.outcome(), Err(CalibrationError::NoRestSamples));
}

#[test]
fn partial_success_averages_what_was_kept() {
    let mut c = Calibration::new(0, 3);
    // only the very last attempt is at rest
    let reads = run(&mut c, |i| i == 3 * MAX_ATTEMPTS - 1);
    assert_eq!(reads, 3 * MAX_ATTEMPTS);
    assert_eq!(c.outcome(), Ok(1));
}

#[test]
fn zero_samples_fails_immediately() {
    let mut c = Calibration::new(0, 0);
    assert_eq!(c.next_step(), CalibrationStep::Done);
    assert_eq!(run(&mut c, |_| true), 0);
    assert_eq!(c.outcome(), Err(CalibrationError::NoRestSamples));
}
