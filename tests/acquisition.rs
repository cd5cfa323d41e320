use tds_meter::acquisition::{Acquisition, Action, Error, Phase, Reading};
use tds_meter::{NO_SAMPLES, SAMPLE_INTERVAL_MS};

#[derive(Debug, PartialEq)]
struct AdcFault(u8);

#[test]
fn new_acquisition_starts_by_reading() {
    let acq = Acquisition::new();
    assert_eq!(acq.phase(), Phase::Reading);
}

#[test]
fn successful_run_pauses_once_after_every_sample() {
    let mut acq = Acquisition::new();
    let mut sleeps = 0usize;
    let mut reads = 0usize;
    let mut next = 0u16;
    let mut action: Action<AdcFault> = Action::Read;
    let filtered = loop {
        match action {
            Action::Read => {
                reads += 1;
                assert_eq!(acq.phase(), Phase::Reading);
                // reads are never issued while a pause is owed
                assert_eq!(reads, sleeps + 1);
                let code = (next * 37) % 101;
                next += 1;
                action = acq.on_read(Reading::Sample(code));
            }
            Action::Sleep(ms) => {
                assert_eq!(ms, SAMPLE_INTERVAL_MS);
                assert_eq!(ms, 40);
                sleeps += 1;
                assert_eq!(acq.phase(), Phase::Sleeping);
                action = acq.on_slept();
            }
            Action::Done(v) => break v,
            Action::Fail(_) => panic!("no read failed"),
        }
    };
    assert_eq!(sleeps, NO_SAMPLES);
    assert_eq!(reads, NO_SAMPLES);
    assert_eq!(acq.phase(), Phase::Finished);
    let mut codes: Vec<u16> = (0..NO_SAMPLES as u16).map(|i| (i * 37) % 101).collect();
    codes.sort();
    assert_eq!(filtered, codes[15]);
}

#[test]
fn thirty_zeros_filter_to_zero() {
    let mut acq = Acquisition::new();
    for _ in 0..NO_SAMPLES - 1 {
        assert!(matches!(acq.on_read::<AdcFault>(Reading::Sample(0)), Action::Sleep(40)));
        assert!(matches!(acq.on_slept::<AdcFault>(), Action::Read));
    }
    assert!(matches!(acq.on_read::<AdcFault>(Reading::Sample(0)), Action::Sleep(40)));
    assert!(matches!(acq.on_slept::<AdcFault>(), Action::Done(0)));
}

#[test]
fn thirty_equal_codes_filter_to_that_code() {
    let mut acq = Acquisition::new();
    let mut last = Action::Read;
    for _ in 0..NO_SAMPLES {
        assert!(matches!(acq.on_read::<AdcFault>(Reading::Sample(2048)), Action::Sleep(40)));
        last = acq.on_slept::<AdcFault>();
    }
    assert!(matches!(last, Action::Done(2048)));
}

#[test]
fn hard_failure_on_any_sample_aborts_with_that_error() {
    for k in 0..NO_SAMPLES {
        let mut acq = Acquisition::new();
        for i in 0..k {
            assert!(matches!(acq.on_read::<AdcFault>(Reading::Sample(i as u16)), Action::Sleep(_)));
            assert!(matches!(acq.on_slept::<AdcFault>(), Action::Read));
        }
        match acq.on_read(Reading::Failed(AdcFault(k as u8))) {
            Action::Fail(Error::ReadError(e)) => assert_eq!(e, AdcFault(k as u8)),
            _ => panic!("a hard failure must end the measurement"),
        }
        assert_eq!(acq.phase(), Phase::Finished);
    }
}

#[test]
fn not_ready_is_retried_without_progress() {
    let mut acq = Acquisition::new();
    for _ in 0..10_000 {
        assert!(matches!(acq.on_read::<AdcFault>(Reading::NotReady), Action::Read));
        assert_eq!(acq.phase(), Phase::Reading);
    }
    // the first sample that does arrive is the first one stored
    assert!(matches!(acq.on_read::<AdcFault>(Reading::Sample(7)), Action::Sleep(40)));
    assert_eq!(acq.phase(), Phase::Sleeping);
}

#[test]
fn not_ready_between_samples_changes_nothing() {
    let mut acq = Acquisition::new();
    let mut last = Action::Read;
    for i in 0..NO_SAMPLES {
        for _ in 0..(i % 4) {
            assert!(matches!(acq.on_read::<AdcFault>(Reading::NotReady), Action::Read));
        }
        assert!(matches!(acq.on_read::<AdcFault>(Reading::Sample(100 + i as u16)), Action::Sleep(40)));
        last = acq.on_slept::<AdcFault>();
    }
    assert!(matches!(last, Action::Done(115)));
}
