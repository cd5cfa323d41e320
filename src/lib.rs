//! Driver logic for a Total Dissolved Solids (TDS) probe read through an ADC.
//!
//! The library holds the verified part of a measurement: the acquisition of a
//! fixed window of raw samples (as a state machine that tells its caller when
//! to read and when to sleep) and the median filter over that window.
use vstd::prelude::*;

pub mod acquisition;
pub mod filter;

verus! {

/// Number of raw samples that one measurement collects.
pub const NO_SAMPLES: usize = 30;

/// Pause, in milliseconds, after every successful sample.
pub const SAMPLE_INTERVAL_MS: u16 = 40;

} // verus!
