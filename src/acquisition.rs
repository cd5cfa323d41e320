//! Acquisition of one window of raw samples.
//!
//! The ADC and the delay belong to the caller. An `Acquisition` decides, from
//! what the last read or sleep produced, what the caller must do next: read
//! again, sleep for a fixed interval, stop with the filtered raw value, or
//! stop with the read failure.
use vstd::prelude::*;

use crate::filter::{lower_median, median};
use crate::{NO_SAMPLES, SAMPLE_INTERVAL_MS};

verus! {

/// Why a measurement failed.
pub enum Error<AdcError> {
    /// The ADC reported a hard failure; it is handed back unchanged.
    ReadError(AdcError),
}

/// The result of one single-shot read of the probe's channel.
pub enum Reading<E> {
    /// A raw code, widened to 16 bits.
    Sample(u16),
    /// The conversion is not ready yet; the read may be retried.
    NotReady,
    /// The ADC failed hard.
    Failed(E),
}

/// Where an acquisition stands.
#[derive(Clone, Copy, Debug, PartialEq, Eq, Structural)]
pub enum Phase {
    /// Waiting for the result of a single-shot read.
    Reading,
    /// Waiting for the caller to finish the pause after a sample.
    Sleeping,
    /// Done, with a filtered value or with a failure; no more work is asked.
    Finished,
}

/// What the caller must do next.
pub enum Action<E> {
    /// Attempt a single-shot read and hand its result to `on_read`.
    Read,
    /// Block for this many milliseconds, then call `on_slept`.
    Sleep(u16),
    /// The window is complete; this is its lower median.
    Done(u16),
    /// A read failed hard; the measurement is over.
    Fail(Error<E>),
}

/// The abstract state of an acquisition: the samples collected so far, in
/// the order they came, and the phase.
pub struct Progress {
    pub collected: Seq<u16>,
    pub phase: Phase,
}

/// The state at the start of a measurement.
pub open spec fn initial_progress() -> Progress {
    Progress { collected: Seq::empty(), phase: Phase::Reading }
}

/// A state that an acquisition can be in.
pub open spec fn progress_wf(p: Progress) -> bool {
    &&& p.collected.len() <= NO_SAMPLES
    &&& p.phase == Phase::Reading ==> p.collected.len() < NO_SAMPLES
    &&& p.phase == Phase::Sleeping ==> p.collected.len() >= 1
}

/// The next state and action once a read has returned `r`.
pub open spec fn after_read<E>(p: Progress, r: Reading<E>) -> (Progress, Action<E>) {
    match r {
        Reading::Sample(w) => (
            Progress { collected: p.collected.push(w), phase: Phase::Sleeping },
            Action::Sleep(SAMPLE_INTERVAL_MS),
        ),
        Reading::NotReady => (p, Action::Read),
        Reading::Failed(e) => (
            Progress { collected: p.collected, phase: Phase::Finished },
            Action::Fail(Error::ReadError(e)),
        ),
    }
}

/// The next state and action once the pause after a sample is over.
pub open spec fn after_sleep<E>(p: Progress) -> (Progress, Action<E>) {
    if p.collected.len() < NO_SAMPLES {
        (Progress { collected: p.collected, phase: Phase::Reading }, Action::Read)
    } else {
        (
            Progress { collected: p.collected, phase: Phase::Finished },
            Action::Done(lower_median(p.collected)),
        )
    }
}

/// The state reached, and the actions asked for in order, when every read of
/// `words` succeeds at once and each pause is taken as asked.
pub open spec fn run_of_samples<E>(p: Progress, words: Seq<u16>) -> (Progress, Seq<Action<E>>)
    decreases words.len(),
{
    if words.len() == 0 {
        (p, Seq::empty())
    } else {
        let (p1, a1) = after_read::<E>(p, Reading::Sample(words[0]));
        let (p2, a2) = after_sleep::<E>(p1);
        let (q, rest) = run_of_samples::<E>(p2, words.drop_first());
        (q, seq![a1, a2] + rest)
    }
}

/// The state reached, and the last action asked for, after `n` reads in a
/// row that report "not ready".
pub open spec fn after_not_ready<E>(p: Progress, n: nat) -> (Progress, Action<E>)
    decreases n,
{
    if n == 0 {
        (p, Action::Read)
    } else {
        after_read::<E>(after_not_ready::<E>(p, (n - 1) as nat).0, Reading::NotReady)
    }
}

proof fn lemma_run_of_samples<E>(p: Progress, words: Seq<u16>)
    requires
        p.phase == Phase::Reading,
        p.collected.len() + words.len() <= NO_SAMPLES,
    ensures
        run_of_samples::<E>(p, words).0.collected == p.collected + words,
        run_of_samples::<E>(p, words).1.len() == 2 * words.len(),
        forall|j: int|
            0 <= j < 2 * words.len() && j % 2 == 0 ==> #[trigger] run_of_samples::<E>(
                p,
                words,
            ).1[j] == Action::<E>::Sleep(SAMPLE_INTERVAL_MS),
        forall|j: int|
            0 <= j < 2 * words.len() - 1 && j % 2 == 1 ==> #[trigger] run_of_samples::<E>(
                p,
                words,
            ).1[j] == Action::<E>::Read,
        p.collected.len() + words.len() < NO_SAMPLES ==> run_of_samples::<E>(p, words).0.phase
            == Phase::Reading,
        p.collected.len() + words.len() < NO_SAMPLES && words.len() > 0 ==> run_of_samples::<E>(
            p,
            words,
        ).1.last() == Action::<E>::Read,
        p.collected.len() + words.len() == NO_SAMPLES && words.len() > 0 ==> {
            &&& run_of_samples::<E>(p, words).0.phase == Phase::Finished
            &&& run_of_samples::<E>(p, words).1.last() == Action::<E>::Done(
                lower_median(p.collected + words),
            )
        },
    decreases words.len(),
{
    if words.len() > 0 {
        let (p1, a1) = after_read::<E>(p, Reading::Sample(words[0]));
        let (p2, a2) = after_sleep::<E>(p1);
        let tail = words.drop_first();
        assert(p.collected + words =~= p2.collected + tail);
        if tail.len() == 0 {
            assert(run_of_samples::<E>(p2, tail).1 =~= Seq::<Action<E>>::empty());
            assert(run_of_samples::<E>(p, words).1 =~= seq![a1, a2]);
        } else {
            lemma_run_of_samples::<E>(p2, tail);
            let rest = run_of_samples::<E>(p2, tail).1;
            let acts = run_of_samples::<E>(p, words).1;
            assert(acts == seq![a1, a2] + rest);
            assert forall|j: int| 2 <= j < acts.len() implies acts[j] == rest[j - 2] by {}
            assert forall|j: int| 0 <= j < 2 * words.len() && j % 2 == 0 implies #[trigger] acts[j]
                == Action::<E>::Sleep(SAMPLE_INTERVAL_MS) by {
                if j >= 2 {
                    assert(rest[j - 2] == Action::<E>::Sleep(SAMPLE_INTERVAL_MS));
                }
            }
            assert forall|j: int| 0 <= j < 2 * words.len() - 1 && j % 2 == 1 implies #[trigger] acts[j]
                == Action::<E>::Read by {
                if j >= 2 {
                    assert(rest[j - 2] == Action::<E>::Read);
                }
            }
        }
    }
}

/// In a measurement whose reads all succeed at once, every sample is followed
/// by exactly one pause of `SAMPLE_INTERVAL_MS` before the next read is asked
/// for, the last sample too: `NO_SAMPLES` pauses in all. The measurement then
/// finishes with the lower median of the samples.
pub proof fn lemma_one_pause_per_sample<E>(words: Seq<u16>)
    requires
        words.len() == NO_SAMPLES,
    ensures
        run_of_samples::<E>(initial_progress(), words).1.len() == 2 * NO_SAMPLES,
        forall|j: int|
            0 <= j < 2 * NO_SAMPLES && j % 2 == 0 ==> #[trigger] run_of_samples::<E>(
                initial_progress(),
                words,
            ).1[j] == Action::<E>::Sleep(SAMPLE_INTERVAL_MS),
        forall|j: int|
            0 <= j < 2 * NO_SAMPLES - 1 && j % 2 == 1 ==> #[trigger] run_of_samples::<E>(
                initial_progress(),
                words,
            ).1[j] == Action::<E>::Read,
        run_of_samples::<E>(initial_progress(), words).1.last() == Action::<E>::Done(
            lower_median(words),
        ),
        run_of_samples::<E>(initial_progress(), words).0.phase == Phase::Finished,
{
    lemma_run_of_samples::<E>(initial_progress(), words);
    assert(initial_progress().collected + words =~= words);
}

/// A hard failure on any sample ends the measurement with exactly that
/// failure. After `words.len()` samples that came at once, a failed read asks
/// for no further read: the acquisition is finished and fails with `e`.
pub proof fn lemma_failure_ends_measurement<E>(words: Seq<u16>, e: E)
    requires
        words.len() < NO_SAMPLES,
    ensures
        run_of_samples::<E>(initial_progress(), words).0.phase == Phase::Reading,
        after_read(run_of_samples::<E>(initial_progress(), words).0, Reading::Failed(e)) == (
        Progress { collected: words, phase: Phase::Finished },
        Action::Fail(Error::ReadError(e))),
{
    lemma_run_of_samples::<E>(initial_progress(), words);
    assert(initial_progress().collected + words =~= words);
}

/// However many reads in a row report "not ready", the acquisition stays
/// where it was and asks for the same read again: without a sample it never
/// moves on.
pub proof fn lemma_not_ready_makes_no_progress<E>(p: Progress, n: nat)
    ensures
        after_not_ready::<E>(p, n) == (p, Action::<E>::Read),
    decreases n,
{
    if n > 0 {
        lemma_not_ready_makes_no_progress::<E>(p, (n - 1) as nat);
    }
}

/// The sample window of one measurement, filled one read at a time.
pub struct Acquisition {
    data: [u16; NO_SAMPLES],
    count: usize,
    phase: Phase,
}

impl View for Acquisition {
    type V = Progress;

    closed spec fn view(&self) -> Progress {
        Progress { collected: self.data@.subrange(0, self.count as int), phase: self.phase }
    }
}

impl Acquisition {
    pub closed spec fn wf(&self) -> bool {
        &&& self.count <= NO_SAMPLES
        &&& self.phase == Phase::Reading ==> self.count < NO_SAMPLES
        &&& self.phase == Phase::Sleeping ==> self.count >= 1
    }

    /// A fresh acquisition; the first thing to do is a read.
    pub fn new() -> (r: Acquisition)
        ensures
            r.wf(),
            r@ == initial_progress(),
    {
        let r = Acquisition { data: [0u16; NO_SAMPLES], count: 0, phase: Phase::Reading };
        assert(r@.collected =~= Seq::<u16>::empty());
        r
    }

    /// The current phase, which tells which of `on_read` and `on_slept` may
    /// be called.
    pub fn phase(&self) -> (r: Phase)
        ensures
            r == self@.phase,
    {
        self.phase
    }

    /// Takes the result of a single-shot read. A sample is stored and asks
    /// for the pause; "not ready" asks for the same read again and changes
    /// nothing; a hard failure ends the acquisition with that failure.
    pub fn on_read<E>(&mut self, r: Reading<E>) -> (a: Action<E>)
        requires
            old(self).wf(),
            old(self)@.phase == Phase::Reading,
        ensures
            final(self).wf(),
            (final(self)@, a) == after_read(old(self)@, r),
    {
        match r {
            Reading::Sample(w) => {
                let ghost before = self@;
                self.data[self.count] = w;
                self.count = self.count + 1;
                self.phase = Phase::Sleeping;
                assert(self@.collected =~= before.collected.push(w));
                Action::Sleep(SAMPLE_INTERVAL_MS)
            },
            Reading::NotReady => Action::Read,
            Reading::Failed(e) => {
                self.phase = Phase::Finished;
                Action::Fail(Error::ReadError(e))
            },
        }
    }

    /// Ends the pause after a sample: asks for the next read, or, once the
    /// window is full, finishes with its lower median.
    pub fn on_slept<E>(&mut self) -> (a: Action<E>)
        requires
            old(self).wf(),
            old(self)@.phase == Phase::Sleeping,
        ensures
            final(self).wf(),
            (final(self)@, a) == after_sleep::<E>(old(self)@),
    {
        if self.count < NO_SAMPLES {
            self.phase = Phase::Reading;
            Action::Read
        } else {
            self.phase = Phase::Finished;
            let m = median(self.data);
            assert(self.data@.subrange(0, self.count as int) =~= self.data@);
            Action::Done(m)
        }
    }
}

} // verus!
