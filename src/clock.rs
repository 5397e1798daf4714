use vstd::prelude::*;

use vstd::arithmetic::div_mod::{lemma_div_is_ordered, lemma_div_is_ordered_by_denominator};

verus! {

/// Samples per second of every rendered buffer.
pub const SAMPLE_RATE: u32 = 44100;

/// Why a clock could not be built.
#[derive(Clone, Copy, Debug, PartialEq, Eq, Structural)]
pub enum ClockError {
    /// A bar needs at least one step.
    NoSteps,
    /// Beats per minute must be positive.
    BadBpm,
    /// Beats per bar must be positive.
    BadBeatsPerBar,
}

/// Tempo and bar layout shared by every channel.
///
/// `beats_per_bar_milli` holds beats per bar in thousandths of a beat, so that
/// `4000` is four beats.
#[derive(Clone, Copy, Debug, PartialEq, Eq, Structural)]
pub struct Clock {
    /// Steps in one bar.
    pub steps: u32,
    /// Beats per minute.
    pub bpm: u32,
    /// Beats per bar, in thousandths.
    pub beats_per_bar_milli: u32,
}

/// Length of one step in whole milliseconds: a beat lasts `60000 / bpm` ms and
/// a step is one `beats_per_bar`-th of it, rounded down.
pub open spec fn step_millis_of(bpm: int, beats_per_bar_milli: int) -> int {
    60_000_000int / (bpm * beats_per_bar_milli)
}

/// Samples rendered for one step that lasts `ms` milliseconds:
/// `sample_rate * step_duration * 0.8`, rounded down. The 0.8 keeps headroom so
/// that consecutive step buffers do not click where they meet. In integers:
/// `SAMPLE_RATE * ms * 4 / 5000`.
pub open spec fn samples_per_step_of(ms: int) -> int {
    (SAMPLE_RATE * ms * 4) / 5000
}

impl Clock {
    /// The clock holds positive values that fit the arithmetic of rendering.
    pub open spec fn wf(&self) -> bool {
        &&& 1 <= self.steps <= i32::MAX
        &&& 1 <= self.bpm <= i32::MAX
        &&& 1 <= self.beats_per_bar_milli <= i32::MAX
    }

    pub open spec fn spec_step_millis(&self) -> int {
        step_millis_of(self.bpm as int, self.beats_per_bar_milli as int)
    }

    pub open spec fn spec_samples_per_step(&self) -> int {
        samples_per_step_of(self.spec_step_millis())
    }

    /// Samples in one rendered bar.
    pub open spec fn spec_total_samples(&self) -> int {
        self.steps * self.spec_samples_per_step()
    }

    /// Builds a clock, rejecting a step count below one and a tempo or a bar
    /// length that is not positive, checked in that order.
    pub fn new(steps: i32, bpm: i32, beats_per_bar_milli: i32) -> (r: Result<Clock, ClockError>)
        ensures
            steps < 1 ==> r == Err::<Clock, ClockError>(ClockError::NoSteps),
            steps >= 1 && bpm < 1 ==> r == Err::<Clock, ClockError>(ClockError::BadBpm),
            steps >= 1 && bpm >= 1 && beats_per_bar_milli < 1 ==> r == Err::<Clock, ClockError>(
                ClockError::BadBeatsPerBar,
            ),
            steps >= 1 && bpm >= 1 && beats_per_bar_milli >= 1 ==> r == Ok::<Clock, ClockError>(
                (Clock {
                    steps: steps as u32,
                    bpm: bpm as u32,
                    beats_per_bar_milli: beats_per_bar_milli as u32,
                }),
            ),
            r is Ok ==> r->Ok_0.wf(),
    {
        if steps < 1 {
            Err(ClockError::NoSteps)
        } else if bpm < 1 {
            Err(ClockError::BadBpm)
        } else if beats_per_bar_milli < 1 {
            Err(ClockError::BadBeatsPerBar)
        } else {
            Ok(Clock {
                steps: steps as u32,
                bpm: bpm as u32,
                beats_per_bar_milli: beats_per_bar_milli as u32,
            })
        }
    }

    /// Length of one step in milliseconds.
    pub fn step_millis(&self) -> (r: u64)
        requires
            self.wf(),
        ensures
            r == self.spec_step_millis(),
            r <= 60_000_000,
    {
        let b = self.bpm as u64;
        let m = self.beats_per_bar_milli as u64;
        assert(1 <= b * m <= 0x4000_0000_0000_0000) by (nonlinear_arith)
            requires
                1 <= b <= i32::MAX,
                1 <= m <= i32::MAX,
        ;
        let d = b * m;
        assert(60_000_000int / (d as int) <= 60_000_000) by (nonlinear_arith)
            requires
                d >= 1,
        ;
        60_000_000u64 / d
    }

    /// Samples rendered for each step.
    pub fn samples_per_step(&self) -> (r: u64)
        requires
            self.wf(),
        ensures
            r == self.spec_samples_per_step(),
            r <= 2_116_800_000,
    {
        let ms = self.step_millis();
        let rate = SAMPLE_RATE as u64;
        assert(rate * ms * 4 <= 44100 * 60_000_000 * 4) by (nonlinear_arith)
            requires
                rate == 44100,
                ms <= 60_000_000,
        ;
        (rate * ms * 4) / 5000
    }

    /// Samples in one rendered bar: `steps * samples_per_step`.
    pub fn total_samples(&self) -> (r: u64)
        requires
            self.wf(),
        ensures
            r == self.spec_total_samples(),
    {
        let per_step = self.samples_per_step();
        let n = self.steps as u64;
        assert(n * per_step <= 0x8000_0000 * 2_116_800_000) by (nonlinear_arith)
            requires
                n <= 0x8000_0000,
                per_step <= 2_116_800_000,
        ;
        n * per_step
    }

    /// The step that sample `t` of a bar falls in.
    pub fn step_of(&self, t: u64) -> (r: usize)
        requires
            self.wf(),
            t < self.spec_total_samples(),
        ensures
            r == (t as int) / self.spec_samples_per_step(),
            r < self.steps,
    {
        let per_step = self.samples_per_step();
        proof {
            lemma_step_in_range(t as int, per_step as int, self.steps as int);
        }
        (t / per_step) as usize
    }
}

/// A faster tempo, or more beats to the bar, never gives a step more samples:
/// for `bpm1 <= bpm2` and `beats1 <= beats2` (beats in thousandths), the clock
/// at `bpm2` and `beats2` has steps no longer, in milliseconds and in samples,
/// than the clock at `bpm1` and `beats1`.
pub proof fn lemma_faster_tempo_shorter_step(bpm1: int, bpm2: int, beats1: int, beats2: int)
    requires
        1 <= bpm1 <= bpm2,
        1 <= beats1 <= beats2,
    ensures
        step_millis_of(bpm2, beats2) <= step_millis_of(bpm1, beats1),
        samples_per_step_of(step_millis_of(bpm2, beats2)) <= samples_per_step_of(
            step_millis_of(bpm1, beats1),
        ),
{
    let d1 = bpm1 * beats1;
    let d2 = bpm2 * beats2;
    assert(1 <= d1 <= d2) by (nonlinear_arith)
        requires
            1 <= bpm1 <= bpm2,
            1 <= beats1 <= beats2,
            d1 == bpm1 * beats1,
            d2 == bpm2 * beats2,
    ;
    lemma_div_is_ordered_by_denominator(60_000_000, d1, d2);
    let m1 = step_millis_of(bpm1, beats1);
    let m2 = step_millis_of(bpm2, beats2);
    assert(SAMPLE_RATE * m2 * 4 <= SAMPLE_RATE * m1 * 4) by (nonlinear_arith)
        requires
            m2 <= m1,
    ;
    lemma_div_is_ordered(SAMPLE_RATE * m2 * 4, SAMPLE_RATE * m1 * 4, 5000);
}

/// A sample index below `steps * per_step` lies in one of the `steps` steps.
pub proof fn lemma_step_in_range(t: int, per_step: int, steps: int)
    requires
        0 <= t < steps * per_step,
        steps >= 0,
    ensures
        per_step > 0,
        0 <= t / per_step < steps,
{
    if per_step <= 0 {
        assert(steps * per_step <= 0) by (nonlinear_arith)
            requires
                steps >= 0,
                per_step <= 0,
        ;
    }
    assert(0 <= t / per_step < steps) by (nonlinear_arith)
        requires
            0 <= t < steps * per_step,
            per_step > 0,
    ;
}

} // verus!
