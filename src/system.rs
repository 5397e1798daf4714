use vstd::prelude::*;

use crate::clock::Clock;

verus! {

/// The waveforms a channel can play.
#[derive(Clone, Copy, Debug, PartialEq, Eq, Structural)]
pub enum Wave {
    /// Sine waveform
    Sine,
    /// Square waveform
    Square,
    /// Saw-tooth waveform
    Saw,
    /// White noise waveform
    Noise,
}


/// Why a channel's step pattern was refused.
#[derive(Clone, Copy, Debug, PartialEq, Eq, Structural)]
pub enum ChannelError {
    /// The pattern does not hold one entry per step of the bar.
    LengthMismatch,
    /// A trigger names a step past the end of the bar.
    TriggerOutOfRange,
}

/// What sounds at sample `t` of a bar laid out by `clock`: the index of the
/// step that `t` falls in where that step is active, and silence otherwise.
pub open spec fn sounding(clock: Clock, active: Seq<bool>, t: int) -> Option<usize> {
    let s = t / clock.spec_samples_per_step();
    if active[s] {
        Some(s as usize)
    } else {
        None
    }
}

/// Turns a list of trigger steps into one flag per step: step `s` is active
/// exactly when `s` is among the triggers. A trigger at or past `steps` is
/// refused.
pub fn pattern_from_triggers(steps: u32, triggers: &Vec<usize>) -> (r: Result<
    Vec<bool>,
    ChannelError,
>)
    ensures
        (exists|i: int| 0 <= i < triggers.len() && triggers[i] >= steps) ==> r == Err::<
            Vec<bool>,
            ChannelError,
        >(ChannelError::TriggerOutOfRange),
        (forall|i: int| 0 <= i < triggers.len() ==> triggers[i] < steps) ==> r is Ok,
        r is Ok ==> r->Ok_0.len() == steps,
        r is Ok ==> forall|s: int|
            0 <= s < steps ==> (r->Ok_0[s] <==> triggers@.contains(s as usize)),
{
    let mut i: usize = 0;
    while i < triggers.len()
        invariant
            i <= triggers.len(),
            forall|j: int| 0 <= j < i ==> triggers[j] < steps,
        decreases triggers.len() - i,
    {
        if triggers[i] >= steps as usize {
            return Err(ChannelError::TriggerOutOfRange);
        }
        i = i + 1;
    }
    let mut flags: Vec<bool> = Vec::new();
    let mut s: u32 = 0;
    while s < steps
        invariant
            s <= steps,
            flags.len() == s,
            forall|k: int| 0 <= k < s ==> !flags[k],
        decreases steps - s,
    {
        flags.push(false);
        s = s + 1;
    }
    let mut i: usize = 0;
    while i < triggers.len()
        invariant
            i <= triggers.len(),
            flags.len() == steps,
            forall|j: int| 0 <= j < triggers.len() ==> triggers[j] < steps,
            forall|k: int|
                0 <= k < steps ==> (flags[k] <==> exists|j: int|
                    0 <= j < i && triggers[j] == k),
        decreases triggers.len() - i,
    {
        let at = triggers[i];
        flags.set(at, true);
        i = i + 1;
        assert forall|k: int| 0 <= k < steps implies (flags[k] <==> exists|j: int|
            0 <= j < i && triggers[j] == k) by {
            if k == at {
                assert(triggers[i - 1] == k);
            }
        }
    }
    assert forall|k: int| 0 <= k < steps implies (flags[k] <==> triggers@.contains(
        k as usize,
    )) by {
        if flags[k] {
            let j = choose|j: int| 0 <= j < triggers.len() && triggers[j] == k;
            assert(triggers@[j] == k as usize);
        }
        if triggers@.contains(k as usize) {
            let j = choose|j: int| 0 <= j < triggers.len() && triggers@[j] == k as usize;
            assert(triggers[j] == k);
        }
    }
    Ok(flags)
}

/// Sample `t` sounds step `s` exactly when `s` is active and `t` lies in the
/// span `[s * samples_per_step, (s + 1) * samples_per_step)`: each active step
/// sounds on one contiguous run of `samples_per_step` samples at its own place
/// in the bar, and a silent step on none.
pub proof fn lemma_step_span(clock: Clock, active: Seq<bool>, s: int, t: int)
    requires
        clock.wf(),
        active.len() == clock.steps,
        0 <= s < clock.steps,
        0 <= t < clock.spec_total_samples(),
    ensures
        sounding(clock, active, t) == Some(s as usize) <==> (active[s] && s
            * clock.spec_samples_per_step() <= t < (s + 1) * clock.spec_samples_per_step()),
{
    let n = clock.spec_samples_per_step();
    crate::clock::lemma_step_in_range(t, n, clock.steps as int);
    let q = t / n;
    assert(q * n <= t < (q + 1) * n) by (nonlinear_arith)
        requires
            n > 0,
            q == t / n,
    ;
    if s * n <= t < (s + 1) * n {
        assert(q == s) by (nonlinear_arith)
            requires
                n > 0,
                q * n <= t < (q + 1) * n,
                s * n <= t < (s + 1) * n,
        ;
    }
}

/// Lays out one bar: for each sample, which step's note sounds there, if any.
///
/// The bar holds `steps * samples_per_step` samples. Sample `t` falls in step
/// `t / samples_per_step`; where that step is active the entry names the step,
/// so the renderer evaluates the step's note at the absolute index `t`, and
/// where it is silent the entry is `None`. A pattern without exactly one entry
/// per step is refused.
pub fn plan_bar(clock: &Clock, active: &Vec<bool>) -> (r: Result<
    Vec<Option<usize>>,
    ChannelError,
>)
    requires
        clock.wf(),
    ensures
        active.len() != clock.steps ==> r == Err::<Vec<Option<usize>>, ChannelError>(
            ChannelError::LengthMismatch,
        ),
        active.len() == clock.steps ==> r is Ok,
        r is Ok ==> r->Ok_0.len() == clock.steps * clock.spec_samples_per_step(),
        r is Ok ==> forall|t: int|
            0 <= t < r->Ok_0.len() ==> r->Ok_0[t] == sounding(*clock, active@, t),
{
    if active.len() != clock.steps as usize {
        return Err(ChannelError::LengthMismatch);
    }
    let total = clock.total_samples();
    let mut plan: Vec<Option<usize>> = Vec::new();
    let mut t: u64 = 0;
    while t < total
        invariant
            clock.wf(),
            total == clock.spec_total_samples(),
            active.len() == clock.steps,
            t <= total,
            plan.len() == t,
            forall|u: int| 0 <= u < t ==> plan[u] == sounding(*clock, active@, u),
        decreases total - t,
    {
        let s = clock.step_of(t);
        if active[s] {
            plan.push(Some(s));
        } else {
            plan.push(None);
        }
        t = t + 1;
    }
    Ok(plan)
}

} // verus!
