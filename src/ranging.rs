//! Distance measurement with an echo-timing rangefinder.
//!
//! One measurement resets the tick counter, pulses the trigger, waits for the
//! echo to rise (bounded), restarts the counter, waits for the echo to fall,
//! converts the echo's high time into centimetres, and then waits until a
//! minimum interval has passed since the rise before reporting.
use vstd::prelude::*;

verus! {

/// Duration of one counter tick, in microseconds.
pub const MICROS_PER_TICK: u16 = 4;

/// Echo round-trip time per centimetre of distance, in microseconds.
pub const MICROS_PER_CM: u16 = 58;

/// Ticks after which a missing echo rise ends the measurement (200 ms).
pub const RISE_TIMEOUT_TICKS: u16 = 50_000;

/// Ticks since the echo rise before a measurement may report (100 ms).
pub const MIN_INTERVAL_TICKS: u16 = 25_000;

/// The distance, in centimetres, for an echo held high for `ticks` ticks;
/// `None` where the time in microseconds does not fit the counter's width.
pub open spec fn distance_of(ticks: u16) -> Option<u16> {
    if ticks * MICROS_PER_TICK > u16::MAX {
        None
    } else {
        Some(((ticks * MICROS_PER_TICK) / (MICROS_PER_CM as int)) as u16)
    }
}

/// Converts the echo's high time in ticks to a distance in centimetres.
pub fn echo_to_distance(ticks: u16) -> (r: Option<u16>)
    ensures
        r == distance_of(ticks),
{
    match ticks.checked_mul(MICROS_PER_TICK) {
        Some(micros) => Some(micros / MICROS_PER_CM),
        None => None,
    }
}

/// One reading of the echo line and the tick counter, taken together.
#[derive(Clone, Copy, Debug, PartialEq, Eq, Structural)]
pub struct Sample {
    pub echo_high: bool,
    pub ticks: u16,
}

/// Where a measurement stands.
#[derive(Clone, Copy, Debug, PartialEq, Eq, Structural)]
pub enum Phase {
    /// The trigger was pulsed; waiting for the echo to rise.
    AwaitRise,
    /// The echo is high; the counter was restarted at its rise. This wait
    /// has no bound of its own: the sensor is relied on to drop the echo.
    AwaitFall,
    /// The distance is known; waiting out the minimum interval.
    Pacing { distance: u16 },
    /// The measurement is over: a distance, or `None` for a timeout.
    Finished { reading: Option<u16> },
}

/// What the caller does after handing a sample to a measurement.
#[derive(Clone, Copy, Debug, PartialEq, Eq, Structural)]
pub enum Action {
    /// Reset the tick counter to zero, then sample again.
    ResetClock,
    /// Sample again.
    Sample,
    /// Stop: the measurement gives this reading (`None` for a timeout).
    Report { reading: Option<u16> },
}

/// The phase that follows `p` once sample `s` was seen.
pub open spec fn step(p: Phase, s: Sample) -> Phase {
    match p {
        Phase::AwaitRise => {
            if s.echo_high {
                Phase::AwaitFall
            } else if s.ticks >= RISE_TIMEOUT_TICKS {
                Phase::Finished { reading: None }
            } else {
                Phase::AwaitRise
            }
        },
        Phase::AwaitFall => {
            if s.echo_high {
                Phase::AwaitFall
            } else {
                match distance_of(s.ticks) {
                    Some(d) => Phase::Pacing { distance: d },
                    None => Phase::Finished { reading: None },
                }
            }
        },
        Phase::Pacing { distance } => {
            if s.ticks >= MIN_INTERVAL_TICKS {
                Phase::Finished { reading: Some(distance) }
            } else {
                p
            }
        },
        Phase::Finished { .. } => p,
    }
}

/// What the caller is asked to do on the way from phase `before` to `after`.
pub open spec fn action_for(before: Phase, after: Phase) -> Action {
    match after {
        Phase::Finished { reading } => Action::Report { reading },
        Phase::AwaitFall => if before is AwaitRise {
            Action::ResetClock
        } else {
            Action::Sample
        },
        _ => Action::Sample,
    }
}

/// The phase reached from `p` after the samples `s`, in order.
pub open spec fn run(p: Phase, s: Seq<Sample>) -> Phase
    decreases s.len(),
{
    if s.len() == 0 {
        p
    } else {
        run(step(p, s[0]), s.drop_first())
    }
}

/// The reading of a finished measurement; `None` while it goes on.
pub open spec fn outcome(p: Phase) -> Option<Option<u16>> {
    match p {
        Phase::Finished { reading } => Some(reading),
        _ => None,
    }
}

/// One measurement of one rangefinder.
///
/// The caller resets the tick counter, holds the trigger high for 10 µs,
/// creates the measurement, and then feeds it samples, doing after each what
/// the returned [`Action`] asks, until it is told to report.
#[derive(Clone, Copy, Debug, PartialEq, Eq, Structural)]
pub struct Measurement {
    pub phase: Phase,
}

impl Measurement {
    /// A measurement whose trigger pulse has just been sent.
    pub fn new() -> (m: Measurement)
        ensures
            m.phase == Phase::AwaitRise,
    {
        Measurement { phase: Phase::AwaitRise }
    }

    /// Advances the measurement by one sample.
    pub fn on_sample(&mut self, s: Sample) -> (a: Action)
        ensures
            final(self).phase == step(old(self).phase, s),
            a == action_for(old(self).phase, final(self).phase),
    {
        match self.phase {
            Phase::AwaitRise => {
                if s.echo_high {
                    self.phase = Phase::AwaitFall;
                    Action::ResetClock
                } else if s.ticks >= RISE_TIMEOUT_TICKS {
                    self.phase = Phase::Finished { reading: None };
                    Action::Report { reading: None }
                } else {
                    Action::Sample
                }
            },
            Phase::AwaitFall => {
                if s.echo_high {
                    Action::Sample
                } else {
                    match echo_to_distance(s.ticks) {
                        Some(d) => {
                            self.phase = Phase::Pacing { distance: d };
                            Action::Sample
                        },
                        None => {
                            self.phase = Phase::Finished { reading: None };
                            Action::Report { reading: None }
                        },
                    }
                }
            },
            Phase::Pacing { distance } => {
                if s.ticks >= MIN_INTERVAL_TICKS {
                    self.phase = Phase::Finished { reading: Some(distance) };
                    Action::Report { reading: Some(distance) }
                } else {
                    Action::Sample
                }
            },
            Phase::Finished { reading } => Action::Report { reading },
        }
    }

    /// The reading, once the measurement is over.
    pub fn outcome(&self) -> (r: Option<Option<u16>>)
        ensures
            r == outcome(self.phase),
    {
        match self.phase {
            Phase::Finished { reading } => Some(reading),
            _ => None,
        }
    }
}

/// Runs one measurement over recorded samples, as from a simulated clock:
/// the reading where the samples finish it, `None` where they run out first.
pub fn measure_samples(samples: &Vec<Sample>) -> (r: Option<Option<u16>>)
    ensures
        r == outcome(run(Phase::AwaitRise, samples@)),
{
    let mut m = Measurement::new();
    let mut i: usize = 0;
    assert(samples@.subrange(0, samples@.len() as int) =~= samples@);
    while i < samples.len()
        invariant
            i <= samples.len(),
            run(Phase::AwaitRise, samples@) == run(m.phase, samples@.subrange(i as int, samples@.len() as int)),
        decreases samples.len() - i,
    {
        proof {
            let rest = samples@.subrange(i as int, samples@.len() as int);
            assert(rest.drop_first() =~= samples@.subrange(i + 1, samples@.len() as int));
        }
        let a = m.on_sample(samples[i]);
        i = i + 1;
        if let Action::Report { reading } = a {
            proof {
                lemma_run_finished(m.phase, samples@.subrange(i as int, samples@.len() as int));
            }
            return Some(reading);
        }
    }
    proof {
        assert(samples@.subrange(i as int, samples@.len() as int).len() == 0);
    }
    m.outcome()
}

/// A finished measurement stays finished, whatever it is fed.
pub proof fn lemma_run_finished(p: Phase, s: Seq<Sample>)
    requires
        p is Finished,
    ensures
        run(p, s) == p,
    decreases s.len(),
{
    if s.len() > 0 {
        lemma_run_finished(step(p, s[0]), s.drop_first());
    }
}

/// Samples that leave phase `p` as it is, followed by `x`, bring the
/// measurement to where `x` alone would from `p`.
pub proof fn lemma_run_through(p: Phase, s: Seq<Sample>, x: Sample, rest: Seq<Sample>)
    requires
        forall|i: int| 0 <= i < s.len() ==> step(p, #[trigger] s[i]) == p,
    ensures
        run(p, s + seq![x] + rest) == run(step(p, x), rest),
    decreases s.len(),
{
    if s.len() == 0 {
        assert(s + seq![x] + rest =~= seq![x] + rest);
        assert((seq![x] + rest).drop_first() =~= rest);
    } else {
        assert((s + seq![x] + rest).drop_first() =~= s.drop_first() + seq![x] + rest);
        assert forall|i: int| 0 <= i < s.drop_first().len() implies step(p, #[trigger] s.drop_first()[i])
            == p by {
            assert(s.drop_first()[i] == s[i + 1]);
        }
        lemma_run_through(p, s.drop_first(), x, rest);
    }
}

/// A measurement whose echo rises, stays high and then falls after `t`
/// ticks, with `4 * t` within the counter's width, reports `4 * t / 58`
/// centimetres once the minimum interval has passed.
pub proof fn lemma_echo_time_gives_distance(
    waiting: Seq<Sample>,
    rise: Sample,
    high: Seq<Sample>,
    fall: Sample,
    pacing: Seq<Sample>,
    done: Sample,
    rest: Seq<Sample>,
)
    requires
        forall|i: int|
            0 <= i < waiting.len() ==> !(#[trigger] waiting[i]).echo_high && waiting[i].ticks
                < RISE_TIMEOUT_TICKS,
        rise.echo_high,
        forall|i: int| 0 <= i < high.len() ==> (#[trigger] high[i]).echo_high,
        !fall.echo_high,
        fall.ticks * 4 <= u16::MAX,
        forall|i: int| 0 <= i < pacing.len() ==> (#[trigger] pacing[i]).ticks < MIN_INTERVAL_TICKS,
        done.ticks >= MIN_INTERVAL_TICKS,
    ensures
        outcome(
            run(
                Phase::AwaitRise,
                waiting + seq![rise] + high + seq![fall] + pacing + seq![done] + rest,
            ),
        ) == Some(Some((fall.ticks * 4 / 58) as u16)),
{
    let after_pacing = seq![done] + rest;
    let after_fall = pacing + after_pacing;
    let after_rise = high + seq![fall] + after_fall;
    assert(waiting + seq![rise] + high + seq![fall] + pacing + seq![done] + rest =~= waiting
        + seq![rise] + after_rise);
    assert forall|i: int| 0 <= i < waiting.len() implies step(
        Phase::AwaitRise,
        #[trigger] waiting[i],
    ) == Phase::AwaitRise by {}
    lemma_run_through(Phase::AwaitRise, waiting, rise, after_rise);
    assert forall|i: int| 0 <= i < high.len() implies step(Phase::AwaitFall, #[trigger] high[i])
        == Phase::AwaitFall by {}
    lemma_run_through(Phase::AwaitFall, high, fall, after_fall);
    let d = (fall.ticks * 4 / 58) as u16;
    let paced = Phase::Pacing { distance: d };
    assert(step(Phase::AwaitFall, fall) == paced);
    assert(after_fall =~= pacing + seq![done] + rest);
    assert forall|i: int| 0 <= i < pacing.len() implies step(paced, #[trigger] pacing[i])
        == paced by {}
    lemma_run_through(paced, pacing, done, rest);
    lemma_run_finished(Phase::Finished { reading: Some(d) }, rest);
}

/// A measurement whose echo falls after `t` ticks, with `4 * t` beyond the
/// counter's width, reports a timeout and never a wrapped distance.
pub proof fn lemma_saturated_echo_times_out(
    waiting: Seq<Sample>,
    rise: Sample,
    high: Seq<Sample>,
    fall: Sample,
    rest: Seq<Sample>,
)
    requires
        forall|i: int|
            0 <= i < waiting.len() ==> !(#[trigger] waiting[i]).echo_high && waiting[i].ticks
                < RISE_TIMEOUT_TICKS,
        rise.echo_high,
        forall|i: int| 0 <= i < high.len() ==> (#[trigger] high[i]).echo_high,
        !fall.echo_high,
        fall.ticks * 4 > u16::MAX,
    ensures
        outcome(run(Phase::AwaitRise, waiting + seq![rise] + high + seq![fall] + rest)) == Some(
            None::<u16>,
        ),
{
    let after_rise = high + seq![fall] + rest;
    assert(waiting + seq![rise] + high + seq![fall] + rest =~= waiting + seq![rise] + after_rise);
    assert forall|i: int| 0 <= i < waiting.len() implies step(
        Phase::AwaitRise,
        #[trigger] waiting[i],
    ) == Phase::AwaitRise by {}
    lemma_run_through(Phase::AwaitRise, waiting, rise, after_rise);
    assert forall|i: int| 0 <= i < high.len() implies step(Phase::AwaitFall, #[trigger] high[i])
        == Phase::AwaitFall by {}
    lemma_run_through(Phase::AwaitFall, high, fall, rest);
    lemma_run_finished(Phase::Finished { reading: None }, rest);
}

/// A measurement whose echo has not risen when the counter reaches the rise
/// timeout reports a timeout, whatever follows.
pub proof fn lemma_missing_rise_times_out(waiting: Seq<Sample>, late: Sample, rest: Seq<Sample>)
    requires
        forall|i: int|
            0 <= i < waiting.len() ==> !(#[trigger] waiting[i]).echo_high && waiting[i].ticks
                < RISE_TIMEOUT_TICKS,
        !late.echo_high,
        late.ticks >= RISE_TIMEOUT_TICKS,
    ensures
        outcome(run(Phase::AwaitRise, waiting + seq![late] + rest)) == Some(None::<u16>),
{
    assert forall|i: int| 0 <= i < waiting.len() implies step(
        Phase::AwaitRise,
        #[trigger] waiting[i],
    ) == Phase::AwaitRise by {}
    lemma_run_through(Phase::AwaitRise, waiting, late, rest);
    lemma_run_finished(Phase::Finished { reading: None }, rest);
}

} // verus!
