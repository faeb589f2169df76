use vstd::prelude::*;

use crate::containers::{
    sample_queue_model, sq_dequeue, tbatch_new, tbatch_push, tle_batch_model, SampleQueue,
    TleBatch,
};
use crate::estimate::batch_ok;
use crate::types::{
    dur_ok, time_ok, ConvertErrs, IntensityCutoffs, LightState, SampledLightIntensity, Time,
    TimedLightEvent, TLE_BATCH_CAP,
};

verus! {

// Edge detection: samples run through a hysteresis between the two cutoffs;
// every state change closes the current span. An optional dark-push rule
// closes a span after a long quiet stretch below the low cutoff even
// without a crossing, so a trailing letter is not held forever.

/// A batch of samples the detector accepts.
pub open spec fn samples_ok(s: Seq<SampledLightIntensity>) -> bool {
    forall|i: int| 0 <= i < s.len() ==> time_ok((#[trigger] s[i]).sample_time)
}

/// The hysteresis decision alone: leave `Dark` above the high cutoff, leave
/// `Light` below the low cutoff.
pub open spec fn hysteresis_next(cur: LightState, li: u16, cuts: IntensityCutoffs) -> Option<
    LightState,
> {
    match cur {
        LightState::Dark => if li > cuts.high {
            Some(LightState::Light)
        } else {
            None
        },
        LightState::Light => if li < cuts.low {
            Some(LightState::Dark)
        } else {
            None
        },
    }
}

/// The full decision for one sample: the hysteresis, then the dark-push
/// rule when the hysteresis is silent, the quiet stretch exceeds the push
/// time and the reading lies below the low cutoff.
pub open spec fn edge_next(
    cur: LightState,
    t0: Time,
    s: SampledLightIntensity,
    cuts: IntensityCutoffs,
    dp: Option<Time>,
) -> Option<LightState> {
    let h = hysteresis_next(cur, s.intensity, cuts);
    if h is Some {
        h
    } else if dp is Some && s.sample_time - t0 > dp->0 && s.intensity < cuts.low {
        Some(LightState::Dark)
    } else {
        None
    }
}

/// One detector step: on a decision, the closed span, the new span start
/// and the new state; otherwise everything stays.
pub open spec fn detect_step(
    t0: Time,
    cur: LightState,
    cuts: IntensityCutoffs,
    dp: Option<Time>,
    s: SampledLightIntensity,
) -> (Option<TimedLightEvent>, Time, LightState) {
    match edge_next(cur, t0, s, cuts, dp) {
        Some(ns) => (
            Some(
                TimedLightEvent {
                    light_state: cur,
                    duration: (s.sample_time - t0) as Time,
                },
            ),
            s.sample_time,
            ns,
        ),
        None => (None, t0, cur),
    }
}

/// The spans a sample batch closes, with the span start and state left
/// open at the end.
pub open spec fn detect_spans(
    samples: Seq<SampledLightIntensity>,
    t0: Time,
    cur: LightState,
    cuts: IntensityCutoffs,
    dp: Option<Time>,
) -> (Seq<TimedLightEvent>, Time, LightState)
    decreases samples.len(),
{
    if samples.len() == 0 {
        (Seq::empty(), t0, cur)
    } else {
        let prev = detect_spans(samples.drop_last(), t0, cur, cuts, dp);
        let st = detect_step(prev.1, prev.2, cuts, dp, samples.last());
        match st.0 {
            Some(tle) => (prev.0.push(tle), st.1, st.2),
            None => (prev.0, st.1, st.2),
        }
    }
}

/// Detection closes at most one span per sample, keeps every closed span's
/// duration within the time bound, and leaves the open span start at an
/// accepted time.
pub proof fn lemma_detect_ranges(
    samples: Seq<SampledLightIntensity>,
    t0: Time,
    cur: LightState,
    cuts: IntensityCutoffs,
    dp: Option<Time>,
)
    requires
        samples_ok(samples),
        time_ok(t0),
    ensures
        detect_spans(samples, t0, cur, cuts, dp).0.len() <= samples.len(),
        batch_ok(detect_spans(samples, t0, cur, cuts, dp).0),
        time_ok(detect_spans(samples, t0, cur, cuts, dp).1),
    decreases samples.len(),
{
    if samples.len() > 0 {
        assert(samples_ok(samples.drop_last()));
        lemma_detect_ranges(samples.drop_last(), t0, cur, cuts, dp);
        assert(time_ok(samples.last().sample_time));
        let prev = detect_spans(samples.drop_last(), t0, cur, cuts, dp);
        let st = detect_step(prev.1, prev.2, cuts, dp, samples.last());
        match st.0 {
            Some(tle) => {
                assert(dur_ok(tle));
                assert(forall|i: int|
                    0 <= i < prev.0.len() ==> dur_ok(#[trigger] prev.0.push(tle)[i]));
                assert(dur_ok(prev.0.push(tle)[prev.0.len() as int]));
            },
            None => {},
        }
    }
}

/// What one detector pass hands on: the closed spans and the open span's
/// start and state.
pub struct ConsumeSamplesInfo {
    pub tles: TleBatch,
    pub state: (Time, LightState),
}

/// Drains the sample queue through the hysteresis and returns the closed
/// spans in order with the carried-over span start and state; exactly what
/// `detect_spans` describes. The batch capacity covers a full queue, so the
/// capacity error is never returned.
pub fn intensities_to_tles(
    intensities: &mut SampleQueue,
    init: (Time, LightState),
    cuts: IntensityCutoffs,
    dark_push_time: Option<Time>,
) -> (r: Result<ConsumeSamplesInfo, ConvertErrs>)
    requires
        samples_ok(sample_queue_model(*old(intensities))),
        sample_queue_model(*old(intensities)).len() < TLE_BATCH_CAP,
        time_ok(init.0),
    ensures
        sample_queue_model(*final(intensities)) == Seq::<SampledLightIntensity>::empty(),
        r is Ok,
        ({
            let spec_out = detect_spans(
                sample_queue_model(*old(intensities)),
                init.0,
                init.1,
                cuts,
                dark_push_time,
            );
            tle_batch_model(r->Ok_0.tles) == spec_out.0 && r->Ok_0.state.0 == spec_out.1
                && r->Ok_0.state.1 == spec_out.2
        }),
{
    let ghost all = sample_queue_model(*intensities);
    let (mut start_time, mut curr_light_state) = init;
    let mut out_vec = tbatch_new();
    let ghost mut k: int = 0;

    loop
        invariant
            0 <= k <= all.len(),
            all.len() < TLE_BATCH_CAP,
            samples_ok(all),
            time_ok(init.0),
            all == sample_queue_model(*old(intensities)),
            sample_queue_model(*intensities) == all.skip(k),
            ({
                let prev = detect_spans(all.subrange(0, k), init.0, init.1, cuts, dark_push_time);
                tle_batch_model(out_vec) == prev.0 && start_time == prev.1 && curr_light_state
                    == prev.2
            }),
            tle_batch_model(out_vec).len() <= k,
            time_ok(start_time),
        decreases all.len() - k,
    {
        let next = sq_dequeue(intensities);
        match next {
            None => {
                proof {
                    assert(all.skip(k).len() == 0);
                    assert(k == all.len());
                    assert(all.subrange(0, k) =~= all);
                }
                return Ok(
                    ConsumeSamplesInfo { tles: out_vec, state: (start_time, curr_light_state) },
                );
            },
            Some(s) => {
                proof {
                    assert(all.skip(k).len() > 0);
                    assert(s == all.skip(k)[0]);
                    assert(s == all[k]);
                    assert(all.skip(k).drop_first() =~= all.skip(k + 1));
                    assert(all.subrange(0, k + 1).drop_last() =~= all.subrange(0, k));
                    assert(all.subrange(0, k + 1).last() == s);
                    assert(time_ok(s.sample_time));
                }
                let time = s.sample_time;
                let light = s.intensity;

                let mut next_light_state: Option<LightState> = match curr_light_state {
                    LightState::Dark => if light > cuts.high {
                        Some(LightState::Light)
                    } else {
                        None
                    },
                    LightState::Light => if light < cuts.low {
                        Some(LightState::Dark)
                    } else {
                        None
                    },
                };

                if next_light_state.is_none() {
                    match dark_push_time {
                        Some(dp) => {
                            if time - start_time > dp && light < cuts.low {
                                next_light_state = Some(LightState::Dark);
                            }
                        },
                        None => {},
                    }
                }

                match next_light_state {
                    Some(ns) => {
                        let tle = TimedLightEvent {
                            light_state: curr_light_state,
                            duration: time - start_time,
                        };
                        let pushed = tbatch_push(&mut out_vec, tle);
                        if !pushed {
                            return Err(ConvertErrs::TooSmallOutgoingCapacity);
                        }
                        curr_light_state = ns;
                        start_time = time;
                    },
                    None => {},
                }
                proof {
                    k = k + 1;
                }
            },
        }
    }
}

} // verus!
