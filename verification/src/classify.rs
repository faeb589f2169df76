use vstd::prelude::*;

use crate::types::{
    dur_ok, unit_ok, LightState, Morse, MorseCandidate, MorseErr, Scored, Time, TimedLightEvent,
    MAX_TIME_MS,
};

verus! {

// Span classification: a timed span is matched against the five Morse
// templates of its own light state, and the template with the smallest
// distance `|duration - units * unit_time|` wins; ties go to the earlier
// template in the fixed order dot, dash, tiny gap, letter gap, word gap.

/// The five reference templates, in tie-break order.
pub open spec fn morse_candidates() -> Seq<MorseCandidate> {
    seq![
        MorseCandidate { light_state: LightState::Light, units: 1 },
        MorseCandidate { light_state: LightState::Light, units: 3 },
        MorseCandidate { light_state: LightState::Dark, units: 1 },
        MorseCandidate { light_state: LightState::Dark, units: 3 },
        MorseCandidate { light_state: LightState::Dark, units: 7 },
    ]
}

/// Distance of a span from a template at a given unit time.
pub open spec fn cand_err(e: TimedLightEvent, c: MorseCandidate, u: int) -> int {
    vstd::math::abs(e.duration - c.units * u) as int
}

/// Best template among the first `k`, with its score: the smallest distance
/// among templates of the span's own state, the earliest winning ties.
pub open spec fn best_upto(e: TimedLightEvent, u: int, k: int) -> Option<(MorseCandidate, int)>
    decreases k,
{
    if k <= 0 {
        None
    } else {
        let prev = best_upto(e, u, k - 1);
        let c = morse_candidates()[k - 1];
        if c.light_state != e.light_state {
            prev
        } else {
            let err = cand_err(e, c, u);
            match prev {
                None => Some((c, err)),
                Some(b) => if err < b.1 {
                    Some((c, err))
                } else {
                    prev
                },
            }
        }
    }
}

/// The winning template and score over all five templates.
pub open spec fn best_of(e: TimedLightEvent, u: int) -> (MorseCandidate, int) {
    best_upto(e, u, 5)->0
}

/// The symbol a template stands for; `None` off the five templates.
pub open spec fn candidate_to_morse(mc: MorseCandidate) -> Option<Morse> {
    if mc == (MorseCandidate { light_state: LightState::Light, units: 1 as Time }) {
        Some(Morse::Dot)
    } else if mc == (MorseCandidate { light_state: LightState::Light, units: 3 as Time }) {
        Some(Morse::Dash)
    } else if mc == (MorseCandidate { light_state: LightState::Dark, units: 1 as Time }) {
        Some(Morse::TinySpace)
    } else if mc == (MorseCandidate { light_state: LightState::Dark, units: 3 as Time }) {
        Some(Morse::LetterSpace)
    } else if mc == (MorseCandidate { light_state: LightState::Dark, units: 7 as Time }) {
        Some(Morse::WordSpace)
    } else {
        None
    }
}

/// The symbol a span classifies to at a given unit time.
pub open spec fn best_morse(e: TimedLightEvent, u: int) -> Morse {
    candidate_to_morse(best_of(e, u).0)->0
}

/// The five templates cover both states, so classification always succeeds,
/// always picks a template of the span's own state, never scores below zero,
/// and scores no worse than any template of that state.
pub proof fn lemma_best_props(e: TimedLightEvent, u: int)
    ensures
        best_upto(e, u, 5) is Some,
        best_of(e, u).0.light_state == e.light_state,
        best_of(e, u).1 == cand_err(e, best_of(e, u).0, u),
        best_of(e, u).1 >= 0,
        exists|k: int| 0 <= k < 5 && best_of(e, u).0 == morse_candidates()[k],
        forall|k: int|
            0 <= k < 5 && #[trigger] morse_candidates()[k].light_state == e.light_state
                ==> cand_err(e, morse_candidates()[k], u) >= best_of(e, u).1,
        candidate_to_morse(best_of(e, u).0) is Some,
{
    reveal_with_fuel(best_upto, 6);
    let cs = morse_candidates();
    assert(cs[0] == MorseCandidate { light_state: LightState::Light, units: 1 as Time });
    if e.light_state == LightState::Light {
        assert(best_of(e, u).0 == cs[0] || best_of(e, u).0 == cs[1]);
        assert(forall|k: int|
            0 <= k < 5 && #[trigger] morse_candidates()[k].light_state == e.light_state
                ==> cand_err(e, morse_candidates()[k], u) >= best_of(e, u).1) by {
            assert(cs[2].light_state == LightState::Dark);
            assert(cs[3].light_state == LightState::Dark);
            assert(cs[4].light_state == LightState::Dark);
        }
    } else {
        assert(best_of(e, u).0 == cs[2] || best_of(e, u).0 == cs[3] || best_of(e, u).0 == cs[4]);
    }
}

/// The classification law: for every span and unit time above zero, the
/// chosen template shares the span's state and the score is at least zero.
pub proof fn lemma_classify_state_and_score(e: TimedLightEvent, u: int)
    requires
        u > 0,
    ensures
        best_of(e, u).0.light_state == e.light_state,
        best_of(e, u).1 >= 0,
{
    lemma_best_props(e, u);
}

/// Distance of a span from one template: `Some` exactly when the states
/// agree.
pub fn calc_error(event: &TimedLightEvent, candidate: &MorseCandidate, unit_millis: Time) -> (r:
    Option<i64>)
    requires
        dur_ok(*event),
        unit_ok(unit_millis),
        0 <= candidate.units <= 7,
    ensures
        match r {
            Some(s) => event.light_state == candidate.light_state && s == cand_err(
                *event,
                *candidate,
                unit_millis as int,
            ),
            None => event.light_state != candidate.light_state,
        },
{
    if event.light_state == candidate.light_state {
        proof {
            assert(0 <= candidate.units * unit_millis <= 7 * MAX_TIME_MS) by (nonlinear_arith)
                requires
                    0 <= candidate.units <= 7,
                    0 <= unit_millis <= MAX_TIME_MS,
            ;
        }
        let d = event.duration - candidate.units * unit_millis;
        if d < 0 {
            Some(-d)
        } else {
            Some(d)
        }
    } else {
        None
    }
}

/// The template at one position of the fixed order.
fn candidate_at(k: usize) -> (r: MorseCandidate)
    requires
        k < 5,
    ensures
        r == morse_candidates()[k as int],
{
    if k == 0 {
        MorseCandidate { light_state: LightState::Light, units: 1 }
    } else if k == 1 {
        MorseCandidate { light_state: LightState::Light, units: 3 }
    } else if k == 2 {
        MorseCandidate { light_state: LightState::Dark, units: 1 }
    } else if k == 3 {
        MorseCandidate { light_state: LightState::Dark, units: 3 }
    } else {
        MorseCandidate { light_state: LightState::Dark, units: 7 }
    }
}

/// The best-scoring template for a span: never fails, and returns the
/// winner described by `best_of`.
pub fn best_error(event: &TimedLightEvent, unit_millis: Time) -> (r: Result<
    Scored<MorseCandidate>,
    MorseErr,
>)
    requires
        dur_ok(*event),
        unit_ok(unit_millis),
    ensures
        r is Ok,
        r->Ok_0.item == best_of(*event, unit_millis as int).0,
        r->Ok_0.score == best_of(*event, unit_millis as int).1,
{
    let mut best: Option<Scored<MorseCandidate>> = None;
    let mut k: usize = 0;
    while k < 5
        invariant
            k <= 5,
            dur_ok(*event),
            unit_ok(unit_millis),
            match best {
                None => best_upto(*event, unit_millis as int, k as int) is None,
                Some(b) => {
                    let s = best_upto(*event, unit_millis as int, k as int);
                    s is Some && b.item == (s->0).0 && b.score == (s->0).1
                },
            },
        decreases 5 - k,
    {
        let mc = candidate_at(k);
        proof {
            if mc.light_state == event.light_state {
                assert(0 <= mc.units <= 7);
            }
        }
        match (calc_error(event, &mc, unit_millis), best) {
            (None, _) => {},
            (Some(curr), None) => {
                best = Some(Scored { item: mc, score: curr });
            },
            (Some(curr), Some(b)) => {
                if curr < b.score {
                    best = Some(Scored { item: mc, score: curr });
                }
            },
        }
        k += 1;
    }
    proof {
        lemma_best_props(*event, unit_millis as int);
    }
    match best {
        Some(b) => Ok(b),
        None => Err(MorseErr::BestErrorBug),
    }
}

/// The symbol a template stands for; templates off the fixed five surface
/// `InvalidMorseCandidate`.
pub fn mc_to_morse(mc: &MorseCandidate) -> (r: Result<Morse, MorseErr>)
    ensures
        match candidate_to_morse(*mc) {
            Some(m) => r == Ok::<Morse, MorseErr>(m),
            None => r == Err::<Morse, MorseErr>(MorseErr::InvalidMorseCandidate(*mc)),
        },
{
    match mc {
        MorseCandidate { light_state: LightState::Light, units: 1 } => Ok(Morse::Dot),
        MorseCandidate { light_state: LightState::Light, units: 3 } => Ok(Morse::Dash),
        MorseCandidate { light_state: LightState::Dark, units: 1 } => Ok(Morse::TinySpace),
        MorseCandidate { light_state: LightState::Dark, units: 3 } => Ok(Morse::LetterSpace),
        MorseCandidate { light_state: LightState::Dark, units: 7 } => Ok(Morse::WordSpace),
        _ => Err(MorseErr::InvalidMorseCandidate(*mc)),
    }
}

/// Classifies one span: always succeeds and returns the symbol described by
/// `best_morse`.
pub fn tle_to_best_morse(tle: &TimedLightEvent, unit_millis: Time) -> (r: Result<Morse, MorseErr>)
    requires
        dur_ok(*tle),
        unit_ok(unit_millis),
    ensures
        r == Ok::<Morse, MorseErr>(best_morse(*tle, unit_millis as int)),
{
    let c = best_error(tle, unit_millis)?;
    proof {
        lemma_best_props(*tle, unit_millis as int);
    }
    let m = mc_to_morse(&c.item)?;
    Ok(m)
}

} // verus!
