use vstd::prelude::*;

use crate::classify::{best_error, best_of, cand_err, lemma_best_props, morse_candidates};
use crate::types::MorseCandidate;
use crate::types::{
    dur_ok, unit_ok, LightState, MorseErr, Scored, Time, TimedLightEvent, MAX_SCORE_BATCH,
    MAX_TIME_MS,
};

verus! {

// Unit-time estimation: twenty equally spaced candidate unit times between a
// lower and an upper guess are scored by summing each span's best
// classification distance, and the lowest-scoring candidate wins; ties go to
// the earliest candidate.

/// The total classification distance of a span batch at one unit time.
pub open spec fn sum_scores(tles: Seq<TimedLightEvent>, u: int) -> int
    decreases tles.len(),
{
    if tles.len() == 0 {
        0
    } else {
        sum_scores(tles.drop_last(), u) + best_of(tles.last(), u).1
    }
}

/// The `k`-th candidate unit time of the twenty-way search grid.
pub open spec fn grid_point(min: int, max: int, k: int) -> int {
    min + (max - min) * k / 20
}

/// Best grid index among the first `n`, with its score; the earliest wins
/// ties.
pub open spec fn best_grid_upto(tles: Seq<TimedLightEvent>, min: int, max: int, n: int) -> (
    int,
    int,
)
    decreases n,
{
    if n <= 1 {
        (0, sum_scores(tles, grid_point(min, max, 0)))
    } else {
        let prev = best_grid_upto(tles, min, max, n - 1);
        let s = sum_scores(tles, grid_point(min, max, n - 1));
        if s < prev.1 {
            (n - 1, s)
        } else {
            prev
        }
    }
}

/// A span batch every member of which the classifier accepts.
pub open spec fn batch_ok(tles: Seq<TimedLightEvent>) -> bool {
    forall|i: int| 0 <= i < tles.len() ==> dur_ok(#[trigger] tles[i])
}

/// The winning score is never worse than twice the time bound: the unit-one
/// template of the span's own state is never farther away.
pub proof fn lemma_best_score_bound(e: TimedLightEvent, u: int)
    requires
        dur_ok(e),
        0 <= u <= MAX_TIME_MS,
    ensures
        0 <= best_of(e, u).1 <= 2 * MAX_TIME_MS,
{
    lemma_best_props(e, u);
    if e.light_state == LightState::Light {
        let c = morse_candidates()[0];
        assert(c == MorseCandidate { light_state: LightState::Light, units: 1 as Time });
        assert(morse_candidates()[0].light_state == e.light_state);
        assert(c.units * u == u) by (nonlinear_arith)
            requires
                c.units == 1,
        ;
        assert(cand_err(e, c, u) <= 2 * MAX_TIME_MS);
        assert(cand_err(e, morse_candidates()[0], u) >= best_of(e, u).1);
    } else {
        let c = morse_candidates()[2];
        assert(c == MorseCandidate { light_state: LightState::Dark, units: 1 as Time });
        assert(morse_candidates()[2].light_state == e.light_state);
        assert(c.units * u == u) by (nonlinear_arith)
            requires
                c.units == 1,
        ;
        assert(cand_err(e, c, u) <= 2 * MAX_TIME_MS);
        assert(cand_err(e, morse_candidates()[2], u) >= best_of(e, u).1);
    }
}

/// A batch's total score is at least zero and grows at most linearly with
/// its length.
pub proof fn lemma_sum_scores_bound(tles: Seq<TimedLightEvent>, u: int)
    requires
        batch_ok(tles),
        0 <= u <= MAX_TIME_MS,
    ensures
        0 <= sum_scores(tles, u) <= tles.len() * (2 * MAX_TIME_MS),
    decreases tles.len(),
{
    if tles.len() == 0 {
    } else {
        assert(batch_ok(tles.drop_last()));
        lemma_sum_scores_bound(tles.drop_last(), u);
        lemma_best_score_bound(tles.last(), u);
    }
}

/// The best grid entry up to `n` really is a grid index below `n`, carries
/// its own score, and no earlier or later index up to `n` scores less.
pub proof fn lemma_best_grid_props(tles: Seq<TimedLightEvent>, min: int, max: int, n: int)
    requires
        n >= 1,
    ensures
        0 <= best_grid_upto(tles, min, max, n).0 < n,
        best_grid_upto(tles, min, max, n).1 == sum_scores(
            tles,
            grid_point(min, max, best_grid_upto(tles, min, max, n).0),
        ),
        forall|j: int|
            0 <= j < n ==> #[trigger] sum_scores(tles, grid_point(min, max, j))
                >= best_grid_upto(tles, min, max, n).1,
        forall|j: int|
            0 <= j < best_grid_upto(tles, min, max, n).0 ==> #[trigger] sum_scores(
                tles,
                grid_point(min, max, j),
            ) > best_grid_upto(tles, min, max, n).1,
    decreases n,
{
    if n > 1 {
        lemma_best_grid_props(tles, min, max, n - 1);
    }
}

/// Scores one candidate unit time over a span batch: always succeeds, with
/// the batch's total distance as the score.
pub fn score_possible_unit_millis(unit_millis: Time, timings: &[TimedLightEvent]) -> (r: Result<
    Scored<Time>,
    MorseErr,
>)
    requires
        unit_ok(unit_millis),
        batch_ok(timings@),
        timings@.len() <= MAX_SCORE_BATCH,
    ensures
        r is Ok,
        r->Ok_0.item == unit_millis,
        r->Ok_0.score == sum_scores(timings@, unit_millis as int),
{
    let mut sum: i64 = 0;
    let mut i: usize = 0;
    let n = timings.len();
    while i < n
        invariant
            n == timings@.len(),
            i <= n,
            unit_ok(unit_millis),
            batch_ok(timings@),
            n <= MAX_SCORE_BATCH,
            sum == sum_scores(timings@.subrange(0, i as int), unit_millis as int),
            0 <= sum <= i * (2 * MAX_TIME_MS),
        decreases n - i,
    {
        let ev = timings[i];
        let score = best_error(&ev, unit_millis)?.score;
        proof {
            lemma_best_score_bound(ev, unit_millis as int);
            lemma_sum_scores_bound(timings@.subrange(0, i as int), unit_millis as int);
            assert(timings@.subrange(0, i + 1).drop_last() =~= timings@.subrange(0, i as int));
            assert(timings@.subrange(0, i + 1).last() == ev);
        }
        proof {
            assert(0 <= score <= 2 * MAX_TIME_MS);
            assert(sum + score <= (i as int + 1) * (2 * MAX_TIME_MS)) by (nonlinear_arith)
                requires
                    sum <= (i as int) * (2 * MAX_TIME_MS),
                    score <= 2 * MAX_TIME_MS,
            ;
            assert((i as int + 1) * (2 * MAX_TIME_MS) <= (MAX_SCORE_BATCH as int) * (2
                * MAX_TIME_MS)) by (nonlinear_arith)
                requires
                    i as int + 1 <= MAX_SCORE_BATCH as int,
            ;
        }
        sum = sum + score;
        i += 1;
    }
    proof {
        assert(timings@.subrange(0, n as int) =~= timings@);
    }
    Ok(Scored { item: unit_millis, score: sum })
}

/// Searches the twenty-way grid between the two guesses and returns the
/// lowest-scoring candidate unit time, the earliest on ties. An empty span
/// batch is refused with `EmptyInput`.
pub fn estimate_unit_time(timings: &[TimedLightEvent], min_millis: Time, max_millis: Time) -> (r:
    Result<Scored<Time>, MorseErr>)
    requires
        0 <= min_millis <= max_millis <= MAX_TIME_MS,
        batch_ok(timings@),
        timings@.len() <= MAX_SCORE_BATCH,
    ensures
        timings@.len() == 0 ==> r == Err::<Scored<Time>, MorseErr>(MorseErr::EmptyInput),
        timings@.len() > 0 ==> {
            let best = best_grid_upto(timings@, min_millis as int, max_millis as int, 20);
            &&& r is Ok
            &&& r->Ok_0.item == grid_point(min_millis as int, max_millis as int, best.0)
            &&& r->Ok_0.score == best.1
        },
{
    if timings.len() == 0 {
        return Err(MorseErr::EmptyInput);
    }
    let ghost mn = min_millis as int;
    let ghost mx = max_millis as int;
    let diff = max_millis - min_millis;
    let mut best = score_possible_unit_millis(min_millis, timings)?;
    let mut k: usize = 1;
    proof {
        assert(grid_point(mn, mx, 0) == mn + diff * 0 / 20);
        assert(diff * 0 == 0) by (nonlinear_arith);
    }
    while k < 20
        invariant
            1 <= k <= 20,
            0 <= min_millis <= max_millis <= MAX_TIME_MS,
            diff == max_millis - min_millis,
            mn == min_millis as int,
            mx == max_millis as int,
            batch_ok(timings@),
            timings@.len() <= MAX_SCORE_BATCH,
            best.item == grid_point(mn, mx, best_grid_upto(timings@, mn, mx, k as int).0),
            best.score == best_grid_upto(timings@, mn, mx, k as int).1,
        decreases 20 - k,
    {
        proof {
            assert(0 <= diff * (k as int) <= 19 * diff) by (nonlinear_arith)
                requires
                    0 <= diff,
                    1 <= k < 20,
            ;
            assert(diff * (k as int) / 20 <= 19 * diff / 20);
            assert(19 * diff / 20 <= diff) by (nonlinear_arith)
                requires
                    0 <= diff,
            ;
            assert(0 <= diff * (k as int) / 20);
        }
        let plus = diff * (k as i64) / 20;
        let cand = min_millis + plus;
        let scored = score_possible_unit_millis(cand, timings)?;
        if scored.score < best.score {
            best = scored;
        }
        k += 1;
    }
    proof {
        lemma_best_grid_props(timings@, mn, mx, 20);
    }
    Ok(best)
}


/// Accepted spans stay accepted under concatenation and trimming.
pub proof fn lemma_batch_ok_concat(a: Seq<TimedLightEvent>, b: Seq<TimedLightEvent>)
    requires
        batch_ok(a),
        batch_ok(b),
    ensures
        batch_ok(a + b),
{
    assert forall|i: int| 0 <= i < (a + b).len() implies dur_ok(#[trigger] (a + b)[i]) by {
        if i < a.len() {
            assert((a + b)[i] == a[i]);
        } else {
            assert((a + b)[i] == b[i - a.len()]);
        }
    }
}

/// Accepted spans stay accepted on a prefix.
pub proof fn lemma_batch_ok_take(s: Seq<TimedLightEvent>, k: int)
    requires
        batch_ok(s),
        0 <= k <= s.len(),
    ensures
        batch_ok(s.take(k)),
{
    assert forall|i: int| 0 <= i < s.take(k).len() implies dur_ok(#[trigger] s.take(k)[i]) by {
        assert(s.take(k)[i] == s[i]);
    }
}

/// Accepted spans stay accepted on a suffix.
pub proof fn lemma_batch_ok_skip(s: Seq<TimedLightEvent>, k: int)
    requires
        batch_ok(s),
        0 <= k <= s.len(),
    ensures
        batch_ok(s.skip(k)),
{
    assert forall|i: int| 0 <= i < s.skip(k).len() implies dur_ok(#[trigger] s.skip(k)[i]) by {
        assert(s.skip(k)[i] == s[i + k]);
    }
}

} // verus!
