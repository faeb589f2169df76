use vstd::prelude::*;

use crate::edges::detect_spans;
use crate::letters::{
    boundary_pos, consume_step, definitive_spec, is_boundary, lemma_boundary_pos_at,
    lemma_boundary_pos_props,
};
use crate::types::MorseSequenceSerialization;
use crate::manager::{
    assemble_all, conv_classify, conv_flush, conv_inv, conv_run_unit, conv_spill,
    feed_all, lemma_definitive_progress, mgr_add, mgr_flush, mgr_init, mgr_inv, ConvState,
    MgrState,
};
use crate::types::{
    LightState, Morse, MorseErr, MorseUnitTimeDecision, SampledLightIntensity, TimedLightEvent,
    QUEUE_RING,
};

verus! {

// Laws of the pipeline as a whole, stated over the same state model the
// converter's and manager's contracts use.

/// A held run with no pending word gap at its head: nothing is owed from
/// it without further input.
pub open spec fn settled(v: ConvState) -> bool {
    !(v.hold.len() > 0 && v.hold[0] is WordSpace)
}

/// Flushing is idempotent: after one successful flush that leaves no
/// pending word gap, a second flush without new samples returns no
/// characters and leaves the converter exactly as it was.
pub proof fn lemma_second_flush_empty(v: ConvState)
    requires
        conv_inv(v),
        conv_flush(v) is Ok,
        settled((conv_flush(v)->Ok_0).0),
    ensures
        conv_flush((conv_flush(v)->Ok_0).0) == Ok::<(ConvState, Seq<char>), MorseErr>(
            ((conv_flush(v)->Ok_0).0, Seq::empty()),
        ),
{
    let p0 = (conv_flush(v)->Ok_0).0;
    let sp = conv_spill(v);
    let v1 = sp.0;
    match v1.unit {
        MorseUnitTimeDecision::EstimateProvided(u0) => {
            let cl = conv_classify(v1, u0);
            crate::manager::lemma_assemble_hold_bound(
                cl.0.morses,
                cl.0.hold,
                crate::letters::morse_table(),
                Seq::empty(),
            );
        },
        MorseUnitTimeDecision::EstimateToBeDetermined(cfg0) => {
            if v1.tles.len() >= cfg0.guess_after_this_many_tles && v1.tles.len() > 0 {
                let mn = cfg0.min_guess_ms as int;
                let mx = cfg0.max_guess_ms as int;
                let u0 = crate::estimate::grid_point(
                    mn,
                    mx,
                    crate::estimate::best_grid_upto(v1.tles, mn, mx, 20).0,
                ) as crate::types::Time;
                let vc = ConvState { unit: MorseUnitTimeDecision::EstimateProvided(u0), ..v1 };
                let cl = conv_classify(vc, u0);
                crate::manager::lemma_assemble_hold_bound(
                    cl.0.morses,
                    cl.0.hold,
                    crate::letters::morse_table(),
                    Seq::empty(),
                );
            }
        },
    }
    assert(p0.hold.len() <= QUEUE_RING - 1);
    assert(p0.samples =~= Seq::<SampledLightIntensity>::empty());
    assert(detect_spans(p0.samples, p0.start_time, p0.light, p0.cuts, p0.dark_push).0
        =~= Seq::<TimedLightEvent>::empty());
    assert(p0.tles + Seq::<TimedLightEvent>::empty() =~= p0.tles);
    let sp2 = conv_spill(p0);
    assert(sp2.0 == p0);
    assert(sp2.1 is Ok);
    match p0.unit {
        MorseUnitTimeDecision::EstimateProvided(u) => {
            // the first flush ran classification and assembly, so both the
            // span and the symbol stage are empty
            assert(p0.tles =~= Seq::<TimedLightEvent>::empty());
            assert(p0.morses =~= Seq::<Morse>::empty());
            let mapped2 = Seq::new(p0.tles.len(), |i: int| crate::classify::best_morse(p0.tles[i], u as int));
            assert(mapped2 =~= Seq::<Morse>::empty());
            assert(p0.morses + mapped2 =~= Seq::<Morse>::empty());
            let cl2 = conv_classify(p0, u);
            assert(cl2.1 is Ok);
            let v2 = cl2.0;
            assert(v2 == (ConvState { tles: Seq::empty(), morses: Seq::empty(), ..p0 }));
            // assembling an empty symbol stage with a settled held run
            // stops at once
            lemma_boundary_pos_at(v2.morses, 0);
            assert(boundary_pos(v2.morses) == 0);
            let st = consume_step(v2.morses, v2.hold, crate::letters::morse_table());
            assert(v2.hold + v2.morses =~= v2.hold);
            assert(st == Ok::<(Option<char>, Seq<Morse>, int), MorseErr>((None, v2.hold, 0)));
            assert(definitive_spec(v2.morses, v2.hold, crate::letters::morse_table()) == st);
            assert(assemble_all(v2.morses, v2.hold, crate::letters::morse_table(), Seq::empty())
                == Ok::<(Seq<char>, Seq<Morse>), MorseErr>((Seq::empty(), v2.hold)));
            assert(conv_run_unit(p0, u) == Ok::<(ConvState, Seq<char>), MorseErr>(
                ((ConvState { morses: Seq::empty(), hold: v2.hold, ..v2 }), Seq::empty()),
            ));
            assert((ConvState { morses: Seq::empty(), hold: v2.hold, ..v2 }) == p0);
        },
        MorseUnitTimeDecision::EstimateToBeDetermined(cfg) => {
            // the first flush returned while still waiting for spans, so
            // the second wait returns nothing as well
            assert(p0 == v1);
            assert(p0.tles.len() < cfg.guess_after_this_many_tles);
        },
    }
}

/// The manager-level face of the same law.
pub proof fn lemma_second_flush_empty_manager(v: MgrState)
    requires
        mgr_inv(v),
        mgr_flush(v) is Ok,
        match (mgr_flush(v)->Ok_0).0.conv {
            Some(c) => settled(c),
            None => true,
        },
    ensures
        mgr_flush((mgr_flush(v)->Ok_0).0) == Ok::<(MgrState, Seq<char>), MorseErr>(
            ((mgr_flush(v)->Ok_0).0, Seq::empty()),
        ),
{
    let p0 = (mgr_flush(v)->Ok_0).0;
    match v.conv {
        Some(c) => {
            lemma_second_flush_empty(c);
            assert(p0 == (MgrState { conv: Some((conv_flush(c)->Ok_0).0), ..v }));
        },
        None => {
            if v.span_count > 7 {
                let cuts = crate::calibrate::cutoffs_of(v.buf)->Ok_0;
                let c0 = crate::manager::conv_init(
                    v.buf[0].sample_time,
                    v.unit,
                    cuts,
                    None,
                );
                let fed = crate::manager::feed_all(c0, v.buf);
                crate::manager::lemma_feed_all_ok(c0, v.buf);
                assert(Seq::<SampledLightIntensity>::empty() + v.buf =~= v.buf);
                assert(conv_inv(fed.0)) by {
                    assert(crate::edges::samples_ok(fed.0.samples));
                    assert(crate::estimate::batch_ok(fed.0.tles));
                }
                lemma_second_flush_empty(fed.0);
            }
        },
    }
}

/// The manager state after taking a whole sample batch, sample results
/// aside.
pub open spec fn mgr_feed_all(v: MgrState, s: Seq<SampledLightIntensity>) -> MgrState
    decreases s.len(),
{
    if s.len() == 0 {
        v
    } else {
        mgr_feed_all(mgr_add(v, s.first()).0, s.drop_first())
    }
}

/// Helper shape of the sustained-level argument: bright samples keep the
/// manager in its one-crossing state.
pub proof fn lemma_sustained_light_steps(v: MgrState, s: Seq<SampledLightIntensity>)
    requires
        forall|i: int| 0 <= i < s.len() ==> (#[trigger] s[i]).intensity > v.likely_middle,
        v.conv is None,
        v.span_count == 0 && v.likely_last is Dark || v.span_count == 1 && v.likely_last
            is Light,
    ensures
        mgr_feed_all(v, s).conv is None,
        mgr_feed_all(v, s).span_count <= 1,
        mgr_feed_all(v, s).likely_middle == v.likely_middle,
        mgr_feed_all(v, s).span_count == 0 && mgr_feed_all(v, s).likely_last is Dark
            || mgr_feed_all(v, s).span_count == 1 && mgr_feed_all(v, s).likely_last is Light,
    decreases s.len(),
{
    if s.len() > 0 {
        let v1 = mgr_add(v, s.first()).0;
        assert(s.first().intensity > v.likely_middle);
        assert(forall|i: int|
            0 <= i < s.drop_first().len() ==> (#[trigger] s.drop_first()[i]).intensity
                > v1.likely_middle);
        lemma_sustained_light_steps(v1, s.drop_first());
    }
}

/// The boundary law: a stream held at a single bright level produces no
/// characters, because at most one coarse crossing is counted and
/// calibration is never forced.
pub proof fn lemma_sustained_light_no_chars(
    middle: u16,
    unit: MorseUnitTimeDecision,
    s: Seq<SampledLightIntensity>,
)
    requires
        forall|i: int| 0 <= i < s.len() ==> (#[trigger] s[i]).intensity > middle,
    ensures
        ({
            let v = mgr_feed_all(mgr_init(middle, unit), s);
            mgr_flush(v) == Ok::<(MgrState, Seq<char>), MorseErr>((v, Seq::empty()))
        }),
{
    lemma_sustained_light_steps(mgr_init(middle, unit), s);
}


/// Edge detection cuts a split batch exactly where it cuts the whole:
/// the spans of the two halves, detected in turn, concatenate to the
/// spans of the concatenation.
pub proof fn lemma_detect_fusion(
    s1: Seq<SampledLightIntensity>,
    s2: Seq<SampledLightIntensity>,
    t0: crate::types::Time,
    cur: LightState,
    cuts: crate::types::IntensityCutoffs,
    dp: Option<crate::types::Time>,
)
    ensures
        ({
            let d1 = detect_spans(s1, t0, cur, cuts, dp);
            let d2 = detect_spans(s2, d1.1, d1.2, cuts, dp);
            detect_spans(s1 + s2, t0, cur, cuts, dp) == (d1.0 + d2.0, d2.1, d2.2)
        }),
    decreases s2.len(),
{
    let d1 = detect_spans(s1, t0, cur, cuts, dp);
    if s2.len() == 0 {
        assert(s1 + s2 =~= s1);
        assert(d1.0 + detect_spans(s2, d1.1, d1.2, cuts, dp).0 =~= d1.0);
    } else {
        lemma_detect_fusion(s1, s2.drop_last(), t0, cur, cuts, dp);
        assert((s1 + s2).drop_last() =~= s1 + s2.drop_last());
        assert((s1 + s2).last() == s2.last());
        let dmid = detect_spans(s2.drop_last(), d1.1, d1.2, cuts, dp);
        let st = crate::edges::detect_step(dmid.1, dmid.2, cuts, dp, s2.last());
        match st.0 {
            Some(tle) => {
                assert((d1.0 + dmid.0).push(tle) =~= d1.0 + dmid.0.push(tle));
            },
            None => {},
        }
    }
}


/// One assembler step on a clean run followed by more symbols equals the
/// step on the remainder with the clean run already held, shifted by the
/// clean run's length.
pub proof fn lemma_step_shift(
    m1: Seq<Morse>,
    m2: Seq<Morse>,
    h: Seq<Morse>,
    t: Map<MorseSequenceSerialization, char>,
)
    requires
        boundary_pos(m1) == m1.len(),
        !(h.len() > 0 && h[0] is WordSpace),
    ensures
        ({
            let b = consume_step(m2, h + m1, t);
            match b {
                Err(e) => consume_step(m1 + m2, h, t) == Err::<
                    (Option<char>, Seq<Morse>, int),
                    MorseErr,
                >(e),
                Ok(st) => consume_step(m1 + m2, h, t) == Ok::<
                    (Option<char>, Seq<Morse>, int),
                    MorseErr,
                >((st.0, st.1, m1.len() + st.2)),
            }
        }),
{
    lemma_boundary_pos_props(m1);
    lemma_boundary_pos_props(m2);
    lemma_boundary_pos_props(m1 + m2);
    let p2 = boundary_pos(m2) as int;
    // the held run with the clean marks appended still has no word gap in
    // front
    if (h + m1).len() > 0 && (h + m1)[0] is WordSpace {
        if h.len() > 0 {
            assert((h + m1)[0] == h[0]);
        } else {
            assert((h + m1)[0] == m1[0]);
            assert(!is_boundary(m1[0]));
        }
        assert(false);
    }
    // the concatenation's first boundary sits past the clean run, at the
    // remainder's first boundary
    assert forall|j: int| 0 <= j < m1.len() + p2 implies !is_boundary(#[trigger] (m1 + m2)[j]) by {
        if j < m1.len() {
            assert((m1 + m2)[j] == m1[j]);
        } else {
            assert((m1 + m2)[j] == m2[j - m1.len()]);
        }
    }
    lemma_boundary_pos_at(m1 + m2, m1.len() + p2);
    if p2 < m2.len() {
        assert((m1 + m2)[m1.len() + p2] == m2[p2]);
        assert(boundary_pos(m1 + m2) == m1.len() + p2);
        assert((h + m1) + m2.subrange(0, p2) =~= h + (m1 + m2).subrange(0, m1.len() + p2));
    } else {
        assert(boundary_pos(m1 + m2) == (m1 + m2).len());
        assert((h + m1) + m2 =~= h + (m1 + m2));
    }
}


/// Splitting the symbol stream does not change what assembler steps do:
/// a run on the first half either emits, errs, or parks its state, and a
/// run on the second half from the parked state continues exactly where
/// the run on the whole would be.
#[verifier::rlimit(100)]
#[verifier::spinoff_prover]
pub proof fn lemma_definitive_fusion(
    m1: Seq<Morse>,
    m2: Seq<Morse>,
    h: Seq<Morse>,
    t: Map<MorseSequenceSerialization, char>,
)
    ensures
        ({
            match definitive_spec(m1, h, t) {
                Err(e) => definitive_spec(m1 + m2, h, t) == Err::<
                    (Option<char>, Seq<Morse>, int),
                    MorseErr,
                >(e),
                Ok(st) => if st.0 is Some {
                    definitive_spec(m1 + m2, h, t) == Ok::<
                        (Option<char>, Seq<Morse>, int),
                        MorseErr,
                    >(st)
                } else if m2.len() > 0 || !(st.1.len() > 0 && st.1[0] is WordSpace) {
                    match definitive_spec(m2, st.1, t) {
                        Err(e) => definitive_spec(m1 + m2, h, t) == Err::<
                            (Option<char>, Seq<Morse>, int),
                            MorseErr,
                        >(e),
                        Ok(st2) => definitive_spec(m1 + m2, h, t) == Ok::<
                            (Option<char>, Seq<Morse>, int),
                            MorseErr,
                        >((st2.0, st2.1, m1.len() + st2.2)),
                    }
                } else {
                    true
                },
            }
        }),
    decreases m1.len(), h.len(),
{
    lemma_boundary_pos_props(m1);
    lemma_boundary_pos_props(m2);
    lemma_definitive_progress(m1, h, t);
    let whole = m1 + m2;
    if h.len() > 0 && h[0] is WordSpace {
        // the pending word gap step is the same on both sides and stops
        // both runs
        assert(consume_step(m1, h, t) == Ok::<(Option<char>, Seq<Morse>, int), MorseErr>(
            (Some(' '), h.drop_first(), 0),
        ));
        assert(consume_step(whole, h, t) == Ok::<(Option<char>, Seq<Morse>, int), MorseErr>(
            (Some(' '), h.drop_first(), 0),
        ));
    } else {
        let p1 = boundary_pos(m1) as int;
        if p1 < m1.len() {
            // the first boundary lies in the first half: the first step is
            // literally the same on both sides
            assert forall|j: int| 0 <= j < p1 implies !is_boundary(#[trigger] whole[j]) by {
                assert(whole[j] == m1[j]);
            }
            assert(whole[p1] == m1[p1]);
            lemma_boundary_pos_at(whole, p1);
            assert(boundary_pos(whole) == p1);
            assert(whole.subrange(0, p1) =~= m1.subrange(0, p1));
            let a = consume_step(whole, h, t);
            let b = consume_step(m1, h, t);
            assert(a == b);
            match b {
                Err(_) => {},
                Ok(s1) => {
                    if s1.0 is Some {
                    } else {
                        // an empty letter was skipped; both runs continue
                        // after the boundary
                        assert(s1.2 == p1 + 1);
                        if s1.2 < m1.len() {
                            lemma_definitive_fusion(m1.skip(s1.2), m2, s1.1, t);
                            lemma_definitive_progress(m1.skip(s1.2), s1.1, t);
                            assert(whole.skip(s1.2) =~= m1.skip(s1.2) + m2);
                            assert(m1.skip(s1.2).len() == m1.len() - s1.2);
                        } else {
                            // the boundary sat at the very end of the first
                            // half
                            assert(s1.2 == m1.len());
                            assert(whole.skip(s1.2) =~= m2);
                            if m2.len() > 0 {
                                lemma_definitive_progress(m2, s1.1, t);
                            } else {
                                if !(s1.1.len() > 0 && s1.1[0] is WordSpace) {
                                    lemma_boundary_pos_props(s1.1 + m2);
                                    assert(boundary_pos(m2) == 0);
                                    assert(s1.1 + m2 =~= s1.1);
                                    assert(consume_step(m2, s1.1, t) == Ok::<
                                        (Option<char>, Seq<Morse>, int),
                                        MorseErr,
                                    >((None, s1.1, 0)));
                                    assert(whole =~= m1);
                                }
                            }
                        }
                    }
                },
            }
        } else {
            // no boundary in the first half: the whole half is pulled into
            // the held run by one merged step
            lemma_step_shift(m1, m2, h, t);
            let b = consume_step(m2, h + m1, t);
            if h.len() + m1.len() > QUEUE_RING - 1 {
                // both sides overflow the held run
                assert(consume_step(m1, h, t) == Err::<
                    (Option<char>, Seq<Morse>, int),
                    MorseErr,
                >(MorseErr::InputTooLarge));
                assert(boundary_pos(m2) + (h + m1).len() > QUEUE_RING - 1);
                assert(b == Err::<(Option<char>, Seq<Morse>, int), MorseErr>(
                    MorseErr::InputTooLarge,
                ));
            } else {
                assert(h + m1 =~= h + m1.subrange(0, m1.len() as int));
                assert(consume_step(m1, h, t) == Ok::<(Option<char>, Seq<Morse>, int), MorseErr>(
                    (None, h + m1, m1.len() as int),
                ));
                // the first half's run parks the marks; the remainder's run
                // starts with the merged step
                if (h + m1).len() > 0 && (h + m1)[0] is WordSpace {
                    if h.len() > 0 {
                        assert((h + m1)[0] == h[0]);
                    } else {
                        assert((h + m1)[0] == m1[0]);
                        assert(!is_boundary(m1[0]));
                    }
                    assert(false);
                }
                match b {
                    Err(_) => {},
                    Ok(sb) => {
                        if sb.0 is None && sb.2 < m2.len() {
                            lemma_definitive_progress(m2, h + m1, t);
                            assert(whole.skip(m1.len() + sb.2) =~= m2.skip(sb.2));
                        }
                    },
                }
            }
        }
    }
}


/// Splitting the symbol stream does not change what assembly emits: the
/// characters of the first half, then the characters of the second half
/// assembled from the parked state, are the characters of the whole.
#[verifier::spinoff_prover]
pub proof fn lemma_assemble_fusion(
    m1: Seq<Morse>,
    m2: Seq<Morse>,
    h: Seq<Morse>,
    t: Map<MorseSequenceSerialization, char>,
    acc: Seq<char>,
)
    ensures
        ({
            match assemble_all(m1, h, t, acc) {
                Err(e) => assemble_all(m1 + m2, h, t, acc) == Err::<
                    (Seq<char>, Seq<Morse>),
                    MorseErr,
                >(e),
                Ok(p) => if m2.len() > 0 || !(p.1.len() > 0 && p.1[0] is WordSpace) {
                    assemble_all(m1 + m2, h, t, acc) == assemble_all(m2, p.1, t, p.0)
                } else {
                    true
                },
            }
        }),
    decreases m1.len(), h.len(),
{
    lemma_definitive_fusion(m1, m2, h, t);
    lemma_definitive_progress(m1, h, t);
    match definitive_spec(m1, h, t) {
        Err(_) => {},
        Ok(st) => {
            if st.0 is Some {
                lemma_definitive_progress(m1.skip(st.2), st.1, t);
                lemma_assemble_fusion(m1.skip(st.2), m2, st.1, t, acc.push(st.0->0));
                assert((m1 + m2).skip(st.2) =~= m1.skip(st.2) + m2);
            } else {
                assert(st.2 == m1.len());
                if m2.len() > 0 || !(st.1.len() > 0 && st.1[0] is WordSpace) {
                    lemma_definitive_progress(m2, st.1, t);
                    match definitive_spec(m2, st.1, t) {
                        Err(_) => {},
                        Ok(st2) => {
                            match st2.0 {
                                None => {},
                                Some(_) => {
                                    assert((m1 + m2).skip(m1.len() + st2.2) =~= m2.skip(st2.2));
                                },
                            }
                        },
                    }
                }
            }
        },
    }
}


/// Assembly only ever appends to its accumulator.
pub proof fn lemma_assemble_acc(
    m: Seq<Morse>,
    h: Seq<Morse>,
    t: Map<MorseSequenceSerialization, char>,
    acc: Seq<char>,
)
    ensures
        ({
            match assemble_all(m, h, t, Seq::empty()) {
                Err(e) => assemble_all(m, h, t, acc) == Err::<(Seq<char>, Seq<Morse>), MorseErr>(
                    e,
                ),
                Ok(p) => assemble_all(m, h, t, acc) == Ok::<(Seq<char>, Seq<Morse>), MorseErr>(
                    (acc + p.0, p.1),
                ),
            }
        }),
    decreases m.len(), h.len(),
{
    lemma_definitive_progress(m, h, t);
    match definitive_spec(m, h, t) {
        Err(_) => {},
        Ok(st) => {
            match st.0 {
                None => {
                    assert(acc + Seq::<char>::empty() =~= acc);
                },
                Some(c) => {
                    lemma_assemble_acc(m.skip(st.2), st.1, t, acc.push(c));
                    lemma_assemble_acc(m.skip(st.2), st.1, t, Seq::<char>::empty().push(c));
                    match assemble_all(m.skip(st.2), st.1, t, Seq::empty()) {
                        Err(_) => {},
                        Ok(p) => {
                            assert(Seq::<char>::empty().push(c) + p.0 =~= seq![c] + p.0);
                            assert(acc + (seq![c] + p.0) =~= acc.push(c) + p.0);
                        },
                    }
                },
            }
        },
    }
}


/// The ordering law for a committed unit time: flushing in the middle of
/// a sample stream and flushing again at the end yields exactly the
/// characters of a single flush over the whole stream, and the same final
/// state, whenever the single flush succeeds and the middle flush parks
/// no word gap.
#[verifier::rlimit(100)]
#[verifier::spinoff_prover]
pub proof fn lemma_flush_composes(v: ConvState, s: Seq<SampledLightIntensity>)
    requires
        v.unit is EstimateProvided,
        v.samples.len() + s.len() <= QUEUE_RING - 1,
        conv_flush((ConvState { samples: v.samples + s, ..v })) is Ok,
        conv_flush(v) is Ok ==> settled((conv_flush(v)->Ok_0).0),
    ensures
        feed_all(v, s).1 is Ok,
        feed_all(v, s).0 == (ConvState { samples: v.samples + s, ..v }),
        conv_flush(v) is Ok,
        ({
            let v1 = (conv_flush(v)->Ok_0).0;
            let o1 = (conv_flush(v)->Ok_0).1;
            let vb = ConvState { samples: v.samples + s, ..v };
            &&& feed_all(v1, s).1 is Ok
            &&& conv_flush(feed_all(v1, s).0) is Ok
            &&& (conv_flush(feed_all(v1, s).0)->Ok_0).0 == (conv_flush(vb)->Ok_0).0
            &&& o1 + (conv_flush(feed_all(v1, s).0)->Ok_0).1 == (conv_flush(vb)->Ok_0).1
        }),
{
    let u = v.unit->EstimateProvided_0;
    {
        {
            let t = crate::letters::morse_table();
            let vb = ConvState { samples: v.samples + s, ..v };
            lemma_feed_all_ok_general(v, s);

            let d0 = detect_spans(v.samples, v.start_time, v.light, v.cuts, v.dark_push);
            let d1 = detect_spans(s, d0.1, d0.2, v.cuts, v.dark_push);
            lemma_detect_fusion(v.samples, s, v.start_time, v.light, v.cuts, v.dark_push);
            assert(detect_spans(vb.samples, vb.start_time, vb.light, vb.cuts, vb.dark_push) == (
                d0.0 + d1.0,
                d1.1,
                d1.2,
            ));

            // the one batch spill succeeding bounds both partial spills
            let spb = conv_spill(vb);
            assert(spb.1 is Ok);
            assert(vb.tles.len() + (d0.0 + d1.0).len() <= QUEUE_RING - 1);
            let sp0 = conv_spill(v);
            assert(v.tles.len() + d0.0.len() <= QUEUE_RING - 1);
            assert(sp0.1 is Ok);
            let v1a = sp0.0;

            // the one batch classification succeeding bounds both partial
            // classifications
            let clb = conv_classify(spb.0, u);
            assert(clb.1 is Ok);
            assert(spb.0.morses.len() + spb.0.tles.len() <= QUEUE_RING - 1);
            let cl0 = conv_classify(v1a, u);
            assert(v1a.morses.len() + v1a.tles.len() <= QUEUE_RING - 1);
            assert(cl0.1 is Ok);

            // classification maps each span alone, so it splits with the
            // spans
            let tles01 = v.tles + d0.0;
            let mapped_all = Seq::new(
                spb.0.tles.len(),
                |i: int| crate::classify::best_morse(spb.0.tles[i], u as int),
            );
            let mapped_01 = Seq::new(
                tles01.len(),
                |i: int| crate::classify::best_morse(tles01[i], u as int),
            );
            let mapped_2 = Seq::new(
                d1.0.len(),
                |i: int| crate::classify::best_morse(d1.0[i], u as int),
            );
            assert(spb.0.tles == tles01 + d1.0) by {
                assert(v.tles + (d0.0 + d1.0) =~= tles01 + d1.0);
            }
            assert(mapped_all =~= mapped_01 + mapped_2) by {
                assert forall|i: int| 0 <= i < mapped_all.len() implies mapped_all[i] == (
                mapped_01 + mapped_2)[i] by {
                    if i < tles01.len() {
                        assert(spb.0.tles[i] == tles01[i]);
                    } else {
                        assert(spb.0.tles[i] == d1.0[i - tles01.len()]);
                    }
                }
            }

            let m1 = v.morses + mapped_01;
            let m2 = mapped_2;
            assert(clb.0.morses == m1 + m2) by {
                assert(v.morses + mapped_all =~= (v.morses + mapped_01) + mapped_2);
            }
            assert(cl0.0.morses == m1);

            // the batch assembly succeeding forces the first partial
            // assembly through, and the fused halves line up
            let ab = assemble_all(clb.0.morses, v.hold, t, Seq::empty());
            assert(ab is Ok);
            lemma_assemble_fusion(m1, m2, v.hold, t, Seq::empty());
            let a1 = assemble_all(m1, v.hold, t, Seq::empty());
            assert(a1 is Ok);
            let o1 = (a1->Ok_0).0;
            let h1 = (a1->Ok_0).1;
            let v1 = ConvState { morses: Seq::empty(), hold: h1, ..cl0.0 };
            assert(conv_run_unit(v1a, u) == Ok::<(ConvState, Seq<char>), MorseErr>((v1, o1)));
            assert(conv_flush(v) == Ok::<(ConvState, Seq<char>), MorseErr>((v1, o1)));
            assert(settled(v1));

            // the second leg: feed the remaining samples into the flushed
            // state and flush again
            lemma_feed_all_ok_general(v1, s);
            let v1s = feed_all(v1, s).0;
            assert(v1s.samples == s) by {
                assert(Seq::<SampledLightIntensity>::empty() + s =~= s);
            }
            assert(detect_spans(v1s.samples, v1s.start_time, v1s.light, v1s.cuts, v1s.dark_push)
                == d1);
            let sp1 = conv_spill(v1s);
            assert(v1.tles.len() == 0);
            assert(sp1.1 is Ok);
            let v2a = sp1.0;
            assert(v2a.tles == d1.0) by {
                assert(Seq::<TimedLightEvent>::empty() + d1.0 =~= d1.0);
            }
            let cl1 = conv_classify(v2a, u);
            assert(cl1.1 is Ok);
            assert(cl1.0.morses == m2) by {
                assert(Seq::new(
                    v2a.tles.len(),
                    |i: int| crate::classify::best_morse(v2a.tles[i], u as int),
                ) =~= mapped_2);
                assert(Seq::<Morse>::empty() + Seq::new(
                    v2a.tles.len(),
                    |i: int| crate::classify::best_morse(v2a.tles[i], u as int),
                ) =~= mapped_2);
            }

            // the fused second half, started from the parked state,
            // produces the tail of the batch output
            assert(assemble_all(m1 + m2, v.hold, t, Seq::empty()) == assemble_all(m2, h1, t, o1));
            lemma_assemble_acc(m2, h1, t, o1);
            let a2 = assemble_all(m2, h1, t, Seq::empty());
            assert(a2 is Ok);
            let o2 = (a2->Ok_0).0;
            let h2 = (a2->Ok_0).1;
            assert(ab == Ok::<(Seq<char>, Seq<Morse>), MorseErr>((o1 + o2, h2)));
            let v2 = ConvState { morses: Seq::empty(), hold: h2, ..cl1.0 };
            assert(conv_run_unit(v2a, u) == Ok::<(ConvState, Seq<char>), MorseErr>((v2, o2)));
            assert(conv_flush(v1s) == Ok::<(ConvState, Seq<char>), MorseErr>((v2, o2)));

            // both legs together equal the one batch flush
            let vbf = (conv_flush(vb)->Ok_0).0;
            assert(vbf == (ConvState { morses: Seq::empty(), hold: h2, ..clb.0 }));
            assert(v2 == vbf);
            assert(o1 + o2 == (conv_flush(vb)->Ok_0).1);
        }
    }
}

/// A batch that fits feeds through whole, from any starting stage.
pub proof fn lemma_feed_all_ok_general(c: ConvState, s: Seq<SampledLightIntensity>)
    requires
        c.samples.len() + s.len() <= QUEUE_RING - 1,
    ensures
        feed_all(c, s).1 is Ok,
        feed_all(c, s).0 == (ConvState { samples: c.samples + s, ..c }),
{
    crate::manager::lemma_feed_all_ok(c, s);
}


/// The ordering law lifted to the manager: once a converter with a
/// committed unit time is in place, flushing between samples and flushing
/// at the end equals one flush over everything.
pub proof fn lemma_manager_flush_composes(v: MgrState, s: Seq<SampledLightIntensity>)
    requires
        v.conv is Some,
        (v.conv->0).unit is EstimateProvided,
        (v.conv->0).samples.len() + s.len() <= QUEUE_RING - 1,
        mgr_flush(
            (MgrState { conv: Some(ConvState { samples: (v.conv->0).samples + s, ..v.conv->0 }), ..v }),
        ) is Ok,
        mgr_flush(v) is Ok ==> settled((mgr_flush(v)->Ok_0).0.conv->0),
    ensures
        mgr_flush(v) is Ok,
        ({
            let c = v.conv->0;
            let m1 = (mgr_flush(v)->Ok_0).0;
            let o1 = (mgr_flush(v)->Ok_0).1;
            let m1fed = MgrState { conv: Some(ConvState { samples: (m1.conv->0).samples + s, ..m1.conv->0 }), ..m1 };
            let mb = MgrState { conv: Some(ConvState { samples: c.samples + s, ..c }), ..v };
            &&& mgr_flush(m1fed) is Ok
            &&& (mgr_flush(m1fed)->Ok_0).0 == (mgr_flush(mb)->Ok_0).0
            &&& o1 + (mgr_flush(m1fed)->Ok_0).1 == (mgr_flush(mb)->Ok_0).1
        }),
{
    let c = v.conv->0;
    lemma_flush_composes(c, s);
    let c1 = (conv_flush(c)->Ok_0).0;
    lemma_feed_all_ok_general(c1, s);
    assert((MgrState { conv: Some(c1), ..v }).conv->0 == c1);
}

} // verus!
