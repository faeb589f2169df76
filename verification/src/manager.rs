use vstd::prelude::*;

use crate::calibrate::{calc_digital_cutoffs, cutoffs_of};
use crate::classify::{best_morse, tle_to_best_morse};
use crate::containers::{
    key_model, morse_queue_model, mq_clone, mq_enqueue, mq_new, sample_buf_model,
    sample_queue_model, sbuf_as_slice, sbuf_new, sbuf_push, sq_enqueue, sq_new, tbatch_as_slice,
    tle_queue_model, tq_dequeue, tq_enqueue, tq_len, tq_new, tq_snapshot, MorseKey, MorseQueue,
    SampleBuf, SampleQueue, TleQueue,
};
use crate::edges::{detect_spans, intensities_to_tles, samples_ok};
use crate::estimate::{
    batch_ok, best_grid_upto, estimate_unit_time, grid_point, lemma_batch_ok_concat,
    lemma_batch_ok_skip, lemma_batch_ok_take,
};
use crate::letters::{
    construct_key, definitive_consume_morses_produce_letter, definitive_spec, morse_table,
    consume_step, lemma_boundary_pos_at,
};
use crate::types::{
    decision_ok, time_ok, unit_ok, IntensityCutoffs, LightIntensity, LightState, Morse, MorseErr,
    MorseUnitTimeDecision, SampledLightIntensity, Time, TimedLightEvent, QUEUE_RING,
    SAMPLE_BUF_CAP,
};

verus! {

// The streaming pipeline: a converter owns the four staging queues and
// drives samples through edge detection, classification and letter
// assembly; the manager in front of it buffers early samples until enough
// coarse spans have been seen to calibrate the cutoffs.

/// The converter's state as the contracts speak of it: the four staged
/// sequences, the open span, and the configuration.
pub ghost struct ConvState {
    pub samples: Seq<SampledLightIntensity>,
    pub tles: Seq<TimedLightEvent>,
    pub morses: Seq<Morse>,
    pub hold: Seq<Morse>,
    pub start_time: Time,
    pub light: LightState,
    pub cuts: IntensityCutoffs,
    pub dark_push: Option<Time>,
    pub unit: MorseUnitTimeDecision,
}

/// The well-formed converter states: staged contents within the queue
/// capacities and times within the accepted range.
pub open spec fn conv_inv(v: ConvState) -> bool {
    &&& samples_ok(v.samples)
    &&& v.samples.len() <= QUEUE_RING - 1
    &&& batch_ok(v.tles)
    &&& v.tles.len() <= QUEUE_RING - 1
    &&& v.morses.len() <= QUEUE_RING - 1
    &&& v.hold.len() <= QUEUE_RING - 1
    &&& time_ok(v.start_time)
    &&& decision_ok(v.unit)
}

/// A fresh converter: empty stages, the open span starting dark at the
/// given time.
pub open spec fn conv_init(
    start_time: Time,
    unit: MorseUnitTimeDecision,
    cuts: IntensityCutoffs,
    dark_push: Option<Time>,
) -> ConvState {
    ConvState {
        samples: Seq::empty(),
        tles: Seq::empty(),
        morses: Seq::empty(),
        hold: Seq::empty(),
        start_time,
        light: LightState::Dark,
        cuts,
        dark_push,
        unit,
    }
}

/// Feeding one sample: appended to the sample stage, or refused when the
/// stage is full.
pub open spec fn conv_feed(v: ConvState, s: SampledLightIntensity) -> (ConvState, Result<
    (),
    MorseErr,
>) {
    if v.samples.len() < QUEUE_RING - 1 {
        (ConvState { samples: v.samples.push(s), ..v }, Ok(()))
    } else {
        (v, Err(MorseErr::InputTooLarge))
    }
}

/// Spilling the sample stage through the edge detector into the span
/// stage. The span stage takes what fits; spans beyond its capacity are
/// lost with an overflow error, and the open span is then not advanced.
pub open spec fn conv_spill(v: ConvState) -> (ConvState, Result<(), MorseErr>) {
    let d = detect_spans(v.samples, v.start_time, v.light, v.cuts, v.dark_push);
    if v.tles.len() + d.0.len() <= QUEUE_RING - 1 {
        (
            ConvState {
                samples: Seq::empty(),
                tles: v.tles + d.0,
                start_time: d.1,
                light: d.2,
                ..v
            },
            Ok(()),
        )
    } else {
        (
            ConvState { samples: Seq::empty(), tles: (v.tles + d.0).take(QUEUE_RING - 1), ..v },
            Err(MorseErr::InputTooLarge),
        )
    }
}

/// Classifying the span stage into the symbol stage at one unit time. The
/// symbol stage takes what fits; the span that no longer fits is lost with
/// an overflow error.
pub open spec fn conv_classify(v: ConvState, u: Time) -> (ConvState, Result<(), MorseErr>) {
    let mapped = Seq::new(v.tles.len(), |i: int| best_morse(v.tles[i], u as int));
    if v.morses.len() + v.tles.len() <= QUEUE_RING - 1 {
        (ConvState { tles: Seq::empty(), morses: v.morses + mapped, ..v }, Ok(()))
    } else {
        let k = QUEUE_RING - 1 - v.morses.len();
        (
            ConvState { tles: v.tles.skip(k + 1), morses: v.morses + mapped.take(k), ..v },
            Err(MorseErr::InputTooLarge),
        )
    }
}

/// Assembling the whole symbol stage into characters: steps of
/// `definitive_spec` repeat until one yields no character, which is when
/// the stage is exhausted.
pub open spec fn assemble_all(
    inc: Seq<Morse>,
    hold: Seq<Morse>,
    table: Map<crate::types::MorseSequenceSerialization, char>,
    acc: Seq<char>,
) -> Result<(Seq<char>, Seq<Morse>), MorseErr>
    decreases inc.len(), hold.len(),
    via assemble_all_decreases
{
    match definitive_spec(inc, hold, table) {
        Err(e) => Err(e),
        Ok(st) => match st.0 {
            None => Ok((acc, st.1)),
            Some(c) => assemble_all(inc.skip(st.2), st.1, table, acc.push(c)),
        },
    }
}

/// Every assembler run consumes within bounds, and a run that emits
/// without consuming has shortened the held run.
pub proof fn lemma_definitive_progress(
    inc: Seq<Morse>,
    hold: Seq<Morse>,
    table: Map<crate::types::MorseSequenceSerialization, char>,
)
    ensures
        match definitive_spec(inc, hold, table) {
            Ok(st) => 0 <= st.2 <= inc.len() && (st.0 is Some && st.2 == 0 ==> hold.len() > 0
                && st.1.len() < hold.len()) && (st.0 is None ==> st.2 == inc.len()) && (hold.len()
                <= QUEUE_RING - 1 ==> st.1.len() <= QUEUE_RING - 1),
            Err(_) => true,
        },
    decreases inc.len(),
{
    lemma_boundary_pos_at(inc, 0);
    match consume_step(inc, hold, table) {
        Err(_) => {},
        Ok(st) => {
            if st.0 is None && st.2 < inc.len() {
                lemma_definitive_progress(inc.skip(st.2), st.1, table);
            }
        },
    }
}

/// Assembly keeps the held run within the queue capacity.
pub proof fn lemma_assemble_hold_bound(
    inc: Seq<Morse>,
    hold: Seq<Morse>,
    table: Map<crate::types::MorseSequenceSerialization, char>,
    acc: Seq<char>,
)
    requires
        hold.len() <= QUEUE_RING - 1,
    ensures
        match assemble_all(inc, hold, table, acc) {
            Ok(p) => p.1.len() <= QUEUE_RING - 1,
            Err(_) => true,
        },
    decreases inc.len(), hold.len(),
{
    lemma_definitive_progress(inc, hold, table);
    match definitive_spec(inc, hold, table) {
        Err(_) => {},
        Ok(st) => {
            if st.0 is Some {
                lemma_assemble_hold_bound(inc.skip(st.2), st.1, table, acc.push(st.0->0));
            }
        },
    }
}

#[via_fn]
proof fn assemble_all_decreases(
    inc: Seq<Morse>,
    hold: Seq<Morse>,
    table: Map<crate::types::MorseSequenceSerialization, char>,
    acc: Seq<char>,
)
{
    lemma_definitive_progress(inc, hold, table);
}

/// Classification then assembly, after the sample stage has been spilled.
pub open spec fn conv_run_unit(v: ConvState, u: Time) -> Result<(ConvState, Seq<char>), MorseErr> {
    let cl = conv_classify(v, u);
    match cl.1 {
        Err(e) => Err(e),
        Ok(_) => {
            let v2 = cl.0;
            match assemble_all(v2.morses, v2.hold, morse_table(), Seq::empty()) {
                Err(e) => Err(e),
                Ok(p) => Ok(
                    (ConvState { morses: Seq::empty(), hold: p.1, ..v2 }, p.0),
                ),
            }
        },
    }
}

/// One full flush of the converter: spill the samples; with a provided
/// unit time classify and assemble; with one still to be determined,
/// commit the estimate once enough spans have gathered, else wait.
pub open spec fn conv_flush(v: ConvState) -> Result<(ConvState, Seq<char>), MorseErr> {
    let sp = conv_spill(v);
    match sp.1 {
        Err(e) => Err(e),
        Ok(_) => {
            let v1 = sp.0;
            match v1.unit {
                MorseUnitTimeDecision::EstimateProvided(u) => conv_run_unit(v1, u),
                MorseUnitTimeDecision::EstimateToBeDetermined(cfg) => {
                    if v1.tles.len() >= cfg.guess_after_this_many_tles {
                        if v1.tles.len() == 0 {
                            Err(MorseErr::EmptyInput)
                        } else {
                            let mn = cfg.min_guess_ms as int;
                            let mx = cfg.max_guess_ms as int;
                            let u = grid_point(mn, mx, best_grid_upto(v1.tles, mn, mx, 20).0) as Time;
                            conv_run_unit(
                                ConvState {
                                    unit: MorseUnitTimeDecision::EstimateProvided(u),
                                    ..v1
                                },
                                u,
                            )
                        }
                    } else {
                        Ok((v1, Seq::empty()))
                    }
                },
            }
        },
    }
}

/// A grid candidate lies between its two guesses.
pub proof fn lemma_grid_in_range(mn: int, mx: int, k: int)
    requires
        0 <= mn <= mx,
        0 <= k <= 19,
    ensures
        mn <= grid_point(mn, mx, k) <= mx,
{
    let diff = mx - mn;
    assert(0 <= diff * k <= 19 * diff) by (nonlinear_arith)
        requires
            0 <= diff,
            0 <= k <= 19,
    ;
    assert(diff * k / 20 <= 19 * diff / 20);
    assert(19 * diff / 20 <= diff) by (nonlinear_arith)
        requires
            0 <= diff,
    ;
    assert(0 <= diff * k / 20);
}

/// The streaming core: owns the staging queues and the symbol table and
/// turns queued samples into characters on each flush.
pub struct MorseConverter {
    samples: SampleQueue,
    tles: TleQueue,
    morses: MorseQueue,
    hold_word: MorseQueue,
    to_tles_time: Time,
    to_tles_state: LightState,
    cuts: IntensityCutoffs,
    morse_key: MorseKey,
    dark_push_time: Option<Time>,
    unit_time: MorseUnitTimeDecision,
}

impl View for MorseConverter {
    type V = ConvState;

    closed spec fn view(&self) -> ConvState {
        ConvState {
            samples: sample_queue_model(self.samples),
            tles: tle_queue_model(self.tles),
            morses: morse_queue_model(self.morses),
            hold: morse_queue_model(self.hold_word),
            start_time: self.to_tles_time,
            light: self.to_tles_state,
            cuts: self.cuts,
            dark_push: self.dark_push_time,
            unit: self.unit_time,
        }
    }
}

impl MorseConverter {
    /// A converter whose staged contents fit, whose times are accepted and
    /// whose symbol table is the fixed one.
    pub closed spec fn wf(&self) -> bool {
        conv_inv(self@) && key_model(self.morse_key) == morse_table()
    }

    /// Builds a fresh converter; the symbol table always fits, so this
    /// always succeeds.
    pub fn new(
        start_time: Time,
        unit_time: MorseUnitTimeDecision,
        cuts: IntensityCutoffs,
        dark_push_time: Option<Time>,
    ) -> (r: Result<MorseConverter, ()>)
        requires
            time_ok(start_time),
            decision_ok(unit_time),
        ensures
            r is Ok,
            r->Ok_0.wf(),
            r->Ok_0@ == conv_init(start_time, unit_time, cuts, dark_push_time),
    {
        let morse_key = match construct_key() {
            Ok(k) => k,
            Err(_) => {
                return Err(());
            },
        };
        Ok(
            MorseConverter {
                samples: sq_new(),
                tles: tq_new(),
                morses: mq_new(),
                hold_word: mq_new(),
                to_tles_time: start_time,
                to_tles_state: LightState::Dark,
                cuts,
                morse_key,
                dark_push_time,
                unit_time,
            },
        )
    }

    /// Queues one sample, exactly as `conv_feed` describes.
    pub fn add_sample(&mut self, sample: SampledLightIntensity) -> (r: Result<(), MorseErr>)
        requires
            old(self).wf(),
            time_ok(sample.sample_time),
        ensures
            final(self).wf(),
            final(self)@ == conv_feed(old(self)@, sample).0,
            r == conv_feed(old(self)@, sample).1,
    {
        let ok = sq_enqueue(&mut self.samples, sample);
        if ok {
            Ok(())
        } else {
            Err(MorseErr::InputTooLarge)
        }
    }

    /// Spills the sample stage into the span stage, exactly as
    /// `conv_spill` describes.
    fn consume_samples(&mut self) -> (r: Result<(), MorseErr>)
        requires
            old(self).wf(),
        ensures
            final(self).wf(),
            final(self)@ == conv_spill(old(self)@).0,
            r == conv_spill(old(self)@).1,
    {
        let ghost tles0 = tle_queue_model(self.tles);
        let info = match intensities_to_tles(
            &mut self.samples,
            (self.to_tles_time, self.to_tles_state),
            self.cuts,
            self.dark_push_time,
        ) {
            Ok(i) => i,
            Err(e) => {
                return Err(MorseErr::FailedTLEConversion(e));
            },
        };
        proof {
            crate::edges::lemma_detect_ranges(
                old(self)@.samples,
                old(self)@.start_time,
                old(self)@.light,
                old(self)@.cuts,
                old(self)@.dark_push,
            );
        }
        let ghost spans = detect_spans(
            old(self)@.samples,
            old(self)@.start_time,
            old(self)@.light,
            old(self)@.cuts,
            old(self)@.dark_push,
        ).0;
        let slice = tbatch_as_slice(&info.tles);
        let n = slice.len();
        let mut i: usize = 0;
        while i < n
            invariant
                i <= n,
                n == spans.len(),
                slice@ == spans,
                batch_ok(spans),
                old(self).wf(),
                tles0 == old(self)@.tles,
                spans == detect_spans(
                    old(self)@.samples,
                    old(self)@.start_time,
                    old(self)@.light,
                    old(self)@.cuts,
                    old(self)@.dark_push,
                ).0,
                tles0.len() <= QUEUE_RING - 1,
                tle_queue_model(self.tles) == tles0 + spans.take(i as int),
                tles0.len() + i <= QUEUE_RING - 1,
                sample_queue_model(self.samples) == Seq::<SampledLightIntensity>::empty(),
                morse_queue_model(self.morses) == old(self)@.morses,
                morse_queue_model(self.hold_word) == old(self)@.hold,
                self.to_tles_time == old(self)@.start_time,
                self.to_tles_state == old(self)@.light,
                self.cuts == old(self)@.cuts,
                self.dark_push_time == old(self)@.dark_push,
                self.unit_time == old(self)@.unit,
                key_model(self.morse_key) == morse_table(),
            decreases n - i,
        {
            let ok = tq_enqueue(&mut self.tles, slice[i]);
            if !ok {
                proof {
                    assert(tles0.len() + i == QUEUE_RING - 1);
                    assert(tles0.len() + spans.len() > QUEUE_RING - 1);
                    assert((tles0 + spans).take(QUEUE_RING - 1) =~= tles0 + spans.take(i as int));
                    lemma_batch_ok_concat(tles0, spans);
                    lemma_batch_ok_take(tles0 + spans, QUEUE_RING - 1);
                }
                return Err(MorseErr::InputTooLarge);
            }
            proof {
                assert((tles0 + spans.take(i as int)).push(spans[i as int]) =~= tles0 + spans.take(
                    i + 1,
                ));
            }
            i += 1;
        }
        self.to_tles_time = info.state.0;
        self.to_tles_state = info.state.1;
        proof {
            assert(spans.take(n as int) =~= spans);
            assert(tle_queue_model(self.tles) =~= tles0 + spans);
            lemma_batch_ok_concat(tles0, spans);
        }
        Ok(())
    }

    /// Classifies the span stage into the symbol stage, exactly as
    /// `conv_classify` describes.
    fn consume_tles(&mut self, unit_ms: Time) -> (r: Result<(), MorseErr>)
        requires
            old(self).wf(),
            unit_ok(unit_ms),
        ensures
            final(self).wf(),
            final(self)@ == conv_classify(old(self)@, unit_ms).0,
            r == conv_classify(old(self)@, unit_ms).1,
    {
        let ghost tles0 = tle_queue_model(self.tles);
        let ghost morses0 = morse_queue_model(self.morses);
        let ghost mapped = Seq::new(
            tles0.len(),
            |i: int| best_morse(tles0[i], unit_ms as int),
        );
        let ghost mut k: int = 0;
        loop
            invariant
                0 <= k <= tles0.len(),
                old(self).wf(),
                unit_ok(unit_ms),
                batch_ok(tles0),
                tles0.len() <= QUEUE_RING - 1,
                morses0.len() <= QUEUE_RING - 1,
                mapped == Seq::new(tles0.len(), |i: int| best_morse(tles0[i], unit_ms as int)),
                tles0 == old(self)@.tles,
                morses0 == old(self)@.morses,
                tle_queue_model(self.tles) == tles0.skip(k),
                morse_queue_model(self.morses) == morses0 + mapped.take(k),
                morses0.len() + k <= QUEUE_RING - 1,
                morse_queue_model(self.hold_word) == old(self)@.hold,
                sample_queue_model(self.samples) == old(self)@.samples,
                self.to_tles_time == old(self)@.start_time,
                self.to_tles_state == old(self)@.light,
                self.cuts == old(self)@.cuts,
                self.dark_push_time == old(self)@.dark_push,
                self.unit_time == old(self)@.unit,
                key_model(self.morse_key) == morse_table(),
            decreases tles0.len() - k,
        {
            let next = tq_dequeue(&mut self.tles);
            match next {
                None => {
                    proof {
                        assert(k == tles0.len());
                        assert(mapped.take(k) =~= mapped);
                        assert(tles0.skip(k) =~= Seq::<TimedLightEvent>::empty());
                    }
                    return Ok(());
                },
                Some(t) => {
                    proof {
                        assert(t == tles0.skip(k)[0]);
                        assert(t == tles0[k]);
                        assert(crate::types::dur_ok(t));
                        assert(tles0.skip(k).drop_first() =~= tles0.skip(k + 1));
                    }
                    let m = match tle_to_best_morse(&t, unit_ms) {
                        Ok(m) => m,
                        Err(e) => {
                            return Err(e);
                        },
                    };
                    let ok = mq_enqueue(&mut self.morses, m);
                    if !ok {
                        proof {
                            assert(morses0.len() + k == QUEUE_RING - 1);
                            assert(morses0.len() + tles0.len() > QUEUE_RING - 1);
                            assert(mapped.take(k) =~= mapped.take(
                                QUEUE_RING - 1 - morses0.len(),
                            ));
                            assert(tles0.skip(k + 1) =~= tles0.skip(
                                QUEUE_RING - 1 - morses0.len() + 1,
                            ));
                            lemma_batch_ok_skip(tles0, k + 1);
                        }
                        return Err(MorseErr::InputTooLarge);
                    }
                    proof {
                        assert(m == mapped[k]);
                        assert((morses0 + mapped.take(k)).push(m) =~= morses0 + mapped.take(k + 1));
                        k = k + 1;
                    }
                },
            }
        }
    }

    /// Assembles the symbol stage into characters, exactly as
    /// `assemble_all` describes; on success the symbol stage is drained.
    fn consume_morses(&mut self) -> (r: Result<Vec<char>, MorseErr>)
        requires
            old(self).wf(),
        ensures
            final(self).wf(),
            match r {
                Ok(v) => ({
                    let a = assemble_all(
                        old(self)@.morses,
                        old(self)@.hold,
                        morse_table(),
                        Seq::empty(),
                    );
                    &&& a is Ok
                    &&& v@ == (a->Ok_0).0
                    &&& final(self)@ == (ConvState {
                        morses: Seq::empty(),
                        hold: (a->Ok_0).1,
                        ..old(self)@
                    })
                }),
                Err(e) => ({
                    let a = assemble_all(
                        old(self)@.morses,
                        old(self)@.hold,
                        morse_table(),
                        Seq::empty(),
                    );
                    a == Err::<(Seq<char>, Seq<Morse>), MorseErr>(e)
                }),
            },
    {
        let mut outvec: Vec<char> = Vec::new();
        let ghost morses0 = morse_queue_model(self.morses);
        let ghost hold0 = morse_queue_model(self.hold_word);
        proof {
            assert(outvec@ =~= Seq::<char>::empty());
        }
        loop
            invariant
                old(self).wf(),
                morse_queue_model(self.morses).len() <= QUEUE_RING - 1,
                morse_queue_model(self.hold_word).len() <= QUEUE_RING - 1,
                key_model(self.morse_key) == morse_table(),
                sample_queue_model(self.samples) == old(self)@.samples,
                tle_queue_model(self.tles) == old(self)@.tles,
                self.to_tles_time == old(self)@.start_time,
                self.to_tles_state == old(self)@.light,
                self.cuts == old(self)@.cuts,
                self.dark_push_time == old(self)@.dark_push,
                self.unit_time == old(self)@.unit,
                assemble_all(morses0, hold0, morse_table(), Seq::empty()) == assemble_all(
                    morse_queue_model(self.morses),
                    morse_queue_model(self.hold_word),
                    morse_table(),
                    outvec@,
                ),
                morses0 == old(self)@.morses,
                hold0 == old(self)@.hold,
            decreases morse_queue_model(self.morses).len(), morse_queue_model(self.hold_word).len(),
        {
            let ghost cur = morse_queue_model(self.morses);
            let ghost hold_cur = morse_queue_model(self.hold_word);
            let hw = mq_clone(&self.hold_word);
            let r = definitive_consume_morses_produce_letter(&mut self.morses, hw, &self.morse_key);
            match r {
                Err(e) => {
                    return Err(e);
                },
                Ok((Some(c), nq)) => {
                    proof {
                        lemma_definitive_progress(cur, hold_cur, morse_table());
                    }
                    self.hold_word = nq;
                    outvec.push(c);
                },
                Ok((None, nq)) => {
                    self.hold_word = nq;
                    proof {
                        let st = definitive_spec(cur, hold_cur, morse_table())->Ok_0;
                        lemma_definitive_progress(cur, hold_cur, morse_table());
                        assert(st.2 == cur.len());
                        assert(cur.skip(st.2) =~= Seq::<Morse>::empty());
                        assert(assemble_all(cur, hold_cur, morse_table(), outvec@) == Ok::<
                            (Seq<char>, Seq<Morse>),
                            MorseErr,
                        >((outvec@, st.1)));
                    }
                    return Ok(outvec);
                },
            }
        }
    }

    /// Flushes the pipeline once, exactly as `conv_flush` describes: the
    /// produced characters on success, the first stage error otherwise.
    pub fn produce_chars(&mut self) -> (r: Result<Vec<char>, MorseErr>)
        requires
            old(self).wf(),
        ensures
            final(self).wf(),
            match r {
                Ok(v) => ({
                    let f = conv_flush(old(self)@);
                    &&& f is Ok
                    &&& v@ == (f->Ok_0).1
                    &&& final(self)@ == (f->Ok_0).0
                }),
                Err(e) => conv_flush(old(self)@) == Err::<(ConvState, Seq<char>), MorseErr>(e),
            },
        decreases (match self@.unit {
            MorseUnitTimeDecision::EstimateToBeDetermined(_) => 1int,
            MorseUnitTimeDecision::EstimateProvided(_) => 0int,
        }),
    {
        self.consume_samples()?;

        match self.unit_time {
            MorseUnitTimeDecision::EstimateProvided(unit_ms) => {
                self.consume_tles(unit_ms)?;
                self.consume_morses()
            },
            MorseUnitTimeDecision::EstimateToBeDetermined(cfg) => {
                let l = tq_len(&self.tles);
                if l as u32 >= cfg.guess_after_this_many_tles {
                    let ghost v1 = conv_spill(old(self)@).0;
                    let snap = tq_snapshot(&self.tles);
                    let est = estimate_unit_time(
                        snap.as_slice(),
                        cfg.min_guess_ms,
                        cfg.max_guess_ms,
                    )?;
                    proof {
                        crate::estimate::lemma_best_grid_props(
                            v1.tles,
                            cfg.min_guess_ms as int,
                            cfg.max_guess_ms as int,
                            20,
                        );
                        lemma_grid_in_range(
                            cfg.min_guess_ms as int,
                            cfg.max_guess_ms as int,
                            best_grid_upto(
                                v1.tles,
                                cfg.min_guess_ms as int,
                                cfg.max_guess_ms as int,
                                20,
                            ).0,
                        );
                    }
                    self.unit_time = MorseUnitTimeDecision::EstimateProvided(est.item);
                    let ghost v2 = self@;
                    proof {
                        assert(detect_spans(
                            v2.samples,
                            v2.start_time,
                            v2.light,
                            v2.cuts,
                            v2.dark_push,
                        ).0 =~= Seq::<TimedLightEvent>::empty());
                        assert(v2.tles + Seq::<TimedLightEvent>::empty() =~= v2.tles);
                        assert(conv_spill(v2).0 == v2);
                    }
                    self.produce_chars()
                } else {
                    Ok(Vec::new())
                }
            },
        }
    }
}


/// The manager's state as the contracts speak of it: the optional
/// committed converter, the calibration buffer and the coarse span count.
pub ghost struct MgrState {
    pub conv: Option<ConvState>,
    pub buf: Seq<SampledLightIntensity>,
    pub span_count: u32,
    pub likely_middle: LightIntensity,
    pub likely_last: LightState,
    pub unit: MorseUnitTimeDecision,
}

/// The well-formed manager states.
pub open spec fn mgr_inv(v: MgrState) -> bool {
    &&& samples_ok(v.buf)
    &&& v.buf.len() <= SAMPLE_BUF_CAP
    &&& decision_ok(v.unit)
    &&& (v.span_count > 0 ==> v.buf.len() > 0)
    &&& match v.conv {
        Some(c) => conv_inv(c),
        None => true,
    }
}

/// A fresh manager: nothing buffered, no converter, dark assumed.
pub open spec fn mgr_init(likely_middle: LightIntensity, unit: MorseUnitTimeDecision) -> MgrState {
    MgrState {
        conv: None,
        buf: Seq::empty(),
        span_count: 0,
        likely_middle,
        likely_last: LightState::Dark,
        unit,
    }
}

/// The span counter steps up to its ceiling and then stays.
pub open spec fn bump(c: u32) -> u32 {
    if c < u32::MAX {
        (c + 1) as u32
    } else {
        c
    }
}

/// Feeding one sample into the manager: before calibration the coarse
/// crossing count is updated and the sample buffered; afterwards the
/// sample goes to the converter.
pub open spec fn mgr_add(v: MgrState, s: SampledLightIntensity) -> (MgrState, Result<
    (),
    MorseErr,
>) {
    match v.conv {
        None => {
            let v1 = if s.intensity < v.likely_middle && v.likely_last is Light {
                MgrState { span_count: bump(v.span_count), likely_last: LightState::Dark, ..v }
            } else if s.intensity > v.likely_middle && v.likely_last is Dark {
                MgrState { span_count: bump(v.span_count), likely_last: LightState::Light, ..v }
            } else {
                v
            };
            if v1.buf.len() < SAMPLE_BUF_CAP {
                (MgrState { buf: v1.buf.push(s), ..v1 }, Ok(()))
            } else {
                (v1, Err(MorseErr::InputTooLarge))
            }
        },
        Some(c) => {
            let f = conv_feed(c, s);
            (MgrState { conv: Some(f.0), ..v }, f.1)
        },
    }
}

/// Feeding a whole batch into a converter, stopping at the first refusal.
pub open spec fn feed_all(c: ConvState, s: Seq<SampledLightIntensity>) -> (ConvState, Result<
    (),
    MorseErr,
>)
    decreases s.len(),
{
    if s.len() == 0 {
        (c, Ok(()))
    } else {
        let f = conv_feed(c, s.first());
        match f.1 {
            Err(e) => (f.0, Err(e)),
            Ok(_) => feed_all(f.0, s.drop_first()),
        }
    }
}

/// A batch that fits in the sample stage feeds through whole.
pub proof fn lemma_feed_all_ok(c: ConvState, s: Seq<SampledLightIntensity>)
    requires
        c.samples.len() + s.len() <= QUEUE_RING - 1,
    ensures
        feed_all(c, s).1 is Ok,
        feed_all(c, s).0 == (ConvState { samples: c.samples + s, ..c }),
    decreases s.len(),
{
    if s.len() == 0 {
        assert(c.samples + s =~= c.samples);
        assert((ConvState { samples: c.samples + s, ..c }) == c);
    } else {
        let f = conv_feed(c, s.first());
        lemma_feed_all_ok(f.0, s.drop_first());
        assert(c.samples.push(s.first()) + s.drop_first() =~= c.samples + s);
    }
}

/// One flush of the manager: a committed converter flushes; before
/// commitment, more than seven coarse spans trigger calibration on the
/// buffer, the buffer replays into a fresh converter and that converter
/// flushes; with seven or fewer nothing happens.
pub open spec fn mgr_flush(v: MgrState) -> Result<(MgrState, Seq<char>), MorseErr> {
    match v.conv {
        Some(c) => match conv_flush(c) {
            Err(e) => Err(e),
            Ok(p) => Ok((MgrState { conv: Some(p.0), ..v }, p.1)),
        },
        None => {
            if v.span_count > 7 {
                match cutoffs_of(v.buf) {
                    Err(e) => Err(MorseErr::CalcDigitalFailed(e)),
                    Ok(cuts) => {
                        let c0 = conv_init(v.buf[0].sample_time, v.unit, cuts, None);
                        let fed = feed_all(c0, v.buf);
                        match fed.1 {
                            Err(e) => Err(e),
                            Ok(_) => match conv_flush(fed.0) {
                                Err(e) => Err(e),
                                Ok(p) => Ok((MgrState { conv: Some(p.0), ..v }, p.1)),
                            },
                        }
                    },
                }
            } else {
                Ok((v, Seq::empty()))
            }
        },
    }
}

/// The streaming front end: buffers samples until enough coarse spans
/// have been seen, then calibrates and hands everything to the converter.
pub struct MorseManager {
    converter: Option<MorseConverter>,
    sample_buf: SampleBuf,
    span_count: u32,
    likely_middle: LightIntensity,
    likely_last_light_state: LightState,
    unit_time: MorseUnitTimeDecision,
}

impl View for MorseManager {
    type V = MgrState;

    closed spec fn view(&self) -> MgrState {
        MgrState {
            conv: match self.converter {
                Some(c) => Some(c@),
                None => None,
            },
            buf: sample_buf_model(self.sample_buf),
            span_count: self.span_count,
            likely_middle: self.likely_middle,
            likely_last: self.likely_last_light_state,
            unit: self.unit_time,
        }
    }
}

impl MorseManager {
    /// A manager whose state is well formed, with a well-formed converter
    /// when one is committed.
    pub closed spec fn wf(&self) -> bool {
        mgr_inv(self@) && match self.converter {
            Some(c) => c.wf(),
            None => true,
        }
    }

    /// Builds a fresh manager around a guessed middle intensity and a
    /// unit-time decision.
    pub fn new(likely_middle: LightIntensity, unit_time: MorseUnitTimeDecision) -> (r:
        MorseManager)
        requires
            decision_ok(unit_time),
        ensures
            r.wf(),
            r@ == mgr_init(likely_middle, unit_time),
    {
        MorseManager {
            converter: None,
            sample_buf: sbuf_new(),
            span_count: 0,
            likely_middle,
            likely_last_light_state: LightState::Dark,
            unit_time,
        }
    }

    /// Takes one sample, exactly as `mgr_add` describes; only a full
    /// buffer or a full sample stage is refused, with `InputTooLarge`.
    pub fn add_sample(&mut self, sli: SampledLightIntensity) -> (r: Result<(), MorseErr>)
        requires
            old(self).wf(),
            time_ok(sli.sample_time),
        ensures
            final(self).wf(),
            final(self)@ == mgr_add(old(self)@, sli).0,
            r == mgr_add(old(self)@, sli).1,
    {
        match &mut self.converter {
            None => {
                if sli.intensity < self.likely_middle && self.likely_last_light_state
                    == LightState::Light {
                    if self.span_count < u32::MAX {
                        self.span_count = self.span_count + 1;
                    }
                    self.likely_last_light_state = LightState::Dark;
                } else if sli.intensity > self.likely_middle && self.likely_last_light_state
                    == LightState::Dark {
                    if self.span_count < u32::MAX {
                        self.span_count = self.span_count + 1;
                    }
                    self.likely_last_light_state = LightState::Light;
                }
                let ok = sbuf_push(&mut self.sample_buf, sli);
                if ok {
                    Ok(())
                } else {
                    Err(MorseErr::InputTooLarge)
                }
            },
            Some(converter) => converter.add_sample(sli),
        }
    }

    /// Flushes the pipeline once, exactly as `mgr_flush` describes: the
    /// decoded characters so far on success, the first stage error
    /// otherwise.
    pub fn produce_chars(&mut self) -> (r: Result<Vec<char>, MorseErr>)
        requires
            old(self).wf(),
        ensures
            final(self).wf(),
            match r {
                Ok(v) => ({
                    let f = mgr_flush(old(self)@);
                    &&& f is Ok
                    &&& v@ == (f->Ok_0).1
                    &&& final(self)@ == (f->Ok_0).0
                }),
                Err(e) => mgr_flush(old(self)@) == Err::<(MgrState, Seq<char>), MorseErr>(e),
            },
        decreases (match self@.conv {
            None => 1int,
            Some(_) => 0int,
        }),
    {
        match &mut self.converter {
            Some(converter) => converter.produce_chars(),
            None => {
                if self.span_count > 7 {
                    let ghost v0 = self@;
                    let slice = sbuf_as_slice(&self.sample_buf);
                    let cuts = match calc_digital_cutoffs(slice) {
                        Ok(c) => c,
                        Err(e) => {
                            return Err(MorseErr::CalcDigitalFailed(e));
                        },
                    };
                    let first_time = slice[0].sample_time;
                    let mut converter = match MorseConverter::new(
                        first_time,
                        self.unit_time,
                        cuts,
                        None,
                    ) {
                        Ok(c) => c,
                        Err(_) => {
                            return Err(MorseErr::InputTooLarge);
                        },
                    };
                    let ghost c0 = conv_init(first_time, v0.unit, cuts, None);
                    proof {
                        assert(v0.buf.take(0) =~= Seq::<SampledLightIntensity>::empty());
                        assert(converter@ == (ConvState { samples: v0.buf.take(0), ..c0 }));
                    }
                    let n = slice.len();
                    let mut i: usize = 0;
                    while i < n
                        invariant
                            i <= n,
                            n == v0.buf.len(),
                            n <= SAMPLE_BUF_CAP,
                            slice@ == v0.buf,
                            samples_ok(v0.buf),
                            c0 == conv_init(v0.buf[0].sample_time, v0.unit, cuts, None),
                            converter.wf(),
                            converter@ == (ConvState { samples: v0.buf.take(i as int), ..c0 }),
                        decreases n - i,
                    {
                        proof {
                            assert(v0.buf.take(i as int).push(v0.buf[i as int]) =~= v0.buf.take(
                                i + 1,
                            ));
                        }
                        match converter.add_sample(slice[i]) {
                            Ok(_) => {},
                            Err(e) => {
                                return Err(e);
                            },
                        }
                        i += 1;
                    }
                    proof {
                        assert(v0.buf.take(n as int) =~= v0.buf);
                        lemma_feed_all_ok(c0, v0.buf);
                        assert(c0.samples + v0.buf =~= v0.buf);
                        assert(converter@ == feed_all(c0, v0.buf).0);
                    }
                    self.converter = Some(converter);
                    self.produce_chars()
                } else {
                    Ok(Vec::new())
                }
            },
        }
    }
}

} // verus!
