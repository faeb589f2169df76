use vstd::prelude::*;

verus! {

/// Milliseconds, as kept by the sampling collaborator.
pub type Time = i64;

/// Raw ADC reading of the light channel.
pub type LightIntensity = u16;

/// A Morse letter serialized as `(length, bits)`: bit `i` of `bits` is set
/// iff the `i`-th symbol of the letter is a dash.
pub type MorseSequenceSerialization = (u8, u8);

/// Largest sample time (and unit time) the pipeline accepts, in milliseconds.
/// Keeping times below this bound keeps every duration, score and score sum
/// inside `i64`.
pub const MAX_TIME_MS: i64 = 1_000_000_000_000;

/// Largest span batch the scoring functions accept; keeps score sums in `i64`.
pub const MAX_SCORE_BATCH: usize = 100_000;

/// Capacity of the manager's pre-calibration sample buffer.
pub const SAMPLE_BUF_CAP: usize = 64;

/// Ring size of each pipeline queue; each holds one less element.
pub const QUEUE_RING: usize = 128;

/// Capacity of one detected span batch.
pub const TLE_BATCH_CAP: usize = 128;

/// Slot count of the symbol table.
pub const KEY_CAP: usize = 64;

#[derive(PartialEq, Eq, Copy, Clone, Debug, Structural)]
pub enum Morse {
    Dot,
    Dash,
    TinySpace,
    LetterSpace,
    WordSpace,
}

#[derive(PartialEq, Eq, Copy, Clone, Debug, Structural)]
pub enum LightState {
    Light,
    Dark,
}

#[derive(PartialEq, Eq, Copy, Clone, Debug, Structural)]
pub struct Scored<T> {
    pub item: T,
    pub score: i64,
}

#[derive(PartialEq, Eq, Copy, Clone, Debug, Structural)]
pub struct SampledLightIntensity {
    pub intensity: LightIntensity,
    pub sample_time: Time,
}

#[derive(PartialEq, Eq, Copy, Clone, Debug, Structural)]
pub struct TimedLightEvent {
    pub light_state: LightState,
    pub duration: Time,
}

#[derive(PartialEq, Eq, Copy, Clone, Debug, Structural)]
pub struct MorseCandidate {
    pub light_state: LightState,
    pub units: Time,
}

#[derive(PartialEq, Eq, Copy, Clone, Debug, Structural)]
pub struct IntensityCutoffs {
    pub low: LightIntensity,
    pub high: LightIntensity,
}

#[derive(PartialEq, Eq, Copy, Clone, Debug, Structural)]
pub enum CalcDigitalCutoffsErrs {
    TooBig,
    NoIntensities,
    NoLows,
    NoHighs,
}

#[derive(PartialEq, Eq, Copy, Clone, Debug, Structural)]
pub enum ConvertErrs {
    BadQueueCode,
    TooSmallOutgoingCapacity,
}

#[derive(PartialEq, Eq, Copy, Clone, Debug)]
pub enum MorseErr {
    BestErrorBug,
    InputTooLarge,
    MorseInputCrossesLetterBound(Morse),
    QueueBug,
    UnknownChar(MorseSequenceSerialization),
    EmptyInput,
    ConsumeLogicBug,
    InvalidMorseCandidate(MorseCandidate),
    FailedTLEConversion(ConvertErrs),
    InvalidLetterTinySpacing,
    CalcDigitalFailed(CalcDigitalCutoffsErrs),
}

#[derive(PartialEq, Eq, Copy, Clone, Debug, Structural)]
pub struct DeriveUnitTimeConfig {
    pub guess_after_this_many_tles: u32,
    pub min_guess_ms: Time,
    pub max_guess_ms: Time,
}

#[derive(PartialEq, Eq, Copy, Clone, Debug, Structural)]
pub enum MorseUnitTimeDecision {
    EstimateToBeDetermined(DeriveUnitTimeConfig),
    EstimateProvided(Time),
}

/// A sample time the pipeline accepts.
pub open spec fn time_ok(t: Time) -> bool {
    0 <= t <= MAX_TIME_MS
}

/// A span duration that can come out of the edge detector on accepted times.
pub open spec fn dur_ok(t: TimedLightEvent) -> bool {
    -MAX_TIME_MS <= t.duration <= MAX_TIME_MS
}

/// A unit time the classifier accepts.
pub open spec fn unit_ok(u: Time) -> bool {
    0 <= u <= MAX_TIME_MS
}

/// A unit-time decision whose parameters are in accepted range.
pub open spec fn decision_ok(d: MorseUnitTimeDecision) -> bool {
    match d {
        MorseUnitTimeDecision::EstimateProvided(u) => unit_ok(u),
        MorseUnitTimeDecision::EstimateToBeDetermined(cfg) => {
            0 <= cfg.min_guess_ms <= cfg.max_guess_ms <= MAX_TIME_MS
        },
    }
}

} // verus!
