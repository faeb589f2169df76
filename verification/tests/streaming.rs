use heapless::spsc::Queue;
use morse_utils::Morse::{Dash, Dot, LetterSpace, TinySpace, WordSpace};
use morse_utils::{
    intensities_to_tles, tle_to_best_morse, DeriveUnitTimeConfig, IntensityCutoffs, LightState,
    Morse, MorseConverter, MorseErr, MorseManager, MorseUnitTimeDecision, SampleQueue,
    SampledLightIntensity,
};

#[test]
fn test_queue_convert() {
    let my_intensities = [
        (100, 0),
        (100, 20),
        (100, 40),
        (900, 60),
        (100, 120),
        (900, 140),
        (100, 160),
        (900, 180),
        (100, 200),
        (900, 220),
        (100, 240),
        (100, 500),
    ];

    let mut sample_queue: SampleQueue = Queue::new();
    let results = my_intensities
        .iter()
        .map(|(i, t)| SampledLightIntensity { sample_time: *t, intensity: *i })
        .try_for_each(|i| sample_queue.enqueue(i));

    assert_eq!(true, results.is_ok());

    let popresult = intensities_to_tles(
        &mut sample_queue,
        (0, LightState::Dark),
        IntensityCutoffs { low: 200, high: 800 },
        None,
    )
    .unwrap();

    let rmorses: Result<Vec<_>, _> = popresult
        .tles
        .iter()
        .map(|t| tle_to_best_morse(t, 20))
        .collect();
    let mut morses = rmorses.unwrap();

    sample_queue
        .enqueue(SampledLightIntensity { sample_time: 520, intensity: 100 })
        .unwrap();
    for i in 0..3 {
        sample_queue
            .enqueue(SampledLightIntensity { sample_time: 540 + (40 * i), intensity: 900 })
            .unwrap();
        sample_queue
            .enqueue(SampledLightIntensity { sample_time: 560 + (40 * i), intensity: 100 })
            .unwrap();
    }

    let popresult = intensities_to_tles(
        &mut sample_queue,
        popresult.state,
        IntensityCutoffs { low: 200, high: 800 },
        None,
    );

    let rmorses: Result<Vec<_>, _> = popresult
        .unwrap()
        .tles
        .iter()
        .map(|t| tle_to_best_morse(t, 20))
        .collect();
    let latemorses = rmorses.unwrap();
    morses.extend_from_slice(&latemorses);

    assert_eq!(
        &[
            LetterSpace,
            Dash,
            TinySpace,
            Dot,
            TinySpace,
            Dot,
            TinySpace,
            Dot,
            WordSpace,
            Dot,
            TinySpace,
            Dot,
            TinySpace,
            Dot
        ],
        &morses[..]
    );
}

#[test]
fn test_object() {
    let my_intensities = [
        (100, 0),
        (100, 20),
        (100, 40),
        (900, 60),
        (100, 120),
        (900, 140),
        (100, 160),
        (900, 180),
        (100, 200),
        (900, 220),
        (100, 240),
        (100, 500),
        (900, 520),
        (100, 540),
        (100, 800),
    ];

    let mut converter: MorseConverter = MorseConverter::new(
        0,
        MorseUnitTimeDecision::EstimateProvided(20),
        IntensityCutoffs { low: 200, high: 800 },
        Some(200),
    )
    .unwrap();

    for (light, time) in my_intensities.iter() {
        converter
            .add_sample(SampledLightIntensity { intensity: *light, sample_time: *time })
            .unwrap();
    }

    let vec: Vec<char> = converter.produce_chars().unwrap();

    assert_eq!(&['b', ' ', 'e', ' '], &vec[..]);
}

fn manager_trace() -> [(u16, i64); 39] {
    [
        (100, 0),
        (100, 20),
        (100, 40),
        (900, 60),
        (100, 120),
        (900, 140),
        (100, 160),
        (900, 180),
        (100, 200),
        (900, 220),
        (100, 240),
        (100, 500),
        (900, 520),
        (100, 540),
        (100, 600),
        (900, 601),
        (900, 660),
        (100, 661),
        (100, 680),
        (900, 681),
        (900, 700),
        (100, 720),
        (900, 740),
        (100, 760),
        (900, 820),
        (100, 880),
        (900, 900),
        (100, 960),
        (900, 980),
        (100, 1040),
        (900, 1100),
        (100, 1160),
        (900, 1180),
        (100, 1240),
        (900, 1260),
        (100, 1280),
        (100, 1600),
        (900, 1620),
        (100, 1640),
    ]
}

#[test]
fn test_manager() {
    let my_intensities = manager_trace();

    let mut converter: MorseManager = MorseManager::new(
        500,
        MorseUnitTimeDecision::EstimateToBeDetermined(DeriveUnitTimeConfig {
            guess_after_this_many_tles: 7,
            max_guess_ms: 40,
            min_guess_ms: 10,
        }),
    );

    for (light, time) in my_intensities.iter() {
        converter
            .add_sample(SampledLightIntensity { intensity: *light, sample_time: *time })
            .unwrap();
    }

    let vec: Vec<char> = converter.produce_chars().unwrap();

    assert_eq!(&['b', ' ', 'e', 'd', 'o', 'g', ' '], &vec[..]);
}

#[test]
fn second_flush_is_empty() {
    let mut manager: MorseManager = MorseManager::new(
        500,
        MorseUnitTimeDecision::EstimateToBeDetermined(DeriveUnitTimeConfig {
            guess_after_this_many_tles: 7,
            max_guess_ms: 40,
            min_guess_ms: 10,
        }),
    );
    for (light, time) in manager_trace().iter() {
        manager
            .add_sample(SampledLightIntensity { intensity: *light, sample_time: *time })
            .unwrap();
    }
    let first: Vec<char> = manager.produce_chars().unwrap();
    assert_eq!(&['b', ' ', 'e', 'd', 'o', 'g', ' '], &first[..]);
    let second: Vec<char> = manager.produce_chars().unwrap();
    assert!(second.is_empty());
}

#[test]
fn sustained_light_produces_nothing() {
    let mut manager: MorseManager =
        MorseManager::new(500, MorseUnitTimeDecision::EstimateProvided(20));
    for t in 0..40i64 {
        manager
            .add_sample(SampledLightIntensity { intensity: 900, sample_time: 20 * t })
            .unwrap();
    }
    // one coarse crossing at most: calibration is never triggered
    let out: Vec<char> = manager.produce_chars().unwrap();
    assert!(out.is_empty());
}

#[test]
fn full_buffer_is_refused() {
    let mut manager: MorseManager =
        MorseManager::new(500, MorseUnitTimeDecision::EstimateProvided(20));
    for t in 0..64i64 {
        manager
            .add_sample(SampledLightIntensity { intensity: 300, sample_time: t })
            .unwrap();
    }
    // the buffer holds 64 samples; the next one no longer fits
    assert_eq!(
        Err(MorseErr::InputTooLarge),
        manager.add_sample(SampledLightIntensity { intensity: 300, sample_time: 64 })
    );
}

#[test]
fn interleaved_flushes_decode_the_same() {
    // flushing mid-stream after calibration must not change what a single
    // final flush would decode
    let trace = manager_trace();
    let decision = MorseUnitTimeDecision::EstimateProvided(20);
    let cuts = IntensityCutoffs { low: 300, high: 700 };

    let mut batch: MorseConverter = MorseConverter::new(0, decision, cuts, None).unwrap();
    for (light, time) in trace.iter() {
        batch
            .add_sample(SampledLightIntensity { intensity: *light, sample_time: *time })
            .unwrap();
    }
    let batch_out: Vec<char> = batch.produce_chars().unwrap();

    let mut streamed: MorseConverter = MorseConverter::new(0, decision, cuts, None).unwrap();
    let mut streamed_out: Vec<char> = Vec::new();
    for (k, (light, time)) in trace.iter().enumerate() {
        streamed
            .add_sample(SampledLightIntensity { intensity: *light, sample_time: *time })
            .unwrap();
        if k % 5 == 0 {
            streamed_out.extend(streamed.produce_chars().unwrap());
        }
    }
    streamed_out.extend(streamed.produce_chars().unwrap());

    assert_eq!(batch_out, streamed_out);
}
