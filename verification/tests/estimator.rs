use morse_utils::{
    calc_digital_cutoffs, estimate_unit_time, score_possible_unit_millis, CalcDigitalCutoffsErrs,
    IntensityCutoffs, LightState, MorseErr, SampledLightIntensity, Scored, TimedLightEvent,
};

fn helper_fill_events_slice(durations: &[i64], vec: &mut Vec<TimedLightEvent>) {
    for (i, duration) in durations.iter().enumerate() {
        vec.push(TimedLightEvent {
            light_state: {
                if i % 2 == 0 {
                    LightState::Dark
                } else {
                    LightState::Dark
                }
            },
            duration: *duration,
        });
    }
}

#[test]
fn test_estimate() {
    let test_durations = [
        700, 300, 100, 100, 100, 100, 100, 100, 300, 300, 100, 300, 100, 300, 300, 100, 100, 100,
        100, 300, 300, 300, 300, 300, 300, 100, 300, 300, 300, 100, 100, 700, 300, 100, 300, 100,
        300, 300, 300, 100, 300, 100, 300, 300, 100, 100, 100, 100, 300, 100, 100, 700,
    ];
    let mut timed_light_events: Vec<TimedLightEvent> = Vec::new();
    helper_fill_events_slice(&test_durations, &mut timed_light_events);
    assert_eq!(
        Scored { item: 100, score: 0 },
        estimate_unit_time(&timed_light_events, 0, 1000).unwrap()
    );
}

#[test]
fn estimate_refuses_an_empty_batch() {
    let none: Vec<TimedLightEvent> = Vec::new();
    assert_eq!(Err(MorseErr::EmptyInput), estimate_unit_time(&none, 0, 1000));
}

#[test]
fn estimate_picks_from_the_grid() {
    // unit times between 50 and 250 step by ten; true unit is 130
    let spans = [
        TimedLightEvent { light_state: LightState::Dark, duration: 130 },
        TimedLightEvent { light_state: LightState::Dark, duration: 390 },
        TimedLightEvent { light_state: LightState::Dark, duration: 910 },
    ];
    let got = estimate_unit_time(&spans, 50, 250).unwrap();
    // the result must be one of the twenty grid candidates
    let mut on_grid = false;
    for k in 0..20i64 {
        if got.item == 50 + (250 - 50) * k / 20 {
            on_grid = true;
        }
    }
    assert!(on_grid);
    assert_eq!(130, got.item);
    assert_eq!(0, got.score);
}

#[test]
fn scoring_sums_span_distances() {
    let spans = [
        TimedLightEvent { light_state: LightState::Dark, duration: 90 },
        TimedLightEvent { light_state: LightState::Light, duration: 310 },
    ];
    // at unit 100: the 90 ms dark gap misses the tiny gap by 10, the
    // 310 ms light span misses the dash by 10
    let got = score_possible_unit_millis(100, &spans).unwrap();
    assert_eq!(100, got.item);
    assert_eq!(20, got.score);
}

#[test]
fn calibration_splits_the_two_levels() {
    let samples = [
        SampledLightIntensity { intensity: 100, sample_time: 0 },
        SampledLightIntensity { intensity: 900, sample_time: 10 },
        SampledLightIntensity { intensity: 100, sample_time: 20 },
        SampledLightIntensity { intensity: 900, sample_time: 30 },
    ];
    // mean 500; low mean 100, high mean 900, spread 800
    assert_eq!(
        Ok(IntensityCutoffs { low: 300, high: 700 }),
        calc_digital_cutoffs(&samples)
    );
}

#[test]
fn calibration_needs_samples() {
    let none: Vec<SampledLightIntensity> = Vec::new();
    assert_eq!(
        Err(CalcDigitalCutoffsErrs::NoIntensities),
        calc_digital_cutoffs(&none)
    );
}

#[test]
fn calibration_needs_both_levels() {
    // a single sustained level leaves the high partition empty
    let flat = [
        SampledLightIntensity { intensity: 700, sample_time: 0 },
        SampledLightIntensity { intensity: 700, sample_time: 10 },
    ];
    assert_eq!(Err(CalcDigitalCutoffsErrs::NoHighs), calc_digital_cutoffs(&flat));

    // the smallest sample never exceeds the floored mean, so a batch
    // without lows cannot be built; a lone sample lacks highs as well
    let flat2 = [SampledLightIntensity { intensity: 0, sample_time: 0 }];
    assert_eq!(Err(CalcDigitalCutoffsErrs::NoHighs), calc_digital_cutoffs(&flat2));
}
