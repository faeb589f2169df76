use morse_utils::LightState::{Dark, Light};
use morse_utils::{
    best_error, calc_error, mc_to_morse, tle_to_best_morse, LightState, Morse, MorseCandidate,
    MorseErr, TimedLightEvent,
};

#[test]
fn test_calc_error_spoton() {
    assert_eq!(
        0,
        calc_error(
            &TimedLightEvent { light_state: LightState::Dark, duration: 600 },
            &MorseCandidate { light_state: LightState::Dark, units: 3 },
            200
        )
        .unwrap()
    );
}

#[test]
fn test_calc_error_confused() {
    assert_eq!(
        200,
        calc_error(
            &TimedLightEvent { light_state: LightState::Light, duration: 300 },
            &MorseCandidate { light_state: LightState::Light, units: 1 },
            100
        )
        .unwrap()
    );
}

fn best_error_helper(light_state: LightState, duration: i64, units: i64) -> i64 {
    best_error(&TimedLightEvent { light_state, duration }, units)
        .unwrap()
        .score
}

#[test]
fn test_best_error() {
    assert_eq!(100, best_error_helper(Dark, 200, 100));
    assert_eq!(80, best_error_helper(Dark, 180, 100));
    assert_eq!(50, best_error_helper(Dark, 50, 100));
    assert_eq!(100, best_error_helper(Dark, 0, 100));
    assert_eq!(1, best_error_helper(Dark, 701, 100));
    assert_eq!(1, best_error_helper(Dark, 6, 1));

    assert_eq!(200, best_error_helper(Light, 800, 200));
    assert_eq!(400, best_error_helper(Light, 700, 100));
    assert_eq!(1000, best_error_helper(Light, 0, 1000));
    assert_eq!(100, best_error_helper(Light, 200, 100));
    assert_eq!(2, best_error_helper(Light, 1502, 500));
    assert_eq!(0, best_error_helper(Light, 75, 25));
}

#[test]
fn classify_matches_span_state() {
    // a dark span classifies to a dark template even at an odd unit time
    let b = best_error(
        &TimedLightEvent { light_state: LightState::Dark, duration: 555 },
        7,
    )
    .unwrap();
    assert_eq!(LightState::Dark, b.item.light_state);
    assert!(b.score >= 0);

    let b = best_error(
        &TimedLightEvent { light_state: LightState::Light, duration: 1 },
        1000,
    )
    .unwrap();
    assert_eq!(LightState::Light, b.item.light_state);
    assert!(b.score >= 0);
}

#[test]
fn classifier_tie_prefers_earlier_template() {
    // at unit 100 a dark span of 200 ms sits exactly between the tiny gap
    // and the letter gap; the earlier template (tiny gap) must win
    let b = best_error(
        &TimedLightEvent { light_state: LightState::Dark, duration: 200 },
        100,
    )
    .unwrap();
    assert_eq!(MorseCandidate { light_state: LightState::Dark, units: 1 }, b.item);
    assert_eq!(100, b.score);
}

#[test]
fn spans_to_symbols() {
    let dark600 = TimedLightEvent { light_state: LightState::Dark, duration: 600 };
    assert_eq!(Ok(Morse::LetterSpace), tle_to_best_morse(&dark600, 200));
    let light300 = TimedLightEvent { light_state: LightState::Light, duration: 300 };
    assert_eq!(Ok(Morse::Dash), tle_to_best_morse(&light300, 100));
    let light90 = TimedLightEvent { light_state: LightState::Light, duration: 90 };
    assert_eq!(Ok(Morse::Dot), tle_to_best_morse(&light90, 100));
    let dark1400 = TimedLightEvent { light_state: LightState::Dark, duration: 1400 };
    assert_eq!(Ok(Morse::WordSpace), tle_to_best_morse(&dark1400, 200));
}

#[test]
fn template_outside_the_five_is_refused() {
    let bad = MorseCandidate { light_state: LightState::Light, units: 5 };
    assert_eq!(Err(MorseErr::InvalidMorseCandidate(bad)), mc_to_morse(&bad));
    let good = MorseCandidate { light_state: LightState::Dark, units: 7 };
    assert_eq!(Ok(Morse::WordSpace), mc_to_morse(&good));
}
