use screen_match::score::{min_score, Score, FULL_SCORE_BITS, INFINITY_BITS, MIN_SCORE_BITS, SIGN_BIT};

fn of(v: f32) -> Score {
    Score::from_bits(v.to_bits())
}

fn samples() -> Vec<f32> {
    vec![
        0.0,
        -0.0,
        f32::MIN_POSITIVE,
        -f32::MIN_POSITIVE,
        f32::from_bits(1),
        f32::from_bits(0x007f_ffff),
        -f32::from_bits(1),
        0.1,
        0.5,
        0.7499999,
        0.75,
        0.75000006,
        0.8,
        0.99999994,
        1.0,
        1.0000001,
        2.0,
        -0.75,
        -1.0,
        -2.0,
        f32::MAX,
        f32::MIN,
        f32::INFINITY,
        f32::NEG_INFINITY,
        f32::NAN,
        -f32::NAN,
        f32::from_bits(0x7f80_0001),
        f32::from_bits(0xffff_ffff),
    ]
}

#[test]
fn the_constants_are_the_bits_of_their_numbers() {
    assert_eq!(MIN_SCORE_BITS, 0.75f32.to_bits());
    assert_eq!(FULL_SCORE_BITS, 1.0f32.to_bits());
    assert_eq!(INFINITY_BITS, f32::INFINITY.to_bits());
    assert_eq!(SIGN_BIT, (-0.0f32).to_bits());
    assert_eq!(min_score(), of(0.75));
    assert_eq!(f32::from_bits(min_score().to_bits()), 0.75);
}

#[test]
fn bits_go_in_and_out_unchanged() {
    for v in [0u32, 1, 0x3f40_0000, 0x7fc0_0000, 0xffff_ffff] {
        assert_eq!(Score::from_bits(v).to_bits(), v);
        assert_eq!(Score::from_bits(v).bits, v);
    }
}

#[test]
fn is_nan_agrees_with_the_numbers() {
    for v in samples() {
        assert_eq!(of(v).is_nan(), v.is_nan(), "{v}");
    }
}

#[test]
fn at_least_agrees_with_the_numbers() {
    for a in samples() {
        for b in samples() {
            assert_eq!(of(a).at_least(of(b)), a >= b, "{a} >= {b}");
        }
    }
}

#[test]
fn greater_than_agrees_with_the_numbers() {
    for a in samples() {
        for b in samples() {
            assert_eq!(of(a).greater_than(of(b)), a > b, "{a} > {b}");
        }
    }
}

#[test]
fn a_score_at_the_threshold_passes() {
    assert!(of(0.75).at_least(min_score()));
    assert!(!of(0.75).greater_than(min_score()));
    assert!(!of(0.7499999).at_least(min_score()));
    assert!(of(0.75000006).at_least(min_score()));
    assert!(of(0.0).at_least(of(-0.0)));
    assert!(of(-0.0).at_least(of(0.0)));
    for v in samples() {
        assert_eq!(of(v).at_least(of(v)), !v.is_nan());
    }
}

#[test]
fn a_nan_passes_nothing_and_nothing_passes_it() {
    for v in samples() {
        assert!(!of(f32::NAN).at_least(of(v)));
        assert!(!of(v).at_least(of(f32::NAN)));
        assert!(!of(f32::NAN).greater_than(of(v)));
        assert!(!of(v).greater_than(of(f32::NAN)));
    }
}

#[test]
fn rank_on_given_values() {
    assert_eq!(of(0.0).rank(), 0);
    assert_eq!(of(-0.0).rank(), 0);
    assert_eq!(of(1.0).rank(), 0x3f80_0000);
    assert_eq!(of(-1.0).rank(), -0x3f80_0000);
    assert_eq!(of(0.75).rank(), 0x3f40_0000);
    assert_eq!(of(f32::INFINITY).rank(), 0x7f80_0000);
    assert_eq!(of(f32::NEG_INFINITY).rank(), -0x7f80_0000);
    assert_eq!(Score::from_bits(0xffff_ffff).rank(), -0x7fff_ffff);
}
