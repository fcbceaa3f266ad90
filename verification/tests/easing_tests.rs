use terrain_planes::easings::{
    power, real_power, root_power, smooth_step, smooth_stop, EasingData, Easings,
};
use terrain_planes::scalar::SCALE;

#[test]
fn smooth_step_keeps_the_ends_of_the_unit_interval() {
    assert_eq!(Easings::SmoothStep.apply(0), 0);
    assert_eq!(Easings::SmoothStep.apply(SCALE), SCALE);
}

#[test]
fn smooth_step_values() {
    assert_eq!(Easings::SmoothStep.apply(500_000), 500_000);
    assert_eq!(Easings::SmoothStep.apply(250_000), 156_250);
    assert_eq!(Easings::SmoothStep.apply(750_000), 843_750);
    assert_eq!(smooth_step(100_000), 28_000);
}

#[test]
fn smooth_step_clamps_its_argument() {
    assert_eq!(Easings::SmoothStep.apply(-5), 0);
    assert_eq!(Easings::SmoothStep.apply(-3 * SCALE), 0);
    assert_eq!(Easings::SmoothStep.apply(2 * SCALE), SCALE);
    assert_eq!(Easings::SmoothStep.apply(i64::MAX), SCALE);
    assert_eq!(Easings::SmoothStep.apply(i64::MIN), 0);
}

#[test]
fn smooth_step_never_falls() {
    let mut last = Easings::SmoothStep.apply(-10_000);
    let mut x = -10_000;
    while x <= SCALE + 10_000 {
        let now = Easings::SmoothStep.apply(x);
        assert!(now >= last, "fell at {}", x);
        last = now;
        x += 997;
    }
}

#[test]
fn smooth_start_is_the_square() {
    assert_eq!(Easings::SmoothStart.apply(300_000), 90_000);
    assert_eq!(Easings::SmoothStart.apply(0), 0);
    assert_eq!(Easings::SmoothStart.apply(SCALE), SCALE);
    assert_eq!(Easings::SmoothStart.apply(3 * SCALE), 9 * SCALE);
    assert_eq!(Easings::SmoothStart.apply(-3 * SCALE), 9 * SCALE);
    assert_eq!(Easings::SmoothStart.apply(i64::MAX), i64::MAX);
}

#[test]
fn smooth_stop_and_smooth_end_agree() {
    assert_eq!(Easings::SmoothStop.apply(300_000), 510_000);
    assert_eq!(Easings::SmoothEnd.apply(300_000), 510_000);
    assert_eq!(Easings::SmoothStop.apply(0), 0);
    assert_eq!(Easings::SmoothStop.apply(SCALE), SCALE);
    assert_eq!(Easings::SmoothStop.apply(2 * SCALE), 0);
    assert_eq!(Easings::SmoothEnd.apply(-SCALE), -3 * SCALE);
    assert_eq!(smooth_stop(500_000), 750_000);
    assert_eq!(Easings::SmoothStop.apply(i64::MIN), i64::MIN);
}

#[test]
fn absolute_value_forgets_the_sign() {
    assert_eq!(Easings::AbsoluteValue.apply(-3 * SCALE), 3 * SCALE);
    assert_eq!(Easings::AbsoluteValue.apply(3 * SCALE), 3 * SCALE);
    assert_eq!(Easings::AbsoluteValue.apply(0), 0);
    assert_eq!(Easings::AbsoluteValue.apply(i64::MIN), i64::MAX);
}

#[test]
fn absolute_value_pow_raises_the_magnitude() {
    assert_eq!(Easings::AbsoluteValuePow(2_000_000).apply(-3 * SCALE), 9 * SCALE);
    assert_eq!(Easings::AbsoluteValuePow(0).apply(-3 * SCALE), SCALE);
    assert_eq!(Easings::AbsoluteValuePow(1_000_000).apply(-3 * SCALE), 3 * SCALE);
    assert_eq!(Easings::AbsoluteValuePow(3_000_000).apply(500_000), 125_000);
    assert_eq!(Easings::AbsoluteValuePow(3_000_000).apply(-500_000), 125_000);
    assert_eq!(Easings::AbsoluteValuePow(200_000_000).apply(2 * SCALE), i64::MAX);
    assert_eq!(power(2 * SCALE, 10), 1024 * SCALE);
}

#[test]
fn absolute_value_pow_takes_fractions_of_a_power() {
    assert_eq!(Easings::AbsoluteValuePow(500_000).apply(4 * SCALE), 2 * SCALE);
    assert_eq!(Easings::AbsoluteValuePow(500_000).apply(-9 * SCALE), 3 * SCALE);
    assert_eq!(Easings::AbsoluteValuePow(1_500_000).apply(4 * SCALE), 8 * SCALE);
    assert_eq!(Easings::AbsoluteValuePow(250_000).apply(16 * SCALE), 2 * SCALE);
    assert_eq!(Easings::AbsoluteValuePow(1_500_000).apply(250_000), 125_000);
    assert_eq!(Easings::AbsoluteValuePow(500_000).apply(500_000), 707_106);
    assert_eq!(Easings::AbsoluteValuePow(300_000).apply(2 * SCALE), 1_231_126);
    assert_eq!(Easings::AbsoluteValuePow(2_700_000).apply(-2 * SCALE), 6_497_939);
}

#[test]
fn absolute_value_pow_at_the_ends() {
    assert_eq!(Easings::AbsoluteValuePow(500_000).apply(0), 0);
    assert_eq!(Easings::AbsoluteValuePow(123_456).apply(SCALE), SCALE);
    assert_eq!(Easings::AbsoluteValuePow(0).apply(0), SCALE);
    assert_eq!(Easings::AbsoluteValuePow(500_000).apply(i64::MAX), 3_037_000_499_976);
    assert_eq!(Easings::AbsoluteValuePow(500_000).apply(i64::MIN), 3_037_000_499_976);
    let _ = Easings::AbsoluteValuePow(u32::MAX).apply(i64::MIN);
    assert_eq!(real_power(4 * SCALE, 500_000), 2 * SCALE);
    assert_eq!(root_power(3 * SCALE, 4 * SCALE, 500_000, 20), 6 * SCALE);
    assert_eq!(root_power(3 * SCALE, 4 * SCALE, 500_000, 0), 3 * SCALE);
    assert_eq!(root_power(3 * SCALE, 4 * SCALE, 0, 20), 3 * SCALE);
}

#[test]
fn identity_changes_nothing() {
    assert_eq!(Easings::Identity.apply(300_000), 300_000);
    assert_eq!(Easings::Identity.apply(i64::MIN), i64::MIN);
    assert_eq!(Easings::Identity.apply(i64::MAX), i64::MAX);
}

#[test]
fn every_curve_keeps_the_unit_interval() {
    let curves = [
        Easings::Identity,
        Easings::SmoothStep,
        Easings::SmoothStop,
        Easings::SmoothStart,
        Easings::SmoothEnd,
        Easings::AbsoluteValue,
        Easings::AbsoluteValuePow(3_000_000),
        Easings::AbsoluteValuePow(700_000),
    ];
    for curve in curves.iter() {
        let mut x = 0;
        while x <= SCALE {
            let y = curve.apply(x);
            assert!(0 <= y && y <= SCALE, "{:?} at {}", curve, x);
            x += 12_500;
        }
    }
}

#[test]
fn easings_compare_by_value() {
    assert_eq!(Easings::AbsoluteValuePow(2_000_000), Easings::AbsoluteValuePow(2_000_000));
    assert_ne!(Easings::AbsoluteValuePow(2_000_000), Easings::AbsoluteValuePow(3_000_000));
    assert_ne!(Easings::SmoothStop, Easings::SmoothEnd);
    let data = EasingData { easing: Easings::SmoothStep };
    assert_eq!(data, data.clone());
}
