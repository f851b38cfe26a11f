use derender::config::AREA;
use derender::noise::{
    accepts, check_image, check_noise, check_shape, check_truncation, draws_uniform,
    image_log_density, log_density, pixel_log_density, LogDensity, ModelError, COLOR_CHANNELS,
    DEPTH_CHANNELS,
};

fn b(x: f32) -> u32 {
    x.to_bits()
}

fn image(value: f32, len: usize) -> Vec<u32> {
    vec![value.to_bits(); len]
}

#[test]
fn channel_constants() {
    assert_eq!(DEPTH_CHANNELS, 1);
    assert_eq!(COLOR_CHANNELS, 3);
}

#[test]
fn noise_level_in_the_unit_interval_is_accepted() {
    assert_eq!(check_noise(b(0.0)), Ok(()));
    assert_eq!(check_noise(b(-0.0)), Ok(()));
    assert_eq!(check_noise(b(0.1)), Ok(()));
    assert_eq!(check_noise(b(1.0)), Ok(()));
}

#[test]
fn noise_level_outside_the_unit_interval_is_refused() {
    assert_eq!(check_noise(b(-0.1)), Err(ModelError::UnsupportedParameter));
    assert_eq!(check_noise(b(1.0) + 1), Err(ModelError::UnsupportedParameter));
    assert_eq!(check_noise(b(2.0)), Err(ModelError::UnsupportedParameter));
    assert_eq!(check_noise(b(f32::INFINITY)), Err(ModelError::UnsupportedParameter));
    assert_eq!(check_noise(b(f32::NAN)), Err(ModelError::UnsupportedParameter));
}

#[test]
fn image_of_one_frame_is_accepted() {
    assert_eq!(check_shape(16384, DEPTH_CHANNELS), Ok(()));
    assert_eq!(check_shape(49152, COLOR_CHANNELS), Ok(()));
}

#[test]
fn image_of_another_size_is_refused() {
    assert_eq!(check_shape(0, DEPTH_CHANNELS), Err(ModelError::ShapeMismatch));
    assert_eq!(check_shape(16383, DEPTH_CHANNELS), Err(ModelError::ShapeMismatch));
    assert_eq!(check_shape(16385, DEPTH_CHANNELS), Err(ModelError::ShapeMismatch));
    assert_eq!(check_shape(16384, COLOR_CHANNELS), Err(ModelError::ShapeMismatch));
    assert_eq!(check_shape(49152, DEPTH_CHANNELS), Err(ModelError::ShapeMismatch));
    assert_eq!(check_shape(0, 0), Ok(()));
    assert_eq!(check_shape(16384, 0), Err(ModelError::ShapeMismatch));
    assert_eq!(check_shape(usize::MAX, usize::MAX), Err(ModelError::ShapeMismatch));
    assert_eq!(check_shape(0, usize::MAX / 2 + 1), Err(ModelError::ShapeMismatch));
}

#[test]
fn true_image_is_checked_after_the_noise_level() {
    assert_eq!(check_image(AREA, b(0.1), DEPTH_CHANNELS), Ok(()));
    assert_eq!(check_image(3 * AREA, b(1.0), COLOR_CHANNELS), Ok(()));
    assert_eq!(check_image(AREA, b(0.1), COLOR_CHANNELS), Err(ModelError::ShapeMismatch));
    assert_eq!(check_image(AREA + 1, b(0.0), DEPTH_CHANNELS), Err(ModelError::ShapeMismatch));
    assert_eq!(check_image(AREA, b(1.1), DEPTH_CHANNELS), Err(ModelError::UnsupportedParameter));
    assert_eq!(check_image(7, b(-0.1), DEPTH_CHANNELS), Err(ModelError::UnsupportedParameter));
}

#[test]
fn truncation_needs_an_interval_and_a_deviation() {
    assert_eq!(check_truncation(b(0.1), b(0.0), b(1.0)), Ok(()));
    assert_eq!(check_truncation(b(0.0), b(0.0), b(1.0)), Ok(()));
    assert_eq!(check_truncation(b(3.0), b(-2.0), b(-1.0)), Ok(()));
    let refused = Err(ModelError::UnsupportedParameter);
    assert_eq!(check_truncation(b(0.1), b(1.0), b(1.0)), refused);
    assert_eq!(check_truncation(b(0.1), b(1.0), b(0.0)), refused);
    assert_eq!(check_truncation(b(0.1), b(0.0), b(-0.0)), refused);
    assert_eq!(check_truncation(b(-0.1), b(0.0), b(1.0)), refused);
    assert_eq!(check_truncation(b(f32::NAN), b(0.0), b(1.0)), refused);
    assert_eq!(check_truncation(b(0.1), b(f32::NAN), b(1.0)), refused);
    assert_eq!(check_truncation(b(0.1), b(0.0), b(f32::NAN)), refused);
}

#[test]
fn mixture_draws_uniform_below_the_noise_level() {
    let d = |x: f64| x.to_bits();
    assert!(draws_uniform(d(0.05), d(0.1f32 as f64)));
    assert!(draws_uniform(d(0.0), d(0.1f32 as f64)));
    assert!(!draws_uniform(d(0.1f32 as f64), d(0.1f32 as f64)));
    assert!(!draws_uniform(d(0.5), d(0.1f32 as f64)));
    assert!(!draws_uniform(d(0.0), d(0.0)));
    assert!(!draws_uniform(d(-0.0), d(0.0)));
    assert!(draws_uniform(d(0.999_999_999), d(1.0)));
    assert!(!draws_uniform(d(0.5), d(f64::NAN)));
    // the noise level 0.1 is widened from single precision before it is
    // compared, and lies above the double-precision 0.1
    assert!(draws_uniform(d(0.1), d(0.1f32 as f64)));
}

#[test]
fn draws_inside_the_bounds_are_kept() {
    assert!(accepts(b(0.0), b(0.0), b(1.0)));
    assert!(accepts(b(1.0), b(0.0), b(1.0)));
    assert!(accepts(b(0.5), b(0.0), b(1.0)));
    assert!(accepts(b(-0.0), b(0.0), b(1.0)));
    assert!(accepts(b(-1.5), b(-2.0), b(-1.0)));
}

#[test]
fn draws_outside_the_bounds_are_dropped() {
    assert!(!accepts(b(-1.0e-30), b(0.0), b(1.0)));
    assert!(!accepts(b(1.0) + 1, b(0.0), b(1.0)));
    assert!(!accepts(b(2.0), b(0.0), b(1.0)));
    assert!(!accepts(b(f32::NAN), b(0.0), b(1.0)));
    assert!(!accepts(b(f32::INFINITY), b(0.0), b(1.0)));
}

#[test]
fn kept_draws_lie_within_the_bounds() {
    // a stream of candidate draws around the interval [0.25, 0.75]
    let (a, z) = (0.25f32, 0.75f32);
    let mut state: u32 = 12345;
    let mut kept = 0;
    for _ in 0..10_000 {
        state = state.wrapping_mul(1_664_525).wrapping_add(1_013_904_223);
        let x = (state >> 8) as f32 / (1u32 << 24) as f32 * 2.0 - 0.5;
        if accepts(x.to_bits(), a.to_bits(), z.to_bits()) {
            assert!(a <= x && x <= z);
            kept += 1;
        } else {
            assert!(!(a <= x && x <= z));
        }
    }
    assert!(kept > 0);
}

#[test]
fn density_outside_the_bounds_is_negative_infinity() {
    let class = |x: f32| log_density(b(x), b(0.5), b(0.1), b(0.0), b(1.0));
    assert_eq!(class(-0.5), Ok(LogDensity::NegInfinity));
    assert_eq!(class(1.5), Ok(LogDensity::NegInfinity));
    assert_eq!(class(-1.0e-30), Ok(LogDensity::NegInfinity));
    assert_eq!(class(f32::NAN), Ok(LogDensity::NegInfinity));
    assert_eq!(class(f32::INFINITY), Ok(LogDensity::NegInfinity));
}

#[test]
fn density_inside_the_bounds_is_left_to_the_formula() {
    let class = |x: f32| log_density(b(x), b(0.5), b(0.1), b(0.0), b(1.0));
    assert_eq!(class(0.0), Ok(LogDensity::Formula));
    assert_eq!(class(0.5), Ok(LogDensity::Formula));
    assert_eq!(class(1.0), Ok(LogDensity::Formula));
}

#[test]
fn density_of_unsupported_parameters_is_refused() {
    let refused = Err(ModelError::UnsupportedParameter);
    assert_eq!(log_density(b(0.5), b(0.5), b(0.1), b(1.0), b(0.0)), refused);
    assert_eq!(log_density(b(0.5), b(0.5), b(0.1), b(1.0), b(1.0)), refused);
    assert_eq!(log_density(b(0.5), b(0.5), b(-0.1), b(0.0), b(1.0)), refused);
    assert_eq!(log_density(b(5.0), b(0.5), b(-0.1), b(0.0), b(1.0)), refused);
}

#[test]
fn density_without_spread_is_a_point_mass() {
    let class = |x: f32, mu: f32| log_density(b(x), b(mu), b(0.0), b(0.0), b(1.0));
    assert_eq!(class(0.5, 0.5), Ok(LogDensity::PosInfinity));
    assert_eq!(class(0.0, -0.0), Ok(LogDensity::PosInfinity));
    assert_eq!(class(0.5, 0.25), Ok(LogDensity::NegInfinity));
    assert_eq!(class(0.5, f32::from_bits(b(0.5) + 1)), Ok(LogDensity::NegInfinity));
    assert_eq!(class(1.5, 1.5), Ok(LogDensity::NegInfinity));
    assert_eq!(class(0.5, f32::NAN), Ok(LogDensity::NegInfinity));
}

#[test]
fn noiseless_pixel_is_certain_or_impossible() {
    assert_eq!(pixel_log_density(b(0.3), b(0.3), b(0.0)), Ok(LogDensity::PosInfinity));
    assert_eq!(pixel_log_density(b(0.3), b(0.3), b(-0.0)), Ok(LogDensity::PosInfinity));
    assert_eq!(pixel_log_density(b(0.3), b(0.4), b(0.0)), Ok(LogDensity::NegInfinity));
    assert_eq!(pixel_log_density(b(1.0), b(1.0), b(0.0)), Ok(LogDensity::PosInfinity));
    assert_eq!(pixel_log_density(b(2.0), b(2.0), b(0.0)), Ok(LogDensity::NegInfinity));
}

#[test]
fn noisy_pixel_is_scored_on_the_unit_interval() {
    assert_eq!(pixel_log_density(b(0.3), b(0.4), b(0.1)), Ok(LogDensity::Formula));
    assert_eq!(pixel_log_density(b(0.0), b(1.0), b(1.0)), Ok(LogDensity::Formula));
    assert_eq!(pixel_log_density(b(1.1), b(0.4), b(0.1)), Ok(LogDensity::NegInfinity));
    assert_eq!(pixel_log_density(b(-0.1), b(0.4), b(0.1)), Ok(LogDensity::NegInfinity));
    let refused = Err(ModelError::UnsupportedParameter);
    assert_eq!(pixel_log_density(b(0.3), b(0.4), b(1.5)), refused);
    assert_eq!(pixel_log_density(b(0.3), b(0.4), b(-0.5)), refused);
    assert_eq!(pixel_log_density(b(0.3), b(0.4), b(f32::NAN)), refused);
}

#[test]
fn image_inside_the_support_is_left_to_the_formula() {
    let noisy = image(0.4, AREA);
    let truth = image(0.5, AREA);
    assert_eq!(
        image_log_density(&noisy, &truth, b(0.1), DEPTH_CHANNELS),
        Ok(LogDensity::Formula)
    );
    let noisy = image(0.4, 3 * AREA);
    let truth = image(0.5, 3 * AREA);
    assert_eq!(
        image_log_density(&noisy, &truth, b(0.1), COLOR_CHANNELS),
        Ok(LogDensity::Formula)
    );
}

#[test]
fn image_with_one_pixel_outside_the_support_cannot_occur() {
    let truth = image(0.5, AREA);
    for at in [0, 77, AREA - 1] {
        let mut noisy = image(0.4, AREA);
        noisy[at] = b(1.25);
        assert_eq!(
            image_log_density(&noisy, &truth, b(0.1), DEPTH_CHANNELS),
            Ok(LogDensity::NegInfinity)
        );
    }
}

#[test]
fn noiseless_image_is_certain_only_where_it_is_the_true_image() {
    let truth = image(0.5, AREA);
    assert_eq!(
        image_log_density(&truth, &truth, b(0.0), DEPTH_CHANNELS),
        Ok(LogDensity::PosInfinity)
    );
    let mut noisy = truth.clone();
    noisy[AREA - 1] = b(0.25);
    assert_eq!(
        image_log_density(&noisy, &truth, b(0.0), DEPTH_CHANNELS),
        Ok(LogDensity::NegInfinity)
    );
    noisy[0] = b(0.75);
    assert_eq!(
        image_log_density(&noisy, &truth, b(0.0), DEPTH_CHANNELS),
        Ok(LogDensity::NegInfinity)
    );
}

#[test]
fn image_of_another_size_is_not_scored() {
    let frame = image(0.5, AREA);
    let short = image(0.5, AREA - 1);
    let long = image(0.5, AREA + 1);
    let refused = Err(ModelError::ShapeMismatch);
    assert_eq!(image_log_density(&short, &frame, b(0.1), DEPTH_CHANNELS), refused);
    assert_eq!(image_log_density(&frame, &short, b(0.1), DEPTH_CHANNELS), refused);
    assert_eq!(image_log_density(&long, &long, b(0.1), DEPTH_CHANNELS), refused);
    assert_eq!(image_log_density(&short, &short, b(0.1), DEPTH_CHANNELS), refused);
    assert_eq!(image_log_density(&frame, &frame, b(0.1), COLOR_CHANNELS), refused);
    assert_eq!(image_log_density(&vec![], &vec![], b(0.1), DEPTH_CHANNELS), refused);
}

#[test]
fn noise_level_is_checked_before_the_shape() {
    let frame = image(0.5, AREA);
    let short = image(0.5, AREA - 1);
    let refused = Err(ModelError::UnsupportedParameter);
    assert_eq!(image_log_density(&frame, &frame, b(1.5), DEPTH_CHANNELS), refused);
    assert_eq!(image_log_density(&short, &frame, b(1.5), DEPTH_CHANNELS), refused);
    assert_eq!(image_log_density(&short, &frame, b(f32::NAN), DEPTH_CHANNELS), refused);
}
