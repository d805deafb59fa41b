use termdaw::render::{plan_render, RenderError};

#[test]
fn full_scale_is_the_largest_value_of_the_depth() {
    assert_eq!(plan_render(44100, 48000, 8, 0, 0).unwrap().amplitude, 127);
    assert_eq!(plan_render(44100, 48000, 16, 0, 0).unwrap().amplitude, 32767);
    assert_eq!(plan_render(44100, 48000, 24, 0, 0).unwrap().amplitude, 8388607);
    assert_eq!(plan_render(44100, 48000, 32, 0, 0).unwrap().amplitude, 2147483647);
}

#[test]
fn other_depths_are_refused() {
    for bits in [0usize, 1, 12, 15, 17, 31, 33, 64] {
        assert_eq!(plan_render(44100, 48000, bits, 0, 0), Err(RenderError::UnsupportedBitDepth { bits }));
    }
}

#[test]
fn depths_above_sixteen_are_written_wide() {
    assert!(!plan_render(44100, 48000, 8, 0, 0).unwrap().wide);
    assert!(!plan_render(44100, 48000, 16, 0, 0).unwrap().wide);
    assert!(plan_render(44100, 48000, 24, 0, 0).unwrap().wide);
    assert!(plan_render(44100, 48000, 32, 0, 0).unwrap().wide);
}

#[test]
fn a_lower_rate_or_depth_is_pointed_out() {
    let plan = plan_render(48000, 44100, 16, 96000, 24).unwrap();
    assert!(plan.resample);
    assert!(plan.loses_input_rate);
    assert!(plan.loses_bit_depth);
    let plan = plan_render(44100, 44100, 16, 44100, 16).unwrap();
    assert!(!plan.resample);
    assert!(!plan.loses_input_rate);
    assert!(!plan.loses_bit_depth);
    let plan = plan_render(44100, 48000, 24, 48001, 16).unwrap();
    assert!(!plan.resample);
    assert!(plan.loses_input_rate);
    assert!(!plan.loses_bit_depth);
}
