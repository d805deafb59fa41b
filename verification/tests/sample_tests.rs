use termdaw::sample::{
    split_channels, Sample, SampleBank, SampleBankError, SampleError, SampleLoadMethod,
};
use termdaw::scalar::Scalar;

fn s(x: f32) -> Scalar {
    Scalar::from_bits(x.to_bits())
}

fn ch(values: &[f32]) -> Vec<Scalar> {
    values.iter().map(|v| s(*v)).collect()
}

#[test]
fn load_methods_are_read_by_name() {
    assert!(SampleLoadMethod::from("stereo") == SampleLoadMethod::Stereo);
    assert!(SampleLoadMethod::from("left") == SampleLoadMethod::Left);
    assert!(SampleLoadMethod::from("right") == SampleLoadMethod::Right);
    assert!(SampleLoadMethod::from("loudest") == SampleLoadMethod::Loudest);
    assert!(SampleLoadMethod::from("normalize-seperate") == SampleLoadMethod::Norm);
    assert!(SampleLoadMethod::from("mix-down") == SampleLoadMethod::Mix);
    assert!(SampleLoadMethod::from("normalize-separate") == SampleLoadMethod::Stereo);
    assert!(SampleLoadMethod::from("") == SampleLoadMethod::Stereo);
}

#[test]
fn a_new_sample_is_silent() {
    let sample = Sample::new(3);
    assert_eq!(sample.len(), 3);
    assert_eq!(sample.left(), &ch(&[0.0, 0.0, 0.0]));
    assert_eq!(sample.right(), &ch(&[0.0, 0.0, 0.0]));
    assert_eq!(Sample::new(0).len(), 0);
}

#[test]
fn left_and_right_put_one_channel_on_both_sides() {
    let sample = Sample::from(ch(&[1.0, 2.0]), ch(&[3.0]), SampleLoadMethod::Left, false).unwrap();
    assert_eq!(sample.left(), &ch(&[1.0, 2.0]));
    assert_eq!(sample.right(), &ch(&[1.0, 2.0]));
    let sample = Sample::from(ch(&[1.0, 2.0]), ch(&[3.0]), SampleLoadMethod::Right, true).unwrap();
    assert_eq!(sample.left(), &ch(&[3.0]));
    assert_eq!(sample.right(), &ch(&[3.0]));
    assert_eq!(Sample::from(ch(&[]), ch(&[3.0]), SampleLoadMethod::Left, false).unwrap_err(), SampleError::EmptyLeft);
    assert_eq!(
        Sample::from(ch(&[1.0]), ch(&[]), SampleLoadMethod::Right, false).unwrap_err(),
        SampleError::EmptyRight
    );
}

#[test]
fn loudest_follows_the_flag() {
    let sample = Sample::from(ch(&[1.0, 2.0]), ch(&[3.0]), SampleLoadMethod::Loudest, true).unwrap();
    assert_eq!(sample.left(), &ch(&[1.0, 2.0]));
    assert_eq!(sample.right(), &ch(&[1.0, 2.0]));
    let sample = Sample::from(ch(&[1.0, 2.0]), ch(&[3.0]), SampleLoadMethod::Loudest, false).unwrap();
    assert_eq!(sample.left(), &ch(&[3.0]));
    assert_eq!(sample.right(), &ch(&[3.0]));
}

#[test]
fn stereo_methods_want_two_equal_channels() {
    for method in [SampleLoadMethod::Stereo, SampleLoadMethod::Norm, SampleLoadMethod::Mix] {
        let sample = Sample::from(ch(&[1.0, 2.0]), ch(&[3.0, 4.0]), method, false).unwrap();
        assert_eq!(sample.left(), &ch(&[1.0, 2.0]));
        assert_eq!(sample.right(), &ch(&[3.0, 4.0]));
        assert_eq!(
            Sample::from(ch(&[1.0, 2.0]), ch(&[3.0]), method, false).unwrap_err(),
            SampleError::LengthMismatch { left: 2, right: 1 }
        );
        assert_eq!(Sample::from(ch(&[]), ch(&[]), method, false).unwrap_err(), SampleError::Empty);
    }
}

#[test]
fn frames_are_set_and_read() {
    let mut sample = Sample::new(2);
    sample.set_frame(1, s(0.5), s(-0.5));
    sample.set_frame(2, s(9.0), s(9.0));
    assert_eq!(sample.frame(0), (s(0.0), s(0.0)));
    assert_eq!(sample.frame(1), (s(0.5), s(-0.5)));
    assert_eq!(sample.len(), 2);
    sample.zero();
    assert_eq!(sample.frame(1), (s(0.0), s(0.0)));
    assert_eq!(sample.len(), 2);
}

#[test]
fn interleave_weaves_left_and_right() {
    let sample = Sample::from(ch(&[1.0, 2.0, 3.0]), ch(&[-1.0, -2.0, -3.0]), SampleLoadMethod::Stereo, false).unwrap();
    assert_eq!(sample.interleave(), ch(&[1.0, -1.0, 2.0, -2.0, 3.0, -3.0]));
    assert_eq!(Sample::new(0).interleave(), ch(&[]));
}

#[test]
fn a_mono_file_fills_one_side() {
    let (l, r) = split_channels(ch(&[1.0, 2.0, 3.0]), 1, SampleLoadMethod::Left);
    assert_eq!(l, ch(&[1.0, 2.0, 3.0]));
    assert_eq!(r, ch(&[]));
    for method in [SampleLoadMethod::Right, SampleLoadMethod::Loudest, SampleLoadMethod::Mix] {
        let (l, r) = split_channels(ch(&[1.0, 2.0, 3.0]), 1, method);
        assert_eq!(l, ch(&[]));
        assert_eq!(r, ch(&[1.0, 2.0, 3.0]));
    }
}

#[test]
fn a_stereo_file_is_dealt_out_in_turn() {
    let (l, r) = split_channels(ch(&[1.0, -1.0, 2.0, -2.0]), 2, SampleLoadMethod::Stereo);
    assert_eq!(l, ch(&[1.0, 2.0]));
    assert_eq!(r, ch(&[-1.0, -2.0]));
    let (l, r) = split_channels(ch(&[1.0, -1.0, 2.0, -2.0, 3.0]), 2, SampleLoadMethod::Left);
    assert_eq!(l, ch(&[1.0, 2.0, 3.0]));
    assert_eq!(r, ch(&[-1.0, -2.0]));
    let (l, r) = split_channels(ch(&[]), 2, SampleLoadMethod::Stereo);
    assert_eq!(l, ch(&[]));
    assert_eq!(r, ch(&[]));
}

#[test]
fn the_bank_refuses_taken_names_and_wrong_channel_counts() {
    let mut sb = SampleBank::new(44100);
    assert_eq!(sb.accept("a", 2, 48000, 24, SampleLoadMethod::Stereo), Ok(true));
    assert_eq!(sb.get_max_sr_bd(), (48000, 24));
    assert!(sb.insert("a".to_string(), Sample::new(4)).is_ok());
    assert_eq!(sb.accept("a", 2, 96000, 32, SampleLoadMethod::Stereo), Err(SampleBankError::DuplicateName));
    assert_eq!(sb.get_max_sr_bd(), (48000, 24));
    assert_eq!(
        sb.accept("b", 1, 96000, 32, SampleLoadMethod::Stereo),
        Err(SampleBankError::NotStereo { channels: 1 })
    );
    assert_eq!(
        sb.accept("b", 3, 96000, 32, SampleLoadMethod::Left),
        Err(SampleBankError::TooManyChannels { channels: 3 })
    );
    assert_eq!(sb.get_max_sr_bd(), (48000, 24));
    assert_eq!(sb.accept("b", 1, 22050, 32, SampleLoadMethod::Left), Ok(false));
    assert_eq!(sb.get_max_sr_bd(), (48000, 32));
    assert_eq!(sb.accept("c", 2, 44100, 8, SampleLoadMethod::Mix), Ok(false));
    assert_eq!(sb.insert("a".to_string(), Sample::new(1)), Err(SampleBankError::DuplicateName));
    assert_eq!(sb.len(), 1);
    assert_eq!(sb.sample_rate(), 44100);
}

#[test]
fn samples_are_swept_like_buffers() {
    let mut sb = SampleBank::new(44100);
    assert!(sb.insert("a".to_string(), Sample::new(1)).is_ok());
    assert!(sb.insert("b".to_string(), Sample::new(2)).is_ok());
    assert!(sb.insert("c".to_string(), Sample::new(3)).is_ok());
    sb.mark_dead("a");
    sb.refresh();
    assert_eq!(sb.get_index("a"), None);
    assert_eq!(sb.get_index("b"), Some(0));
    assert_eq!(sb.get_index("c"), Some(1));
    assert_eq!(sb.get_sample(0).len(), 2);
    assert_eq!(sb.get_sample(1).len(), 3);
}

#[test]
fn a_copy_has_the_same_frames() {
    let mut sample = Sample::new(2);
    sample.set_frame(0, s(0.5), s(-0.5));
    let copy = sample.clone();
    assert_eq!(copy, sample);
    sample.set_frame(1, s(1.0), s(1.0));
    assert_ne!(copy, sample);
    assert_eq!(copy.frame(0), (s(0.5), s(-0.5)));
    assert_eq!(copy.frame(1), (s(0.0), s(0.0)));
}
