use std::collections::VecDeque;
use termdaw::generators::{
    lerp_advance, lerp_step, lerp_trigger, multi_advance, multi_step, multi_trigger, sample_loop_gen,
};
use termdaw::sample::{Sample, SampleBank, SampleLoadMethod};
use termdaw::scalar::Scalar;

fn s(x: f32) -> Scalar {
    Scalar::from_bits(x.to_bits())
}

fn ch(values: &[f32]) -> Vec<Scalar> {
    values.iter().map(|v| s(*v)).collect()
}

fn bank() -> SampleBank {
    let mut sb = SampleBank::new(44100);
    let sample =
        Sample::from(ch(&[1.0, 2.0, 3.0]), ch(&[-1.0, -2.0, -3.0]), SampleLoadMethod::Stereo, false).unwrap();
    assert!(sb.insert("abc".to_string(), sample).is_ok());
    sb
}

#[test]
fn a_loop_starts_over_at_the_end_of_its_sample() {
    let sb = bank();
    let mut buf = Sample::new(5);
    let mut t = 0usize;
    sample_loop_gen(&mut buf, &sb, 5, &mut t, 0);
    assert_eq!(t, 5);
    assert_eq!(buf.left(), &ch(&[1.0, 2.0, 3.0, 1.0, 2.0]));
    assert_eq!(buf.right(), &ch(&[-1.0, -2.0, -3.0, -1.0, -2.0]));
    sample_loop_gen(&mut buf, &sb, 5, &mut t, 0);
    assert_eq!(t, 10);
    assert_eq!(buf.left(), &ch(&[3.0, 1.0, 2.0, 3.0, 1.0]));
}

#[test]
fn a_loop_leaves_the_frames_beyond_its_length() {
    let sb = bank();
    let mut buf = Sample::new(4);
    buf.set_frame(3, s(9.0), s(8.0));
    let mut t = 7usize;
    sample_loop_gen(&mut buf, &sb, 2, &mut t, 0);
    assert_eq!(t, 9);
    assert_eq!(buf.left(), &ch(&[2.0, 3.0, 0.0, 9.0]));
    assert_eq!(buf.right(), &ch(&[-2.0, -3.0, 0.0, 8.0]));
}

#[test]
fn a_voice_plays_from_its_onset() {
    let mut ts: VecDeque<(i64, Scalar)> = VecDeque::new();
    multi_trigger(&mut ts, 3, s(0.5));
    assert_eq!(ts, VecDeque::from(vec![(-3i64, s(0.5))]));
    assert_eq!(multi_step(&mut ts, 3, 10), vec![(0, s(0.5))]);
    assert_eq!(multi_step(&mut ts, 4, 10), vec![(1, s(0.5))]);
    assert_eq!(multi_step(&mut ts, 12, 10), vec![(9, s(0.5))]);
    assert_eq!(ts.len(), 1);
    assert_eq!(multi_step(&mut ts, 13, 10), vec![]);
    assert_eq!(ts.len(), 0);
}

#[test]
fn voices_leave_oldest_first_and_the_others_keep_sounding() {
    let mut ts: VecDeque<(i64, Scalar)> = VecDeque::from(vec![(8i64, s(1.0)), (2i64, s(0.5)), (9i64, s(0.25))]);
    assert_eq!(multi_step(&mut ts, 1, 10), vec![(9, s(1.0)), (3, s(0.5))]);
    assert_eq!(ts, VecDeque::from(vec![(2i64, s(0.5)), (9i64, s(0.25))]));
}

#[test]
fn voices_move_on_by_a_chunk() {
    let mut ts: VecDeque<(i64, Scalar)> = VecDeque::from(vec![(-3i64, s(1.0)), (100i64, s(0.5))]);
    multi_advance(&mut ts, 1024);
    assert_eq!(ts, VecDeque::from(vec![(1021i64, s(1.0)), (1124i64, s(0.5))]));
    let mut ts: VecDeque<(i64, Scalar)> = VecDeque::from(vec![(i64::MAX - 1, s(1.0))]);
    multi_advance(&mut ts, 1024);
    assert_eq!(ts, VecDeque::from(vec![(i64::MAX, s(1.0))]));
    assert_eq!(multi_step(&mut ts, 5, 4000), vec![]);
    assert!(ts.is_empty());
}

#[test]
fn two_hits_overlap_and_both_are_over_in_time() {
    // Hits on frames 0 and 4410 of a sample of 4000 frames, in chunks of 1024.
    let n = 4000usize;
    let chunk_len = 1024usize;
    let hits = [0usize, 4410];
    let mut ts: VecDeque<(i64, Scalar)> = VecDeque::new();
    let mut most = 0usize;
    let mut over_at = None;
    for chunk in 0..10usize {
        for i in 0..chunk_len {
            let frame = chunk * chunk_len + i;
            if hits.contains(&frame) {
                multi_trigger(&mut ts, i, s(if frame == 0 { 1.0 } else { 0.5 }));
            }
            let taps = multi_step(&mut ts, i, n);
            most = most.max(taps.len());
            for (pos, _) in &taps {
                assert!(*pos < n);
            }
            if frame < 4000 {
                assert_eq!(taps, vec![(frame, s(1.0))]);
            } else if frame >= 4410 && frame < 4410 + 4000 {
                assert_eq!(taps, vec![(frame - 4410, s(0.5))]);
            } else {
                assert!(taps.is_empty());
            }
            if frame > 4410 && ts.is_empty() && over_at.is_none() {
                over_at = Some(frame);
            }
        }
        multi_advance(&mut ts, chunk_len);
    }
    assert_eq!(most, 1);
    assert_eq!(over_at, Some(4410 + 4000));
}

#[test]
fn close_hits_sound_together() {
    let mut ts: VecDeque<(i64, Scalar)> = VecDeque::new();
    multi_trigger(&mut ts, 0, s(1.0));
    multi_trigger(&mut ts, 2, s(0.5));
    assert_eq!(multi_step(&mut ts, 2, 100), vec![(2, s(1.0)), (0, s(0.5))]);
    assert_eq!(multi_step(&mut ts, 3, 100), vec![(3, s(1.0)), (1, s(0.5))]);
}

#[test]
fn a_retrigger_fades_from_the_voice_before() {
    let mut primary = (0i64, s(0.0));
    let mut fading = (0i64, s(0.0));
    let mut countdown = 0usize;
    lerp_trigger(&mut primary, &mut fading, &mut countdown, 3, 2, s(1.0));
    assert_eq!(primary, (-2, s(1.0)));
    assert_eq!(fading, (0, s(0.0)));
    assert_eq!(countdown, 3);
    lerp_advance(&mut primary, &mut fading, 10);
    assert_eq!(primary, (8, s(1.0)));
    lerp_trigger(&mut primary, &mut fading, &mut countdown, 3, 4, s(0.5));
    assert_eq!(primary, (-4, s(0.5)));
    assert_eq!(fading, (8, s(1.0)));
    let frame = lerp_step(&primary, &fading, &mut countdown, 4, 20);
    assert_eq!(frame.primary_pos, 0);
    assert_eq!(frame.fade, Some((12, 2)));
    let frame = lerp_step(&primary, &fading, &mut countdown, 5, 20);
    assert_eq!(frame.primary_pos, 1);
    assert_eq!(frame.fade, Some((13, 1)));
    let frame = lerp_step(&primary, &fading, &mut countdown, 6, 20);
    assert_eq!(frame.fade, Some((14, 0)));
    let frame = lerp_step(&primary, &fading, &mut countdown, 7, 20);
    assert_eq!(frame.primary_pos, 3);
    assert_eq!(frame.fade, None);
    assert_eq!(countdown, 0);
}

#[test]
fn positions_stay_within_the_sample() {
    let primary = (50i64, s(1.0));
    let fading = (-50i64, s(1.0));
    let mut countdown = 2usize;
    let frame = lerp_step(&primary, &fading, &mut countdown, 3, 20);
    assert_eq!(frame.primary_pos, 19);
    assert_eq!(frame.fade, Some((0, 1)));
}
