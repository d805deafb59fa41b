use termdaw::adsr::{build_adsr_conf, AdsrConf};
use termdaw::scalar::Scalar;
use termdaw::synth::OscConf;

fn s(x: f32) -> Scalar {
    Scalar::from_bits(x.to_bits())
}

fn f(x: Scalar) -> f32 {
    f32::from_bits(x.to_bits())
}

#[test]
fn a_hit_starts_at_zero_peaks_at_one_and_ends_at_zero() {
    let conf = AdsrConf::hit_conf(s(1.0), s(1.0), s(0.5), s(1.0), s(0.25), s(1.0));
    assert_eq!(f(conf.std_vel), 0.0);
    assert_eq!(f(conf.attack_sec), 1.0);
    assert_eq!(f(conf.attack_vel), 1.0);
    assert_eq!(f(conf.decay_sec), 1.0);
    assert_eq!(f(conf.decay_vel), 0.5);
    assert_eq!(f(conf.sustain_sec), 1.0);
    assert_eq!(f(conf.sustain_vel), 0.25);
    assert_eq!(f(conf.release_sec), 1.0);
    assert_eq!(f(conf.release_vel), 0.0);
}

#[test]
fn the_default_envelope_is_flat() {
    let conf = AdsrConf::default();
    assert_eq!(conf, build_adsr_conf(&[]).unwrap());
    assert_eq!(f(conf.attack_vel), 0.0);
    assert_eq!(f(conf.release_sec), 0.0);
}

#[test]
fn envelopes_are_read_from_six_or_nine_numbers() {
    let six: Vec<Scalar> = [0.1f32, 0.2, 0.3, 0.4, 0.5, 0.6].iter().map(|v| s(*v)).collect();
    assert_eq!(
        build_adsr_conf(&six).unwrap(),
        AdsrConf::hit_conf(s(0.1), s(0.2), s(0.3), s(0.4), s(0.5), s(0.6))
    );
    let nine: Vec<Scalar> = [0.1f32, 0.2, 0.3, 0.4, 0.5, 0.6, 0.7, 0.8, 0.9].iter().map(|v| s(*v)).collect();
    let conf = build_adsr_conf(&nine).unwrap();
    assert_eq!(f(conf.std_vel), 0.1);
    assert_eq!(f(conf.attack_sec), 0.2);
    assert_eq!(f(conf.attack_vel), 0.3);
    assert_eq!(f(conf.decay_sec), 0.4);
    assert_eq!(f(conf.decay_vel), 0.5);
    assert_eq!(f(conf.sustain_sec), 0.6);
    assert_eq!(f(conf.sustain_vel), 0.7);
    assert_eq!(f(conf.release_sec), 0.8);
    assert_eq!(f(conf.release_vel), 0.9);
}

#[test]
fn other_counts_describe_no_envelope() {
    for n in [1usize, 2, 3, 4, 5, 7, 8, 10, 12] {
        let arr: Vec<Scalar> = (0..n).map(|i| s(i as f32)).collect();
        assert!(build_adsr_conf(&arr).is_none());
    }
}

#[test]
fn an_oscillator_keeps_what_it_is_given() {
    let conf = OscConf::new(s(0.5), s(0.25), AdsrConf::default());
    assert_eq!(f(conf.volume), 0.5);
    assert_eq!(f(conf.param), 0.25);
    assert_eq!(conf.adsr, AdsrConf::default());
}
