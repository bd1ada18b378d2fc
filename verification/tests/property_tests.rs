//! Edge cases and domain errors: rounding of the sample count, degenerate
//! durations, normalization, elementwise composition, and the exact-value
//! semantics of rationals and wave equality.

use thinkdsp::{Kernel, Rat, Signal, SignalError, SinSignal, Sinusoid, SumSignal, SumSinusoid, Wave};

#[test]
fn make_wave_times_are_quarters() {
    let s = SinSignal::new(Rat::from_int(1), Rat::from_int(1), Rat::from_int(0)).unwrap();
    let wave = s.make_wave(Rat::from_int(1), Rat::from_int(0), 4);
    assert_eq!(wave.len(), 4);
    assert_eq!(
        wave.times,
        vec![
            Rat::new(0, 1),
            Rat::new(1, 4),
            Rat::new(1, 2),
            Rat::new(3, 4),
        ]
    );
}

#[test]
fn make_wave_zero_duration_is_empty() {
    let s = SinSignal::new(Rat::from_int(440), Rat::from_int(1), Rat::from_int(0)).unwrap();
    let wave = s.make_wave(Rat::from_int(0), Rat::from_int(0), 11025);
    assert_eq!(wave.len(), 0);
}

#[test]
fn make_wave_negative_duration_is_empty() {
    let s = SinSignal::new(Rat::from_int(440), Rat::from_int(1), Rat::from_int(0)).unwrap();
    let wave = s.make_wave(Rat::from_int(-2), Rat::from_int(0), 11025);
    assert_eq!(wave.len(), 0);
}

#[test]
fn make_wave_rounds_sample_count() {
    let s = SinSignal::new(Rat::from_int(440), Rat::from_int(1), Rat::from_int(0)).unwrap();
    // 0.3 seconds at 5 samples per second: round(1.5) = 2 (ties away from
    // zero); at 10 samples per second: round(3) = 3.
    let w1 = s.make_wave(Rat::new(3, 10), Rat::from_int(0), 5);
    assert_eq!(w1.len(), 2);
    let w2 = s.make_wave(Rat::new(3, 10), Rat::from_int(0), 10);
    assert_eq!(w2.len(), 3);
}

#[test]
fn doubling_framerate_doubles_exact_length() {
    let s = SinSignal::new(Rat::from_int(440), Rat::from_int(1), Rat::from_int(0)).unwrap();
    let w1 = s.make_wave(Rat::from_int(1), Rat::from_int(0), 4);
    let w2 = s.make_wave(Rat::from_int(1), Rat::from_int(0), 8);
    assert_eq!(w2.len(), 2 * w1.len());
}

#[test]
fn zero_frequency_is_rejected_everywhere() {
    assert!(matches!(
        Sinusoid::new(
            Rat::from_int(0),
            Rat::from_int(1),
            Rat::from_int(0),
            Kernel::Cosine
        ),
        Err(SignalError::InvalidFrequency)
    ));
    assert!(matches!(
        SinSignal::new(Rat::from_int(0), Rat::from_int(1), Rat::from_int(0)),
        Err(SignalError::InvalidFrequency)
    ));
    assert!(matches!(
        thinkdsp::CosSignal::new(Rat::from_int(0), Rat::from_int(1), Rat::from_int(0)),
        Err(SignalError::InvalidFrequency)
    ));
}

#[test]
fn normalize_rescales_to_peak() {
    let wave = Wave::new(
        vec![500_000_000, -1_000_000_000, 250_000_000],
        vec![Rat::new(0, 1), Rat::new(1, 10), Rat::new(2, 10)],
        10,
    );
    let normalized = wave.normalize(Rat::from_int(2)).unwrap();
    // The largest magnitude (one unit) becomes two units; shape and signs
    // are preserved.
    assert_eq!(
        normalized.samples,
        vec![1_000_000_000, -2_000_000_000, 500_000_000]
    );
    assert_eq!(normalized.framerate, 10);
    assert_eq!(normalized.len(), 3);
}

#[test]
fn normalize_all_zero_is_an_error() {
    let wave = Wave::new(vec![0, 0], vec![Rat::new(0, 1), Rat::new(1, 10)], 10);
    assert!(matches!(
        wave.normalize(Rat::from_int(1)),
        Err(SignalError::EmptySignalNormalize)
    ));
}

#[test]
fn normalize_empty_is_an_error() {
    let wave = Wave::new(vec![], vec![], 10);
    assert!(matches!(
        wave.normalize(Rat::from_int(1)),
        Err(SignalError::EmptySignalNormalize)
    ));
}

#[test]
fn add_samples_of_unequal_length_is_an_error() {
    let a = vec![1, 2, 3];
    let b = vec![1, 2];
    assert!(matches!(
        thinkdsp::wave::add_samples(&a, &b),
        Err(SignalError::LengthMismatch)
    ));
}

#[test]
fn add_samples_is_elementwise() {
    let a = vec![1, -2, 3];
    let b = vec![10, 20, -30];
    let c = thinkdsp::wave::add_samples(&a, &b).unwrap();
    assert_eq!(c, vec![11, 18, -27]);
}

#[test]
fn rational_equality_is_by_value() {
    assert_eq!(Rat::new(1, 2), Rat::new(2, 4));
    assert_ne!(Rat::new(1, 2), Rat::new(1, 3));
    assert_eq!(Rat::from_int(-3), Rat::new(-6, 2));
}

#[test]
fn wave_equality_tolerates_one_thousandth() {
    let times = vec![Rat::new(0, 1), Rat::new(1, 4)];
    let w1 = Wave::new(vec![0, 1_000_000_000], times.clone(), 4);
    // One thousandth of a unit apart: still equal.
    let w2 = Wave::new(vec![1_000_000, 999_000_000], times.clone(), 4);
    assert_eq!(w1, w2);
    // Just over one thousandth: unequal.
    let w3 = Wave::new(vec![1_000_001, 1_000_000_000], times, 4);
    assert_ne!(w1, w3);
}

#[test]
fn from_samples_round_trips() {
    let w1 = Wave::from_samples(vec![7, -8, 9], 100);
    assert_eq!(w1.times, vec![Rat::new(0, 100), Rat::new(1, 100), Rat::new(2, 100)]);
    let w2 = Wave::from_samples(w1.samples.clone(), w1.framerate);
    assert_eq!(w1, w2);
}

#[test]
fn pairwise_sum_matches_operand_sums() {
    let a = Sinusoid::new(
        Rat::from_int(3),
        Rat::from_int(1),
        Rat::new(1, 8),
        Kernel::Sine,
    )
    .unwrap();
    let b = Sinusoid::new(
        Rat::from_int(5),
        Rat::new(1, 2),
        Rat::from_int(0),
        Kernel::Cosine,
    )
    .unwrap();
    let times = vec![Rat::new(1, 3), Rat::new(1, 7), Rat::new(2, 5)];

    let va = a.evaluate(&times);
    let vb = b.evaluate(&times);

    let pair = SumSinusoid(a, b);
    let vp = pair.evaluate(&times);
    let list = SumSignal::new(vec![a, b]);
    let vl = list.evaluate(&times);

    for i in 0..times.len() {
        assert_eq!(vp[i], va[i] + vb[i]);
        assert_eq!(vl[i], va[i] + vb[i]);
    }
}

#[test]
fn sum_of_no_signals_has_default_period() {
    let empty = SumSignal::new(vec![]);
    assert_eq!(empty.period(), Rat::new(1, 10));
    let times = vec![Rat::new(0, 1), Rat::new(1, 4)];
    assert_eq!(empty.evaluate(&times), vec![0, 0]);
}

#[test]
fn sine_eighth_turn_exact_value() {
    // The rational sine kernel at an eighth of a turn: 16u(1-u)/(5-4u(1-u))
    // at u = 1/4 is 3/4.25, which rounds to 705882353 billionths.
    let s = SinSignal::new(Rat::from_int(1), Rat::from_int(1), Rat::from_int(0)).unwrap();
    let sinusoid: Sinusoid = s.into();
    let result = sinusoid.evaluate(&vec![Rat::new(1, 8)]);
    assert_eq!(result[0], 705_882_353);
}
