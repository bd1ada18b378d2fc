//! Sampling and wave-comparison behavior: equal and unequal waves, and a
//! cross-check of the sine pipeline against an independent synthesizer.

use fundsp::combinator::An;
use fundsp::oscillator::Sine;
use fundsp::prelude::constant;
use fundsp::wave::Wave as FundspWave;
use thinkdsp::{CosSignal, Kernel, Rat, Signal, SignalError, SinSignal, Sinusoid, Wave};

#[test]
fn sinusoid_signal_period() {
    let s = Sinusoid::new(
        Rat::from_int(440),
        Rat::from_int(1),
        Rat::from_int(0),
        Kernel::Sine,
    )
    .unwrap();
    assert_eq!(s.period(), Rat::new(1, 440));
}

#[test]
fn sinusoid_signal_evaluate() {
    // A zero frequency has no period, so construction is rejected outright
    // instead of producing a division by zero later.
    let r = Sinusoid::new(
        Rat::from_int(0),
        Rat::from_int(0),
        Rat::from_int(0),
        Kernel::Sine,
    );
    assert!(matches!(r, Err(SignalError::InvalidFrequency)));
}

#[test]
fn check_framerate_for_one_sec_wave() {
    let cosine = CosSignal::new(Rat::from_int(440), Rat::from_int(1), Rat::from_int(0)).unwrap();
    let sine = SinSignal::new(Rat::from_int(880), Rat::new(1, 2), Rat::from_int(0)).unwrap();

    let sinusoid = Sinusoid::from(cosine).add(Sinusoid::from(sine));
    let wave = sinusoid.make_wave(Rat::from_int(1), Rat::from_int(0), 11025);
    assert_eq!(wave.len(), wave.framerate as usize);
}

#[test]
fn compare_two_waves_same_len_different_framerate() {
    let wave1 = SinSignal::new(Rat::from_int(880), Rat::new(1, 2), Rat::from_int(0))
        .unwrap()
        .make_wave(Rat::from_int(1), Rat::from_int(0), 10);
    let wave2 = SinSignal::new(Rat::from_int(880), Rat::new(1, 2), Rat::from_int(0))
        .unwrap()
        .make_wave(Rat::from_int(2), Rat::from_int(1), 5);
    assert_eq!(wave1.len(), wave2.len());
    assert_ne!(wave1.framerate, wave2.framerate);
    assert_ne!(wave1, wave2);
}

#[test]
fn compare_two_waves_same_len_and_framerate_different_times() {
    let wave1 = SinSignal::new(Rat::from_int(880), Rat::new(1, 2), Rat::from_int(0))
        .unwrap()
        .make_wave(Rat::from_int(1), Rat::from_int(0), 1);
    let wave2 = SinSignal::new(Rat::from_int(880), Rat::new(1, 2), Rat::from_int(0))
        .unwrap()
        .make_wave(Rat::from_int(1), Rat::from_int(1), 1);
    assert_eq!(wave1.len(), wave2.len());
    assert_eq!(wave1.framerate, wave2.framerate);
    assert_ne!(wave1.times, wave2.times);
    assert_ne!(wave1, wave2);
}

#[test]
fn compare_two_waves_same_len_and_framerate_different_signal() {
    // A framerate of three samples a second puts the instants off the
    // 880 Hz cycle grid, so the samples are nonzero and scale with the
    // amplitude.
    let wave1 = SinSignal::new(Rat::from_int(880), Rat::from_int(1), Rat::from_int(0))
        .unwrap()
        .make_wave(Rat::from_int(1), Rat::from_int(0), 3);
    let wave2 = SinSignal::new(Rat::from_int(880), Rat::new(1, 2), Rat::from_int(0))
        .unwrap()
        .make_wave(Rat::from_int(1), Rat::from_int(0), 3);
    assert_eq!(wave1.len(), wave2.len());
    assert_eq!(wave1.framerate, wave2.framerate);
    assert_eq!(wave1.times, wave2.times);
    assert_ne!(wave1.samples, wave2.samples);
    assert_ne!(wave1, wave2);
}

#[test]
fn compare_sine_from_fundsp() {
    let amp = 0.5_f32;
    let freq = 880.0_f32;
    let sample_rate = 11025.0_f32;

    let mut node = constant(freq) >> An(Sine::<f32>::with_phase(0.0)) * amp;
    let rendered = FundspWave::render(sample_rate as f64, 1.0, &mut node);

    let mut decoded: Vec<i128> = Vec::new();
    for &sample in rendered.channel(0) {
        decoded.push(((sample as f64) * 1e9).round() as i128);
    }
    let fundsp_wave = Wave::from_samples(decoded, sample_rate as u64);

    let wave = SinSignal::new(Rat::from_int(880), Rat::new(1, 2), Rat::from_int(0))
        .unwrap()
        .make_wave(Rat::from_int(1), Rat::from_int(0), sample_rate as u64);

    assert_eq!(fundsp_wave.len(), wave.len());
    for i in 0..fundsp_wave.len() {
        let (a_time, a_sample) = (fundsp_wave.times[i], fundsp_wave.samples[i]);
        let (b_time, b_sample) = (wave.times[i], wave.samples[i]);
        assert!(
            (a_sample - b_sample).abs() < 1_000_000,
            "Mismatch at sample {i}: fundsp={a_sample}, custom={b_sample}"
        );
        assert!(
            a_time == b_time,
            "Mismatch at sample {i}: fundsp time differs from custom time"
        );
    }
    assert_eq!(fundsp_wave, wave);
}
