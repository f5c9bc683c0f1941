use sound_direction::correlation::{best_lag, cross_correlation, last_peak_index};

fn impulse_pair(num_samples: usize, delay: isize) -> (Vec<i16>, Vec<i16>) {
    let mut mic1 = vec![0i16; num_samples];
    let mut mic2 = vec![0i16; num_samples];
    if delay >= 0 {
        mic1[0] = i16::MAX;
        mic2[delay as usize] = i16::MAX;
    } else {
        mic1[(-delay) as usize] = i16::MAX;
        mic2[0] = i16::MAX;
    }
    (mic1, mic2)
}

fn sine_pair(freq_hz: f32, sample_rate: u32, num_samples: usize, delay: isize) -> (Vec<i16>, Vec<i16>) {
    let mut mic1 = Vec::with_capacity(num_samples);
    let mut mic2 = Vec::with_capacity(num_samples);
    for n in 0..num_samples {
        let t1 = n as f32 / sample_rate as f32;
        mic1.push(((2.0 * std::f32::consts::PI * freq_hz * t1).sin() * i16::MAX as f32) as i16);
        let t2 = (n as f32 - delay as f32) / sample_rate as f32;
        mic2.push(((2.0 * std::f32::consts::PI * freq_hz * t2).sin() * i16::MAX as f32) as i16);
    }
    (mic1, mic2)
}

#[test]
fn cross_correlation_exact_values() {
    let mic1: Vec<i16> = vec![1, 2, 3];
    let mic2: Vec<i16> = vec![4, 5, 6];
    // lags -3..=3
    let corr = cross_correlation(&mic1, &mic2, 3);
    assert_eq!(corr, vec![0, 3 * 4, 2 * 4 + 3 * 5, 1 * 4 + 2 * 5 + 3 * 6, 1 * 5 + 2 * 6, 1 * 6, 0]);
}

#[test]
fn cross_correlation_uses_only_first_signal_length() {
    let mic1: Vec<i16> = vec![1, 1];
    let mic2: Vec<i16> = vec![2, 3, 100];
    let corr = cross_correlation(&mic1, &mic2, 1);
    assert_eq!(corr, vec![2, 5, 3]);
}

#[test]
fn cross_correlation_extreme_samples_do_not_overflow() {
    let mic1 = vec![i16::MIN; 1000];
    let mic2 = vec![i16::MIN; 1000];
    let corr = cross_correlation(&mic1, &mic2, 1);
    assert_eq!(corr[1], 1000 * (1i128 << 30));
    assert_eq!(corr[0], 999 * (1i128 << 30));
}

#[test]
fn last_peak_index_prefers_last_of_equal_maxima() {
    assert_eq!(last_peak_index(&[1, 5, 2, 5, 3]), 3);
    assert_eq!(last_peak_index(&[7]), 0);
    assert_eq!(last_peak_index(&[0, 0, 0]), 2);
    assert_eq!(last_peak_index(&[-3, -1, -2]), 1);
}

#[test]
fn impulse_delay_positive() {
    let (mic1, mic2) = impulse_pair(1024, 26);
    assert_eq!(best_lag(&mic1, &mic2, 26), 26);
}

#[test]
fn impulse_delay_negative() {
    let (mic1, mic2) = impulse_pair(1024, -26);
    assert_eq!(best_lag(&mic1, &mic2, 26), -26);
}

#[test]
fn identical_sines_give_zero_lag() {
    let (mic1, mic2) = sine_pair(1000.0, 44100, 1024, 0);
    assert_eq!(best_lag(&mic1, &mic2, 26), 0);
}

#[test]
fn delayed_sine_gives_its_delay() {
    let (mic1, mic2) = sine_pair(1000.0, 44100, 1024, 13);
    assert_eq!(best_lag(&mic1, &mic2, 26), 13);
    let (mic1, mic2) = sine_pair(1000.0, 44100, 1024, -18);
    assert_eq!(best_lag(&mic1, &mic2, 26), -18);
}

#[test]
fn swapping_microphones_negates_lag() {
    let (mic1, mic2) = impulse_pair(64, 5);
    let forward = best_lag(&mic1, &mic2, 10);
    let backward = best_lag(&mic2, &mic1, 10);
    assert_eq!(forward, 5);
    assert_eq!(backward, -5);
}

#[test]
fn autocorrelation_peaks_at_zero_lag() {
    let signal: Vec<i16> = vec![3, -7, 12, 0, 5, -9, 4, 4, -1];
    let corr = cross_correlation(&signal, &signal, 8);
    for value in &corr {
        assert!(*value <= corr[8]);
    }
    assert_eq!(best_lag(&signal, &signal, 8), 0);
}

#[test]
fn empty_signals_give_largest_lag() {
    let mic1: Vec<i16> = vec![];
    let mic2: Vec<i16> = vec![];
    assert_eq!(cross_correlation(&mic1, &mic2, 2), vec![0, 0, 0, 0, 0]);
    assert_eq!(best_lag(&mic1, &mic2, 2), 2);
}

#[test]
fn silence_gives_largest_lag() {
    let mic = vec![0i16; 100];
    assert_eq!(best_lag(&mic, &mic, 4), 4);
}

#[test]
fn zero_max_lag_gives_zero() {
    let (mic1, mic2) = impulse_pair(16, 3);
    assert_eq!(best_lag(&mic1, &mic2, 0), 0);
}
