use audio_agent::audio::processor::{
    AudioProcessor, HIGH_CUTOFF_HZ, LOW_CUTOFF_HZ, NOISE_FLOOR_DB, NOISE_GATE_THRESHOLD,
    TARGET_PEAK,
};

fn bits_of(samples: &[f32]) -> Vec<u32> {
    samples.iter().map(|x| x.to_bits()).collect()
}

fn floats_of(samples: &[u32]) -> Vec<f32> {
    samples.iter().map(|b| f32::from_bits(*b)).collect()
}

fn scale(sample: u32, target: u32, peak: u32) -> u32 {
    (f32::from_bits(sample) * (f32::from_bits(target) / f32::from_bits(peak))).to_bits()
}

fn coefficient(cutoff_hz: u32, sample_rate: u32) -> u32 {
    let dt = 1.0 / sample_rate as f32;
    (2.0 * std::f32::consts::PI * cutoff_hz as f32 * dt).to_bits()
}

fn stage(x: u32, y1: u32, y2: u32, alpha: u32) -> u32 {
    let (x, y1, y2, alpha) =
        (f32::from_bits(x), f32::from_bits(y1), f32::from_bits(y2), f32::from_bits(alpha));
    let high_pass = x - 2.0 * y1 + y2;
    (alpha * high_pass + (1.0 - alpha) * y1).to_bits()
}

fn interpolate(a: u32, b: u32, n: u32, d: u32) -> u32 {
    let fraction = n as f32 / d as f32;
    (f32::from_bits(a) * (1.0 - fraction) + f32::from_bits(b) * fraction).to_bits()
}

fn reference_bandpass(sample_rate: u32, audio: &mut [f32]) {
    let dt = 1.0 / sample_rate as f32;
    let alpha_high = 2.0 * std::f32::consts::PI * 6000.0 * dt;
    let mut prev = 0.0f32;
    let mut prev_prev = 0.0f32;
    for sample in audio.iter_mut() {
        let current = *sample;
        let high_pass = current - 2.0 * prev + prev_prev;
        let low_pass = alpha_high * high_pass + (1.0 - alpha_high) * prev;
        *sample = low_pass;
        prev_prev = prev;
        prev = low_pass;
    }
}

#[test]
fn processor_keeps_its_parameters() {
    let processor = AudioProcessor::new(48000, 1);
    assert_eq!(processor.sample_rate(), 48000);
    assert_eq!(processor.channels(), 1);
}

#[test]
fn design_constants_are_as_documented() {
    assert_eq!(NOISE_FLOOR_DB, -50);
    assert_eq!(f32::from_bits(TARGET_PEAK), 0.8);
    assert_eq!(LOW_CUTOFF_HZ, 80);
    assert_eq!(HIGH_CUTOFF_HZ, 6000);
    let threshold = 10f64.powf(NOISE_FLOOR_DB as f64 / 20.0);
    assert_eq!(f32::from_bits(NOISE_GATE_THRESHOLD), threshold as f32);
    assert!((f32::from_bits(NOISE_GATE_THRESHOLD) - 0.00316).abs() < 0.00001);
}

#[test]
fn peak_is_the_largest_magnitude() {
    let processor = AudioProcessor::new(48000, 1);
    assert_eq!(processor.peak_magnitude(&bits_of(&[0.1, -0.4, 0.2])), 0.4f32.to_bits());
    assert_eq!(processor.peak_magnitude(&bits_of(&[0.0, -0.0])), 0);
    assert_eq!(processor.peak_magnitude(&[]), 0);
    assert_eq!(processor.peak_magnitude(&bits_of(&[f32::NAN, 0.25, f32::NAN])), 0.25f32.to_bits());
    assert_eq!(
        processor.peak_magnitude(&bits_of(&[1.0, f32::NEG_INFINITY])),
        f32::INFINITY.to_bits()
    );
}

#[test]
fn normalization_scales_the_peak_to_the_target() {
    let processor = AudioProcessor::new(48000, 1);
    let mut audio = bits_of(&[0.1, -0.4, 0.2]);
    processor.normalize(&mut audio, scale);
    assert_eq!(floats_of(&audio), vec![0.2, -0.8, 0.4]);
    assert_eq!(processor.peak_magnitude(&audio), TARGET_PEAK);
}

#[test]
fn normalization_leaves_silence_alone() {
    let processor = AudioProcessor::new(48000, 1);
    let mut audio = bits_of(&[0.0, -0.0, 0.0]);
    let before = audio.clone();
    processor.normalize(&mut audio, |_, _, _| 0x7fc0_0000);
    assert_eq!(audio, before);
    let mut nothing: Vec<u32> = Vec::new();
    processor.normalize(&mut nothing, scale);
    assert!(nothing.is_empty());
}

#[test]
fn normalizing_twice_changes_nothing_more() {
    let processor = AudioProcessor::new(48000, 1);
    let mut audio = bits_of(&[0.1, -0.4, 0.2]);
    processor.normalize(&mut audio, scale);
    let once = audio.clone();
    processor.normalize(&mut audio, scale);
    assert_eq!(audio, once);
}

#[test]
fn normalization_hands_target_and_peak_to_the_scale() {
    let processor = AudioProcessor::new(48000, 1);
    let mut audio = bits_of(&[0.5, -0.25]);
    processor.normalize(&mut audio, |sample, target, peak| {
        assert_eq!(target, TARGET_PEAK);
        assert_eq!(peak, 0.5f32.to_bits());
        sample ^ 0x8000_0000
    });
    assert_eq!(floats_of(&audio), vec![-0.5, 0.25]);
}

#[test]
fn noise_gate_zeroes_what_is_below_the_floor() {
    let processor = AudioProcessor::new(48000, 1);
    let mut audio = bits_of(&[0.001, -0.003, 0.00316, 0.01, 0.5, -0.01]);
    processor.apply_noise_reduction(&mut audio);
    assert_eq!(audio, bits_of(&[0.0, 0.0, 0.0, 0.01, 0.5, -0.01]));
    assert_eq!(audio[0], 0);
    assert_eq!(audio[1], 0);
}

#[test]
fn noise_gate_at_the_threshold_passes() {
    let processor = AudioProcessor::new(48000, 1);
    let mut audio = vec![
        NOISE_GATE_THRESHOLD,
        NOISE_GATE_THRESHOLD - 1,
        NOISE_GATE_THRESHOLD | 0x8000_0000,
        (NOISE_GATE_THRESHOLD - 1) | 0x8000_0000,
        0x8000_0000,
        0x7fc0_0000,
        0xffc0_0001,
        0x7f80_0000,
    ];
    processor.apply_noise_reduction(&mut audio);
    assert_eq!(
        audio,
        vec![
            NOISE_GATE_THRESHOLD,
            0,
            NOISE_GATE_THRESHOLD | 0x8000_0000,
            0,
            0,
            0x7fc0_0000,
            0xffc0_0001,
            0x7f80_0000,
        ]
    );
}

#[test]
fn noise_gate_agrees_with_comparing_numbers() {
    let processor = AudioProcessor::new(48000, 1);
    let threshold = f32::from_bits(NOISE_GATE_THRESHOLD);
    let mut pattern: u64 = 0;
    let mut audio = Vec::new();
    while pattern <= u32::MAX as u64 {
        audio.push(pattern as u32);
        pattern += 1_000_003;
    }
    let before = audio.clone();
    processor.apply_noise_reduction(&mut audio);
    for (old, new) in before.iter().zip(audio.iter()) {
        if f32::from_bits(*old).abs() < threshold {
            assert_eq!(*new, 0);
        } else {
            assert_eq!(new, old);
        }
    }
}

#[test]
fn silence_is_removed_in_order() {
    let processor = AudioProcessor::new(48000, 1);
    let audio = bits_of(&[0.5, 0.001, -0.3, f32::NAN, 0.0, 0.01, 0.011]);
    let kept = processor.remove_silence(&audio, 0.01f32.to_bits());
    assert_eq!(floats_of(&kept), vec![0.5, -0.3, 0.011]);
}

#[test]
fn silence_threshold_compares_as_numbers_do() {
    let processor = AudioProcessor::new(48000, 1);
    let audio = bits_of(&[0.5, 0.0, -0.0, -0.3, f32::NAN, f32::INFINITY]);
    let numbers = bits_of(&[0.5, 0.0, -0.0, -0.3, f32::INFINITY]);
    assert_eq!(processor.remove_silence(&audio, (-1.0f32).to_bits()), numbers);
    assert_eq!(
        processor.remove_silence(&audio, (-0.0f32).to_bits()),
        bits_of(&[0.5, -0.3, f32::INFINITY])
    );
    assert_eq!(
        processor.remove_silence(&audio, 0.0f32.to_bits()),
        bits_of(&[0.5, -0.3, f32::INFINITY])
    );
    assert!(processor.remove_silence(&audio, f32::NAN.to_bits()).is_empty());
    assert!(processor.remove_silence(&audio, f32::INFINITY.to_bits()).is_empty());
    for threshold in [-2.0f32, -0.0, 0.0, 0.3, 0.4, 1.0, f32::INFINITY, f32::NAN] {
        let expected: Vec<u32> = audio
            .iter()
            .copied()
            .filter(|b| f32::from_bits(*b).abs() > threshold)
            .collect();
        assert_eq!(processor.remove_silence(&audio, threshold.to_bits()), expected);
    }
}

#[test]
fn bandpass_runs_the_cascade_over_the_buffer() {
    let processor = AudioProcessor::new(48000, 1);
    let input: Vec<f32> = (0..64).map(|i| ((i * 37 % 19) as f32 - 9.0) / 10.0).collect();
    let mut expected = input.clone();
    reference_bandpass(48000, &mut expected);
    let mut audio = bits_of(&input);
    processor.apply_bandpass_filter(&mut audio, coefficient, stage);
    assert_eq!(audio, bits_of(&expected));
}

#[test]
fn bandpass_asks_for_the_high_cutoff_only() {
    let processor = AudioProcessor::new(16000, 1);
    let asked = std::cell::RefCell::new(Vec::new());
    let mut audio = bits_of(&[1.0, 2.0, 3.0]);
    processor.apply_bandpass_filter(
        &mut audio,
        |cutoff, rate| {
            asked.borrow_mut().push((cutoff, rate));
            7
        },
        |x, y1, y2, alpha| {
            assert_eq!(alpha, 7);
            x.wrapping_add(y1).wrapping_add(y2.wrapping_mul(2))
        },
    );
    assert_eq!(*asked.borrow(), vec![(6000, 16000)]);
    let a = 1.0f32.to_bits();
    let b = 2.0f32.to_bits().wrapping_add(a);
    let c = 3.0f32.to_bits().wrapping_add(b).wrapping_add(a.wrapping_mul(2));
    assert_eq!(audio, vec![a, b, c]);
}

#[test]
fn bandpass_memory_does_not_outlive_the_call() {
    let processor = AudioProcessor::new(48000, 1);
    let input = bits_of(&[0.3, -0.2, 0.7, 0.1]);
    let mut first = input.clone();
    processor.apply_bandpass_filter(&mut first, coefficient, stage);
    let mut second = input.clone();
    processor.apply_bandpass_filter(&mut second, coefficient, stage);
    assert_eq!(first, second);
}

#[test]
fn full_pass_is_gate_then_filter_then_normalization() {
    let processor = AudioProcessor::new(48000, 1);
    let input: Vec<f32> = vec![0.001, 0.2, -0.4, 0.002, 0.3, -0.1, 0.0005, 0.25];
    let mut expected = bits_of(&input);
    processor.apply_noise_reduction(&mut expected);
    processor.apply_bandpass_filter(&mut expected, coefficient, stage);
    processor.normalize(&mut expected, scale);
    let mut audio = bits_of(&input);
    processor.process_audio(&mut audio, coefficient, stage, scale);
    assert_eq!(audio, expected);
    let peak = floats_of(&audio).iter().fold(0.0f32, |m, x| m.max(x.abs()));
    assert!((peak - 0.8).abs() < 1.0e-6);
}

#[test]
fn resampling_at_the_same_rate_copies() {
    let processor = AudioProcessor::new(48000, 1);
    let audio = bits_of(&[0.1, -0.2, f32::NAN, 0.4]);
    let copy = processor.resample(&audio, 48000, |_, _, _, _| 0).unwrap();
    assert_eq!(copy, audio);
    let mut changed = copy;
    changed[0] = 0;
    assert_eq!(audio[0], 0.1f32.to_bits());
    let silent = AudioProcessor::new(0, 1);
    assert_eq!(silent.resample(&audio, 0, interpolate), Some(audio.clone()));
}

#[test]
fn resampled_length_is_the_floor_of_the_scaled_length() {
    let cases: Vec<(usize, u32, u32, usize)> = vec![
        (10, 48000, 16000, 3),
        (10, 44100, 48000, 10),
        (441, 44100, 48000, 480),
        (3, 48000, 96000, 6),
        (49, 49, 1, 1),
        (48, 49, 1, 0),
        (7, 3, 2, 4),
        (0, 48000, 16000, 0),
        (1, 48000, 16000, 0),
        (1000, 16000, 48000, 3000),
        (1000, 48000, 44100, 918),
    ];
    for (len, rate, target, expected) in cases {
        let processor = AudioProcessor::new(rate, 1);
        assert_eq!(processor.resampled_len(len, target), Some(expected));
        let audio = vec![0u32; len];
        let out = processor.resample(&audio, target, interpolate).unwrap();
        assert_eq!(out.len(), expected, "{} samples from {} to {}", len, rate, target);
        assert_eq!(expected as u128, len as u128 * target as u128 / rate as u128);
    }
}

#[test]
fn resampling_interpolates_between_neighbours() {
    let processor = AudioProcessor::new(1, 1);
    let audio = bits_of(&[0.0, 1.0]);
    let out = processor.resample(&audio, 2, interpolate).unwrap();
    assert_eq!(floats_of(&out), vec![0.0, 0.5, 1.0, 1.0]);
    let processor = AudioProcessor::new(2, 1);
    let audio = bits_of(&[0.0, 1.0, 2.0, 3.0, 4.0]);
    let out = processor.resample(&audio, 1, interpolate).unwrap();
    assert_eq!(floats_of(&out), vec![0.0, 2.0]);
    let processor = AudioProcessor::new(4, 1);
    let audio = bits_of(&[0.0, 4.0, 8.0, 12.0]);
    let out = processor.resample(&audio, 3, interpolate).unwrap();
    // positions 0, 4/3, 8/3
    assert_eq!(out.len(), 3);
    assert_eq!(out[0], 0.0f32.to_bits());
    assert_eq!(out[1], interpolate(4.0f32.to_bits(), 8.0f32.to_bits(), 1, 3));
    assert_eq!(out[2], interpolate(8.0f32.to_bits(), 12.0f32.to_bits(), 2, 3));
}

#[test]
fn resampling_hands_positions_to_the_interpolation() {
    let processor = AudioProcessor::new(3, 1);
    let audio: Vec<u32> = vec![10, 20, 30];
    let out = processor
        .resample(&audio, 5, |a, b, n, d| a * 1000 + b * 10 + n * 100_000 + d * 1_000_000)
        .unwrap();
    // output i lies at i * 3 / 5: 0, 3/5, 6/5, 9/5, 12/5
    assert_eq!(
        out,
        vec![
            10 * 1000 + 20 * 10 + 0 * 100_000 + 5_000_000,
            10 * 1000 + 20 * 10 + 3 * 100_000 + 5_000_000,
            20 * 1000 + 30 * 10 + 1 * 100_000 + 5_000_000,
            20 * 1000 + 30 * 10 + 4 * 100_000 + 5_000_000,
            30,
        ]
    );
}

#[test]
fn resampling_refuses_a_rate_of_zero() {
    let audio = bits_of(&[0.1, 0.2]);
    assert_eq!(AudioProcessor::new(48000, 1).resample(&audio, 0, interpolate), None);
    assert_eq!(AudioProcessor::new(0, 1).resample(&audio, 48000, interpolate), None);
    assert_eq!(AudioProcessor::new(48000, 1).resampled_len(2, 0), None);
    assert_eq!(AudioProcessor::new(0, 1).resampled_len(2, 48000), None);
}

#[test]
fn resampled_length_beyond_the_address_space_is_refused() {
    let processor = AudioProcessor::new(1, 1);
    assert_eq!(processor.resampled_len(usize::MAX, 2), None);
    assert_eq!(processor.resampled_len(usize::MAX / 2, 2), Some(usize::MAX - 1));
}

#[test]
fn gating_twice_is_gating_once() {
    let processor = AudioProcessor::new(48000, 1);
    let mut audio = bits_of(&[0.001, -0.003, 0.0031, 0.0032, 0.01, -0.5, f32::NAN, 0.0]);
    processor.apply_noise_reduction(&mut audio);
    let once = audio.clone();
    processor.apply_noise_reduction(&mut audio);
    assert_eq!(audio, once);
}
