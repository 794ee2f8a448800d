use audio_agent::audio::frame::{DecodedFrame, FrameData, SampleFormat};
use audio_agent::audio::sample::f32_to_pcm;
use audio_agent::error::TranscodeError;

fn bits(x: f32) -> u32 {
    x.to_bits()
}

#[test]
fn zero_converts_to_zero() {
    assert_eq!(f32_to_pcm(bits(0.0)), 0);
    assert_eq!(f32_to_pcm(bits(-0.0)), 0);
}

#[test]
fn full_scale_converts_to_extremes() {
    assert_eq!(f32_to_pcm(bits(1.0)), 32767);
    assert_eq!(f32_to_pcm(bits(-1.0)), -32767);
}

#[test]
fn halves_round_away_from_zero() {
    // 0.5 * 32767 = 16383.5
    assert_eq!(f32_to_pcm(bits(0.5)), 16384);
    assert_eq!(f32_to_pcm(bits(-0.5)), -16384);
    // 0.25 * 32767 = 8191.75
    assert_eq!(f32_to_pcm(bits(0.25)), 8192);
    // 0.125 * 32767 = 4095.875
    assert_eq!(f32_to_pcm(bits(-0.125)), -4096);
}

#[test]
fn magnitudes_above_one_are_clamped() {
    assert_eq!(f32_to_pcm(bits(2.0)), 32767);
    assert_eq!(f32_to_pcm(bits(-2.0)), -32768);
    assert_eq!(f32_to_pcm(bits(1.5)), 32767);
    assert_eq!(f32_to_pcm(bits(-1.0001)), -32768);
    assert_eq!(f32_to_pcm(bits(1.0e30)), 32767);
    assert_eq!(f32_to_pcm(bits(-1.0e30)), -32768);
    assert_eq!(f32_to_pcm(bits(f32::MAX)), 32767);
    assert_eq!(f32_to_pcm(bits(f32::MIN)), -32768);
}

#[test]
fn infinities_are_clamped() {
    assert_eq!(f32_to_pcm(bits(f32::INFINITY)), 32767);
    assert_eq!(f32_to_pcm(bits(f32::NEG_INFINITY)), -32768);
}

#[test]
fn not_a_number_maps_to_the_lowest_sample() {
    assert_eq!(f32_to_pcm(bits(f32::NAN)), -32768);
    assert_eq!(f32_to_pcm(0x7fc0_0001), -32768);
    assert_eq!(f32_to_pcm(0xffc0_0000), -32768);
}

#[test]
fn tiny_values_vanish() {
    assert_eq!(f32_to_pcm(bits(1.0e-6)), 0);
    assert_eq!(f32_to_pcm(bits(-1.0e-6)), 0);
    assert_eq!(f32_to_pcm(bits(f32::MIN_POSITIVE)), 0);
    assert_eq!(f32_to_pcm(1), 0); // smallest subnormal
    assert_eq!(f32_to_pcm(bits(1.0e-30)), 0);
}

#[test]
fn values_near_one_step_round_to_nearest() {
    // 2^-15 * 32767 is just below 1, 2^-16 * 32767 just below one half
    assert_eq!(f32_to_pcm(bits(1.0 / 32768.0)), 1);
    assert_eq!(f32_to_pcm(bits(1.0 / 65536.0)), 0);
    assert_eq!(f32_to_pcm(bits(-1.0 / 32768.0)), -1);
    assert_eq!(f32_to_pcm(bits(0.4 / 32767.0)), 0);
    assert_eq!(f32_to_pcm(bits(0.6 / 32767.0)), 1);
    assert_eq!(f32_to_pcm(bits(-0.6 / 32767.0)), -1);
}

#[test]
fn whole_steps_convert_back() {
    for k in [1i32, 2, 3, 4, 5, 6, 100, 1000, 12345, 32766, 32767] {
        let x = k as f32 / 32767.0;
        assert_eq!(f32_to_pcm(bits(x)) as i32, k);
        assert_eq!(f32_to_pcm(bits(-x)) as i32, -k);
    }
}

#[test]
fn conversion_agrees_with_rounding_in_double_precision() {
    let mut x = -1.25f32;
    while x <= 1.25 {
        let exact = (x as f64 * 32767.0).round().clamp(-32768.0, 32767.0) as i16;
        assert_eq!(f32_to_pcm(bits(x)), exact, "at {}", x);
        x += 0.000_37;
    }
}

#[test]
fn every_float_sample_stays_in_range() {
    // one bit pattern out of every 65521, over the whole 32-bit range
    let mut pattern: u64 = 0;
    while pattern <= u32::MAX as u64 {
        let pcm = f32_to_pcm(pattern as u32) as i32;
        assert!(-32768 <= pcm && pcm <= 32767);
        let x = f32::from_bits(pattern as u32);
        if x.is_nan() {
            assert_eq!(pcm, -32768);
        } else {
            let exact = (x as f64 * 32767.0).round().clamp(-32768.0, 32767.0) as i32;
            assert_eq!(pcm, exact);
        }
        pattern += 65521;
    }
}

#[test]
fn format_names_resolve() {
    assert_eq!(SampleFormat::from_name("s16"), Ok(SampleFormat::Int16Packed));
    assert_eq!(SampleFormat::from_name("flt"), Ok(SampleFormat::Float32Packed));
    assert_eq!(SampleFormat::from_name("fltp"), Ok(SampleFormat::Float32Planar));
}

#[test]
fn unknown_format_name_is_reported() {
    assert_eq!(
        SampleFormat::from_name("u8"),
        Err(TranscodeError::UnsupportedFormat("u8".to_string()))
    );
    assert_eq!(
        SampleFormat::from_name("s16p"),
        Err(TranscodeError::UnsupportedFormat("s16p".to_string()))
    );
    assert_eq!(
        SampleFormat::from_name(""),
        Err(TranscodeError::UnsupportedFormat(String::new()))
    );
}

#[test]
fn format_names_round_trip() {
    for format in [
        SampleFormat::Int16Packed,
        SampleFormat::Float32Packed,
        SampleFormat::Float32Planar,
    ] {
        assert_eq!(SampleFormat::from_name(format.name()), Ok(format));
    }
}

fn frame(channels: u16, samples: usize, data: FrameData) -> DecodedFrame {
    DecodedFrame { channels, sample_rate: 48000, samples, data }
}

#[test]
fn int16_frame_passes_through_bit_for_bit() {
    let data = vec![0i16, 1, -1, 32767, -32768, 1234];
    let f = frame(2, 3, FrameData::Int16Packed(data.clone()));
    assert!(f.is_well_formed());
    assert_eq!(f.format(), SampleFormat::Int16Packed);
    let mut out = vec![7i16];
    f.write_samples(&mut out);
    assert_eq!(out, vec![7, 0, 1, -1, 32767, -32768, 1234]);
}

#[test]
fn packed_float_frame_is_scaled_and_clamped() {
    let data: Vec<u32> = [0.0f32, 1.0, -1.0, 0.5, 3.0, -3.0].iter().map(|x| x.to_bits()).collect();
    let f = frame(1, 6, FrameData::Float32Packed(data));
    assert!(f.is_well_formed());
    let mut out = Vec::new();
    f.write_samples(&mut out);
    assert_eq!(out, vec![0, 32767, -32767, 16384, 32767, -32768]);
}

#[test]
fn planar_frame_is_reinterleaved() {
    let left: Vec<u32> = [1.0f32, 2.0, 3.0].iter().map(|k| (k / 32767.0).to_bits()).collect();
    let right: Vec<u32> = [4.0f32, 5.0, 6.0].iter().map(|k| (k / 32767.0).to_bits()).collect();
    let f = frame(2, 3, FrameData::Float32Planar(vec![left.clone(), right.clone()]));
    assert!(f.is_well_formed());
    assert_eq!(f.format(), SampleFormat::Float32Planar);
    let mut out = Vec::new();
    f.write_samples(&mut out);
    assert_eq!(out, vec![1, 4, 2, 5, 3, 6]);
    // the channel buffers are only read
    if let FrameData::Float32Planar(planes) = &f.data {
        assert_eq!(planes[0], left);
        assert_eq!(planes[1], right);
    } else {
        unreachable!();
    }
}

#[test]
fn planar_frame_with_one_channel_keeps_order() {
    let plane: Vec<u32> = [0.5f32, -0.5, 0.25].iter().map(|x| x.to_bits()).collect();
    let f = frame(1, 3, FrameData::Float32Planar(vec![plane]));
    let mut out = Vec::new();
    f.write_samples(&mut out);
    assert_eq!(out, vec![16384, -16384, 8192]);
}

#[test]
fn frame_shape_is_checked() {
    assert!(!frame(2, 3, FrameData::Int16Packed(vec![0; 5])).is_well_formed());
    assert!(!frame(2, 3, FrameData::Float32Packed(vec![0; 7])).is_well_formed());
    assert!(!frame(2, 3, FrameData::Float32Planar(vec![vec![0; 3]])).is_well_formed());
    assert!(!frame(2, 3, FrameData::Float32Planar(vec![vec![0; 3], vec![0; 2]])).is_well_formed());
    assert!(frame(2, 0, FrameData::Float32Planar(vec![vec![], vec![]])).is_well_formed());
    assert!(frame(0, 5, FrameData::Int16Packed(vec![])).is_well_formed());
}

#[test]
fn just_beyond_full_scale_reaches_the_lowest_sample() {
    // 0x3f800081 is the first magnitude whose product rounds to 32768
    assert_eq!(f32_to_pcm(0xbf80_0081), -32768);
    assert_eq!(f32_to_pcm(0xbf80_0080), -32767);
    assert_eq!(f32_to_pcm(0x3f80_0081), 32767);
    assert_eq!(f32_to_pcm(0xbf80_0000), -32767);
}

#[test]
fn magnitude_bits_order_as_absolute_values() {
    let values = [
        0.0f32,
        -0.0,
        f32::MIN_POSITIVE / 4.0,
        f32::MIN_POSITIVE,
        -f32::MIN_POSITIVE * 1.5,
        1.0e-10,
        -0.003,
        0.5,
        -0.5,
        1.0,
        -1.0000001,
        2.0,
        -3.5e20,
        f32::MAX,
        f32::INFINITY,
        f32::NEG_INFINITY,
    ];
    for a in values {
        for b in values {
            let (ma, mb) = (a.to_bits() & 0x7fff_ffff, b.to_bits() & 0x7fff_ffff);
            assert_eq!(ma < mb, a.abs() < b.abs(), "{} against {}", a, b);
            assert_eq!(ma == mb, a.abs() == b.abs(), "{} against {}", a, b);
        }
    }
}
