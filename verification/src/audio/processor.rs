//! The signal-conditioning pipeline: noise gate, band-pass filter, peak
//! normalisation and linear resampling.
//!
//! Samples are single-precision numbers held as bit patterns. Comparisons are
//! made here, on the bits. The arithmetic on the numbers themselves (scaling,
//! filtering, interpolating) is handed in by the caller as a function on bit
//! patterns; each stage says which arguments it passes and where each result
//! goes.

use vstd::prelude::*;
use crate::audio::sample::{
    is_nan, is_negative, lemma_magnitude_order, magnitude_bits, magnitude_value, INFINITY_BITS,
};

verus! {

/// The noise floor, in dB relative to full scale.
pub const NOISE_FLOOR_DB: i32 = -50;

/// `10^(NOISE_FLOOR_DB / 20)` as a single-precision bit pattern.
pub const NOISE_GATE_THRESHOLD: u32 = 0x3b4f_3e37;

/// The peak magnitude that normalisation scales to: `0.8`.
pub const TARGET_PEAK: u32 = 0x3f4c_cccd;

/// The low cutoff of the band-pass design. No stage of the filter uses it.
pub const LOW_CUTOFF_HZ: u32 = 80;

/// The high cutoff of the band-pass design, from which the smoothing
/// coefficient is derived.
pub const HIGH_CUTOFF_HZ: u32 = 6000;

/// The noise gate on one sample: below the threshold in magnitude it becomes
/// positive zero, otherwise it passes unchanged.
pub open spec fn gate(bits: u32) -> u32 {
    if magnitude_bits(bits) < NOISE_GATE_THRESHOLD {
        0
    } else {
        bits
    }
}

/// The noise gate on a whole signal.
pub open spec fn gated(samples: Seq<u32>) -> Seq<u32> {
    samples.map_values(|bits: u32| gate(bits))
}

/// Whether a sample's magnitude is greater than `threshold`, as numbers
/// compare: nothing compares with what is not a number, and both zeros are equal.
pub open spec fn exceeds(bits: u32, threshold: u32) -> bool {
    &&& !is_nan(bits)
    &&& !is_nan(threshold)
    &&& if is_negative(threshold) && magnitude_bits(threshold) > 0 {
        true
    } else {
        magnitude_bits(bits) > magnitude_bits(threshold)
    }
}

/// The largest magnitude among the samples that are numbers; zero if there is none.
pub open spec fn peak(samples: Seq<u32>) -> u32
    decreases samples.len(),
{
    if samples.len() == 0 {
        0
    } else {
        let before = peak(samples.drop_last());
        let last = samples.last();
        if !is_nan(last) && magnitude_bits(last) > before {
            magnitude_bits(last)
        } else {
            before
        }
    }
}

/// The filter's memory at position `i`: the output at `i`, or zero before the
/// first sample.
pub open spec fn previous(output: Seq<u32>, i: int) -> u32 {
    if 0 <= i < output.len() {
        output[i]
    } else {
        0
    }
}

/// Whether position `i` of `after` is what the filter stage makes of the input
/// at `i` and the two outputs before it.
pub open spec fn filtered_at<K: Fn(u32, u32, u32, u32) -> u32>(
    stage: K,
    alpha: u32,
    before: Seq<u32>,
    after: Seq<u32>,
    i: int,
) -> bool {
    stage.ensures((before[i], previous(after, i - 1), previous(after, i - 2), alpha), after[i])
}

/// `after` is `before` run through the filter stage with coefficient `alpha`.
pub open spec fn filtered<K: Fn(u32, u32, u32, u32) -> u32>(
    stage: K,
    alpha: u32,
    before: Seq<u32>,
    after: Seq<u32>,
) -> bool {
    &&& after.len() == before.len()
    &&& forall|i: int|
        0 <= i < before.len() ==> #[trigger] filtered_at(stage, alpha, before, after, i)
}

/// `after` is `before` normalised: unchanged if silent, otherwise every sample
/// scaled with the target peak and the signal's peak.
pub open spec fn normalized<S: Fn(u32, u32, u32) -> u32>(
    scale: S,
    before: Seq<u32>,
    after: Seq<u32>,
) -> bool {
    if peak(before) == 0 {
        after == before
    } else {
        &&& after.len() == before.len()
        &&& forall|i: int|
            0 <= i < before.len() ==> scale.ensures(
                (before[i], TARGET_PEAK, peak(before)),
                #[trigger] after[i],
            )
    }
}

/// The output length of resampling `input_len` samples from `rate` to `target`:
/// `floor(input_len * target / rate)`.
pub open spec fn resampled_len(input_len: nat, rate: u32, target: u32) -> nat {
    (input_len * target / (rate as int)) as nat
}

/// The input index that output `i` starts from: `floor(i * rate / target)`.
pub open spec fn source_index(i: nat, rate: u32, target: u32) -> nat {
    (i * rate / (target as int)) as nat
}

/// The numerator, over `target`, of how far output `i` lies beyond its input index.
pub open spec fn source_fraction(i: nat, rate: u32, target: u32) -> nat {
    (i * rate % (target as int)) as nat
}

/// Whether `value` is what resampling puts at output position `i`: the
/// interpolation between the two inputs around `i * rate / target`, or a copy
/// of the first where the second would lie beyond the input.
pub open spec fn resampled_at<L: Fn(u32, u32, u32, u32) -> u32>(
    interpolate: L,
    rate: u32,
    target: u32,
    input: Seq<u32>,
    i: int,
    value: u32,
) -> bool {
    let index = source_index(i as nat, rate, target) as int;
    &&& index < input.len()
    &&& if index + 1 < input.len() {
        interpolate.ensures(
            (input[index], input[index + 1], source_fraction(i as nat, rate, target) as u32, target),
            value,
        )
    } else {
        value == input[index]
    }
}

/// `output` is `input` resampled from `rate` to `target`. Equal rates copy.
/// Otherwise the length follows `resampled_len` and every position `resampled_at`.
pub open spec fn resampled<L: Fn(u32, u32, u32, u32) -> u32>(
    interpolate: L,
    rate: u32,
    target: u32,
    input: Seq<u32>,
    output: Seq<u32>,
) -> bool {
    if rate == target {
        output == input
    } else {
        &&& output.len() == resampled_len(input.len(), rate, target)
        &&& forall|i: int|
            0 <= i < output.len() ==> resampled_at(
                interpolate,
                rate,
                target,
                input,
                i,
                #[trigger] output[i],
            )
    }
}

/// The peak bounds every sample that is a number.
pub proof fn lemma_peak_bounds(samples: Seq<u32>, i: int)
    requires
        0 <= i < samples.len(),
        !is_nan(samples[i]),
    ensures
        magnitude_bits(samples[i]) <= peak(samples),
    decreases samples.len(),
{
    if i < samples.len() - 1 {
        lemma_peak_bounds(samples.drop_last(), i);
    }
}

/// The peak is attained: it is zero, or the magnitude of a sample that is a number.
pub proof fn lemma_peak_attained(samples: Seq<u32>)
    ensures
        peak(samples) <= INFINITY_BITS,
        peak(samples) == 0 || exists|i: int|
            0 <= i < samples.len() && !is_nan(samples[i]) && magnitude_bits(#[trigger] samples[i])
                == peak(samples),
    decreases samples.len(),
{
    if samples.len() > 0 {
        lemma_peak_attained(samples.drop_last());
        let last = samples.last();
        if !is_nan(last) && magnitude_bits(last) > peak(samples.drop_last()) {
            assert(magnitude_bits(samples[samples.len() - 1]) == peak(samples));
        } else if peak(samples) != 0 {
            let i = choose|i: int|
                0 <= i < samples.drop_last().len() && !is_nan(samples.drop_last()[i])
                    && magnitude_bits(#[trigger] samples.drop_last()[i]) == peak(
                    samples.drop_last(),
                );
            assert(samples[i] == samples.drop_last()[i]);
        }
    }
}

/// The noise gate compares magnitudes as numbers: a sample becomes zero
/// exactly if its absolute value is below that of the threshold, or it is a
/// zero already.
pub proof fn lemma_gate_compares_magnitudes(bits: u32)
    ensures
        magnitude_value(bits) < magnitude_value(NOISE_GATE_THRESHOLD) ==> gate(bits) == 0,
        magnitude_value(bits) >= magnitude_value(NOISE_GATE_THRESHOLD) ==> gate(bits) == bits,
{
    lemma_magnitude_order(bits, NOISE_GATE_THRESHOLD);
    assert(magnitude_bits(NOISE_GATE_THRESHOLD) == NOISE_GATE_THRESHOLD);
}

/// Gating a sample twice is gating it once.
pub proof fn lemma_gate_is_idempotent(bits: u32)
    ensures
        gate(gate(bits)) == gate(bits),
{
}

/// Every output of resampling starts from an index inside the input.
pub proof fn lemma_source_index_in_range(input_len: nat, rate: u32, target: u32, i: nat)
    requires
        rate > 0,
        target > 0,
        i < resampled_len(input_len, rate, target),
    ensures
        source_index(i, rate, target) < input_len,
        source_fraction(i, rate, target) < target,
{
    let r = rate as int;
    let t = target as int;
    let total = input_len * t;
    let q = total / r;
    assert(q * r <= total) by (nonlinear_arith)
        requires
            q == total / r,
            r > 0,
            total >= 0,
    ;
    assert(i * r < total) by (nonlinear_arith)
        requires
            i + 1 <= q,
            q * r <= total,
            r > 0,
    ;
    let p = i * r;
    assert(p / t < input_len) by (nonlinear_arith)
        requires
            0 <= p < input_len * t,
            t > 0,
    ;
    assert(0 <= p % t < t) by (nonlinear_arith)
        requires
            p >= 0,
            t > 0,
    ;
}

/// Resampling to the rate the signal already has returns an equal signal.
pub proof fn lemma_resample_identity<L: Fn(u32, u32, u32, u32) -> u32>(
    interpolate: L,
    rate: u32,
    input: Seq<u32>,
    output: Seq<u32>,
)
    requires
        resampled(interpolate, rate, rate, input, output),
    ensures
        output == input,
{
}

/// What exact arithmetic gives a scale function for the peak `peak`: scaling
/// keeps what is not a number, takes no sample within the peak beyond the
/// target, takes a sample at the peak to the target, and with a peak equal to
/// the target returns the sample itself.
pub open spec fn scales_exactly<S: Fn(u32, u32, u32) -> u32>(scale: S, peak: u32) -> bool {
    &&& forall|sample: u32, scaled: u32|
        is_nan(sample) && #[trigger] scale.ensures((sample, TARGET_PEAK, peak), scaled)
            ==> is_nan(scaled)
    &&& forall|sample: u32, scaled: u32|
        !is_nan(sample) && magnitude_bits(sample) <= peak && #[trigger] scale.ensures(
            (sample, TARGET_PEAK, peak),
            scaled,
        ) ==> !is_nan(scaled) && magnitude_bits(scaled) <= TARGET_PEAK
    &&& forall|sample: u32, scaled: u32|
        !is_nan(sample) && magnitude_bits(sample) == peak && #[trigger] scale.ensures(
            (sample, TARGET_PEAK, peak),
            scaled,
        ) ==> magnitude_bits(scaled) == TARGET_PEAK
    &&& forall|sample: u32, scaled: u32|
        peak == TARGET_PEAK && #[trigger] scale.ensures((sample, TARGET_PEAK, peak), scaled)
            ==> scaled == sample
}

/// With a scale function that is exact for the signal's peak, normalising a
/// signal that is not silent brings its peak to the target, exactly.
pub proof fn lemma_normalized_peak_is_target<S: Fn(u32, u32, u32) -> u32>(
    scale: S,
    before: Seq<u32>,
    after: Seq<u32>,
)
    requires
        normalized(scale, before, after),
        peak(before) != 0,
        scales_exactly(scale, peak(before)),
    ensures
        peak(after) == TARGET_PEAK,
{
    lemma_peak_attained(before);
    let at = choose|i: int|
        0 <= i < before.len() && !is_nan(before[i]) && magnitude_bits(#[trigger] before[i]) == peak(
            before,
        );
    assert(scale.ensures((before[at], TARGET_PEAK, peak(before)), after[at]));
    assert(magnitude_bits(TARGET_PEAK) == TARGET_PEAK);
    lemma_peak_bounds(after, at);
    lemma_peak_attained(after);
    if peak(after) != 0 {
        let top = choose|i: int|
            0 <= i < after.len() && !is_nan(after[i]) && magnitude_bits(#[trigger] after[i])
                == peak(after);
        assert(scale.ensures((before[top], TARGET_PEAK, peak(before)), after[top]));
        if !is_nan(before[top]) {
            lemma_peak_bounds(before, top);
        }
    }
}

/// A signal whose peak is the target already is left as it is by normalising,
/// if scaling by a peak equal to the target returns the sample itself.
pub proof fn lemma_normalized_signal_is_fixed<S: Fn(u32, u32, u32) -> u32>(
    scale: S,
    before: Seq<u32>,
    after: Seq<u32>,
)
    requires
        normalized(scale, before, after),
        peak(before) == TARGET_PEAK,
        forall|sample: u32, scaled: u32|
            scale.ensures((sample, TARGET_PEAK, TARGET_PEAK), scaled) ==> scaled == sample,
    ensures
        after == before,
{
    assert(after =~= before);
}

/// With exact arithmetic, normalising twice is normalising once: the second
/// pass finds the peak at the target and changes nothing.
pub proof fn lemma_normalizing_twice_changes_nothing<S: Fn(u32, u32, u32) -> u32>(
    scale: S,
    signal: Seq<u32>,
    once: Seq<u32>,
    twice: Seq<u32>,
)
    requires
        normalized(scale, signal, once),
        normalized(scale, once, twice),
        scales_exactly(scale, peak(signal)),
        scales_exactly(scale, TARGET_PEAK),
    ensures
        twice == once,
{
    if peak(signal) != 0 {
        lemma_normalized_peak_is_target(scale, signal, once);
        lemma_normalized_signal_is_fixed(scale, once, twice);
    }
}

/// Conditions audio captured at a given sample rate and channel count.
pub struct AudioProcessor {
    sample_rate: u32,
    channels: u16,
}

impl AudioProcessor {
    pub closed spec fn rate(&self) -> u32 {
        self.sample_rate
    }

    pub closed spec fn channel_count(&self) -> u16 {
        self.channels
    }

    pub fn new(sample_rate: u32, channels: u16) -> (processor: AudioProcessor)
        ensures
            processor.rate() == sample_rate,
            processor.channel_count() == channels,
    {
        AudioProcessor { sample_rate, channels }
    }

    pub fn sample_rate(&self) -> (rate: u32)
        ensures
            rate == self.rate(),
    {
        self.sample_rate
    }

    pub fn channels(&self) -> (channels: u16)
        ensures
            channels == self.channel_count(),
    {
        self.channels
    }

    /// The largest magnitude in the signal, as a bit pattern.
    pub fn peak_magnitude(&self, audio_data: &[u32]) -> (max_amplitude: u32)
        ensures
            max_amplitude == peak(audio_data@),
    {
        let mut max_amplitude: u32 = 0;
        let mut i: usize = 0;
        while i < audio_data.len()
            invariant
                i <= audio_data@.len(),
                max_amplitude == peak(audio_data@.take(i as int)),
            decreases audio_data@.len() - i,
        {
            let magnitude: u32 = audio_data[i] % 0x8000_0000;
            proof {
                assert(audio_data@.take(i + 1).drop_last() == audio_data@.take(i as int));
            }
            if magnitude <= INFINITY_BITS && magnitude > max_amplitude {
                max_amplitude = magnitude;
            }
            i += 1;
        }
        proof {
            assert(audio_data@.take(audio_data@.len() as int) == audio_data@);
        }
        max_amplitude
    }

    /// Scales the signal so that its peak magnitude becomes `TARGET_PEAK`; a
    /// silent signal is left alone. `scale(sample, target, peak)` is to return
    /// `sample * (target / peak)`.
    pub fn normalize<S: Fn(u32, u32, u32) -> u32>(&self, audio_data: &mut [u32], scale: S)
        requires
            forall|sample: u32, target: u32, peak: u32| scale.requires((sample, target, peak)),
        ensures
            normalized(scale, old(audio_data)@, final(audio_data)@),
    {
        let max_amplitude = self.peak_magnitude(audio_data);
        if max_amplitude > 0 {
            let n = audio_data.len();
            let mut i: usize = 0;
            while i < n
                invariant
                    i <= n,
                    n == audio_data@.len(),
                    audio_data@.len() == old(audio_data)@.len(),
                    max_amplitude == peak(old(audio_data)@),
                    forall|sample: u32, target: u32, peak: u32|
                        scale.requires((sample, target, peak)),
                    forall|j: int|
                        0 <= j < i ==> scale.ensures(
                            (old(audio_data)@[j], TARGET_PEAK, max_amplitude),
                            #[trigger] audio_data@[j],
                        ),
                    forall|j: int| i <= j < n ==> audio_data@[j] == old(audio_data)@[j],
                decreases n - i,
            {
                let scaled = scale(audio_data[i], TARGET_PEAK, max_amplitude);
                audio_data[i] = scaled;
                i += 1;
            }
        }
    }

    /// Keeps the samples whose magnitude is greater than `threshold`, in order.
    pub fn remove_silence(&self, audio_data: &[u32], threshold: u32) -> (kept: Vec<u32>)
        ensures
            kept@ == audio_data@.filter(|bits: u32| exceeds(bits, threshold)),
    {
        let ghost keep = |bits: u32| exceeds(bits, threshold);
        let mut kept: Vec<u32> = Vec::new();
        let threshold_magnitude: u32 = threshold % 0x8000_0000;
        let always = threshold >= 0x8000_0000 && threshold_magnitude > 0;
        let mut i: usize = 0;
        proof {
            reveal_with_fuel(Seq::filter, 2);
        }
        while i < audio_data.len()
            invariant
                i <= audio_data@.len(),
                threshold_magnitude == magnitude_bits(threshold),
                always == (is_negative(threshold) && magnitude_bits(threshold) > 0),
                keep == (|bits: u32| exceeds(bits, threshold)),
                kept@ == audio_data@.take(i as int).filter(keep),
            decreases audio_data@.len() - i,
        {
            let bits = audio_data[i];
            let magnitude: u32 = bits % 0x8000_0000;
            proof {
                reveal_with_fuel(Seq::filter, 2);
                assert(audio_data@.take(i + 1).drop_last() == audio_data@.take(i as int));
                assert(keep(bits) == exceeds(bits, threshold));
            }
            if magnitude <= INFINITY_BITS && threshold_magnitude <= INFINITY_BITS && (always
                || magnitude > threshold_magnitude) {
                kept.push(bits);
            }
            i += 1;
        }
        proof {
            assert(audio_data@.take(audio_data@.len() as int) == audio_data@);
        }
        kept
    }

    /// The noise gate: every sample below the threshold in magnitude becomes
    /// positive zero, every other sample stays as it is.
    pub fn apply_noise_reduction(&self, audio_data: &mut [u32])
        ensures
            final(audio_data)@ == gated(old(audio_data)@),
    {
        let n = audio_data.len();
        let mut i: usize = 0;
        while i < n
            invariant
                i <= n,
                n == audio_data@.len(),
                audio_data@.len() == old(audio_data)@.len(),
                forall|j: int| 0 <= j < i ==> audio_data@[j] == gate(old(audio_data)@[j]),
                forall|j: int| i <= j < n ==> audio_data@[j] == old(audio_data)@[j],
            decreases n - i,
        {
            if audio_data[i] % 0x8000_0000 < NOISE_GATE_THRESHOLD {
                audio_data[i] = 0;
            }
            i += 1;
        }
        proof {
            assert(audio_data@ =~= gated(old(audio_data)@));
        }
    }

    /// The band-pass filter. `coefficient(cutoff_hz, sample_rate)` is to return
    /// the smoothing coefficient `2 * pi * cutoff_hz / sample_rate`; it is asked
    /// once, for the high cutoff. `stage(x, y1, y2, alpha)` is to return
    /// `alpha * (x - 2 * y1 + y2) + (1 - alpha) * y1`, where `y1` and `y2` are
    /// the two outputs before. The memory starts at zero and ends with the call.
    pub fn apply_bandpass_filter<C: Fn(u32, u32) -> u32, K: Fn(u32, u32, u32, u32) -> u32>(
        &self,
        audio_data: &mut [u32],
        coefficient: C,
        stage: K,
    )
        requires
            forall|cutoff: u32, rate: u32| coefficient.requires((cutoff, rate)),
            forall|x: u32, y1: u32, y2: u32, alpha: u32| stage.requires((x, y1, y2, alpha)),
        ensures
            exists|alpha: u32|
                coefficient.ensures((HIGH_CUTOFF_HZ, self.rate()), alpha) && #[trigger] filtered(
                    stage,
                    alpha,
                    old(audio_data)@,
                    final(audio_data)@,
                ),
    {
        let alpha_high = coefficient(HIGH_CUTOFF_HZ, self.sample_rate);
        let mut prev_sample: u32 = 0;
        let mut prev_prev_sample: u32 = 0;
        let n = audio_data.len();
        let mut i: usize = 0;
        while i < n
            invariant
                i <= n,
                n == audio_data@.len(),
                audio_data@.len() == old(audio_data)@.len(),
                forall|x: u32, y1: u32, y2: u32, alpha: u32| stage.requires((x, y1, y2, alpha)),
                prev_sample == previous(audio_data@, i - 1),
                prev_prev_sample == previous(audio_data@, i - 2),
                forall|j: int|
                    0 <= j < i ==> #[trigger] filtered_at(
                        stage,
                        alpha_high,
                        old(audio_data)@,
                        audio_data@,
                        j,
                    ),
                forall|j: int| i <= j < n ==> audio_data@[j] == old(audio_data)@[j],
            decreases n - i,
        {
            let ghost so_far = audio_data@;
            let low_pass = stage(audio_data[i], prev_sample, prev_prev_sample, alpha_high);
            audio_data[i] = low_pass;
            proof {
                assert forall|j: int| 0 <= j < i + 1 implies #[trigger] filtered_at(
                    stage,
                    alpha_high,
                    old(audio_data)@,
                    audio_data@,
                    j,
                ) by {
                    if j < i {
                        assert(filtered_at(stage, alpha_high, old(audio_data)@, so_far, j));
                    }
                }
            }
            prev_prev_sample = prev_sample;
            prev_sample = low_pass;
            i += 1;
        }
        proof {
            assert(filtered(stage, alpha_high, old(audio_data)@, audio_data@));
        }
    }

    /// The full conditioning pass: noise gate, then band-pass filter, then
    /// normalisation, in that order.
    pub fn process_audio<
        C: Fn(u32, u32) -> u32,
        K: Fn(u32, u32, u32, u32) -> u32,
        S: Fn(u32, u32, u32) -> u32,
    >(&self, audio_data: &mut [u32], coefficient: C, stage: K, scale: S)
        requires
            forall|cutoff: u32, rate: u32| coefficient.requires((cutoff, rate)),
            forall|x: u32, y1: u32, y2: u32, alpha: u32| stage.requires((x, y1, y2, alpha)),
            forall|sample: u32, target: u32, peak: u32| scale.requires((sample, target, peak)),
        ensures
            exists|alpha: u32, band: Seq<u32>|
                coefficient.ensures((HIGH_CUTOFF_HZ, self.rate()), alpha) && #[trigger] filtered(
                    stage,
                    alpha,
                    gated(old(audio_data)@),
                    band,
                ) && normalized(scale, band, final(audio_data)@),
    {
        self.apply_noise_reduction(audio_data);
        let ghost after_gate = audio_data@;
        self.apply_bandpass_filter(audio_data, coefficient, stage);
        let ghost band = audio_data@;
        self.normalize(audio_data, scale);
        proof {
            let alpha = choose|alpha: u32|
                coefficient.ensures((HIGH_CUTOFF_HZ, self.rate()), alpha) && #[trigger] filtered(
                    stage,
                    alpha,
                    after_gate,
                    band,
                );
            assert(filtered(stage, alpha, gated(old(audio_data)@), band));
        }
    }

    /// The length that `resample` gives a signal of `input_len` samples, or
    /// `None` where `resample` fails: a rate of zero on either side while the
    /// rates differ, or a length beyond `usize`.
    pub fn resampled_len(&self, input_len: usize, target_sample_rate: u32) -> (len: Option<usize>)
        ensures
            self.rate() == target_sample_rate ==> len == Some(input_len),
            self.rate() != target_sample_rate ==> (len is Some <==> self.rate() > 0
                && target_sample_rate > 0 && resampled_len(
                input_len as nat,
                self.rate(),
                target_sample_rate,
            ) <= usize::MAX),
            self.rate() != target_sample_rate ==> (len matches Some(n) ==> n == resampled_len(
                input_len as nat,
                self.rate(),
                target_sample_rate,
            )),
    {
        if self.sample_rate == target_sample_rate {
            return Some(input_len);
        }
        if self.sample_rate == 0 || target_sample_rate == 0 {
            return None;
        }
        assert(input_len * target_sample_rate <= 0xffff_ffff_ffff_ffff * 0xffff_ffff)
            by (nonlinear_arith)
            requires
                input_len <= 0xffff_ffff_ffff_ffff,
                target_sample_rate <= 0xffff_ffff,
        ;
        let total: u128 = (input_len as u128) * (target_sample_rate as u128);
        let new_length: u128 = total / (self.sample_rate as u128);
        if new_length > usize::MAX as u128 {
            None
        } else {
            Some(new_length as usize)
        }
    }

    /// Resamples linearly to `target_sample_rate`.
    ///
    /// At the signal's own rate the result is an equal copy. Otherwise the
    /// result has `floor(len * target / rate)` samples; output `i` lies at
    /// `i * rate / target` in the input and interpolates between the two
    /// inputs around it, or copies the last input where there is no second one.
    /// `interpolate(a, b, n, d)` is to return `a * (1 - n/d) + b * (n/d)`.
    /// The result is `None` exactly where `resampled_len` is.
    pub fn resample<L: Fn(u32, u32, u32, u32) -> u32>(
        &self,
        audio_data: &[u32],
        target_sample_rate: u32,
        interpolate: L,
    ) -> (result: Option<Vec<u32>>)
        requires
            forall|a: u32, b: u32, n: u32, d: u32| interpolate.requires((a, b, n, d)),
        ensures
            result is Some <==> self.rate() == target_sample_rate || (self.rate() > 0
                && target_sample_rate > 0 && resampled_len(
                audio_data@.len(),
                self.rate(),
                target_sample_rate,
            ) <= usize::MAX),
            result matches Some(output) ==> resampled(
                interpolate,
                self.rate(),
                target_sample_rate,
                audio_data@,
                output@,
            ),
    {
        let new_length = match self.resampled_len(audio_data.len(), target_sample_rate) {
            Some(n) => n,
            None => {
                return None;
            },
        };
        let mut result: Vec<u32> = Vec::new();
        if self.sample_rate == target_sample_rate {
            let mut i: usize = 0;
            while i < audio_data.len()
                invariant
                    i <= audio_data@.len(),
                    result@ == audio_data@.take(i as int),
                decreases audio_data@.len() - i,
            {
                result.push(audio_data[i]);
                proof {
                    assert(audio_data@.take(i + 1) == audio_data@.take(i as int).push(
                        audio_data@[i as int],
                    ));
                }
                i += 1;
            }
            proof {
                assert(audio_data@.take(audio_data@.len() as int) == audio_data@);
            }
            return Some(result);
        }
        let rate = self.sample_rate;
        let input_len = audio_data.len();
        let mut i: usize = 0;
        while i < new_length
            invariant
                i <= new_length,
                input_len == audio_data@.len(),
                rate == self.rate(),
                rate > 0,
                target_sample_rate > 0,
                rate != target_sample_rate,
                new_length == resampled_len(audio_data@.len(), rate, target_sample_rate),
                forall|a: u32, b: u32, n: u32, d: u32| interpolate.requires((a, b, n, d)),
                result@.len() == i,
                forall|j: int|
                    0 <= j < i ==> resampled_at(
                        interpolate,
                        rate,
                        target_sample_rate,
                        audio_data@,
                        j,
                        #[trigger] result@[j],
                    ),
            decreases new_length - i,
        {
            proof {
                lemma_source_index_in_range(
                    audio_data@.len(),
                    rate,
                    target_sample_rate,
                    i as nat,
                );
            }
            assert(i * rate <= 0xffff_ffff_ffff_ffff * 0xffff_ffff) by (nonlinear_arith)
                requires
                    i <= 0xffff_ffff_ffff_ffff,
                    rate <= 0xffff_ffff,
            ;
            let position: u128 = (i as u128) * (rate as u128);
            assert(position / (target_sample_rate as u128) == source_index(
                i as nat,
                rate,
                target_sample_rate,
            ));
            assert(position % (target_sample_rate as u128) == source_fraction(
                i as nat,
                rate,
                target_sample_rate,
            ));
            let index: usize = (position / (target_sample_rate as u128)) as usize;
            let fraction: u32 = (position % (target_sample_rate as u128)) as u32;
            let ghost before = result@;
            if index + 1 < input_len {
                let sample = interpolate(
                    audio_data[index],
                    audio_data[index + 1],
                    fraction,
                    target_sample_rate,
                );
                result.push(sample);
            } else {
                result.push(audio_data[index]);
            }
            proof {
                assert forall|j: int| 0 <= j < i implies result@[j] == before[j] by {}
            }
            i += 1;
        }
        Some(result)
    }
}

} // verus!
