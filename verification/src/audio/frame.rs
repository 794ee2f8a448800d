//! Decoded frames and the three sample layouts.

use vstd::prelude::*;
use vstd::string::*;
use vstd::arithmetic::div_mod::lemma_fundamental_div_mod_converse;
use crate::audio::sample::{f32_to_pcm, pcm_from_f32};
use crate::error::TranscodeError;

verus! {

/// How a decoded frame lays out its samples.
#[derive(Debug, Clone, Copy, PartialEq, Eq, Structural)]
pub enum SampleFormat {
    /// 16-bit integers, channels interleaved.
    Int16Packed,
    /// Single-precision numbers, channels interleaved.
    Float32Packed,
    /// Single-precision numbers, one buffer per channel.
    Float32Planar,
}

impl SampleFormat {
    /// The format that a decoder's format name stands for, if it is a supported one.
    pub open spec fn named(name: Seq<char>) -> Option<SampleFormat> {
        if name == "s16"@ {
            Some(SampleFormat::Int16Packed)
        } else if name == "flt"@ {
            Some(SampleFormat::Float32Packed)
        } else if name == "fltp"@ {
            Some(SampleFormat::Float32Planar)
        } else {
            None
        }
    }

    /// Resolves a decoder's format name. Any name but the three supported ones
    /// is refused with `UnsupportedFormat`, which carries the name.
    pub fn from_name(name: &str) -> (r: Result<SampleFormat, TranscodeError>)
        ensures
            match SampleFormat::named(name@) {
                Some(format) => r == Ok::<SampleFormat, TranscodeError>(format),
                None => r matches Err(TranscodeError::UnsupportedFormat(reported)) && reported@
                    == name@,
            },
    {
        let owned = String::from_str(name);
        if owned == String::from_str("s16") {
            Ok(SampleFormat::Int16Packed)
        } else if owned == String::from_str("flt") {
            Ok(SampleFormat::Float32Packed)
        } else if owned == String::from_str("fltp") {
            Ok(SampleFormat::Float32Planar)
        } else {
            Err(TranscodeError::UnsupportedFormat(owned))
        }
    }

    /// The decoder's name for the format.
    pub fn name(&self) -> (name: &'static str)
        ensures
            SampleFormat::named(name@) == Some(*self),
    {
        proof {
            reveal_strlit("s16");
            reveal_strlit("flt");
            reveal_strlit("fltp");
        }
        match self {
            SampleFormat::Int16Packed => "s16",
            SampleFormat::Float32Packed => {
                assert("flt"@.len() != "s16"@.len() || "flt"@[0] != "s16"@[0]);
                "flt"
            },
            SampleFormat::Float32Planar => {
                assert("fltp"@.len() != "s16"@.len());
                assert("fltp"@.len() != "flt"@.len());
                "fltp"
            },
        }
    }
}

/// The samples of one frame. Single-precision samples are held as bit patterns.
#[derive(Debug, Clone, PartialEq, Eq)]
pub enum FrameData {
    Int16Packed(Vec<i16>),
    Float32Packed(Vec<u32>),
    Float32Planar(Vec<Vec<u32>>),
}

/// One decoded chunk of audio: `samples` samples for each of `channels` channels.
#[derive(Debug, Clone, PartialEq, Eq)]
pub struct DecodedFrame {
    pub channels: u16,
    pub sample_rate: u32,
    pub samples: usize,
    pub data: FrameData,
}

/// Interleaves per-channel buffers and converts: position `k` takes channel
/// `k % channels` at sample index `k / channels`.
pub open spec fn interleaved(planes: Seq<Vec<u32>>, samples: nat) -> Seq<i16> {
    Seq::new(
        samples * planes.len(),
        |k: int| pcm_from_f32(planes[k % (planes.len() as int)]@[k / (planes.len() as int)]),
    )
}

/// Copies 16-bit samples through unchanged.
pub fn write_int16_packed(data: &Vec<i16>, out: &mut Vec<i16>)
    ensures
        final(out)@ == old(out)@ + data@,
{
    let n = data.len();
    let mut i: usize = 0;
    while i < n
        invariant
            i <= n,
            n == data@.len(),
            out@ == old(out)@ + data@.take(i as int),
        decreases n - i,
    {
        out.push(data[i]);
        proof {
            assert(data@.take(i + 1) == data@.take(i as int).push(data@[i as int]));
        }
        i += 1;
    }
    proof {
        assert(data@.take(n as int) == data@);
    }
}

/// Scales and clamps interleaved single-precision samples.
pub fn write_float32_packed(data: &Vec<u32>, out: &mut Vec<i16>)
    ensures
        final(out)@ == old(out)@ + data@.map_values(|bits: u32| pcm_from_f32(bits)),
{
    let n = data.len();
    let mut i: usize = 0;
    let ghost converted = data@.map_values(|bits: u32| pcm_from_f32(bits));
    while i < n
        invariant
            i <= n,
            n == data@.len(),
            converted == data@.map_values(|bits: u32| pcm_from_f32(bits)),
            out@ == old(out)@ + converted.take(i as int),
        decreases n - i,
    {
        out.push(f32_to_pcm(data[i]));
        proof {
            assert(converted.take(i + 1) == converted.take(i as int).push(converted[i as int]));
        }
        i += 1;
    }
    proof {
        assert(converted.take(n as int) == converted);
    }
}

/// Re-interleaves per-channel buffers: for each sample index, each channel in
/// order, scaled and clamped. The buffers are only read.
pub fn write_float32_planar(planes: &Vec<Vec<u32>>, samples: usize, out: &mut Vec<i16>)
    requires
        forall|c: int| 0 <= c < planes@.len() ==> (#[trigger] planes@[c])@.len() == samples,
    ensures
        final(out)@ == old(out)@ + interleaved(planes@, samples as nat),
{
    let channels = planes.len();
    let ghost whole = interleaved(planes@, samples as nat);
    let ghost mut done: Seq<i16> = Seq::empty();
    let mut index: usize = 0;
    while index < samples
        invariant
            index <= samples,
            channels == planes@.len(),
            forall|c: int| 0 <= c < planes@.len() ==> (#[trigger] planes@[c])@.len() == samples,
            whole == interleaved(planes@, samples as nat),
            done.len() == index * channels,
            forall|k: int| 0 <= k < done.len() ==> done[k] == whole[k],
            out@ == old(out)@ + done,
        decreases samples - index,
    {
        let mut channel: usize = 0;
        while channel < channels
            invariant
                index < samples,
                channel <= channels,
                channels == planes@.len(),
                forall|c: int| 0 <= c < planes@.len() ==> (#[trigger] planes@[c])@.len() == samples,
                whole == interleaved(planes@, samples as nat),
                done.len() == index * channels + channel,
                forall|k: int| 0 <= k < done.len() ==> done[k] == whole[k],
                out@ == old(out)@ + done,
            decreases channels - channel,
        {
            let pcm = f32_to_pcm(planes[channel][index]);
            proof {
                let k = index * channels + channel;
                lemma_fundamental_div_mod_converse(
                    k as int,
                    channels as int,
                    index as int,
                    channel as int,
                );
                assert(k < samples * channels) by (nonlinear_arith)
                    requires
                        k == index * channels + channel,
                        index < samples,
                        channel < channels,
                ;
                assert(whole[k as int] == pcm);
                done = done.push(pcm);
            }
            out.push(pcm);
            channel += 1;
        }
        proof {
            assert(index * channels + channels == (index + 1) * channels) by (nonlinear_arith);
        }
        index += 1;
    }
    proof {
        assert(done =~= whole);
    }
}

/// Whether every buffer holds exactly `samples` samples.
pub fn planes_hold(planes: &Vec<Vec<u32>>, samples: usize) -> (b: bool)
    ensures
        b == forall|c: int| 0 <= c < planes@.len() ==> (#[trigger] planes@[c])@.len() == samples,
{
    let mut c: usize = 0;
    while c < planes.len()
        invariant
            c <= planes@.len(),
            forall|d: int| 0 <= d < c ==> (#[trigger] planes@[d])@.len() == samples,
        decreases planes@.len() - c,
    {
        if planes[c].len() != samples {
            assert(planes@[c as int]@.len() != samples);
            return false;
        }
        c += 1;
    }
    true
}

impl DecodedFrame {
    /// The layout that the frame's data is in.
    pub open spec fn format_spec(self) -> SampleFormat {
        match self.data {
            FrameData::Int16Packed(_) => SampleFormat::Int16Packed,
            FrameData::Float32Packed(_) => SampleFormat::Float32Packed,
            FrameData::Float32Planar(_) => SampleFormat::Float32Planar,
        }
    }

    /// Whether the data has the shape that the counts announce: interleaved
    /// data holds `samples * channels` samples, planar data `channels` buffers
    /// of `samples` samples each.
    pub open spec fn well_formed(self) -> bool {
        match self.data {
            FrameData::Int16Packed(data) => data@.len() == self.samples * self.channels,
            FrameData::Float32Packed(data) => data@.len() == self.samples * self.channels,
            FrameData::Float32Planar(planes) => {
                &&& planes@.len() == self.channels
                &&& forall|c: int|
                    0 <= c < planes@.len() ==> (#[trigger] planes@[c])@.len() == self.samples
            },
        }
    }

    /// The canonical samples of the frame: 16-bit, channels interleaved.
    pub open spec fn pcm(self) -> Seq<i16> {
        match self.data {
            FrameData::Int16Packed(data) => data@,
            FrameData::Float32Packed(data) => data@.map_values(|bits: u32| pcm_from_f32(bits)),
            FrameData::Float32Planar(planes) => interleaved(planes@, self.samples as nat),
        }
    }

    pub fn format(&self) -> (format: SampleFormat)
        ensures
            format == self.format_spec(),
    {
        match &self.data {
            FrameData::Int16Packed(_) => SampleFormat::Int16Packed,
            FrameData::Float32Packed(_) => SampleFormat::Float32Packed,
            FrameData::Float32Planar(_) => SampleFormat::Float32Planar,
        }
    }

    pub fn is_well_formed(&self) -> (b: bool)
        ensures
            b == self.well_formed(),
    {
        assert(self.samples * self.channels <= 0xffff_ffff_ffff_ffff * 0xffff) by (nonlinear_arith)
            requires
                self.samples <= 0xffff_ffff_ffff_ffff,
                self.channels <= 0xffff,
        ;
        let expected: u128 = (self.samples as u128) * (self.channels as u128);
        match &self.data {
            FrameData::Int16Packed(data) => data.len() as u128 == expected,
            FrameData::Float32Packed(data) => data.len() as u128 == expected,
            FrameData::Float32Planar(planes) => planes.len() == self.channels as usize
                && planes_hold(planes, self.samples),
        }
    }

    /// Appends the frame's canonical samples to `out`, by the strategy of its layout.
    pub fn write_samples(&self, out: &mut Vec<i16>)
        requires
            self.well_formed(),
        ensures
            final(out)@ == old(out)@ + self.pcm(),
    {
        match &self.data {
            FrameData::Int16Packed(data) => write_int16_packed(data, out),
            FrameData::Float32Packed(data) => write_float32_packed(data, out),
            FrameData::Float32Planar(planes) => write_float32_planar(planes, self.samples, out),
        }
    }
}

/// A well-formed frame yields `samples * channels` canonical samples.
pub proof fn lemma_pcm_len(frame: DecodedFrame)
    requires
        frame.well_formed(),
    ensures
        frame.pcm().len() == frame.samples * frame.channels,
{
}

/// 16-bit input passes through bit for bit.
pub proof fn lemma_int16_passes_through(frame: DecodedFrame)
    requires
        frame.data is Int16Packed,
    ensures
        frame.pcm() == frame.data->Int16Packed_0@,
{
}

/// In a planar frame, the output position of channel `c` at sample index `i` is
/// `i * channels + c`.
pub proof fn lemma_planar_position(frame: DecodedFrame, i: int, c: int)
    requires
        frame.well_formed(),
        frame.data is Float32Planar,
        0 <= i < frame.samples,
        0 <= c < frame.channels,
    ensures
        0 <= i * frame.channels + c < frame.pcm().len(),
        frame.pcm()[i * frame.channels + c] == pcm_from_f32(
            frame.data->Float32Planar_0@[c]@[i],
        ),
{
    let n = frame.channels as int;
    let k = i * n + c;
    lemma_fundamental_div_mod_converse(k, n, i, c);
    assert(0 <= k < frame.samples * n) by (nonlinear_arith)
        requires
            k == i * n + c,
            0 <= i < frame.samples,
            0 <= c < n,
    ;
}

} // verus!
