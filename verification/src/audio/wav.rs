//! The output container: a RIFF/WAVE image of 16-bit integer PCM.
//!
//! The bytes are produced by the `hound` crate. `wav_image` states, byte for
//! byte, what its writer emits for 16-bit integer samples.

use vstd::prelude::*;

verus! {

#[verifier::external_type_specification]
#[verifier::external_body]
pub struct ExHoundError(hound::Error);

/// Bits per sample of the output.
pub const BITS_PER_SAMPLE: u16 = 16;

/// Two bytes, least significant first.
pub open spec fn le16(x: u16) -> Seq<u8> {
    seq![(x % 0x100) as u8, (x / 0x100) as u8]
}

/// Four bytes, least significant first.
pub open spec fn le32(x: u32) -> Seq<u8> {
    seq![
        (x % 0x100) as u8,
        (x / 0x100 % 0x100) as u8,
        (x / 0x1_0000 % 0x100) as u8,
        (x / 0x100_0000) as u8,
    ]
}

/// A signed sample as the unsigned 16-bit number with the same bits.
pub open spec fn sample_word(s: i16) -> u16 {
    if s < 0 {
        (s + 0x1_0000) as u16
    } else {
        s as u16
    }
}

/// The data section: each sample as two bytes, least significant first, in order.
pub open spec fn sample_bytes(samples: Seq<i16>) -> Seq<u8> {
    Seq::new(
        2 * samples.len(),
        |i: int|
            if i % 2 == 0 {
                (sample_word(samples[i / 2]) % 0x100) as u8
            } else {
                (sample_word(samples[i / 2]) / 0x100) as u8
            },
    )
}

/// Up to two channels get the plain PCM header, more get the extensible one.
pub open spec fn header_len(channels: u16) -> nat {
    if channels > 2 {
        68
    } else {
        44
    }
}

/// The most samples whose byte count still fits the header's 32-bit size fields.
pub open spec fn max_samples(channels: u16) -> nat {
    ((0xffff_ffff - (header_len(channels) - 8)) / 2) as nat
}

/// The stream parameters that the header can describe: both positive, and a
/// byte rate that fits 32 bits.
pub open spec fn container_accepts(channels: u16, sample_rate: u32) -> bool {
    &&& channels > 0
    &&& sample_rate > 0
    &&& sample_rate * 2 * channels <= 0xffff_ffff
}

/// One bit per channel, for at most eighteen channels.
pub open spec fn channel_mask(channels: u16) -> u32 {
    let n: nat = if channels > 18 {
        18
    } else {
        channels as nat
    };
    (vstd::arithmetic::power2::pow2(n) - 1) as u32
}

/// Channel count, sample rate, byte rate and block alignment.
pub open spec fn wave_format(channels: u16, sample_rate: u32) -> Seq<u8> {
    le16(channels) + le32(sample_rate) + le32((sample_rate * 2 * channels) as u32) + le16(
        (2 * channels % 0x1_0000) as u16,
    )
}

/// The `fmt ` chunk's length field and content.
pub open spec fn format_chunk(channels: u16, sample_rate: u32) -> Seq<u8> {
    if channels > 2 {
        le32(40) + le16(0xfffe) + wave_format(channels, sample_rate) + le16(16) + le16(22) + le16(
            16,
        ) + le32(channel_mask(channels)) + seq![
            0x01u8, 0x00, 0x00, 0x00, 0x00, 0x00, 0x10, 0x00,
            0x80, 0x00, 0x00, 0xaa, 0x00, 0x38, 0x9b, 0x71,
        ]
    } else {
        le32(16) + le16(1) + wave_format(channels, sample_rate) + le16(16)
    }
}

/// Everything before the samples; `count` is the number of samples that follow.
pub open spec fn wav_header(channels: u16, sample_rate: u32, count: nat) -> Seq<u8> {
    seq![0x52u8, 0x49, 0x46, 0x46] + le32((2 * count + header_len(channels) - 8) as u32)
        + seq![0x57u8, 0x41, 0x56, 0x45] + seq![0x66u8, 0x6d, 0x74, 0x20] + format_chunk(
        channels,
        sample_rate,
    ) + seq![0x64u8, 0x61, 0x74, 0x61] + le32((2 * count) as u32)
}

/// The whole container for the given stream parameters and interleaved samples.
pub open spec fn wav_image(channels: u16, sample_rate: u32, samples: Seq<i16>) -> Seq<u8> {
    wav_header(channels, sample_rate, samples.len()) + sample_bytes(samples)
}

/// The header has the length that `header_len` gives, and the image is the
/// header followed by two bytes per sample.
pub proof fn lemma_wav_image_len(channels: u16, sample_rate: u32, samples: Seq<i16>)
    ensures
        wav_header(channels, sample_rate, samples.len()).len() == header_len(channels),
        wav_image(channels, sample_rate, samples).len() == header_len(channels) + 2
            * samples.len(),
{
}

/// Where the header tells what the stream is: the magic words, the channel
/// count at offset 22, the sample rate at 24, sixteen bits per sample at 34,
/// and both length fields in step with the number of samples. The samples
/// follow the header.
pub proof fn lemma_wav_layout(channels: u16, sample_rate: u32, samples: Seq<i16>)
    ensures
        ({
            let image = wav_image(channels, sample_rate, samples);
            let start = header_len(channels) as int;
            &&& image.subrange(0, 4) == seq![0x52u8, 0x49, 0x46, 0x46]
            &&& image.subrange(4, 8) == le32((2 * samples.len() + start - 8) as u32)
            &&& image.subrange(8, 16) == seq![0x57u8, 0x41, 0x56, 0x45, 0x66, 0x6d, 0x74, 0x20]
            &&& image.subrange(20, 22) == le16(
                if channels > 2 {
                    0xfffe
                } else {
                    1
                },
            )
            &&& image.subrange(22, 24) == le16(channels)
            &&& image.subrange(24, 28) == le32(sample_rate)
            &&& image.subrange(34, 36) == le16(BITS_PER_SAMPLE)
            &&& image.subrange(start - 8, start - 4) == seq![0x64u8, 0x61, 0x74, 0x61]
            &&& image.subrange(start - 4, start) == le32((2 * samples.len()) as u32)
            &&& image.skip(start) == sample_bytes(samples)
        }),
{
    let image = wav_image(channels, sample_rate, samples);
    let start = header_len(channels) as int;
    assert(image.subrange(0, 4) =~= seq![0x52u8, 0x49, 0x46, 0x46]);
    assert(image.subrange(4, 8) =~= le32((2 * samples.len() + start - 8) as u32));
    assert(image.subrange(8, 16) =~= seq![0x57u8, 0x41, 0x56, 0x45, 0x66, 0x6d, 0x74, 0x20]);
    assert(image.subrange(20, 22) =~= le16(
        if channels > 2 {
            0xfffe
        } else {
            1
        },
    ));
    assert(image.subrange(22, 24) =~= le16(channels));
    assert(image.subrange(24, 28) =~= le32(sample_rate));
    assert(image.subrange(34, 36) =~= le16(BITS_PER_SAMPLE));
    assert(image.subrange(start - 8, start - 4) =~= seq![0x64u8, 0x61, 0x74, 0x61]);
    assert(image.subrange(start - 4, start) =~= le32((2 * samples.len()) as u32));
    assert(image.skip(start) =~= sample_bytes(samples));
}

/// A container without samples is its header alone, with both length fields
/// saying so.
pub proof fn lemma_empty_image_is_header(channels: u16, sample_rate: u32)
    ensures
        wav_image(channels, sample_rate, Seq::empty()) == wav_header(channels, sample_rate, 0),
        wav_image(channels, sample_rate, Seq::empty()).len() == header_len(channels),
{
    assert(wav_image(channels, sample_rate, Seq::empty()) =~= wav_header(channels, sample_rate, 0));
}

/// Every sample can be read back from its two bytes.
pub proof fn lemma_sample_bytes_round_trip(samples: Seq<i16>, i: int)
    requires
        0 <= i < samples.len(),
    ensures
        sample_bytes(samples)[2 * i] + 0x100 * sample_bytes(samples)[2 * i + 1] == sample_word(
            samples[i],
        ),
        samples[i] >= 0 ==> sample_word(samples[i]) == samples[i],
        samples[i] < 0 ==> sample_word(samples[i]) == samples[i] + 0x1_0000,
{
}

/// Writes a complete container with `hound::WavWriter`: `WavWriter::new` on an
/// in-memory cursor, `write_sample` for each sample in order, then `finalize`.
/// The contract claims that, where the writer reports success, the buffer
/// holds exactly `wav_image`: the RIFF header with both size fields filled in
/// at finalisation, the `fmt ` chunk that hound picks by channel count, and the
/// samples as little-endian words. The `requires` leaves out the inputs on
/// which the writer divides by zero or overflows its 32-bit counters.
///
/// It also claims success for whole frames. The writer refuses a bit depth
/// other than 8, 16, 24 or 32, which the `requires` excludes; it hands on a
/// failed write or seek, which a cursor over a vector in memory does not
/// produce; and at finalisation it reports a sample count that is no multiple
/// of the channel count. Nothing else makes it fail.
#[verifier::external_body]
pub(crate) fn encode_wav(channels: u16, sample_rate: u32, bits: u16, samples: &Vec<i16>) -> (r:
    Result<Vec<u8>, hound::Error>)
    requires
        bits == BITS_PER_SAMPLE,
        container_accepts(channels, sample_rate),
        samples@.len() <= max_samples(channels),
    ensures
        r matches Ok(bytes) ==> bytes@ == wav_image(channels, sample_rate, samples@),
        samples@.len() % (channels as nat) == 0 ==> r is Ok,
{
    let spec = hound::WavSpec {
        channels,
        sample_rate,
        bits_per_sample: bits,
        sample_format: hound::SampleFormat::Int,
    };
    let mut out: Vec<u8> = Vec::new();
    let mut writer = hound::WavWriter::new(std::io::Cursor::new(&mut out), spec)?;
    for sample in samples.iter() {
        writer.write_sample(*sample)?;
    }
    writer.finalize()?;
    Ok(out)
}

} // verus!
