//! The PCM sink: gathers interleaved 16-bit samples and writes the container.

use vstd::prelude::*;
use crate::audio::wav::{container_accepts, encode_wav, max_samples, wav_image, BITS_PER_SAMPLE};
use crate::error::TranscodeError;

verus! {

/// What a sink holds: the stream parameters once they are fixed, and the
/// samples appended so far.
pub struct SinkModel {
    pub tagged: bool,
    pub channels: u16,
    pub sample_rate: u32,
    pub samples: Seq<i16>,
}

impl SinkModel {
    pub open spec fn empty() -> SinkModel {
        SinkModel { tagged: false, channels: 0, sample_rate: 0, samples: Seq::empty() }
    }

    /// Whether `tag` would be refused because other parameters are fixed already.
    pub open spec fn conflicts(self, channels: u16, sample_rate: u32) -> bool {
        self.tagged && (self.channels != channels || self.sample_rate != sample_rate)
    }

    pub open spec fn tag(self, channels: u16, sample_rate: u32) -> SinkModel {
        SinkModel { tagged: true, channels, sample_rate, samples: self.samples }
    }

    /// Whether `extra` more samples are whole frames that the container still holds.
    pub open spec fn has_room(self, extra: nat) -> bool {
        &&& extra % (self.channels as nat) == 0
        &&& self.samples.len() + extra <= max_samples(self.channels)
    }

    pub open spec fn append(self, more: Seq<i16>) -> SinkModel {
        SinkModel { samples: self.samples + more, ..self }
    }

    /// The sink's invariant: a tagged sink has parameters that the container
    /// accepts, and holds whole frames within the container's limit.
    pub open spec fn well_formed(self) -> bool {
        if self.tagged {
            &&& container_accepts(self.channels, self.sample_rate)
            &&& self.samples.len() % (self.channels as nat) == 0
            &&& self.samples.len() <= max_samples(self.channels)
        } else {
            self.samples.len() == 0
        }
    }
}

/// Append-only store of canonical samples, finalised once into a container.
pub struct PcmSink {
    tagged: bool,
    channels: u16,
    sample_rate: u32,
    samples: Vec<i16>,
}

impl View for PcmSink {
    type V = SinkModel;

    closed spec fn view(&self) -> SinkModel {
        SinkModel {
            tagged: self.tagged,
            channels: self.channels,
            sample_rate: self.sample_rate,
            samples: self.samples@,
        }
    }
}

/// What the container writer's outcome becomes for the caller: the bytes on
/// success, `Container` on a refusal.
pub fn container_result(encoded: Result<Vec<u8>, hound::Error>) -> (r: Result<
    Vec<u8>,
    TranscodeError,
>)
    ensures
        match encoded {
            Ok(bytes) => r == Ok::<Vec<u8>, TranscodeError>(bytes),
            Err(_) => r == Err::<Vec<u8>, TranscodeError>(TranscodeError::Container),
        },
{
    match encoded {
        Ok(bytes) => Ok(bytes),
        Err(_) => Err(TranscodeError::Container),
    }
}

impl PcmSink {
    #[verifier::type_invariant]
    spec fn inv(self) -> bool {
        self@.well_formed()
    }

    /// An empty sink whose stream parameters are still open.
    pub fn new() -> (sink: PcmSink)
        ensures
            sink@ == SinkModel::empty(),
    {
        PcmSink { tagged: false, channels: 0, sample_rate: 0, samples: Vec::new() }
    }

    pub fn is_tagged(&self) -> (b: bool)
        ensures
            b == self@.tagged,
    {
        self.tagged
    }

    pub fn channels(&self) -> (n: u16)
        ensures
            n == self@.channels,
    {
        self.channels
    }

    pub fn sample_rate(&self) -> (n: u32)
        ensures
            n == self@.sample_rate,
    {
        self.sample_rate
    }

    /// The number of samples held, all channels together.
    pub fn len(&self) -> (n: usize)
        ensures
            n == self@.samples.len(),
    {
        self.samples.len()
    }

    /// Fixes channel count and sample rate. Repeating the fixed values changes
    /// nothing; other values are refused with `InconsistentStream`; values that
    /// the container cannot describe are refused with `Container`.
    pub fn tag(&mut self, channels: u16, sample_rate: u32) -> (r: Result<(), TranscodeError>)
        ensures
            old(self)@.conflicts(channels, sample_rate) ==> r == Err::<(), TranscodeError>(
                TranscodeError::InconsistentStream,
            ) && final(self)@ == old(self)@,
            !old(self)@.conflicts(channels, sample_rate) && !container_accepts(
                channels,
                sample_rate,
            ) ==> r == Err::<(), TranscodeError>(TranscodeError::Container)
                && final(self)@ == old(self)@,
            !old(self)@.conflicts(channels, sample_rate) && container_accepts(channels, sample_rate)
                ==> r is Ok && final(self)@ == old(self)@.tag(channels, sample_rate),
    {
        proof {
            use_type_invariant(&*self);
        }
        if self.tagged {
            if self.channels != channels || self.sample_rate != sample_rate {
                return Err(TranscodeError::InconsistentStream);
            }
            return Ok(());
        }
        if channels == 0 || sample_rate == 0 {
            return Err(TranscodeError::Container);
        }
        let frame_bytes: u64 = 2 * (channels as u64);
        assert(sample_rate * frame_bytes <= 0xffff_ffff * 0x2_0000) by (nonlinear_arith)
            requires
                sample_rate <= 0xffff_ffff,
                frame_bytes <= 0x2_0000,
        ;
        assert(sample_rate * frame_bytes == sample_rate * 2 * channels) by (nonlinear_arith)
            requires
                frame_bytes == 2 * channels,
        ;
        if (sample_rate as u64) * frame_bytes > 0xffff_ffff {
            return Err(TranscodeError::Container);
        }
        proof {
            vstd::arithmetic::div_mod::lemma_small_mod(0, channels as nat);
        }
        *self = PcmSink { tagged: true, channels, sample_rate, samples: Vec::new() };
        assert(self.samples@ =~= old(self).samples@);
        Ok(())
    }

    /// Whether `append` would take `extra` more samples.
    pub fn has_room(&self, extra: usize) -> (b: bool)
        ensures
            b == (self@.tagged && self@.has_room(extra as nat)),
    {
        proof {
            use_type_invariant(self);
        }
        if !self.tagged {
            return false;
        }
        let limit: u64 = if self.channels > 2 {
            2147483617
        } else {
            2147483629
        };
        extra % (self.channels as usize) == 0 && extra as u64 <= limit && self.samples.len() as u64
            <= limit - extra as u64
    }

    /// Appends samples in interleaved channel order. A sink without stream
    /// parameters refuses with `InconsistentStream`; samples that are not whole
    /// frames, or more than the container holds, are refused with `Container`.
    /// A refusal leaves the sink as it was.
    pub fn append(&mut self, samples: &[i16]) -> (r: Result<(), TranscodeError>)
        ensures
            !old(self)@.tagged ==> r == Err::<(), TranscodeError>(
                TranscodeError::InconsistentStream,
            ) && final(self)@ == old(self)@,
            old(self)@.tagged && !old(self)@.has_room(samples@.len()) ==> r == Err::<
                (),
                TranscodeError,
            >(TranscodeError::Container) && final(self)@ == old(self)@,
            old(self)@.tagged && old(self)@.has_room(samples@.len()) ==> r is Ok && final(self)@
                == old(self)@.append(samples@),
    {
        proof {
            use_type_invariant(&*self);
        }
        if !self.tagged {
            return Err(TranscodeError::InconsistentStream);
        }
        if !self.has_room(samples.len()) {
            return Err(TranscodeError::Container);
        }
        let mut held: Vec<i16> = Vec::new();
        proof {
            vstd::arithmetic::div_mod::lemma_small_mod(0, self.channels as nat);
        }
        core::mem::swap(&mut self.samples, &mut held);
        let ghost before = held@;
        let n = samples.len();
        let mut i: usize = 0;
        while i < n
            invariant
                i <= n,
                n == samples@.len(),
                held@ == before + samples@.take(i as int),
            decreases n - i,
        {
            held.push(samples[i]);
            proof {
                assert(samples@.take(i + 1) == samples@.take(i as int).push(samples@[i as int]));
            }
            i += 1;
        }
        proof {
            assert(samples@.take(n as int) == samples@);
            vstd::arithmetic::div_mod::lemma_add_mod_noop(
                before.len() as int,
                n as int,
                self.channels as int,
            );
        }
        self.samples = held;
        Ok(())
    }

    /// Ends the sink and hands out the container. A sink without stream
    /// parameters has no header to write and yields `InconsistentStream`.
    /// Every other sink yields exactly the container image of the samples it
    /// holds: it holds whole frames within the container's limit, which the
    /// writer does not refuse.
    pub fn finalize(self) -> (r: Result<Vec<u8>, TranscodeError>)
        ensures
            !self@.tagged ==> r == Err::<Vec<u8>, TranscodeError>(
                TranscodeError::InconsistentStream,
            ),
            self@.tagged ==> (r matches Ok(bytes) && bytes@ == wav_image(
                self@.channels,
                self@.sample_rate,
                self@.samples,
            )),
    {
        proof {
            use_type_invariant(&self);
        }
        if !self.tagged {
            return Err(TranscodeError::InconsistentStream);
        }
        container_result(encode_wav(self.channels, self.sample_rate, BITS_PER_SAMPLE, &self.samples))
    }
}

} // verus!
