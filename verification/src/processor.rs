//! The audio processor: a validated sample rate and buffer size, a
//! pass-through of sample buffers, and the synthesis of a sine wave.
//!
//! Sample rates, frequencies, durations and samples are single-precision
//! numbers in their bit patterns. The processor decides whether a request
//! is valid and how many samples it asks for, and lays the samples out; the
//! value of each sample comes from the oscillator that the caller passes in.

use vstd::prelude::*;
use vstd::slice::slice_to_vec;
use crate::binary32::{
    is_negative,
    is_positive,
    is_within_unit,
    is_zero,
    truncated_product,
};
use crate::error::InvalidConfig;

verus! {

/// A sample rate above zero and a buffer size above zero, fixed at
/// construction.
pub struct AudioProcessor {
    sample_rate: u32,
    buffer_size: usize,
}

/// What is wrong with a request for a wave, if anything. The frequency is
/// looked at first.
pub open spec fn request_fault(frequency: u32, duration: u32) -> Option<InvalidConfig> {
    if is_negative(frequency) {
        Some(InvalidConfig::NegativeFrequency)
    } else if is_negative(duration) {
        Some(InvalidConfig::NegativeDuration)
    } else {
        None
    }
}

/// The oscillator answers each question in one way only.
pub open spec fn is_deterministic<F: Fn(u32, u32, usize) -> u32>(oscillator: F) -> bool {
    forall|sample_rate: u32, frequency: u32, index: usize, x: u32, y: u32|
        call_ensures(oscillator, (sample_rate, frequency, index), x) && call_ensures(
            oscillator,
            (sample_rate, frequency, index),
            y,
        ) ==> x == y
}

impl AudioProcessor {
    #[verifier::type_invariant]
    spec fn configured(self) -> bool {
        is_positive(self.sample_rate) && self.buffer_size > 0
    }

    /// The sample rate, as the bit pattern of a single-precision number.
    pub closed spec fn spec_sample_rate(&self) -> u32 {
        self.sample_rate
    }

    /// The buffer size, in samples.
    pub closed spec fn spec_buffer_size(&self) -> usize {
        self.buffer_size
    }

    /// The number of samples in a wave of the given duration: the whole
    /// part of `sample_rate * duration`.
    pub open spec fn spec_sine_wave_len(&self, duration: u32) -> usize {
        truncated_product(self.sample_rate(), duration)
    }

    /// `wave` is what the oscillator gives for this processor's sample rate
    /// and the given frequency: one sample for each index below the length
    /// that the duration asks for, in order.
    pub open spec fn is_sine_wave<F: Fn(u32, u32, usize) -> u32>(
        &self,
        frequency: u32,
        duration: u32,
        oscillator: F,
        wave: Seq<u32>,
    ) -> bool {
        &&& wave.len() == self.sine_wave_len(duration)
        &&& forall|i: int|
            0 <= i < wave.len() ==> call_ensures(
                oscillator,
                (self.sample_rate(), frequency, i as usize),
                #[trigger] wave[i],
            )
    }

    /// Builds a processor. The sample rate must compare greater than zero,
    /// which a NaN does not, and the buffer must hold at least one sample.
    pub fn new(sample_rate: u32, buffer_size: usize) -> (r: Result<AudioProcessor, InvalidConfig>)
        ensures
            is_positive(sample_rate) && buffer_size > 0 ==> (r matches Ok(p)
                && p.sample_rate() == sample_rate && p.buffer_size() == buffer_size),
            !is_positive(sample_rate) ==> r == Err::<AudioProcessor, InvalidConfig>(
                InvalidConfig::SampleRateNotPositive,
            ),
            is_positive(sample_rate) && buffer_size == 0 ==> r == Err::<
                AudioProcessor,
                InvalidConfig,
            >(InvalidConfig::ZeroBufferSize),
    {
        if !is_positive(sample_rate) {
            Err(InvalidConfig::SampleRateNotPositive)
        } else if buffer_size == 0 {
            Err(InvalidConfig::ZeroBufferSize)
        } else {
            Ok(AudioProcessor { sample_rate, buffer_size })
        }
    }

    /// The sample rate that the processor was built with.
    #[verifier::when_used_as_spec(spec_sample_rate)]
    pub fn sample_rate(&self) -> (bits: u32)
        ensures
            bits == self.spec_sample_rate(),
            is_positive(bits),
    {
        proof {
            use_type_invariant(self);
        }
        self.sample_rate
    }

    /// The buffer size that the processor was built with.
    #[verifier::when_used_as_spec(spec_buffer_size)]
    pub fn buffer_size(&self) -> (size: usize)
        ensures
            size == self.spec_buffer_size(),
            size > 0,
    {
        proof {
            use_type_invariant(self);
        }
        self.buffer_size
    }

    /// Passes a buffer through unchanged: the result is a buffer of its
    /// own that holds the samples of `input`, bit for bit and in order.
    pub fn process_audio(&self, input: &[u32]) -> (output: Vec<u32>)
        ensures
            output@ == input@,
    {
        slice_to_vec(input)
    }

    /// How many samples `generate_sine_wave` lays out for a duration.
    #[verifier::when_used_as_spec(spec_sine_wave_len)]
    pub fn sine_wave_len(&self, duration: u32) -> (n: usize)
        ensures
            n == self.spec_sine_wave_len(duration),
    {
        truncated_product(self.sample_rate, duration)
    }

    /// Generates a wave of `duration` seconds at `frequency` hertz.
    ///
    /// A frequency or a duration that compares less than zero is turned
    /// down. Otherwise the wave has `sine_wave_len(duration)` samples, and
    /// sample `i` is what `oscillator` returns for this sample rate, the
    /// frequency and `i`: the sine of `2 * pi * frequency * i / sample_rate`
    /// where the caller passes a sine oscillator.
    pub fn generate_sine_wave<F: Fn(u32, u32, usize) -> u32>(
        &self,
        frequency: u32,
        duration: u32,
        oscillator: F,
    ) -> (r: Result<Vec<u32>, InvalidConfig>)
        requires
            request_fault(frequency, duration) is None ==> forall|i: usize|
                i < self.sine_wave_len(duration) ==> call_requires(
                    oscillator,
                    (self.sample_rate(), frequency, i),
                ),
        ensures
            match request_fault(frequency, duration) {
                Some(fault) => r == Err::<Vec<u32>, InvalidConfig>(fault),
                None => r matches Ok(wave) && self.is_sine_wave(
                    frequency,
                    duration,
                    oscillator,
                    wave@,
                ),
            },
            !is_negative(frequency) && is_zero(duration) ==> (r matches Ok(wave) && wave@.len()
                == 0),
    {
        if is_negative(frequency) {
            return Err(InvalidConfig::NegativeFrequency);
        }
        if is_negative(duration) {
            return Err(InvalidConfig::NegativeDuration);
        }
        let sample_rate: u32 = self.sample_rate;
        let len: usize = self.sine_wave_len(duration);
        let mut wave: Vec<u32> = Vec::new();
        let mut i: usize = 0;
        while i < len
            invariant
                i <= len,
                wave.len() == i,
                sample_rate == self.sample_rate(),
                forall|j: usize|
                    j < len ==> call_requires(oscillator, (sample_rate, frequency, j)),
                forall|j: int|
                    0 <= j < i ==> call_ensures(
                        oscillator,
                        (sample_rate, frequency, j as usize),
                        #[trigger] wave[j],
                    ),
            decreases len - i,
        {
            let sample: u32 = oscillator(sample_rate, frequency, i);
            wave.push(sample);
            i = i + 1;
        }
        Ok(wave)
    }
}

/// Determinism: a request has one answer. Two waves that both answer the
/// same request, from the same processor and an oscillator that answers
/// each question in one way only, are equal sample for sample.
pub proof fn lemma_sine_wave_is_unique<F: Fn(u32, u32, usize) -> u32>(
    processor: AudioProcessor,
    frequency: u32,
    duration: u32,
    oscillator: F,
    first: Seq<u32>,
    second: Seq<u32>,
)
    requires
        is_deterministic(oscillator),
        processor.is_sine_wave(frequency, duration, oscillator, first),
        processor.is_sine_wave(frequency, duration, oscillator, second),
    ensures
        first == second,
{
    assert forall|i: int| 0 <= i < first.len() implies first[i] == second[i] by {
        assert(call_ensures(
            oscillator,
            (processor.sample_rate(), frequency, i as usize),
            first[i],
        ));
        assert(call_ensures(
            oscillator,
            (processor.sample_rate(), frequency, i as usize),
            second[i],
        ));
    }
    assert(first =~= second);
}

/// A duration of zero, of either sign, asks for no samples, whatever the
/// sample rate.
pub proof fn lemma_zero_duration_is_empty(processor: AudioProcessor, duration: u32)
    requires
        is_zero(duration),
    ensures
        processor.sine_wave_len(duration) == 0,
{
}

/// Silence: where the oscillator gives nothing but zeros for a frequency,
/// as a sine oscillator does for the frequency zero, every sample of a wave
/// at that frequency is zero.
pub proof fn lemma_silent_oscillator_gives_silence<F: Fn(u32, u32, usize) -> u32>(
    processor: AudioProcessor,
    frequency: u32,
    duration: u32,
    oscillator: F,
    wave: Seq<u32>,
)
    requires
        processor.is_sine_wave(frequency, duration, oscillator, wave),
        forall|index: usize, sample: u32|
            call_ensures(oscillator, (processor.sample_rate(), frequency, index), sample)
                ==> is_zero(sample),
    ensures
        forall|i: int| 0 <= i < wave.len() ==> is_zero(#[trigger] wave[i]),
{
}

/// Range: where the oscillator stays between minus one and one, as a sine
/// does, so does every sample of a wave.
pub proof fn lemma_bounded_oscillator_gives_bounded_wave<F: Fn(u32, u32, usize) -> u32>(
    processor: AudioProcessor,
    frequency: u32,
    duration: u32,
    oscillator: F,
    wave: Seq<u32>,
)
    requires
        processor.is_sine_wave(frequency, duration, oscillator, wave),
        forall|index: usize, sample: u32|
            call_ensures(oscillator, (processor.sample_rate(), frequency, index), sample)
                ==> is_within_unit(sample),
    ensures
        forall|i: int| 0 <= i < wave.len() ==> is_within_unit(#[trigger] wave[i]),
{
}

} // verus!
