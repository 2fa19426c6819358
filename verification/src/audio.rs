//! Bounded mono PCM admission and conversion.

use vstd::prelude::*;
use crate::pcm::{decode_pcm16, encode_pcm16, push_pcm16, read_pcm16};
use crate::pcm::{decode_then_encode, encode_then_decode, high_byte, low_byte};
use crate::sample::Sample;

verus! {

/// Sanitized audio admission or conversion failure.
#[derive(Debug, Clone, Copy, PartialEq, Eq)]
pub struct AudioError {
    /// Stable message without request detail.
    pub message: &'static str,
}

impl AudioError {
    /// Creates a failure with a stable message.
    pub fn new(message: &'static str) -> (error: Self)
        ensures
            error.message@ == message@,
    {
        AudioError { message }
    }
}

/// The sample rates the server works with, in Hz.
pub open spec fn supported_rate(rate: u32) -> bool {
    ||| rate == 8_000
    ||| rate == 16_000
    ||| rate == 22_050
    ||| rate == 24_000
    ||| rate == 32_000
    ||| rate == 44_100
    ||| rate == 48_000
}

/// Accepts exactly the supported sample rates.
pub fn validate_rate(sample_rate: u32) -> (r: Result<(), AudioError>)
    ensures
        r is Ok <==> supported_rate(sample_rate),
        r matches Err(e) ==> e.message@ == "audio sample rate is unsupported"@,
{
    if sample_rate == 8_000 || sample_rate == 16_000 || sample_rate == 22_050 || sample_rate
        == 24_000 || sample_rate == 32_000 || sample_rate == 44_100 || sample_rate == 48_000 {
        Ok(())
    } else {
        Err(AudioError::new("audio sample rate is unsupported"))
    }
}

/// Admission limits applied before allocating decoded audio.
#[derive(Debug, Clone, Copy, PartialEq, Eq)]
pub struct AudioLimits {
    max_encoded_bytes: usize,
    max_duration_ms: u64,
}

impl AudioLimits {
    /// Largest admitted encoded size.
    pub closed spec fn byte_bound(self) -> usize {
        self.max_encoded_bytes
    }

    /// Longest admitted duration in milliseconds.
    pub closed spec fn duration_bound_ms(self) -> u64 {
        self.max_duration_ms
    }

    /// Limits with these bounds.
    pub closed spec fn with_bounds(bytes: usize, duration_ms: u64) -> AudioLimits {
        AudioLimits { max_encoded_bytes: bytes, max_duration_ms: duration_ms }
    }

    /// Limits are determined by their bounds.
    pub proof fn bounds_determine(self, bytes: usize, duration_ms: u64)
        ensures
            AudioLimits::with_bounds(bytes, duration_ms).byte_bound() == bytes,
            AudioLimits::with_bounds(bytes, duration_ms).duration_bound_ms() == duration_ms,
            self.byte_bound() == bytes && self.duration_bound_ms() == duration_ms ==> self
                == AudioLimits::with_bounds(bytes, duration_ms),
    {
    }

    /// Creates non-zero encoded-size and duration bounds.
    pub fn new(max_encoded_bytes: usize, max_duration_ms: u64) -> (r: Result<Self, AudioError>)
        ensures
            r is Ok <==> max_encoded_bytes != 0 && max_duration_ms != 0,
            r matches Ok(limits) ==> limits.byte_bound() == max_encoded_bytes
                && limits.duration_bound_ms() == max_duration_ms,
            r matches Err(e) ==> e.message@ == "audio limits must be non-zero"@,
    {
        if max_encoded_bytes == 0 || max_duration_ms == 0 {
            return Err(AudioError::new("audio limits must be non-zero"));
        }
        Ok(AudioLimits { max_encoded_bytes, max_duration_ms })
    }

    /// Why audio of this encoded size, rate, and sample count is refused, if it is. The products
    /// are those of 64-bit arithmetic: a recording they cannot measure is too long.
    pub open spec fn admit_failure(
        self,
        encoded_bytes: nat,
        sample_rate: u32,
        samples: nat,
    ) -> Option<Seq<char>> {
        if encoded_bytes > self.byte_bound() {
            Some("encoded audio exceeds its byte limit"@)
        } else if samples * 1_000 > u64::MAX || sample_rate * self.duration_bound_ms() > u64::MAX
            || samples * 1_000 > sample_rate * self.duration_bound_ms() {
            Some("audio duration exceeds its limit"@)
        } else {
            None
        }
    }

    /// Checks encoded size and duration before anything is decoded.
    pub fn check(self, encoded_bytes: usize, sample_rate: u32, samples: usize) -> (r: Result<
        (),
        AudioError,
    >)
        ensures
            match r {
                Ok(()) => self.admit_failure(encoded_bytes as nat, sample_rate, samples as nat)
                    is None,
                Err(e) => self.admit_failure(encoded_bytes as nat, sample_rate, samples as nat)
                    == Some(e.message@),
            },
    {
        if encoded_bytes > self.max_encoded_bytes {
            return Err(AudioError::new("encoded audio exceeds its byte limit"));
        }
        let duration_numerator: u64 = match (samples as u64).checked_mul(1_000) {
            Some(value) => value,
            None => {
                return Err(AudioError::new("audio duration exceeds its limit"));
            },
        };
        let duration_limit: u64 = match (sample_rate as u64).checked_mul(self.max_duration_ms) {
            Some(value) => value,
            None => {
                return Err(AudioError::new("audio duration exceeds its limit"));
            },
        };
        if duration_numerator > duration_limit {
            return Err(AudioError::new("audio duration exceeds its limit"));
        }
        Ok(())
    }

    /// Checks an already decoded recording against the same bounds, measured as PCM16.
    pub fn validate_pcm(self, audio: &MonoPcm) -> (r: Result<(), AudioError>)
        ensures
            match r {
                Ok(()) => self.admit_failure(2 * audio.wave().len(), audio.rate(), audio.wave().len())
                    is None,
                Err(e) => self.admit_failure(
                    2 * audio.wave().len(),
                    audio.rate(),
                    audio.wave().len(),
                ) == Some(e.message@),
            },
    {
        let samples: usize = audio.samples().len();
        match samples.checked_mul(2) {
            Some(encoded) => self.check(encoded, audio.sample_rate(), samples),
            None => Err(AudioError::new("encoded audio exceeds its byte limit")),
        }
    }
}

impl Default for AudioLimits {
    fn default() -> (limits: Self)
        ensures
            limits.byte_bound() == 33_554_432,
            limits.duration_bound_ms() == 300_000,
            limits == AudioLimits::with_bounds(33_554_432, 300_000),
    {
        AudioLimits { max_encoded_bytes: 33_554_432, max_duration_ms: 300_000 }
    }
}

/// Whether every sample lies between minus one and one.
pub open spec fn all_normalized(samples: Seq<Sample>) -> bool {
    forall|i: int| 0 <= i < samples.len() ==> (#[trigger] samples[i]).normalized()
}

/// The samples of PCM16 values.
pub open spec fn wave_of(values: Seq<i16>) -> Seq<Sample> {
    values.map_values(|value: i16| Sample::of_pcm16(value))
}

/// The PCM16 values nearest to samples.
pub open spec fn values_of(wave: Seq<Sample>) -> Seq<i16> {
    wave.map_values(|sample: Sample| sample.pcm16())
}

/// Validated mono PCM: a supported rate and at least one sample, all normalized.
#[derive(Debug, PartialEq)]
pub struct MonoPcm {
    sample_rate: u32,
    samples: Vec<Sample>,
}

impl MonoPcm {
    #[verifier::type_invariant]
    spec fn well_formed(self) -> bool {
        &&& supported_rate(self.sample_rate)
        &&& self.samples@.len() > 0
        &&& all_normalized(self.samples@)
    }

    /// Sample rate in Hz.
    pub closed spec fn rate(self) -> u32 {
        self.sample_rate
    }

    /// The samples in order.
    pub closed spec fn wave(self) -> Seq<Sample> {
        self.samples@
    }

    /// What every recording satisfies.
    pub open spec fn valid(self) -> bool {
        &&& supported_rate(self.rate())
        &&& self.wave().len() > 0
        &&& all_normalized(self.wave())
    }

    /// Why samples at this rate are refused, if they are.
    pub open spec fn new_failure(sample_rate: u32, samples: Seq<Sample>) -> Option<Seq<char>> {
        if !supported_rate(sample_rate) {
            Some("audio sample rate is unsupported"@)
        } else if samples.len() == 0 {
            Some("audio must contain samples"@)
        } else if !all_normalized(samples) {
            Some("audio samples are invalid"@)
        } else {
            None
        }
    }

    /// Validates normalized mono PCM at a supported sample rate.
    pub fn new(sample_rate: u32, samples: Vec<Sample>) -> (r: Result<Self, AudioError>)
        ensures
            match r {
                Ok(audio) => {
                    &&& MonoPcm::new_failure(sample_rate, samples@) is None
                    &&& audio.rate() == sample_rate
                    &&& audio.wave() == samples@
                    &&& audio.valid()
                },
                Err(e) => MonoPcm::new_failure(sample_rate, samples@) == Some(e.message@),
            },
    {
        match validate_rate(sample_rate) {
            Ok(()) => {},
            Err(e) => {
                return Err(e);
            },
        }
        if samples.is_empty() {
            return Err(AudioError::new("audio must contain samples"));
        }
        let mut i: usize = 0;
        while i < samples.len()
            invariant
                supported_rate(sample_rate),
                samples@.len() > 0,
                i <= samples@.len(),
                forall|j: int| 0 <= j < i ==> (#[trigger] samples@[j]).normalized(),
            decreases samples@.len() - i,
        {
            if !samples[i].is_normalized() {
                assert(!samples@[i as int].normalized());
                return Err(AudioError::new("audio samples are invalid"));
            }
            i += 1;
        }
        Ok(MonoPcm { sample_rate, samples })
    }

    /// Why raw PCM16 bytes are refused, if they are.
    pub open spec fn pcm16_failure(
        bytes: Seq<u8>,
        sample_rate: u32,
        limits: AudioLimits,
    ) -> Option<Seq<char>> {
        if !supported_rate(sample_rate) {
            Some("audio sample rate is unsupported"@)
        } else if bytes.len() == 0 || bytes.len() % 2 != 0 {
            Some("PCM16 audio has an invalid byte length"@)
        } else {
            limits.admit_failure(bytes.len(), sample_rate, bytes.len() / 2)
        }
    }

    /// Decodes raw little-endian signed PCM16 mono.
    pub fn from_pcm16_le(bytes: &[u8], sample_rate: u32, limits: AudioLimits) -> (r: Result<
        Self,
        AudioError,
    >)
        ensures
            match r {
                Ok(audio) => {
                    &&& MonoPcm::pcm16_failure(bytes@, sample_rate, limits) is None
                    &&& audio.rate() == sample_rate
                    &&& audio.wave() == wave_of(decode_pcm16(bytes@))
                    &&& audio.valid()
                },
                Err(e) => MonoPcm::pcm16_failure(bytes@, sample_rate, limits) == Some(e.message@),
            },
    {
        match validate_rate(sample_rate) {
            Ok(()) => {},
            Err(e) => {
                return Err(e);
            },
        }
        if bytes.is_empty() || bytes.len() % 2 != 0 {
            return Err(AudioError::new("PCM16 audio has an invalid byte length"));
        }
        match limits.check(bytes.len(), sample_rate, bytes.len() / 2) {
            Ok(()) => {},
            Err(e) => {
                return Err(e);
            },
        }
        let samples = decode_samples(bytes);
        proof {
            wave_of_is_normalized(decode_pcm16(bytes@));
        }
        MonoPcm::new(sample_rate, samples)
    }

    /// Encodes samples as raw little-endian signed PCM16.
    pub fn to_pcm16_le(&self) -> (bytes: Vec<u8>)
        ensures
            bytes@ == encode_pcm16(values_of(self.wave())),
    {
        proof {
            use_type_invariant(self);
        }
        let mut bytes: Vec<u8> = Vec::new();
        let mut i: usize = 0;
        let ghost values = values_of(self.samples@);
        while i < self.samples.len()
            invariant
                i <= self.samples@.len(),
                all_normalized(self.samples@),
                values == values_of(self.samples@),
                bytes@ == encode_pcm16(values.take(i as int)),
            decreases self.samples@.len() - i,
        {
            let ghost before = bytes@;
            push_pcm16(&mut bytes, self.samples[i].to_pcm16());
            i += 1;
            assert(values[i - 1] == self.samples@[i - 1].pcm16());
            assert(bytes@ =~= encode_pcm16(values.take(i as int))) by {
                let n = 2 * (i - 1);
                let target = encode_pcm16(values.take(i as int));
                assert(target.len() == n + 2);
                assert forall|k: int| 0 <= k < n implies bytes@[k] == target[k] by {
                    assert(bytes@[k] == before[k]);
                    assert(values.take(i - 1)[k / 2] == values.take(i as int)[k / 2]);
                }
                assert(target[n] == low_byte(values[i - 1]));
                assert(target[n + 1] == high_byte(values[i - 1]));
            }
        }
        assert(values.take(i as int) =~= values);
        bytes
    }

    /// Sample rate in Hz.
    pub fn sample_rate(&self) -> (rate: u32)
        ensures
            rate == self.rate(),
            supported_rate(rate),
    {
        proof {
            use_type_invariant(self);
        }
        self.sample_rate
    }

    /// Normalized mono samples.
    pub fn samples(&self) -> (samples: &[Sample])
        ensures
            samples@ == self.wave(),
            samples@.len() > 0,
            all_normalized(samples@),
    {
        proof {
            use_type_invariant(self);
        }
        self.samples.as_slice()
    }
}

impl Clone for MonoPcm {
    fn clone(&self) -> (copy: Self)
        ensures
            copy.rate() == self.rate(),
            copy.wave() == self.wave(),
            copy.valid(),
    {
        proof {
            use_type_invariant(self);
        }
        let samples = vstd::slice::slice_to_vec(self.samples.as_slice());
        MonoPcm { sample_rate: self.sample_rate, samples }
    }
}

/// Samples of PCM16 values are normalized and convert back to those values.
pub proof fn wave_of_is_normalized(values: Seq<i16>)
    ensures
        all_normalized(wave_of(values)),
        values_of(wave_of(values)) == values,
{
    assert forall|i: int| 0 <= i < values.len() implies (#[trigger] wave_of(values)[i]).normalized()
        && values_of(wave_of(values))[i] == values[i] by {
        Sample::of_pcm16_properties(values[i]);
    }
    assert(values_of(wave_of(values)) =~= values);
}

/// Decodes complete little-endian PCM16 pairs.
pub fn decode_samples(bytes: &[u8]) -> (samples: Vec<Sample>)
    ensures
        samples@ == wave_of(decode_pcm16(bytes@)),
{
    let mut samples: Vec<Sample> = Vec::new();
    let mut i: usize = 0;
    let ghost values = decode_pcm16(bytes@);
    while i < bytes.len() / 2
        invariant
            i <= bytes@.len() / 2,
            values == decode_pcm16(bytes@),
            samples@ == wave_of(values.take(i as int)),
        decreases bytes@.len() / 2 - i,
    {
        let value = read_pcm16(bytes[2 * i], bytes[2 * i + 1]);
        samples.push(Sample::from_pcm16(value));
        i += 1;
        assert(values[i - 1] == value);
        assert(wave_of(values.take(i as int)) =~= wave_of(values.take(i - 1)).push(
            Sample::of_pcm16(value),
        ));
    }
    assert(values.take(i as int) =~= values);
    samples
}

/// Raw PCM16 that is admitted comes back byte for byte.
pub proof fn pcm16_round_trip(bytes: Seq<u8>)
    requires
        bytes.len() % 2 == 0,
    ensures
        encode_pcm16(values_of(wave_of(decode_pcm16(bytes)))) == bytes,
{
    wave_of_is_normalized(decode_pcm16(bytes));
    decode_then_encode(bytes);
}

/// Decoding what was encoded gives the samples rounded to PCM16, and rounding them again changes
/// nothing.
pub proof fn encoding_is_idempotent(wave: Seq<Sample>)
    ensures
        wave_of(decode_pcm16(encode_pcm16(values_of(wave)))) == wave_of(values_of(wave)),
        values_of(wave_of(values_of(wave))) == values_of(wave),
{
    encode_then_decode(values_of(wave));
    wave_of_is_normalized(values_of(wave));
}

/// There are seven supported rates.
pub proof fn seven_rates_are_supported(rate: u32)
    ensures
        supported_rate(rate) <==> seq![
            8_000u32,
            16_000u32,
            22_050u32,
            24_000u32,
            32_000u32,
            44_100u32,
            48_000u32,
        ].contains(rate),
{
    let rates = seq![8_000u32, 16_000u32, 22_050u32, 24_000u32, 32_000u32, 44_100u32, 48_000u32];
    assert(rates[0] == 8_000 && rates[1] == 16_000 && rates[2] == 22_050 && rates[3] == 24_000);
    assert(rates[4] == 32_000 && rates[5] == 44_100 && rates[6] == 48_000);
}

/// Audio is admitted up to its bounds and no further: as many bytes as the byte bound, and samples
/// that together last no longer than the duration bound. Whatever is admitted, less is admitted too.
pub proof fn admission_is_bounded_by_size_and_duration(
    limits: AudioLimits,
    bytes: nat,
    rate: u32,
    samples: nat,
    fewer_bytes: nat,
    fewer_samples: nat,
)
    requires
        rate * limits.duration_bound_ms() <= u64::MAX,
    ensures
        limits.admit_failure(bytes, rate, samples) is None <==> bytes <= limits.byte_bound()
            && samples * 1_000 <= rate * limits.duration_bound_ms(),
        bytes > limits.byte_bound() <==> limits.admit_failure(bytes, rate, samples) == Some(
            "encoded audio exceeds its byte limit"@,
        ),
        limits.admit_failure(bytes, rate, samples) is None && fewer_bytes <= bytes
            && fewer_samples <= samples ==> limits.admit_failure(fewer_bytes, rate, fewer_samples)
            is None,
{
    reveal_strlit("encoded audio exceeds its byte limit");
    reveal_strlit("audio duration exceeds its limit");
    assert("encoded audio exceeds its byte limit"@[0] == 'e');
    assert("audio duration exceeds its limit"@[0] == 'a');
}

/// Raw PCM16 is accepted exactly when its rate is supported, it is whole samples and at least one,
/// and it is within the limits; a recording exactly when its rate is supported and it has samples, all
/// between minus one and one.
pub proof fn recordings_are_whole_and_supported(
    bytes: Seq<u8>,
    rate: u32,
    limits: AudioLimits,
    samples: Seq<Sample>,
)
    ensures
        MonoPcm::pcm16_failure(bytes, rate, limits) is None <==> {
            &&& supported_rate(rate)
            &&& decode_pcm16(bytes).len() > 0
            &&& bytes.len() == 2 * decode_pcm16(bytes).len()
            &&& limits.admit_failure(bytes.len(), rate, decode_pcm16(bytes).len()) is None
        },
        MonoPcm::new_failure(rate, samples) is None <==> {
            &&& supported_rate(rate)
            &&& samples.len() > 0
            &&& forall|i: int|
                0 <= i < samples.len() ==> crate::sample::absolute_value((#[trigger] samples[i]).bits)
                    <= vstd::arithmetic::power2::pow2(149)
        },
        !supported_rate(rate) ==> MonoPcm::pcm16_failure(bytes, rate, limits)
            == MonoPcm::new_failure(rate, samples),
{
    assert forall|i: int| 0 <= i < samples.len() implies (#[trigger] samples[i]).normalized()
        == (crate::sample::absolute_value(samples[i].bits) <= vstd::arithmetic::power2::pow2(149)) by {
        crate::sample::bounds_are_bounds_of_the_value(samples[i]);
    }
}

/// Raw audio that was accepted comes back byte for byte, at the rate it was given.
pub proof fn accepted_audio_comes_back(
    bytes: &[u8],
    rate: u32,
    limits: AudioLimits,
    read: Result<MonoPcm, AudioError>,
    again: Vec<u8>,
)
    requires
        call_ensures(MonoPcm::from_pcm16_le, (bytes, rate, limits), read),
        read is Ok,
        call_ensures(MonoPcm::to_pcm16_le, (&read->Ok_0,), again),
    ensures
        again@ == bytes@,
        read->Ok_0.rate() == rate,
        2 * read->Ok_0.wave().len() == bytes@.len(),
{
    pcm16_round_trip(bytes@);
}

/// What cannot be measured in 64 bits is too long: more samples than can be counted in milliseconds
/// are refused, and so is everything under a bound that cannot be.
pub proof fn unmeasurable_audio_is_too_long(
    limits: AudioLimits,
    bytes: nat,
    rate: u32,
    samples: nat,
)
    requires
        bytes <= limits.byte_bound(),
    ensures
        samples * 1_000 > u64::MAX ==> limits.admit_failure(bytes, rate, samples) == Some(
            "audio duration exceeds its limit"@,
        ),
        rate * limits.duration_bound_ms() > u64::MAX ==> limits.admit_failure(bytes, rate, samples)
            == Some("audio duration exceeds its limit"@),
        samples * 1_000 > rate * limits.duration_bound_ms() ==> limits.admit_failure(
            bytes,
            rate,
            samples,
        ) == Some("audio duration exceeds its limit"@),
{
}

}
