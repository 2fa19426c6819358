//! PCM16 decoding across arbitrary frame boundaries.

use vstd::prelude::*;
use crate::audio::{supported_rate, validate_rate, values_of, wave_of, wave_of_is_normalized};
use crate::audio::{
    admission_is_bounded_by_size_and_duration, AudioError, AudioLimits, MonoPcm,
};
use crate::pcm::{decode_concat, decode_pcm16, decode_then_encode, encode_concat, encode_pcm16};
use crate::pcm::{encode_then_decode, read_pcm16};
use crate::sample::Sample;

verus! {

/// Bounded decoder for PCM16 bytes arriving across arbitrary frame boundaries.
#[derive(Debug)]
pub struct IncrementalPcm16 {
    sample_rate: u32,
    limits: AudioLimits,
    samples: Vec<Sample>,
    pending: Option<u8>,
}

/// The byte that waits for its other half, if there is one.
spec fn pending_bytes(pending: Option<u8>) -> Seq<u8> {
    match pending {
        Some(low) => seq![low],
        None => Seq::empty(),
    }
}

/// The samples that a frame completes after `received` bytes have gone before.
pub open spec fn emitted(received: Seq<u8>, frame: Seq<u8>) -> Seq<Sample> {
    wave_of(decode_pcm16(received + frame)).skip(decode_pcm16(received).len() as int)
}

impl IncrementalPcm16 {
    #[verifier::type_invariant]
    spec fn well_formed(self) -> bool {
        &&& supported_rate(self.sample_rate)
        &&& self.samples@ == wave_of(values_of(self.samples@))
        &&& 2 * self.samples@.len() + pending_bytes(self.pending).len() <= usize::MAX
    }

    /// Sample rate in Hz.
    pub closed spec fn rate(self) -> u32 {
        self.sample_rate
    }

    /// The admission limits.
    pub closed spec fn bounds(self) -> AudioLimits {
        self.limits
    }

    /// Every byte accepted so far.
    pub closed spec fn received(self) -> Seq<u8> {
        encode_pcm16(values_of(self.samples@)) + pending_bytes(self.pending)
    }

    /// Creates an empty incremental decoder.
    pub fn new(sample_rate: u32, limits: AudioLimits) -> (r: Result<Self, AudioError>)
        ensures
            r is Ok <==> supported_rate(sample_rate),
            match r {
                Ok(decoder) => {
                    &&& decoder.rate() == sample_rate
                    &&& decoder.bounds() == limits
                    &&& decoder.received() == Seq::<u8>::empty()
                },
                Err(e) => e.message@ == "audio sample rate is unsupported"@,
            },
    {
        match validate_rate(sample_rate) {
            Ok(()) => {},
            Err(e) => {
                return Err(e);
            },
        }
        let samples: Vec<Sample> = Vec::new();
        assert(samples@ =~= wave_of(values_of(samples@)));
        Ok(IncrementalPcm16 { sample_rate, limits, samples, pending: None })
    }

    /// Why a frame is refused, if it is: what was received together with it exceeds the limits.
    pub open spec fn push_failure(self, frame: Seq<u8>) -> Option<Seq<char>> {
        let total = self.received().len() + frame.len();
        self.bounds().admit_failure(total, self.rate(), total / 2)
    }

    /// Appends one arbitrary byte frame and returns newly decoded samples.
    pub fn push(&mut self, bytes: &[u8]) -> (r: Result<Vec<Sample>, AudioError>)
        ensures
            final(self).rate() == old(self).rate(),
            final(self).bounds() == old(self).bounds(),
            match r {
                Ok(decoded) => {
                    &&& old(self).push_failure(bytes@) is None
                    &&& final(self).received() == old(self).received() + bytes@
                    &&& decoded@ == emitted(old(self).received(), bytes@)
                },
                Err(e) => {
                    &&& old(self).push_failure(bytes@) == Some(e.message@)
                    &&& *final(self) == *old(self)
                },
            },
    {
        proof {
            use_type_invariant(&*self);
        }
        let existing: usize = self.samples.len() * 2 + if self.pending.is_some() {
            1usize
        } else {
            0usize
        };
        let total: usize = match existing.checked_add(bytes.len()) {
            Some(total) => total,
            None => {
                return Err(AudioError::new("encoded audio exceeds its byte limit"));
            },
        };
        match self.limits.check(total, self.sample_rate, total / 2) {
            Ok(()) => {},
            Err(e) => {
                return Err(e);
            },
        }
        let (decoded, pending) = decode_frame(self.pending, bytes);
        let mut samples = vstd::slice::slice_to_vec(self.samples.as_slice());
        extend_samples(&mut samples, decoded.as_slice());
        proof {
            let old_values = values_of(self.samples@);
            let whole = encode_pcm16(old_values);
            let held = pending_bytes(self.pending);
            let joined = held + bytes@;
            let values = decode_pcm16(joined);
            assert(self.received() + bytes@ =~= whole + joined);
            decode_concat(whole, joined);
            decode_concat(whole, held);
            encode_then_decode(old_values);
            assert(decode_pcm16(held) =~= Seq::empty());
            assert(decode_pcm16(self.received()) =~= old_values);
            assert(emitted(self.received(), bytes@) =~= wave_of(values));
            assert(samples@ =~= wave_of(old_values + values));
            wave_of_is_normalized(old_values + values);
            encode_concat(old_values, values);
            assert(encode_pcm16(values_of(samples@)) + pending_bytes(pending) =~= whole + joined);
        }
        *self =
        IncrementalPcm16 {
            sample_rate: self.sample_rate,
            limits: self.limits,
            samples,
            pending,
        };
        Ok(decoded)
    }

    /// Why the stream cannot be finished, if it cannot.
    pub open spec fn finish_failure(self) -> Option<Seq<char>> {
        if self.received().len() % 2 != 0 {
            Some("PCM16 stream ended with a partial sample"@)
        } else if self.received().len() == 0 {
            Some("audio must contain samples"@)
        } else {
            None
        }
    }

    /// Finishes the stream and returns all decoded audio.
    pub fn finish(self) -> (r: Result<MonoPcm, AudioError>)
        ensures
            match r {
                Ok(audio) => {
                    &&& self.finish_failure() is None
                    &&& audio.rate() == self.rate()
                    &&& audio.wave() == wave_of(decode_pcm16(self.received()))
                    &&& audio.valid()
                },
                Err(e) => self.finish_failure() == Some(e.message@),
            },
    {
        proof {
            use_type_invariant(&self);
            wave_of_is_normalized(values_of(self.samples@));
        }
        if self.pending.is_some() {
            return Err(AudioError::new("PCM16 stream ended with a partial sample"));
        }
        proof {
            assert(self.received() =~= encode_pcm16(values_of(self.samples@)));
            encode_then_decode(values_of(self.samples@));
        }
        let IncrementalPcm16 { sample_rate, samples, .. } = self;
        MonoPcm::new(sample_rate, samples)
    }
}

/// Decodes the complete pairs of a held byte followed by a frame, and the byte left over.
#[verifier::rlimit(30)]
fn decode_frame(held: Option<u8>, bytes: &[u8]) -> (r: (Vec<Sample>, Option<u8>))
    ensures
        r.0@ == wave_of(decode_pcm16(pending_bytes(held) + bytes@)),
        encode_pcm16(decode_pcm16(pending_bytes(held) + bytes@)) + pending_bytes(r.1)
            == pending_bytes(held) + bytes@,
{
    let ghost joined = pending_bytes(held) + bytes@;
    let ghost values = decode_pcm16(joined);
    let ghost shift: int = pending_bytes(held).len() as int;
    let mut decoded: Vec<Sample> = Vec::new();
    let mut index: usize = 0;
    if bytes.is_empty() {
        proof {
            assert(decoded@ =~= wave_of(values));
            assert(encode_pcm16(values) + pending_bytes(held) =~= joined);
        }
        return (decoded, held);
    }
    if let Some(low) = held {
        let value = read_pcm16(low, bytes[0]);
        decoded.push(Sample::from_pcm16(value));
        index = 1;
        assert(joined[0] == low && joined[1] == bytes@[0]);
        assert(values[0] == value);
        assert(wave_of(values)[0] == Sample::of_pcm16(value));
    }
    assert(decoded@ =~= wave_of(values).take(decoded@.len() as int));
    while bytes.len() - index >= 2
        invariant
            index <= bytes@.len(),
            0 <= shift <= 1,
            joined.len() == shift + bytes@.len(),
            forall|i: int| shift <= i < joined.len() ==> joined[i] == bytes@[i - shift],
            2 * decoded@.len() == shift + index,
            values == decode_pcm16(joined),
            decoded@ == wave_of(values).take(decoded@.len() as int),
        decreases bytes@.len() - index,
    {
        let value = read_pcm16(bytes[index], bytes[index + 1]);
        let ghost k = decoded@.len() as int;
        decoded.push(Sample::from_pcm16(value));
        proof {
            assert(joined[2 * k] == bytes@[index as int]);
            assert(joined[2 * k + 1] == bytes@[index + 1]);
            assert(values[k] == value);
            assert(wave_of(values)[k] == Sample::of_pcm16(value));
            assert(decoded@ =~= wave_of(values).take(k + 1));
        }
        index += 2;
    }
    assert(decoded@ =~= wave_of(values));
    let left: Option<u8> = if index < bytes.len() {
        Some(bytes[index])
    } else {
        None
    };
    proof {
        let even = joined.take(2 * values.len() as int);
        assert(decode_pcm16(even) =~= values) by {
            assert forall|i: int| 0 <= i < values.len() implies decode_pcm16(even)[i]
                == values[i] by {
                assert(even[2 * i] == joined[2 * i] && even[2 * i + 1] == joined[2 * i + 1]);
            }
        }
        decode_then_encode(even);
        assert(even + pending_bytes(left) =~= joined);
    }
    (decoded, left)
}

/// Appends samples.
pub fn extend_samples(samples: &mut Vec<Sample>, more: &[Sample])
    ensures
        final(samples)@ == old(samples)@ + more@,
{
    let mut i: usize = 0;
    while i < more.len()
        invariant
            i <= more@.len(),
            samples@ == old(samples)@ + more@.take(i as int),
        decreases more@.len() - i,
    {
        samples.push(more[i]);
        i += 1;
        assert(more@.take(i as int) =~= more@.take(i - 1).push(more@[i - 1]));
        assert(samples@ =~= old(samples)@ + more@.take(i as int));
    }
    assert(more@.take(i as int) =~= more@);
}

/// Where a stream is cut into frames does not matter: two frames in a row emit what their
/// concatenation emits, and nothing emitted is ever revised.
pub proof fn frame_boundaries_are_invisible(received: Seq<u8>, first: Seq<u8>, second: Seq<u8>)
    ensures
        emitted(received, first) + emitted(received + first, second) == emitted(
            received,
            first + second,
        ),
        wave_of(decode_pcm16(received)) + emitted(received, first) == wave_of(
            decode_pcm16(received + first),
        ),
{
    let middle = received + first;
    let all = middle + second;
    assert(received + (first + second) =~= all);
    assert forall|i: int| 0 <= i < decode_pcm16(received).len() implies decode_pcm16(middle)[i]
        == decode_pcm16(received)[i] by {
        assert(middle[2 * i] == received[2 * i] && middle[2 * i + 1] == received[2 * i + 1]);
    }
    assert forall|i: int| 0 <= i < decode_pcm16(middle).len() implies decode_pcm16(all)[i]
        == decode_pcm16(middle)[i] by {
        assert(all[2 * i] == middle[2 * i] && all[2 * i + 1] == middle[2 * i + 1]);
    }
    assert(emitted(received, first) + emitted(middle, second) =~= emitted(
        received,
        first + second,
    ));
    assert(wave_of(decode_pcm16(received)) + emitted(received, first) =~= wave_of(
        decode_pcm16(middle),
    ));
}

/// A stream whose last frame was accepted finishes exactly when decoding its bytes in one piece
/// succeeds.
pub proof fn finishing_agrees_with_decoding_at_once(decoder: IncrementalPcm16)
    requires
        supported_rate(decoder.rate()),
        decoder.bounds().admit_failure(
            decoder.received().len(),
            decoder.rate(),
            decoder.received().len() / 2,
        ) is None,
    ensures
        decoder.finish_failure() is None <==> MonoPcm::pcm16_failure(
            decoder.received(),
            decoder.rate(),
            decoder.bounds(),
        ) is None,
{
}

/// A stream takes a frame exactly while all its bytes together stay within the byte bound and last
/// no longer than the duration bound, and it is finished exactly where whole samples, and at least
/// one, were received.
pub proof fn streams_stay_within_their_bounds(decoder: IncrementalPcm16, frame: Seq<u8>)
    requires
        decoder.rate() * decoder.bounds().duration_bound_ms() <= u64::MAX,
    ensures
        ({
            let total = decoder.received().len() + frame.len();
            decoder.push_failure(frame) is None <==> total <= decoder.bounds().byte_bound() && (total
                / 2) * 1_000 <= decoder.rate() * decoder.bounds().duration_bound_ms()
        }),
        decoder.finish_failure() is None <==> decoder.received().len() > 0
            && decoder.received().len() % 2 == 0,
{
    let total = decoder.received().len() + frame.len();
    admission_is_bounded_by_size_and_duration(
        decoder.bounds(),
        total,
        decoder.rate(),
        total / 2,
        0,
        0,
    );
}

}
