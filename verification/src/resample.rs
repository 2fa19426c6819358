//! Deterministic sample-rate conversion by linear interpolation.
//!
//! A conversion is planned here as exact interpolation steps: which two neighbouring samples, and
//! the fraction of the way between them as a ratio of integers.

use vstd::prelude::*;
use crate::audio::{supported_rate, validate_rate, AudioError, MonoPcm};
use crate::sample::Sample;

verus! {

/// One output sample: `left + (right - left) * numerator / denominator`.
#[derive(Debug, Clone, Copy, PartialEq)]
pub struct Interpolation {
    /// Input sample at or before the output position.
    pub left: Sample,
    /// Input sample after it.
    pub right: Sample,
    /// How far the position lies past `left`, in units of `1 / denominator`.
    pub numerator: u16,
    /// The target sample rate.
    pub denominator: u16,
}

/// How a recording is converted.
#[derive(Debug, PartialEq)]
pub enum Resampling {
    /// The recording already has the target rate.
    Unchanged(MonoPcm),
    /// Interpolation steps, one for each output sample.
    Steps(Vec<Interpolation>),
}

/// Output samples that the first `samples` input samples determine.
pub open spec fn resampled_len(samples: nat, source: u32, target: u32) -> nat {
    if samples == 0 {
        0
    } else {
        (((samples - 1) * target) / (source as int) + 1) as nat
    }
}

/// Input index at or before output sample `index`.
pub open spec fn left_index(index: int, source: u32, target: u32) -> int {
    (index * source) / (target as int)
}

/// Distance past that index, in units of one over the target rate.
pub open spec fn past_left(index: int, source: u32, target: u32) -> int {
    (index * source) % (target as int)
}

/// The step for output sample `index` of a complete recording: the neighbour of the last sample
/// is the last sample itself.
pub open spec fn batch_step(
    wave: Seq<Sample>,
    index: int,
    source: u32,
    target: u32,
) -> Interpolation {
    let left = left_index(index, source, target);
    Interpolation {
        left: wave[left],
        right: wave[if left + 1 < wave.len() {
            left + 1
        } else {
            wave.len() - 1
        }],
        numerator: past_left(index, source, target) as u16,
        denominator: target as u16,
    }
}

/// Every step of a complete recording.
pub open spec fn batch_steps(wave: Seq<Sample>, source: u32, target: u32) -> Seq<Interpolation> {
    Seq::new(
        resampled_len(wave.len(), source, target),
        |index: int| batch_step(wave, index, source, target),
    )
}

/// The step for output sample `index` of a stream: a position on an input sample needs no
/// neighbour.
pub open spec fn stream_step(
    wave: Seq<Sample>,
    index: int,
    source: u32,
    target: u32,
) -> Interpolation {
    let left = left_index(index, source, target);
    Interpolation {
        left: wave[left],
        right: if past_left(index, source, target) == 0 {
            wave[left]
        } else {
            wave[left + 1]
        },
        numerator: past_left(index, source, target) as u16,
        denominator: target as u16,
    }
}

/// Every step that the samples received so far determine.
pub open spec fn stream_steps(wave: Seq<Sample>, source: u32, target: u32) -> Seq<Interpolation> {
    Seq::new(
        resampled_len(wave.len(), source, target),
        |index: int| stream_step(wave, index, source, target),
    )
}

/// Output positions never reach past the last input sample; one that lies between samples has a
/// right neighbour.
pub proof fn positions_are_in_bounds(samples: nat, index: int, source: u32, target: u32)
    requires
        supported_rate(source),
        supported_rate(target),
        0 <= index < resampled_len(samples, source, target),
    ensures
        index * source <= (samples - 1) * target,
        0 <= left_index(index, source, target) < samples,
        0 <= past_left(index, source, target) < target,
        past_left(index, source, target) > 0 ==> left_index(index, source, target) + 1 < samples,
{
    let limit = (samples - 1) * target;
    let s = source as int;
    let t = target as int;
    let position = index * s;
    assert(limit >= 0) by (nonlinear_arith)
        requires
            limit == (samples - 1) * target,
            samples >= 1,
            target >= 0,
    ;
    assert(index <= limit / s);
    assert(position <= limit) by (nonlinear_arith)
        requires
            index <= limit / s,
            s > 0,
            position == index * s,
    ;
    assert(position >= 0) by (nonlinear_arith)
        requires
            position == index * s,
            index >= 0,
            s > 0,
    ;
    let left = position / t;
    let past = position % t;
    assert(position == left * t + past && 0 <= past < t) by (nonlinear_arith)
        requires
            left == position / t,
            past == position % t,
            t > 0,
    ;
    assert(left >= 0) by (nonlinear_arith)
        requires
            left == position / t,
            position >= 0,
            t > 0,
    ;
    assert(left <= samples - 1) by (nonlinear_arith)
        requires
            left * t + past <= (samples - 1) * t,
            past >= 0,
            t > 0,
    ;
    if past > 0 {
        assert(left < samples - 1) by (nonlinear_arith)
            requires
                left * t + past <= (samples - 1) * t,
                past > 0,
                t > 0,
        ;
    }
}

/// The output index that a further sample first reaches: indexes below the length lie at or before
/// the last input sample, all others after it.
proof fn length_is_the_boundary(samples: nat, index: int, source: u32, target: u32)
    requires
        supported_rate(source),
        supported_rate(target),
        samples > 0,
        index >= 0,
    ensures
        index < resampled_len(samples, source, target) <==> index * source <= (samples - 1)
            * target,
{
    let limit = (samples - 1) * target;
    let s = source as int;
    assert(limit >= 0) by (nonlinear_arith)
        requires
            limit == (samples - 1) * target,
            samples >= 1,
            target >= 0,
    ;
    assert(index <= limit / s <==> index * s <= limit) by (nonlinear_arith)
        requires
            s > 0,
    ;
}

/// More input never takes output back.
pub proof fn length_is_monotonic(fewer: nat, more: nat, source: u32, target: u32)
    requires
        supported_rate(source),
        supported_rate(target),
        fewer <= more,
    ensures
        resampled_len(fewer, source, target) <= resampled_len(more, source, target),
{
    if fewer > 0 {
        let last = resampled_len(fewer, source, target) - 1;
        assert(((fewer - 1) * target) / (source as int) >= 0) by (nonlinear_arith)
            requires
                fewer > 0,
                source > 0,
        ;
        length_is_the_boundary(fewer, last, source, target);
        assert((fewer - 1) * target <= (more - 1) * target) by (nonlinear_arith)
            requires
                fewer <= more,
        ;
        length_is_the_boundary(more, last, source, target);
    }
}

impl MonoPcm {
    /// Why a conversion is refused, if it is.
    pub open spec fn resample_failure(self, target_rate: u32) -> Option<Seq<char>> {
        if !supported_rate(target_rate) {
            Some("audio sample rate is unsupported"@)
        } else if target_rate != self.rate() && ((self.wave().len() - 1) * target_rate > u64::MAX
            || resampled_len(self.wave().len(), self.rate(), target_rate) > usize::MAX) {
            Some("resampled audio is too large"@)
        } else {
            None
        }
    }

    /// Plans the deterministic conversion to another supported sample rate using linear
    /// interpolation.
    pub fn resample(&self, target_rate: u32) -> (r: Result<Resampling, AudioError>)
        ensures
            match r {
                Ok(Resampling::Unchanged(audio)) => {
                    &&& self.resample_failure(target_rate) is None
                    &&& target_rate == self.rate()
                    &&& audio.rate() == self.rate()
                    &&& audio.wave() == self.wave()
                    &&& audio.valid()
                },
                Ok(Resampling::Steps(steps)) => {
                    &&& self.resample_failure(target_rate) is None
                    &&& target_rate != self.rate()
                    &&& steps@ == batch_steps(self.wave(), self.rate(), target_rate)
                },
                Err(e) => self.resample_failure(target_rate) == Some(e.message@),
            },
    {
        match validate_rate(target_rate) {
            Ok(()) => {},
            Err(e) => {
                return Err(e);
            },
        }
        let source_rate: u32 = self.sample_rate();
        if target_rate == source_rate {
            return Ok(Resampling::Unchanged(self.clone()));
        }
        let samples = self.samples();
        let intervals: u64 = (samples.len() - 1) as u64;
        let span: u64 = match intervals.checked_mul(target_rate as u64) {
            Some(span) => span,
            None => {
                return Err(AudioError::new("resampled audio is too large"));
            },
        };
        proof {
            assert(span / (source_rate as u64) <= span) by (nonlinear_arith)
                requires
                    source_rate >= 1,
            ;
            assert(span / (source_rate as u64) < u64::MAX) by (nonlinear_arith)
                requires
                    source_rate >= 2,
                    span <= u64::MAX,
            ;
        }
        let length: u64 = span / (source_rate as u64) + 1;
        if length > usize::MAX as u64 {
            return Err(AudioError::new("resampled audio is too large"));
        }
        let mut steps: Vec<Interpolation> = Vec::new();
        let ghost wave = self.wave();
        let mut index: u64 = 0;
        while index < length
            invariant
                index <= length,
                samples@ == wave,
                wave.len() > 0,
                intervals == wave.len() - 1,
                span == intervals * target_rate,
                supported_rate(source_rate),
                supported_rate(target_rate),
                length == resampled_len(wave.len(), source_rate, target_rate),
                steps@ =~= batch_steps(wave, source_rate, target_rate).take(index as int),
            decreases length - index,
        {
            proof {
                positions_are_in_bounds(wave.len(), index as int, source_rate, target_rate);
            }
            let position: u64 = index * (source_rate as u64);
            assert(position / (target_rate as u64) == left_index(
                index as int,
                source_rate,
                target_rate,
            ));
            let left: usize = (position / (target_rate as u64)) as usize;
            let right: usize = if left < samples.len() - 1 {
                left + 1
            } else {
                samples.len() - 1
            };
            steps.push(
                Interpolation {
                    left: samples[left],
                    right: samples[right],
                    numerator: (position % (target_rate as u64)) as u16,
                    denominator: target_rate as u16,
                },
            );
            assert(steps@.last() == batch_step(wave, index as int, source_rate, target_rate));
            index += 1;
        }
        assert(batch_steps(wave, source_rate, target_rate).take(index as int) =~= batch_steps(
            wave,
            source_rate,
            target_rate,
        ));
        Ok(Resampling::Steps(steps))
    }
}

/// Conversion keeps the endpoints: the first output sample is the first input sample, and where
/// the recording's length is a whole number of output intervals, the last is the last.
pub proof fn resampling_keeps_endpoints(wave: Seq<Sample>, source: u32, target: u32)
    requires
        supported_rate(source),
        supported_rate(target),
        wave.len() > 0,
    ensures
        batch_steps(wave, source, target).len() > 0,
        batch_steps(wave, source, target)[0].left == wave[0],
        batch_steps(wave, source, target)[0].numerator == 0,
        ((wave.len() - 1) * target) % (source as int) == 0 ==> {
            let last = batch_steps(wave, source, target).last();
            last.left == wave.last() && last.numerator == 0
        },
{
    let s = source as int;
    let t = target as int;
    let limit = (wave.len() - 1) * target;
    length_is_the_boundary(wave.len(), 0, source, target);
    assert(limit >= 0) by (nonlinear_arith)
        requires
            limit == (wave.len() - 1) * target,
            wave.len() >= 1,
            target >= 0,
    ;
    assert(left_index(0, source, target) == 0 && past_left(0, source, target) == 0)
        by (nonlinear_arith)
        requires
            t > 0,
            t == target,
    ;
    if limit % s == 0 {
        let index = limit / s;
        let top = wave.len() - 1;
        assert(index * s == limit) by (nonlinear_arith)
            requires
                limit % s == 0,
                index == limit / s,
                s > 0,
        ;
        assert(limit / t == top && limit % t == 0) by (nonlinear_arith)
            requires
                limit == top * t,
                t > 0,
        ;
        assert(batch_steps(wave, source, target).len() == index + 1);
    }
}

/// Converts a stream of samples, keeping only the last one received.
pub struct StreamingResampler {
    source_rate: u32,
    target_rate: u32,
    received: u64,
    emitted: u64,
    last: Sample,
    history: Ghost<Seq<Sample>>,
}

impl StreamingResampler {
    #[verifier::type_invariant]
    spec fn well_formed(self) -> bool {
        &&& supported_rate(self.source_rate)
        &&& supported_rate(self.target_rate)
        &&& self.received == self.history@.len()
        &&& self.received <= u64::MAX / 48_000
        &&& self.emitted == resampled_len(self.history@.len(), self.source_rate, self.target_rate)
        &&& self.received > 0 ==> self.last == self.history@.last()
    }

    /// Input sample rate in Hz.
    pub closed spec fn source(self) -> u32 {
        self.source_rate
    }

    /// Output sample rate in Hz.
    pub closed spec fn target(self) -> u32 {
        self.target_rate
    }

    /// Every sample received so far.
    pub closed spec fn wave(self) -> Seq<Sample> {
        self.history@
    }

    /// Creates a converter between supported rates.
    pub fn new(source_rate: u32, target_rate: u32) -> (r: Result<Self, AudioError>)
        ensures
            r is Ok <==> supported_rate(source_rate) && supported_rate(target_rate),
            match r {
                Ok(resampler) => {
                    &&& resampler.source() == source_rate
                    &&& resampler.target() == target_rate
                    &&& resampler.wave() == Seq::<Sample>::empty()
                },
                Err(e) => e.message@ == "audio sample rate is unsupported"@,
            },
    {
        match validate_rate(source_rate) {
            Ok(()) => {},
            Err(e) => {
                return Err(e);
            },
        }
        match validate_rate(target_rate) {
            Ok(()) => {},
            Err(e) => {
                return Err(e);
            },
        }
        Ok(
            StreamingResampler {
                source_rate,
                target_rate,
                received: 0,
                emitted: 0,
                last: Sample { bits: 0 },
                history: Ghost(Seq::empty()),
            },
        )
    }

    /// Appends samples and returns the steps they complete. A stream is refused once its
    /// positions no longer fit 64-bit arithmetic.
    pub fn push(&mut self, samples: &[Sample]) -> (r: Result<Vec<Interpolation>, AudioError>)
        ensures
            final(self).source() == old(self).source(),
            final(self).target() == old(self).target(),
            r is Ok <==> old(self).wave().len() + samples@.len() <= u64::MAX / 48_000,
            match r {
                Ok(steps) => {
                    &&& final(self).wave() == old(self).wave() + samples@
                    &&& stream_steps(old(self).wave(), old(self).source(), old(self).target())
                        + steps@ == stream_steps(
                        final(self).wave(),
                        old(self).source(),
                        old(self).target(),
                    )
                },
                Err(e) => {
                    &&& e.message@ == "resampled audio is too large"@
                    &&& *final(self) == *old(self)
                },
            },
    {
        proof {
            use_type_invariant(&*self);
        }
        let most: u64 = 0xffff_ffff_ffff_ffff / 48_000;
        if samples.len() as u64 > most - self.received {
            return Err(AudioError::new("resampled audio is too large"));
        }
        let received: u64 = self.received;
        let total: u64 = received + samples.len() as u64;
        let source_rate: u32 = self.source_rate;
        let target_rate: u32 = self.target_rate;
        let last: Sample = self.last;
        let ghost before = self.history@;
        let ghost after = before + samples@;
        let ghost done = stream_steps(before, source_rate, target_rate);
        let mut steps: Vec<Interpolation> = Vec::new();
        let mut next: u64 = self.emitted;
        if samples.len() == 0 {
            assert(after =~= before);
            assert(done + steps@ =~= done);
            return Ok(steps);
        }
        proof {
            assert((total - 1) * target_rate <= (u64::MAX / 48_000) * 48_000) by (nonlinear_arith)
                requires
                    total >= 1,
                    total <= u64::MAX / 48_000,
                    target_rate <= 48_000,
            ;
            length_is_monotonic(before.len(), after.len(), source_rate, target_rate);
            stream_steps_extend(before, samples@, source_rate, target_rate);
            assert(done + steps@ =~= stream_steps(after, source_rate, target_rate).take(
                next as int,
            ));
        }
        let span: u64 = (total - 1) * (target_rate as u64);
        let length: u64 = span / (source_rate as u64) + 1;
        while next < length
            invariant
                supported_rate(source_rate),
                supported_rate(target_rate),
                received == before.len(),
                total == received + samples@.len(),
                samples@.len() > 0,
                received > 0 ==> last == before.last(),
                after == before + samples@,
                next >= resampled_len(before.len(), source_rate, target_rate),
                next <= length,
                span == (total - 1) * target_rate,
                length == resampled_len(after.len(), source_rate, target_rate),
                done == stream_steps(before, source_rate, target_rate),
                done + steps@ == stream_steps(after, source_rate, target_rate).take(next as int),
            decreases length - next,
        {
            proof {
                positions_are_in_bounds(after.len(), next as int, source_rate, target_rate);
                assert(next * source_rate <= span);
            }
            let position: u64 = next * (source_rate as u64);
            let left: u64 = position / (target_rate as u64);
            let past: u64 = position % (target_rate as u64);
            proof {
                if received > 0 {
                    length_is_the_boundary(
                        before.len(),
                        next as int,
                        source_rate,
                        target_rate,
                    );
                    assert(left >= received - 1) by (nonlinear_arith)
                        requires
                            position > (received - 1) * target_rate,
                            left == position / (target_rate as u64),
                            target_rate > 0,
                            received > 0,
                    ;
                }
            }
            let left_sample: Sample = if left < received {
                last
            } else {
                samples[(left - received) as usize]
            };
            let right_sample: Sample = if past == 0 {
                left_sample
            } else {
                samples[(left + 1 - received) as usize]
            };
            let ghost old_steps = steps@;
            steps.push(
                Interpolation {
                    left: left_sample,
                    right: right_sample,
                    numerator: past as u16,
                    denominator: target_rate as u16,
                },
            );
            proof {
                assert(steps@.last() == stream_step(after, next as int, source_rate, target_rate));
                let all = stream_steps(after, source_rate, target_rate);
                assert(all.take(next + 1) =~= all.take(next as int).push(all[next as int]));
                assert(done + steps@ =~= (done + old_steps).push(steps@.last()));
            }
            next += 1;
        }
        assert(done + steps@ =~= stream_steps(after, source_rate, target_rate));
        *self =
        StreamingResampler {
            source_rate,
            target_rate,
            received: total,
            emitted: next,
            last: samples[samples.len() - 1],
            history: Ghost(after),
        };
        Ok(steps)
    }
}

/// Steps already determined stay as they are when more samples follow.
pub proof fn stream_steps_extend(
    wave: Seq<Sample>,
    more: Seq<Sample>,
    source: u32,
    target: u32,
)
    requires
        supported_rate(source),
        supported_rate(target),
    ensures
        stream_steps(wave, source, target).len() <= stream_steps(wave + more, source, target).len(),
        stream_steps(wave, source, target) == stream_steps(wave + more, source, target).take(
            stream_steps(wave, source, target).len() as int,
        ),
{
    length_is_monotonic(wave.len(), (wave + more).len(), source, target);
    let done = stream_steps(wave, source, target);
    assert forall|i: int| 0 <= i < done.len() implies done[i] == stream_steps(
        wave + more,
        source,
        target,
    )[i] by {
        positions_are_in_bounds(wave.len(), i, source, target);
    }
    assert(done =~= stream_steps(wave + more, source, target).take(done.len() as int));
}

/// However a recording is cut into pieces, streaming it plans the same conversion as converting it
/// whole: the same number of steps, from the same samples, by the same fractions.
pub proof fn streaming_agrees_with_batch(wave: Seq<Sample>, source: u32, target: u32)
    requires
        supported_rate(source),
        supported_rate(target),
    ensures
        stream_steps(wave, source, target).len() == batch_steps(wave, source, target).len(),
        forall|i: int|
            #![trigger stream_steps(wave, source, target)[i]]
            0 <= i < batch_steps(wave, source, target).len() ==> {
                let streamed = stream_steps(wave, source, target)[i];
                let whole = batch_steps(wave, source, target)[i];
                &&& streamed.left == whole.left
                &&& streamed.numerator == whole.numerator
                &&& streamed.denominator == whole.denominator
                &&& whole.numerator != 0 ==> streamed.right == whole.right
            },
{
    assert forall|i: int|
        #![trigger stream_steps(wave, source, target)[i]]
        0 <= i < batch_steps(wave, source, target).len() implies {
        let streamed = stream_steps(wave, source, target)[i];
        let whole = batch_steps(wave, source, target)[i];
        &&& streamed.left == whole.left
        &&& streamed.numerator == whole.numerator
        &&& streamed.denominator == whole.denominator
        &&& whole.numerator != 0 ==> streamed.right == whole.right
    } by {
        positions_are_in_bounds(wave.len(), i, source, target);
    }
}

/// Whether a step stands at the exact time of output sample `index`: `k` input intervals and
/// `numerator` further units of one over the target rate are as long as `index` output intervals,
/// and the step goes from input sample `k` towards the one after it.
pub open spec fn stands_at(
    step: Interpolation,
    wave: Seq<Sample>,
    index: int,
    source: u32,
    target: u32,
    k: int,
) -> bool {
    &&& k * target + step.numerator == index * source
    &&& step.numerator < target
    &&& step.denominator == target
    &&& 0 <= k < wave.len()
    &&& step.left == wave[k]
    &&& step.numerator != 0 ==> k + 1 < wave.len() && step.right == wave[k + 1]
}

/// Every planned step stands at its exact time, in a complete recording as in a stream, and there is
/// one for every output time up to that of the last input sample and for none behind it.
pub proof fn steps_stand_at_their_time(wave: Seq<Sample>, source: u32, target: u32, index: int)
    requires
        supported_rate(source),
        supported_rate(target),
        index >= 0,
    ensures
        wave.len() == 0 ==> batch_steps(wave, source, target).len() == 0,
        wave.len() > 0 ==> (index < batch_steps(wave, source, target).len() <==> index * source
            <= (wave.len() - 1) * target),
        stream_steps(wave, source, target).len() == batch_steps(wave, source, target).len(),
        index < batch_steps(wave, source, target).len() ==> exists|k: int| #[trigger]
            stands_at(batch_steps(wave, source, target)[index], wave, index, source, target, k),
        index < batch_steps(wave, source, target).len() ==> exists|k: int| #[trigger]
            stands_at(stream_steps(wave, source, target)[index], wave, index, source, target, k),
{
    if wave.len() > 0 {
        length_is_the_boundary(wave.len(), index, source, target);
    }
    if index < batch_steps(wave, source, target).len() {
        positions_are_in_bounds(wave.len(), index, source, target);
        let k = left_index(index, source, target);
        let position = index * source;
        let t = target as int;
        assert(k * t + position % t == position) by (nonlinear_arith)
            requires
                k == position / t,
                t > 0,
        ;
        assert(stands_at(
            batch_steps(wave, source, target)[index],
            wave,
            index,
            source,
            target,
            k,
        ));
        assert(stands_at(
            stream_steps(wave, source, target)[index],
            wave,
            index,
            source,
            target,
            k,
        ));
    }
}

/// A recording is resampled in time: at another rate, step `index` stands at `index` periods of that
/// rate, and there is one for every such time up to the last sample; at its own rate it stays as it
/// is.
pub proof fn recordings_are_resampled_in_time(
    audio: &MonoPcm,
    target: u32,
    planned: Result<Resampling, AudioError>,
    index: int,
)
    requires
        supported_rate(audio.rate()),
        supported_rate(target),
        audio.wave().len() > 0,
        index >= 0,
        call_ensures(MonoPcm::resample, (audio, target), planned),
    ensures
        match planned {
            Ok(Resampling::Unchanged(same)) => target == audio.rate() && same.rate()
                == audio.rate() && same.wave() == audio.wave(),
            Ok(Resampling::Steps(steps)) => {
                &&& target != audio.rate()
                &&& index < steps@.len() <==> index * audio.rate() <= (audio.wave().len() - 1)
                    * target
                &&& index < steps@.len() ==> exists|k: int| #[trigger]
                    stands_at(steps@[index], audio.wave(), index, audio.rate(), target, k)
            },
            Err(_) => target != audio.rate() && audio.resample_failure(target) is Some,
        },
{
    steps_stand_at_their_time(audio.wave(), audio.rate(), target, index);
}

/// A recording can be converted to every supported rate for which its last position and the number
/// of its steps fit the machine; to its own rate it always can.
pub proof fn conversions_fit_the_machine(audio: MonoPcm, target: u32)
    requires
        supported_rate(audio.rate()),
        audio.wave().len() > 0,
    ensures
        audio.resample_failure(target) is None <==> supported_rate(target) && (target
            == audio.rate() || ((audio.wave().len() - 1) * target <= u64::MAX && batch_steps(
            audio.wave(),
            audio.rate(),
            target,
        ).len() <= usize::MAX)),
        audio.resample_failure(audio.rate()) is None,
        !supported_rate(target) ==> audio.resample_failure(target) == Some(
            "audio sample rate is unsupported"@,
        ),
{
}

}
