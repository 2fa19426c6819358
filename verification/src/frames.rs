//! Fixed-size voice-activity frames cut from a stream of samples.

use vstd::prelude::*;
use crate::audio::{supported_rate, wave_of};
use crate::incremental::{emitted, extend_samples, frame_boundaries_are_invisible};
use crate::pcm::decode_pcm16;
use crate::resample::{stream_steps, Interpolation};
use crate::sample::Sample;

verus! {

/// Samples in one voice-activity frame.
pub const VAD_FRAME_SAMPLES: usize = 320;

/// The complete frames of samples in order.
pub open spec fn whole_frames(samples: Seq<Sample>) -> Seq<Seq<Sample>> {
    Seq::new(
        samples.len() / 320,
        |i: int| samples.subrange(320 * i, 320 * i + 320),
    )
}

/// The samples after the last complete frame.
pub open spec fn left_over(samples: Seq<Sample>) -> Seq<Sample> {
    samples.skip(320 * (samples.len() / 320) as int)
}

/// The samples of frames.
pub open spec fn frame_views(frames: Seq<Vec<Sample>>) -> Seq<Seq<Sample>> {
    frames.map_values(|frame: Vec<Sample>| frame@)
}

/// Appends samples to those left over before and cuts off the complete frames.
pub fn cut_frames(residual: &mut Vec<Sample>, more: &[Sample]) -> (frames: Vec<Vec<Sample>>)
    ensures
        frame_views(frames@) == whole_frames(old(residual)@ + more@),
        final(residual)@ == left_over(old(residual)@ + more@),
{
    let mut all: Vec<Sample> = Vec::new();
    std::mem::swap(&mut all, residual);
    extend_samples(&mut all, more);
    let ghost whole = all@;
    let mut frames: Vec<Vec<Sample>> = Vec::new();
    let mut offset: usize = 0;
    while all.len() - offset >= VAD_FRAME_SAMPLES
        invariant
            all@ == whole,
            offset <= all@.len(),
            offset == 320 * frames@.len(),
            frame_views(frames@) =~= whole_frames(whole).take(frames@.len() as int),
            320 * frames@.len() <= whole.len(),
        decreases all@.len() - offset,
    {
        let ghost before = frame_views(frames@);
        let ghost n = frames@.len() as int;
        let frame = vstd::slice::slice_to_vec(
            vstd::slice::slice_subrange(all.as_slice(), offset, offset + VAD_FRAME_SAMPLES),
        );
        frames.push(frame);
        offset += VAD_FRAME_SAMPLES;
        proof {
            assert(frame@ =~= whole.subrange(320 * n, 320 * n + 320));
            assert(frame_views(frames@) =~= before.push(frame@));
            assert(whole_frames(whole)[n] == frame@);
        }
    }
    assert(frames@.len() == whole.len() / 320);
    assert(whole_frames(whole).take(frames@.len() as int) =~= whole_frames(whole));
    let rest = vstd::slice::slice_to_vec(
        vstd::slice::slice_subrange(all.as_slice(), offset, all.len()),
    );
    assert(rest@ =~= left_over(whole));
    *residual = rest;
    frames
}

/// Where samples are cut into pieces does not matter: the frames of two pieces in a row, the second
/// after what the first left over, are the frames of both together, and the same is left over.
pub proof fn frames_of_pieces(first: Seq<Sample>, second: Seq<Sample>)
    ensures
        whole_frames(first) + whole_frames(left_over(first) + second) == whole_frames(
            first + second,
        ),
        left_over(left_over(first) + second) == left_over(first + second),
{
    let n = (first.len() / 320) as int;
    let rest = left_over(first) + second;
    let all = first + second;
    assert(rest.len() == all.len() - 320 * n);
    assert(rest =~= all.skip(320 * n));
    let m = (rest.len() / 320) as int;
    assert(all.len() / 320 == n + m);
    let parts = whole_frames(first) + whole_frames(rest);
    let whole = whole_frames(all);
    assert(parts.len() == whole.len());
    assert forall|i: int| 0 <= i < whole.len() implies parts[i] == whole[i] by {
        if i < n {
            assert(first.subrange(320 * i, 320 * i + 320) =~= all.subrange(
                320 * i,
                320 * i + 320,
            ));
        } else {
            let j = i - n;
            assert(rest.subrange(320 * j, 320 * j + 320) =~= all.subrange(
                320 * i,
                320 * i + 320,
            ));
        }
    }
    assert(parts =~= whole);
    assert(left_over(rest) =~= left_over(all));
}

/// The converted samples of a byte stream, when `convert` computes each interpolation.
pub open spec fn converted(
    bytes: Seq<u8>,
    source: u32,
    target: u32,
    convert: spec_fn(Interpolation) -> Sample,
) -> Seq<Sample> {
    stream_steps(wave_of(decode_pcm16(bytes)), source, target).map_values(convert)
}

/// What a recognizer is given depends on the bytes alone, not on how a transport splits them: when
/// one chunk follows another, the frames handed out for both are those of the joined bytes, in
/// order, and the same samples are left over.
pub proof fn transport_splits_are_invisible(
    first: Seq<u8>,
    second: Seq<u8>,
    source: u32,
    target: u32,
    convert: spec_fn(Interpolation) -> Sample,
    steps: Seq<Interpolation>,
)
    requires
        supported_rate(source),
        supported_rate(target),
        stream_steps(wave_of(decode_pcm16(first)), source, target) + steps == stream_steps(
            wave_of(decode_pcm16(first)) + emitted(first, second),
            source,
            target,
        ),
    ensures
        ({
            let before = converted(first, source, target, convert);
            let all = converted(first + second, source, target, convert);
            let more = steps.map_values(convert);
            &&& whole_frames(before) + whole_frames(left_over(before) + more) == whole_frames(all)
            &&& left_over(left_over(before) + more) == left_over(all)
        }),
{
    frame_boundaries_are_invisible(first, second, Seq::empty());
    let before = converted(first, source, target, convert);
    let more = steps.map_values(convert);
    let all = converted(first + second, source, target, convert);
    assert(all =~= before + more);
    frames_of_pieces(before, more);
}

/// Framing loses nothing and moves nothing: sample `i` is sample `i % 320` of frame `i / 320` as long
/// as that frame is complete, and otherwise among what is left over, which is less than a frame.
pub proof fn frames_are_the_samples_in_order(samples: Seq<Sample>, i: int)
    requires
        0 <= i < samples.len(),
    ensures
        ({
            let frames = whole_frames(samples);
            let rest = left_over(samples);
            &&& rest.len() < 320
            &&& 320 * frames.len() + rest.len() == samples.len()
            &&& if i < 320 * frames.len() {
                &&& frames[i / 320].len() == 320
                &&& frames[i / 320][i % 320] == samples[i]
            } else {
                rest[i - 320 * frames.len()] == samples[i]
            }
        }),
{
}

}
