//! Streaming results do not depend on how a transport splits the audio.
//!
//! A streaming run is followed chunk by chunk through the steps of a session, with a recognizer
//! whose answers depend on the frames it was given. Whatever the chunks, what is published is what
//! the frames of all bytes together lead to.

use vstd::prelude::*;
use crate::audio::{supported_rate, wave_of, AudioLimits};
use crate::frames::{converted, left_over, transport_splits_are_invisible, whole_frames};
use crate::incremental::{emitted, frame_boundaries_are_invisible};
use crate::pcm::decode_pcm16;
use crate::resample::{stream_steps, stream_steps_extend, Interpolation};
use crate::sample::Sample;
use crate::stt::{chunk_refusal, closing_refusal, final_result, Published, Recognition, SttError};
use crate::stt::{StreamingSession, SttLimits, TranscriptKind, ENGINE_SAMPLE_RATE};
use crate::vad::{VadConfig, VadEvent};

verus! {

/// What stands outside a session: the arithmetic on samples and a deterministic recognizer.
pub struct Surroundings {
    /// The sample that an interpolation gives.
    pub convert: spec_fn(Interpolation) -> Sample,
    /// Whether a frame reaches the voice-activity threshold.
    pub voiced: spec_fn(Seq<Sample>) -> bool,
    /// The hypothesis that the recognizer has after these frames.
    pub interim: spec_fn(Seq<Seq<Sample>>) -> Seq<char>,
    /// The text with which it ends an utterance after these frames.
    pub closing: spec_fn(Seq<Seq<Sample>>) -> Seq<char>,
}

/// What one frame leads to, after the frames `given` before it: the recognizer accepts it, and
/// either the utterance ends and the next one is opened, or the hypothesis is read.
pub open spec fn on_frame(
    start: Recognition,
    config: VadConfig,
    around: Surroundings,
    given: Seq<Seq<Sample>>,
    frame: Seq<Sample>,
) -> (Recognition, Seq<Published>) {
    let voiced = (around.voiced)(frame);
    let heard = start.heard(config, ENGINE_SAMPLE_RATE, frame.len(), voiced);
    let all = given.push(frame);
    if start.closes(config, ENGINE_SAMPLE_RATE, frame.len(), voiced) {
        let text = (around.closing)(all);
        (heard.concluded(text).reopened(), seq![final_result(text)])
    } else {
        let text = (around.interim)(all);
        (
            heard.offered(text),
            match heard.interim(text) {
                Some(update) => seq![update],
                None => Seq::empty(),
            },
        )
    }
}

/// What frames lead to one after the other, after the frames `given` before them.
pub open spec fn on_frames(
    start: Recognition,
    config: VadConfig,
    around: Surroundings,
    given: Seq<Seq<Sample>>,
    frames: Seq<Seq<Sample>>,
) -> (Recognition, Seq<Published>)
    decreases frames.len(),
{
    if frames.len() == 0 {
        (start, Seq::empty())
    } else {
        let front = on_frames(start, config, around, given, frames.drop_last());
        let last = on_frame(front.0, config, around, given + frames.drop_last(), frames.last());
        (last.0, front.1 + last.1)
    }
}

/// Frames handed over in two batches lead to what they lead to in one.
proof fn batches_join(
    start: Recognition,
    config: VadConfig,
    around: Surroundings,
    given: Seq<Seq<Sample>>,
    first: Seq<Seq<Sample>>,
    second: Seq<Seq<Sample>>,
)
    ensures
        ({
            let one = on_frames(start, config, around, given, first);
            let two = on_frames(one.0, config, around, given + first, second);
            on_frames(start, config, around, given, first + second) == (two.0, one.1 + two.1)
        }),
    decreases second.len(),
{
    let one = on_frames(start, config, around, given, first);
    if second.len() == 0 {
        assert(first + second =~= first);
        assert(one.1 + Seq::<Published>::empty() =~= one.1);
    } else {
        let all = first + second;
        batches_join(start, config, around, given, first, second.drop_last());
        assert(all.drop_last() =~= first + second.drop_last());
        assert(all.last() == second.last());
        assert(given + all.drop_last() =~= given + first + second.drop_last());
        let two = on_frames(one.0, config, around, given + first, second);
        let front = on_frames(one.0, config, around, given + first, second.drop_last());
        let last = on_frame(
            front.0,
            config,
            around,
            given + first + second.drop_last(),
            second.last(),
        );
        assert(one.1 + front.1 + last.1 =~= one.1 + two.1);
    }
}

/// A session in the course of a stream.
pub struct StreamRun {
    /// Every byte accepted so far.
    pub received: Seq<u8>,
    /// Every sample decoded so far.
    pub decoded: Seq<Sample>,
    /// Samples that do not make a frame yet.
    pub waiting: Seq<Sample>,
    /// Every frame that the recognizer was given.
    pub frames: Seq<Seq<Sample>>,
    /// What is known of the utterances heard.
    pub recognition: Recognition,
    /// Everything published so far.
    pub published: Seq<Published>,
}

impl StreamRun {
    /// A session that has just been opened.
    pub open spec fn fresh() -> StreamRun {
        StreamRun {
            received: Seq::empty(),
            decoded: Seq::empty(),
            waiting: Seq::empty(),
            frames: Seq::empty(),
            recognition: Recognition::initial(),
            published: Seq::empty(),
        }
    }

    /// The session after an accepted chunk: what it completes is decoded and converted, complete
    /// frames are cut off, and the recognizer is given each.
    pub open spec fn after(
        self,
        rate: u32,
        config: VadConfig,
        around: Surroundings,
        chunk: Seq<u8>,
    ) -> StreamRun {
        let more = emitted(self.received, chunk);
        if more.len() == 0 {
            StreamRun { received: self.received + chunk, ..self }
        } else {
            let decoded = self.decoded + more;
            let done = stream_steps(self.decoded, rate, ENGINE_SAMPLE_RATE).len() as int;
            let steps = stream_steps(decoded, rate, ENGINE_SAMPLE_RATE).skip(done);
            let queued = self.waiting + steps.map_values(around.convert);
            let updates = on_frames(
                self.recognition,
                config,
                around,
                self.frames,
                whole_frames(queued),
            );
            StreamRun {
                received: self.received + chunk,
                decoded,
                waiting: left_over(queued),
                frames: self.frames + whole_frames(queued),
                recognition: updates.0,
                published: self.published + updates.1,
            }
        }
    }

    /// Why the next chunk is refused, if it is.
    pub open spec fn refusal(
        self,
        rate: u32,
        bounds: AudioLimits,
        chunk_bound: usize,
        chunk: Seq<u8>,
    ) -> Option<SttError> {
        chunk_refusal(bounds, rate, chunk_bound, self.received, self.decoded, chunk, None)
    }

    /// Why the session cannot be closed, if it cannot.
    pub open spec fn closing_failure(self) -> Option<SttError> {
        closing_refusal(self.received, self.waiting, self.recognition, None)
    }

    /// The text with which the session is closed: samples that made no frame are handed over first,
    /// an open utterance with audio is ended, and otherwise the last final result stands.
    pub open spec fn closing_text(self, around: Surroundings) -> Seq<char> {
        if self.waiting.len() > 0 {
            (around.closing)(self.frames.push(self.waiting))
        } else if self.recognition.has_audio {
            (around.closing)(self.frames)
        } else {
            self.recognition.last_result->0
        }
    }
}

/// Whether a session shows what a run has come to.
pub open spec fn shows(
    session: StreamingSession,
    run: StreamRun,
    rate: u32,
    config: VadConfig,
) -> bool {
    &&& session.rate() == rate
    &&& session.conversion() == (rate, ENGINE_SAMPLE_RATE)
    &&& session.detector() == (config, ENGINE_SAMPLE_RATE)
    &&& session.received() == run.received
    &&& session.decoded() == run.decoded
    &&& session.waiting() == run.waiting
    &&& session.recognition() == run.recognition
}

/// Sessions begin as runs do.
pub proof fn fresh_sessions_show_fresh_runs(
    session: StreamingSession,
    rate: u32,
    limits: SttLimits,
    config: VadConfig,
)
    requires
        session.fresh(rate, limits, config),
    ensures
        shows(session, StreamRun::fresh(), rate, config),
{
}

/// Sessions follow runs through every accepted chunk. `pushed` is the session once it has accepted
/// the chunk and planned the conversion `steps`, `queued` once the converted samples are queued, and
/// `after` once the recognizer was given each frame; the session then shows the next state of the
/// run. A chunk that completes no sample leads there at once.
pub proof fn sessions_follow_runs(
    run: StreamRun,
    rate: u32,
    config: VadConfig,
    around: Surroundings,
    chunk: Seq<u8>,
    before: StreamingSession,
    pushed: StreamingSession,
    steps: Option<Seq<Interpolation>>,
    queued: StreamingSession,
    after: StreamingSession,
)
    requires
        shows(before, run, rate, config),
        pushed.recognition() == before.recognition(),
        pushed.waiting() == before.waiting(),
        pushed.rate() == before.rate(),
        pushed.conversion() == before.conversion(),
        pushed.detector() == before.detector(),
        pushed.received() == before.received() + chunk,
        pushed.decoded() == before.decoded() + emitted(before.received(), chunk),
        steps is None <==> emitted(before.received(), chunk).len() == 0,
        match steps {
            None => after == pushed,
            Some(steps) => {
                let converted = steps.map_values(around.convert);
                &&& stream_steps(before.decoded(), rate, ENGINE_SAMPLE_RATE) + steps
                    == stream_steps(pushed.decoded(), rate, ENGINE_SAMPLE_RATE)
                &&& queued.same_input(pushed)
                &&& queued.recognition() == pushed.recognition()
                &&& queued.waiting() == left_over(pushed.waiting() + converted)
                &&& after.same_input(queued)
                &&& after.waiting() == queued.waiting()
                &&& after.recognition() == on_frames(
                    queued.recognition(),
                    config,
                    around,
                    run.frames,
                    whole_frames(pushed.waiting() + converted),
                ).0
            },
        },
    ensures
        shows(after, run.after(rate, config, around, chunk), rate, config),
{
    match steps {
        None => {
            assert(before.decoded() + emitted(before.received(), chunk) =~= before.decoded());
        },
        Some(steps) => {
            let done = stream_steps(before.decoded(), rate, ENGINE_SAMPLE_RATE);
            let all = stream_steps(pushed.decoded(), rate, ENGINE_SAMPLE_RATE);
            assert(all.skip(done.len() as int) =~= steps);
        },
    }
}

/// The session after accepted chunks, one after the other.
pub open spec fn run_of(
    rate: u32,
    config: VadConfig,
    around: Surroundings,
    chunks: Seq<Seq<u8>>,
) -> StreamRun
    decreases chunks.len(),
{
    if chunks.len() == 0 {
        StreamRun::fresh()
    } else {
        run_of(rate, config, around, chunks.drop_last()).after(
            rate,
            config,
            around,
            chunks.last(),
        )
    }
}

/// The bytes of chunks in order.
pub open spec fn joined_bytes(chunks: Seq<Seq<u8>>) -> Seq<u8>
    decreases chunks.len(),
{
    if chunks.len() == 0 {
        Seq::empty()
    } else {
        joined_bytes(chunks.drop_last()) + chunks.last()
    }
}

/// What a stream leads to is determined by its bytes: the samples decoded, the frames given, the
/// samples left over, and everything published are those of all bytes together.
pub proof fn runs_follow_their_bytes(
    rate: u32,
    config: VadConfig,
    around: Surroundings,
    chunks: Seq<Seq<u8>>,
)
    requires
        supported_rate(rate),
    ensures
        ({
            let run = run_of(rate, config, around, chunks);
            let bytes = joined_bytes(chunks);
            let samples = converted(bytes, rate, ENGINE_SAMPLE_RATE, around.convert);
            let updates = on_frames(
                Recognition::initial(),
                config,
                around,
                Seq::empty(),
                whole_frames(samples),
            );
            &&& run.received == bytes
            &&& run.decoded == wave_of(decode_pcm16(bytes))
            &&& run.frames == whole_frames(samples)
            &&& run.waiting == left_over(samples)
            &&& run.recognition == updates.0
            &&& run.published == updates.1
        }),
    decreases chunks.len(),
{
    let run = run_of(rate, config, around, chunks);
    let bytes = joined_bytes(chunks);
    let samples = converted(bytes, rate, ENGINE_SAMPLE_RATE, around.convert);
    if chunks.len() == 0 {
        assert(wave_of(decode_pcm16(bytes)) =~= Seq::empty());
        assert(stream_steps(Seq::empty(), rate, ENGINE_SAMPLE_RATE).len() == 0) by {
            crate::resample::length_is_monotonic(0, 1, rate, ENGINE_SAMPLE_RATE);
        }
        assert(samples =~= Seq::empty());
        assert(whole_frames(samples) =~= Seq::empty());
        assert(left_over(samples) =~= Seq::empty());
    } else {
        let front = chunks.drop_last();
        let chunk = chunks.last();
        let before = run_of(rate, config, around, front);
        runs_follow_their_bytes(rate, config, around, front);
        let earlier = converted(before.received, rate, ENGINE_SAMPLE_RATE, around.convert);
        let more = emitted(before.received, chunk);
        frame_boundaries_are_invisible(before.received, chunk, Seq::empty());
        if more.len() == 0 {
            assert(before.decoded + more =~= before.decoded);
        } else {
            let all = stream_steps(before.decoded + more, rate, ENGINE_SAMPLE_RATE);
            let done = stream_steps(before.decoded, rate, ENGINE_SAMPLE_RATE);
            stream_steps_extend(before.decoded, more, rate, ENGINE_SAMPLE_RATE);
            let steps = all.skip(done.len() as int);
            assert(done + steps =~= all);
            transport_splits_are_invisible(
                before.received,
                chunk,
                rate,
                ENGINE_SAMPLE_RATE,
                around.convert,
                steps,
            );
            let queued = before.waiting + steps.map_values(around.convert);
            batches_join(
                Recognition::initial(),
                config,
                around,
                Seq::empty(),
                whole_frames(earlier),
                whole_frames(queued),
            );
            assert(Seq::<Seq<Sample>>::empty() + whole_frames(earlier) =~= whole_frames(earlier));
        }
    }
}

/// Streaming results are invariant to transport splits: the same bytes, split into chunks in any two
/// ways, publish the same transcripts in the same order and close with the same result.
pub proof fn transcripts_do_not_depend_on_splits(
    rate: u32,
    config: VadConfig,
    around: Surroundings,
    one: Seq<Seq<u8>>,
    other: Seq<Seq<u8>>,
)
    requires
        supported_rate(rate),
        joined_bytes(one) == joined_bytes(other),
    ensures
        ({
            let first = run_of(rate, config, around, one);
            let second = run_of(rate, config, around, other);
            &&& first.published == second.published
            &&& first.closing_failure() == second.closing_failure()
            &&& first.closing_failure() is None ==> first.closing_text(around)
                == second.closing_text(around)
        }),
{
    runs_follow_their_bytes(rate, config, around, one);
    runs_follow_their_bytes(rate, config, around, other);
}

/// Whether a split is accepted depends on the whole stream alone: non-empty chunks of at most the
/// chunk bound are all accepted where the stream is within the limits.
pub proof fn streams_within_limits_are_accepted(
    rate: u32,
    config: VadConfig,
    around: Surroundings,
    bounds: AudioLimits,
    chunk_bound: usize,
    chunks: Seq<Seq<u8>>,
    n: int,
)
    requires
        supported_rate(rate),
        0 <= n < chunks.len(),
        forall|i: int| 0 <= i < chunks.len() ==> 0 < (#[trigger] chunks[i]).len() <= chunk_bound,
        bounds.admit_failure(
            joined_bytes(chunks).len(),
            rate,
            joined_bytes(chunks).len() / 2,
        ) is None,
        joined_bytes(chunks).len() / 2 <= u64::MAX / 48_000,
    ensures
        run_of(rate, config, around, chunks.take(n)).refusal(
            rate,
            bounds,
            chunk_bound,
            chunks[n],
        ) is None,
{
    let run = run_of(rate, config, around, chunks.take(n));
    runs_follow_their_bytes(rate, config, around, chunks.take(n));
    prefixes_are_shorter(chunks, n + 1);
    assert(chunks.take(n + 1).drop_last() =~= chunks.take(n));
    let total = run.received.len() + chunks[n].len();
    assert(total == joined_bytes(chunks.take(n + 1)).len());
    frame_boundaries_are_invisible(run.received, chunks[n], Seq::empty());
    assert((run.decoded + emitted(run.received, chunks[n])).len() == total / 2);
}

/// The first chunks hold no more bytes than all.
proof fn prefixes_are_shorter(chunks: Seq<Seq<u8>>, n: int)
    requires
        0 <= n <= chunks.len(),
    ensures
        joined_bytes(chunks.take(n)).len() <= joined_bytes(chunks).len(),
    decreases chunks.len(),
{
    if n == chunks.len() {
        assert(chunks.take(n) =~= chunks);
    } else {
        prefixes_are_shorter(chunks.drop_last(), n);
        assert(chunks.drop_last().take(n) =~= chunks.take(n));
    }
}

/// The text of the last final result among updates, if there is one.
pub open spec fn last_final(updates: Seq<Published>) -> Option<Seq<char>>
    decreases updates.len(),
{
    if updates.len() == 0 {
        None
    } else if updates.last().kind == TranscriptKind::Final {
        Some(updates.last().text)
    } else {
        last_final(updates.drop_last())
    }
}

/// A frame publishes at most one update. One that ends the utterance publishes its text as final,
/// whatever was published before, and leaves nothing of the utterance; any other frame publishes
/// the recognizer's hypothesis as interim, unless that is empty or still the last one published.
pub proof fn frames_publish_at_most_one_update(
    start: Recognition,
    config: VadConfig,
    around: Surroundings,
    given: Seq<Seq<Sample>>,
    frame: Seq<Sample>,
)
    ensures
        ({
            let (next, updates) = on_frame(start, config, around, given, frame);
            let voiced = (around.voiced)(frame);
            let ends = start.activity.event(config, 16_000, frame.len(), voiced) == VadEvent::Ended;
            let interim = (around.interim)(given.push(frame));
            let closing = (around.closing)(given.push(frame));
            &&& next.activity == start.activity.next(config, 16_000, frame.len(), voiced)
            &&& ends ==> {
                &&& updates == seq![Published { kind: TranscriptKind::Final, text: closing }]
                &&& next.last_result == Some(closing)
                &&& next.hypothesis.len() == 0
                &&& !next.has_audio
            }
            &&& !ends ==> {
                &&& next.last_result == start.last_result
                &&& next.has_audio
                &&& interim.len() == 0 || interim == start.hypothesis ==> updates.len() == 0
                    && next.hypothesis == start.hypothesis
                &&& interim.len() > 0 && interim != start.hypothesis ==> updates == seq![
                    Published { kind: TranscriptKind::Interim, text: interim },
                ] && next.hypothesis == interim
            }
        }),
{
    assert(ENGINE_SAMPLE_RATE == 16_000);
}

/// The result that stands is the last final one that was published: however many frames were heard,
/// a session has a result exactly when it published one, and it is that one. An utterance has audio
/// unless its last frame ended it.
pub proof fn results_are_the_last_published(
    config: VadConfig,
    around: Surroundings,
    frames: Seq<Seq<Sample>>,
)
    ensures
        ({
            let (reached, updates) = on_frames(
                Recognition::initial(),
                config,
                around,
                Seq::empty(),
                frames,
            );
            &&& reached.last_result == last_final(updates)
            &&& reached.has_audio <==> frames.len() > 0 && !ends_utterance(config, around, frames)
        }),
    decreases frames.len(),
{
    if frames.len() > 0 {
        let before = frames.drop_last();
        results_are_the_last_published(config, around, before);
        let front = on_frames(Recognition::initial(), config, around, Seq::empty(), before);
        let given = Seq::empty() + before;
        frames_publish_at_most_one_update(front.0, config, around, given, frames.last());
        let last = on_frame(front.0, config, around, given, frames.last());
        if last.1.len() == 0 {
            assert(front.1 + last.1 =~= front.1);
        } else {
            assert((front.1 + last.1).drop_last() =~= front.1);
            assert((front.1 + last.1).last() == last.1[0]);
        }
    }
}

/// Whether the last of these frames ends an utterance.
pub open spec fn ends_utterance(
    config: VadConfig,
    around: Surroundings,
    frames: Seq<Seq<Sample>>,
) -> bool {
    let before = frames.drop_last();
    let reached = on_frames(Recognition::initial(), config, around, Seq::empty(), before).0;
    frames.len() > 0 && reached.activity.event(
        config,
        16_000,
        frames.last().len(),
        (around.voiced)(frames.last()),
    ) == VadEvent::Ended
}

/// Samples that wait are heard before a session is closed, as if they had been a frame; with no
/// samples waiting and no audio since the last result, that result is the closing text.
pub proof fn waiting_samples_are_heard_before_closing(run: StreamRun, around: Surroundings)
    ensures
        run.waiting.len() > 0 ==> run.closing_text(around) == (StreamRun {
            waiting: Seq::empty(),
            frames: run.frames.push(run.waiting),
            recognition: Recognition { has_audio: true, ..run.recognition },
            ..run
        }).closing_text(around),
        run.waiting.len() == 0 && run.recognition.has_audio ==> run.closing_text(around) == (
        around.closing)(run.frames),
        run.waiting.len() == 0 && !run.recognition.has_audio && run.recognition.last_result is Some
            ==> Some(run.closing_text(around)) == run.recognition.last_result,
{
}

}
