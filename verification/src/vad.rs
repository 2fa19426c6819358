//! Bounded energy voice activity.

use vstd::prelude::*;
use vstd::arithmetic::power2::pow2;
use crate::audio::{supported_rate, validate_rate, AudioError};
use crate::sample::{absolute_value, bounds_are_bounds_of_the_value, Sample};

verus! {

/// Bounded energy voice-activity configuration.
#[derive(Debug, Clone, Copy, PartialEq)]
pub struct VadConfig {
    /// Minimum root-mean-square amplitude considered speech.
    pub rms_threshold: Sample,
    /// Consecutive speech duration needed to open an utterance.
    pub min_speech_ms: u32,
    /// Consecutive silence duration needed to close an utterance.
    pub trailing_silence_ms: u32,
    /// Hard upper bound for one utterance.
    pub max_utterance_ms: u32,
}

impl Default for VadConfig {
    /// The threshold is the single-precision number nearest to 0.015.
    fn default() -> (config: Self)
        ensures
            config == (VadConfig {
                rms_threshold: Sample { bits: 0x3c75_c28f },
                min_speech_ms: 120,
                trailing_silence_ms: 600,
                max_utterance_ms: 30_000,
            }),
    {
        VadConfig {
            rms_threshold: Sample { bits: 0x3c75_c28f },
            min_speech_ms: 120,
            trailing_silence_ms: 600,
            max_utterance_ms: 30_000,
        }
    }
}

/// Voice activity transition emitted after one PCM frame.
#[derive(Debug, Clone, Copy, PartialEq, Eq, Structural)]
pub enum VadEvent {
    /// No utterance transition.
    Unchanged,
    /// Speech has remained above the threshold long enough.
    Started,
    /// Trailing silence or the utterance hard limit closed the utterance.
    Ended,
}

/// Counters of a detector, in samples.
pub struct VadState {
    /// Consecutive voiced samples.
    pub speech: nat,
    /// Consecutive unvoiced samples inside the utterance.
    pub silence: nat,
    /// Samples of the utterance.
    pub utterance: nat,
    /// Whether an utterance is open.
    pub active: bool,
}

/// A sum that stays at the largest machine size.
pub open spec fn saturating(a: nat, b: nat) -> nat {
    if a + b > usize::MAX {
        usize::MAX as nat
    } else {
        a + b
    }
}

/// Samples in a duration, at most the largest machine size.
pub open spec fn samples_in(sample_rate: u32, milliseconds: u32) -> nat {
    let exact = (sample_rate * milliseconds) / 1_000;
    if exact > usize::MAX {
        usize::MAX as nat
    } else {
        exact as nat
    }
}

impl VadState {
    /// No utterance, nothing heard.
    pub open spec fn idle() -> VadState {
        VadState { speech: 0, silence: 0, utterance: 0, active: false }
    }

    /// Counters after a frame of `samples` samples, before any transition.
    pub open spec fn counted(self, samples: nat, voiced: bool) -> VadState {
        VadState {
            speech: if voiced {
                saturating(self.speech, samples)
            } else {
                0
            },
            silence: if voiced {
                0
            } else if self.active {
                saturating(self.silence, samples)
            } else {
                self.silence
            },
            utterance: if self.active {
                saturating(self.utterance, samples)
            } else {
                self.utterance
            },
            active: self.active,
        }
    }

    /// The transition that a frame causes.
    pub open spec fn event(
        self,
        config: VadConfig,
        sample_rate: u32,
        samples: nat,
        voiced: bool,
    ) -> VadEvent {
        let counted = self.counted(samples, voiced);
        if self.active && (counted.silence >= samples_in(sample_rate, config.trailing_silence_ms)
            || counted.utterance >= samples_in(sample_rate, config.max_utterance_ms)) {
            VadEvent::Ended
        } else if !self.active && counted.speech >= samples_in(sample_rate, config.min_speech_ms) {
            VadEvent::Started
        } else {
            VadEvent::Unchanged
        }
    }

    /// The state after a frame.
    pub open spec fn next(
        self,
        config: VadConfig,
        sample_rate: u32,
        samples: nat,
        voiced: bool,
    ) -> VadState {
        let counted = self.counted(samples, voiced);
        match self.event(config, sample_rate, samples, voiced) {
            VadEvent::Ended => VadState::idle(),
            VadEvent::Started => VadState { active: true, utterance: counted.speech, ..counted },
            VadEvent::Unchanged => counted,
        }
    }
}

/// Deterministic bounded energy voice-activity detector.
#[derive(Debug)]
pub struct EnergyVad {
    config: VadConfig,
    sample_rate: u32,
    speech_run: usize,
    silence_run: usize,
    utterance_samples: usize,
    active: bool,
}

/// Whether a threshold is a number from zero to one; both zeros count.
pub open spec fn valid_threshold(threshold: Sample) -> bool {
    threshold.normalized() && (threshold.negative() ==> threshold.magnitude() == 0)
}

impl EnergyVad {
    /// Whether a configuration can be used.
    pub open spec fn valid_config(config: VadConfig) -> bool {
        &&& valid_threshold(config.rms_threshold)
        &&& config.min_speech_ms != 0
        &&& config.trailing_silence_ms != 0
        &&& config.max_utterance_ms >= config.min_speech_ms
    }

    /// The configuration.
    pub closed spec fn settings(self) -> VadConfig {
        self.config
    }

    /// Sample rate in Hz.
    pub closed spec fn rate(self) -> u32 {
        self.sample_rate
    }

    /// The counters.
    pub closed spec fn state(self) -> VadState {
        VadState {
            speech: self.speech_run as nat,
            silence: self.silence_run as nat,
            utterance: self.utterance_samples as nat,
            active: self.active,
        }
    }

    /// Validates VAD configuration for a supported sample rate.
    pub fn new(config: VadConfig, sample_rate: u32) -> (r: Result<Self, AudioError>)
        ensures
            match r {
                Ok(vad) => {
                    &&& supported_rate(sample_rate)
                    &&& EnergyVad::valid_config(config)
                    &&& vad.settings() == config
                    &&& vad.rate() == sample_rate
                    &&& vad.state() == VadState::idle()
                },
                Err(e) => if !supported_rate(sample_rate) {
                    e.message@ == "audio sample rate is unsupported"@
                } else {
                    &&& !EnergyVad::valid_config(config)
                    &&& e.message@ == "voice activity configuration is invalid"@
                },
            },
    {
        match validate_rate(sample_rate) {
            Ok(()) => {},
            Err(e) => {
                return Err(e);
            },
        }
        let threshold: u32 = config.rms_threshold.bits;
        if !(threshold <= 0x3f80_0000 || threshold == 0x8000_0000) || config.min_speech_ms == 0
            || config.trailing_silence_ms == 0 || config.max_utterance_ms < config.min_speech_ms {
            return Err(AudioError::new("voice activity configuration is invalid"));
        }
        Ok(
            EnergyVad {
                config,
                sample_rate,
                speech_run: 0,
                silence_run: 0,
                utterance_samples: 0,
                active: false,
            },
        )
    }

    /// Whether a frame can be processed.
    pub open spec fn valid_frame(samples: Seq<Sample>) -> bool {
        &&& 0 < samples.len() <= u32::MAX
        &&& forall|i: int| 0 <= i < samples.len() ==> (#[trigger] samples[i]).finite()
    }

    /// Processes one non-empty normalized mono PCM frame; `voiced` tells whether its
    /// root-mean-square amplitude reaches the threshold.
    pub fn process(&mut self, samples: &[Sample], voiced: bool) -> (r: Result<VadEvent, AudioError>)
        ensures
            final(self).settings() == old(self).settings(),
            final(self).rate() == old(self).rate(),
            match r {
                Ok(event) => {
                    &&& EnergyVad::valid_frame(samples@)
                    &&& event == old(self).state().event(
                        old(self).settings(),
                        old(self).rate(),
                        samples@.len(),
                        voiced,
                    )
                    &&& final(self).state() == old(self).state().next(
                        old(self).settings(),
                        old(self).rate(),
                        samples@.len(),
                        voiced,
                    )
                },
                Err(e) => {
                    &&& !EnergyVad::valid_frame(samples@)
                    &&& e.message@ == "voice activity frame is invalid"@
                    &&& *final(self) == *old(self)
                },
            },
    {
        if samples.is_empty() || samples.len() > 0xffff_ffff {
            return Err(AudioError::new("voice activity frame is invalid"));
        }
        let mut i: usize = 0;
        while i < samples.len()
            invariant
                i <= samples@.len(),
                *self == *old(self),
                forall|j: int| 0 <= j < i ==> (#[trigger] samples@[j]).finite(),
            decreases samples@.len() - i,
        {
            if !samples[i].is_finite() {
                assert(!samples@[i as int].finite());
                return Err(AudioError::new("voice activity frame is invalid"));
            }
            i += 1;
        }
        if voiced {
            self.speech_run = self.speech_run.saturating_add(samples.len());
            self.silence_run = 0;
        } else {
            self.speech_run = 0;
            if self.active {
                self.silence_run = self.silence_run.saturating_add(samples.len());
            }
        }
        if self.active {
            self.utterance_samples = self.utterance_samples.saturating_add(samples.len());
            if self.silence_run >= self.samples_for(self.config.trailing_silence_ms)
                || self.utterance_samples >= self.samples_for(self.config.max_utterance_ms) {
                self.reset();
                return Ok(VadEvent::Ended);
            }
        } else if self.speech_run >= self.samples_for(self.config.min_speech_ms) {
            self.active = true;
            self.utterance_samples = self.speech_run;
            return Ok(VadEvent::Started);
        }
        Ok(VadEvent::Unchanged)
    }

    /// Whether an utterance is currently active.
    pub fn active(&self) -> (r: bool)
        ensures
            r == self.state().active,
    {
        self.active
    }

    fn samples_for(&self, milliseconds: u32) -> (samples: usize)
        ensures
            samples == samples_in(self.sample_rate, milliseconds),
    {
        assert(self.sample_rate * milliseconds <= u32::MAX * u32::MAX) by (nonlinear_arith)
            requires
                self.sample_rate <= u32::MAX,
                milliseconds <= u32::MAX,
        ;
        let exact: u64 = (self.sample_rate as u64 * milliseconds as u64) / 1_000;
        if exact > usize::MAX as u64 {
            usize::MAX
        } else {
            exact as usize
        }
    }

    fn reset(&mut self)
        ensures
            final(self).settings() == old(self).settings(),
            final(self).rate() == old(self).rate(),
            final(self).state() == VadState::idle(),
    {
        self.speech_run = 0;
        self.silence_run = 0;
        self.utterance_samples = 0;
        self.active = false;
    }
}

/// Utterances start and end in turn: one starts only where none is open and leaves one open, one
/// ends only where it is open and leaves none, and without a transition nothing opens or closes.
pub proof fn transitions_alternate(
    state: VadState,
    config: VadConfig,
    sample_rate: u32,
    samples: nat,
    voiced: bool,
)
    ensures
        ({
            let after = state.next(config, sample_rate, samples, voiced);
            match state.event(config, sample_rate, samples, voiced) {
                VadEvent::Started => !state.active && after.active,
                VadEvent::Ended => state.active && after == VadState::idle(),
                VadEvent::Unchanged => after.active == state.active,
            }
        }),
{
}

/// A frame's size and whether it is voiced.
pub struct VadFrame {
    /// Samples in the frame.
    pub samples: nat,
    /// Whether its amplitude reaches the threshold.
    pub voiced: bool,
}

/// The state after frames in a row.
pub open spec fn after_frames(
    state: VadState,
    config: VadConfig,
    sample_rate: u32,
    frames: Seq<VadFrame>,
) -> VadState
    decreases frames.len(),
{
    if frames.len() == 0 {
        state
    } else {
        let last = frames.last();
        after_frames(state, config, sample_rate, frames.drop_last()).next(
            config,
            sample_rate,
            last.samples,
            last.voiced,
        )
    }
}

/// Whether an utterance open at the start stays open through frames in a row.
pub open spec fn stays_open(
    state: VadState,
    config: VadConfig,
    sample_rate: u32,
    frames: Seq<VadFrame>,
) -> bool {
    forall|n: int|
        0 <= n <= frames.len() ==> #[trigger] after_frames(
            state,
            config,
            sample_rate,
            frames.take(n),
        ).active
}

/// Samples in frames in a row.
pub open spec fn total_samples(frames: Seq<VadFrame>) -> nat
    decreases frames.len(),
{
    if frames.len() == 0 {
        0
    } else {
        total_samples(frames.drop_last()) + frames.last().samples
    }
}

/// An utterance is bounded: through any further frames that leave it open, the samples it opened
/// with and all that followed stay below the configured hard limit.
pub proof fn utterances_are_bounded(
    state: VadState,
    config: VadConfig,
    sample_rate: u32,
    frames: Seq<VadFrame>,
)
    requires
        frames.len() > 0,
        stays_open(state, config, sample_rate, frames),
    ensures
        state.utterance + total_samples(frames) < samples_in(sample_rate, config.max_utterance_ms),
        after_frames(state, config, sample_rate, frames).utterance == state.utterance
            + total_samples(frames),
    decreases frames.len(),
{
    let front = frames.drop_last();
    assert(frames.take(frames.len() as int) =~= frames);
    assert(frames.take(frames.len() - 1) =~= front);
    let before = after_frames(state, config, sample_rate, front);
    assert(before.active);
    assert(after_frames(state, config, sample_rate, frames).active);
    if front.len() > 0 {
        assert forall|n: int| 0 <= n <= front.len() implies #[trigger] after_frames(
            state,
            config,
            sample_rate,
            front.take(n),
        ).active by {
            assert(front.take(n) =~= frames.take(n));
        }
        utterances_are_bounded(state, config, sample_rate, front);
    } else {
        assert(total_samples(front) == 0);
        assert(before == state);
    }
}

/// Samples of the unvoiced frames since the last voiced one.
pub open spec fn silence_at_end(frames: Seq<VadFrame>) -> nat
    decreases frames.len(),
{
    if frames.len() == 0 || frames.last().voiced {
        0
    } else {
        silence_at_end(frames.drop_last()) + frames.last().samples
    }
}

/// Samples of the voiced frames since the last unvoiced one.
pub open spec fn speech_at_end(frames: Seq<VadFrame>) -> nat
    decreases frames.len(),
{
    if frames.len() == 0 || !frames.last().voiced {
        0
    } else {
        speech_at_end(frames.drop_last()) + frames.last().samples
    }
}

/// Whether so many samples make up a duration, to the whole sample; no count goes past the largest
/// machine size.
pub open spec fn lasts(samples: nat, sample_rate: u32, milliseconds: u32) -> bool {
    samples >= usize::MAX || 1_000 * (samples + 1) > sample_rate * milliseconds
}

/// The transition that the last of some frames causes in a detector that was new before them.
pub open spec fn last_event(config: VadConfig, sample_rate: u32, frames: Seq<VadFrame>) -> VadEvent {
    after_frames(VadState::idle(), config, sample_rate, frames.drop_last()).event(
        config,
        sample_rate,
        frames.last().samples,
        frames.last().voiced,
    )
}

/// The frames since the last utterance ended, or all where none has.
pub open spec fn since_end(config: VadConfig, sample_rate: u32, frames: Seq<VadFrame>) -> Seq<
    VadFrame,
>
    decreases frames.len(),
{
    if frames.len() == 0 || last_event(config, sample_rate, frames) == VadEvent::Ended {
        Seq::empty()
    } else {
        since_end(config, sample_rate, frames.drop_last()).push(frames.last())
    }
}

/// Whether an utterance is open: one has started since the last one ended.
pub open spec fn is_open(config: VadConfig, sample_rate: u32, frames: Seq<VadFrame>) -> bool
    decreases frames.len(),
{
    if frames.len() == 0 {
        false
    } else {
        match last_event(config, sample_rate, frames) {
            VadEvent::Started => true,
            VadEvent::Ended => false,
            VadEvent::Unchanged => is_open(config, sample_rate, frames.drop_last()),
        }
    }
}

/// A count reaches a duration's samples exactly when it makes up the duration.
proof fn counts_reach_durations(samples: nat, sample_rate: u32, milliseconds: u32)
    ensures
        saturating(0, samples) >= samples_in(sample_rate, milliseconds) <==> lasts(
            samples,
            sample_rate,
            milliseconds,
        ),
{
    let product = sample_rate * milliseconds;
    assert(product >= 0) by (nonlinear_arith)
        requires
            product == sample_rate * milliseconds,
    ;
}

/// What a detector's counters hold after any frames.
proof fn counters_follow_frames(config: VadConfig, sample_rate: u32, frames: Seq<VadFrame>)
    requires
        supported_rate(sample_rate),
        EnergyVad::valid_config(config),
    ensures
        ({
            let state = after_frames(VadState::idle(), config, sample_rate, frames);
            &&& state.active == is_open(config, sample_rate, frames)
            &&& state.speech == saturating(
                0,
                speech_at_end(since_end(config, sample_rate, frames)),
            )
            &&& state.active ==> state.silence == saturating(0, silence_at_end(frames))
            &&& !state.active ==> state.silence == 0
        }),
    decreases frames.len(),
{
    if frames.len() > 0 {
        let front = frames.drop_last();
        let last = frames.last();
        counters_follow_frames(config, sample_rate, front);
        let before = after_frames(VadState::idle(), config, sample_rate, front);
        let since = since_end(config, sample_rate, front);
        assert(since.push(last).drop_last() =~= since);
        assert(speech_at_end(since.push(last)) == if last.voiced {
            speech_at_end(since) + last.samples
        } else {
            0
        });
        let needed = samples_in(sample_rate, config.min_speech_ms);
        assert(needed > 0) by {
            assert(sample_rate * config.min_speech_ms >= 8_000) by (nonlinear_arith)
                requires
                    sample_rate >= 8_000,
                    config.min_speech_ms >= 1,
            ;
        }
    }
}

/// An utterance opens exactly when the unbroken run of voiced frames at the end, as far as it lies
/// behind the last utterance, lasts the configured time: an unvoiced frame starts the count of
/// speech anew. Nothing ends where no utterance is open.
pub proof fn utterances_open_after_unbroken_speech(
    config: VadConfig,
    sample_rate: u32,
    frames: Seq<VadFrame>,
)
    requires
        supported_rate(sample_rate),
        EnergyVad::valid_config(config),
        frames.len() > 0,
        !is_open(config, sample_rate, frames.drop_last()),
    ensures
        ({
            let heard = since_end(config, sample_rate, frames.drop_last()).push(frames.last());
            last_event(config, sample_rate, frames) == if lasts(
                speech_at_end(heard),
                sample_rate,
                config.min_speech_ms,
            ) {
                VadEvent::Started
            } else {
                VadEvent::Unchanged
            }
        }),
{
    let front = frames.drop_last();
    let since = since_end(config, sample_rate, front);
    let heard = since.push(frames.last());
    counters_follow_frames(config, sample_rate, front);
    assert(heard.drop_last() =~= since);
    counts_reach_durations(speech_at_end(heard), sample_rate, config.min_speech_ms);
    assert(0 >= samples_in(sample_rate, config.min_speech_ms) <==> lasts(
        0,
        sample_rate,
        config.min_speech_ms,
    )) by {
        counts_reach_durations(0, sample_rate, config.min_speech_ms);
    }
}

/// Samples of an utterance: those of the speech that opened it and of every frame since.
proof fn utterances_count_from_their_opening(
    config: VadConfig,
    sample_rate: u32,
    opening: Seq<VadFrame>,
    rest: Seq<VadFrame>,
)
    requires
        supported_rate(sample_rate),
        EnergyVad::valid_config(config),
        opening.len() > 0,
        last_event(config, sample_rate, opening) == VadEvent::Started,
        forall|n: int|
            0 < n <= rest.len() ==> last_event(config, sample_rate, opening + #[trigger] rest.take(n))
                == VadEvent::Unchanged,
    ensures
        ({
            let state = after_frames(VadState::idle(), config, sample_rate, opening + rest);
            &&& state.active
            &&& state.utterance == saturating(
                0,
                speech_at_end(since_end(config, sample_rate, opening)) + total_samples(rest),
            )
        }),
    decreases rest.len(),
{
    if rest.len() == 0 {
        assert(opening + rest =~= opening);
        counters_follow_frames(config, sample_rate, opening);
        let front = opening.drop_last();
        counters_follow_frames(config, sample_rate, front);
    } else {
        let fewer = rest.drop_last();
        assert forall|n: int| 0 < n <= fewer.len() implies last_event(
            config,
            sample_rate,
            opening + #[trigger] fewer.take(n),
        ) == VadEvent::Unchanged by {
            assert(fewer.take(n) =~= rest.take(n));
        }
        utterances_count_from_their_opening(config, sample_rate, opening, fewer);
        assert(rest.take(rest.len() as int) =~= rest);
        assert((opening + rest).drop_last() =~= opening + fewer);
        assert((opening + rest).last() == rest.last());
    }
}

/// An open utterance ends exactly when the unbroken run of unvoiced frames at the end lasts the
/// configured trailing silence, or when the speech that opened it and everything since last the
/// hard limit: a voiced frame starts the count of silence anew, however many pauses went before.
/// `opening` is all that a new detector heard up to the frame that opened the utterance, and `rest`
/// what followed without a transition until its last frame.
pub proof fn utterances_end_after_unbroken_silence(
    config: VadConfig,
    sample_rate: u32,
    opening: Seq<VadFrame>,
    rest: Seq<VadFrame>,
)
    requires
        supported_rate(sample_rate),
        EnergyVad::valid_config(config),
        opening.len() > 0,
        last_event(config, sample_rate, opening) == VadEvent::Started,
        rest.len() > 0,
        forall|n: int|
            0 < n < rest.len() ==> last_event(config, sample_rate, opening + #[trigger] rest.take(n))
                == VadEvent::Unchanged,
    ensures
        last_event(config, sample_rate, opening + rest) == if lasts(
            silence_at_end(opening + rest),
            sample_rate,
            config.trailing_silence_ms,
        ) || lasts(
            speech_at_end(since_end(config, sample_rate, opening)) + total_samples(rest),
            sample_rate,
            config.max_utterance_ms,
        ) {
            VadEvent::Ended
        } else {
            VadEvent::Unchanged
        },
{
    let fewer = rest.drop_last();
    let all = opening + rest;
    assert forall|n: int| 0 < n <= fewer.len() implies last_event(
        config,
        sample_rate,
        opening + #[trigger] fewer.take(n),
    ) == VadEvent::Unchanged by {
        assert(fewer.take(n) =~= rest.take(n));
    }
    utterances_count_from_their_opening(config, sample_rate, opening, fewer);
    counters_follow_frames(config, sample_rate, opening + fewer);
    assert(all.drop_last() =~= opening + fewer);
    assert(all.last() == rest.last());
    counts_reach_durations(silence_at_end(all), sample_rate, config.trailing_silence_ms);
    let length = speech_at_end(since_end(config, sample_rate, opening)) + total_samples(rest);
    counts_reach_durations(length, sample_rate, config.max_utterance_ms);
    counts_reach_durations(0, sample_rate, config.trailing_silence_ms);
}

/// A detector takes a threshold from zero to one and durations that are not zero, of which the
/// longest utterance is no shorter than the shortest speech.
pub proof fn detectors_take_sensible_settings(config: VadConfig)
    ensures
        EnergyVad::valid_config(config) <==> {
            &&& absolute_value(config.rms_threshold.bits) <= pow2(149)
            &&& config.rms_threshold.bits < 0x8000_0000 || config.rms_threshold.bits == 0x8000_0000
            &&& config.min_speech_ms > 0
            &&& config.trailing_silence_ms > 0
            &&& config.max_utterance_ms >= config.min_speech_ms
        },
{
    bounds_are_bounds_of_the_value(config.rms_threshold);
}

/// A frame is processed exactly when it has samples, no more than can be counted, and all of them
/// are finite numbers.
pub proof fn frames_are_finite(samples: Seq<Sample>)
    ensures
        EnergyVad::valid_frame(samples) <==> {
            &&& 0 < samples.len() < 0x1_0000_0000
            &&& forall|i: int|
                0 <= i < samples.len() ==> absolute_value((#[trigger] samples[i]).bits) < pow2(277)
        },
{
    assert forall|i: int| 0 <= i < samples.len() implies (#[trigger] samples[i]).finite() == (
    absolute_value(samples[i].bits) < pow2(277)) by {
        bounds_are_bounds_of_the_value(samples[i]);
    }
}

}
