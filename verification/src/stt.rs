//! Bounded speech-recognition policy and streaming sessions.
//!
//! A recognizer runs outside; what is decided here is what it is given, when an utterance ends,
//! which results are published, and how every failure is reported.

use vstd::prelude::*;
use crate::audio::{
    admission_is_bounded_by_size_and_duration, supported_rate, wave_of, AudioLimits, MonoPcm,
};
use crate::frames::{cut_frames, frame_views, left_over, whole_frames};
use crate::incremental::{emitted, frame_boundaries_are_invisible, IncrementalPcm16};
use crate::limiter::{count_after, count_of, held_after, places_are_bounded, returns_are_held};
use crate::limiter::{Limiter, Place, PlaceEvent};
use crate::pcm::decode_pcm16;
use crate::request::{RequestSignals, RequestStop};
use crate::resample::{batch_steps, stream_steps, Interpolation, Resampling, StreamingResampler};
use crate::sample::Sample;
use crate::text::same_text;
use crate::vad::{EnergyVad, VadConfig, VadEvent, VadState};

verus! {

/// Sample rate that the recognizer works at.
pub const ENGINE_SAMPLE_RATE: u32 = 16_000;

/// Sanitized speech-recognition failure.
#[derive(Debug, Clone, Copy, PartialEq, Eq, Structural)]
pub enum SttError {
    /// Input or configuration was invalid.
    InvalidInput,
    /// The bounded execution capacity is occupied.
    Busy,
    /// The caller or server cancelled the operation.
    Cancelled,
    /// The operation exhausted its deadline.
    DeadlineExceeded,
    /// Audio decoding or conversion failed.
    Audio,
    /// Native recognition failed without exposing private runtime details.
    Engine,
}

impl SttError {
    /// The stable description.
    pub open spec fn text(self) -> Seq<char> {
        match self {
            SttError::InvalidInput => "speech recognition input is invalid"@,
            SttError::Busy => "speech recognition capacity is busy"@,
            SttError::Cancelled => "speech recognition was cancelled"@,
            SttError::DeadlineExceeded => "speech recognition deadline was exceeded"@,
            SttError::Audio => "speech recognition audio is invalid"@,
            SttError::Engine => "speech recognition engine failed"@,
        }
    }

    /// Stable description.
    pub fn message(self) -> (message: &'static str)
        ensures
            message@ == self.text(),
    {
        match self {
            SttError::InvalidInput => "speech recognition input is invalid",
            SttError::Busy => "speech recognition capacity is busy",
            SttError::Cancelled => "speech recognition was cancelled",
            SttError::DeadlineExceeded => "speech recognition deadline was exceeded",
            SttError::Audio => "speech recognition audio is invalid",
            SttError::Engine => "speech recognition engine failed",
        }
    }
}

/// Bounded speech-recognition resource policy.
#[derive(Debug, Clone, Copy)]
pub struct SttLimits {
    /// Maximum concurrent batch requests and live streaming sessions.
    pub max_concurrent: usize,
    /// Maximum bytes accepted in one streaming frame.
    pub max_chunk_bytes: usize,
    /// Total encoded-byte and duration bound for one stream or batch request.
    pub audio: AudioLimits,
}

impl Default for SttLimits {
    fn default() -> (limits: Self)
        ensures
            limits.max_concurrent == 2,
            limits.max_chunk_bytes == 65_536,
            limits.audio.byte_bound() == 33_554_432,
            limits.audio.duration_bound_ms() == 300_000,
    {
        SttLimits { max_concurrent: 2, max_chunk_bytes: 65_536, audio: AudioLimits::default() }
    }
}

/// Kind of transcript update produced by a streaming session.
#[derive(Debug, Clone, Copy, PartialEq, Eq, Structural)]
pub enum TranscriptKind {
    /// A replaceable partial hypothesis.
    Interim,
    /// An utterance closed by VAD or explicit end-of-input.
    Final,
}

/// Owned streaming transcript update.
#[derive(Debug, PartialEq, Eq)]
pub struct Transcript {
    /// Whether the text is interim or final.
    pub kind: TranscriptKind,
    /// Recognized UTF-8 text.
    pub text: String,
}

/// How a stop is reported.
pub open spec fn stop_error(signals: RequestSignals) -> Option<SttError> {
    match signals.stop() {
        None => None,
        Some(RequestStop::Cancelled) => Some(SttError::Cancelled),
        Some(RequestStop::DeadlineExceeded) => Some(SttError::DeadlineExceeded),
    }
}

/// Refuses to go on with a request that must stop.
pub fn ensure_active(signals: RequestSignals) -> (r: Result<(), SttError>)
    ensures
        match r {
            Ok(()) => stop_error(signals) is None,
            Err(e) => stop_error(signals) == Some(e),
        },
{
    match signals.stop_reason() {
        None => Ok(()),
        Some(RequestStop::Cancelled) => Err(SttError::Cancelled),
        Some(RequestStop::DeadlineExceeded) => Err(SttError::DeadlineExceeded),
    }
}

/// Local speech-recognition policy.
#[derive(Debug)]
pub struct SttEngine {
    limiter: Limiter,
    limits: SttLimits,
    vad: VadConfig,
}

/// Whether a policy can be used.
pub open spec fn valid_policy(limits: SttLimits, vad: VadConfig) -> bool {
    &&& limits.max_concurrent != 0
    &&& limits.max_chunk_bytes != 0
    &&& EnergyVad::valid_config(vad)
}

/// How an operation is refused when so many are in progress, if it is.
pub open spec fn capacity_refusal(in_progress: nat, capacity: nat) -> Option<SttError> {
    if in_progress < capacity {
        None
    } else {
        Some(SttError::Busy)
    }
}

impl SttEngine {
    #[verifier::type_invariant]
    spec fn well_formed(self) -> bool {
        valid_policy(self.limits, self.vad)
    }

    /// Operations in progress.
    pub closed spec fn in_progress(self) -> nat {
        self.limiter.count()
    }

    /// The limits.
    pub closed spec fn policy(self) -> SttLimits {
        self.limits
    }

    /// The voice-activity configuration.
    pub closed spec fn activity(self) -> VadConfig {
        self.vad
    }

    /// Most operations at a time.
    pub closed spec fn capacity(self) -> nat {
        self.limiter.bound()
    }

    /// What no operation changes.
    pub open spec fn same_policy(self, other: SttEngine) -> bool {
        &&& self.policy() == other.policy()
        &&& self.activity() == other.activity()
        &&& self.capacity() == other.capacity()
    }

    /// Bounds a recognizer: rejects zero resource limits or invalid VAD configuration.
    pub fn new(limits: SttLimits, vad: VadConfig) -> (r: Result<Self, SttError>)
        ensures
            r is Ok <==> valid_policy(limits, vad),
            match r {
                Ok(engine) => {
                    &&& engine.policy() == limits
                    &&& engine.activity() == vad
                    &&& engine.capacity() == limits.max_concurrent
                    &&& engine.in_progress() == 0
                },
                Err(e) => e == SttError::InvalidInput,
            },
    {
        if limits.max_concurrent == 0 || limits.max_chunk_bytes == 0 {
            return Err(SttError::InvalidInput);
        }
        match EnergyVad::new(vad, ENGINE_SAMPLE_RATE) {
            Ok(_) => {},
            Err(_) => {
                return Err(SttError::InvalidInput);
            },
        }
        Ok(SttEngine { limiter: Limiter::new(limits.max_concurrent), limits, vad })
    }

    /// Why a batch is refused before the recognizer is asked, if it is.
    pub open spec fn batch_failure(self, audio: MonoPcm, signals: RequestSignals) -> Option<
        SttError,
    > {
        if stop_error(signals) is Some {
            stop_error(signals)
        } else if capacity_refusal(self.in_progress(), self.capacity()) is Some {
            capacity_refusal(self.in_progress(), self.capacity())
        } else if self.policy().audio.admit_failure(
            2 * audio.wave().len(),
            audio.rate(),
            audio.wave().len(),
        ) is Some || audio.resample_failure(ENGINE_SAMPLE_RATE) is Some {
            Some(SttError::Audio)
        } else {
            None
        }
    }

    /// Starts the transcription of a complete recording: takes a place and plans the conversion to
    /// the recognizer's rate. A refused batch takes no place.
    pub fn transcribe(&mut self, audio: &MonoPcm, signals: RequestSignals) -> (r: Result<
        (Resampling, Place),
        SttError,
    >)
        ensures
            final(self).same_policy(*old(self)),
            match r {
                Ok((plan, _)) => {
                    &&& old(self).batch_failure(*audio, signals) is None
                    &&& final(self).in_progress() == old(self).in_progress() + 1
                    &&& final(self).in_progress() <= final(self).capacity()
                    &&& match plan {
                        Resampling::Unchanged(same) => {
                            &&& audio.rate() == ENGINE_SAMPLE_RATE
                            &&& same.rate() == audio.rate()
                            &&& same.wave() == audio.wave()
                        },
                        Resampling::Steps(steps) => {
                            &&& audio.rate() != ENGINE_SAMPLE_RATE
                            &&& steps@ == batch_steps(
                                audio.wave(),
                                audio.rate(),
                                ENGINE_SAMPLE_RATE,
                            )
                        },
                    }
                },
                Err(e) => {
                    &&& old(self).batch_failure(*audio, signals) == Some(e)
                    &&& final(self).in_progress() == old(self).in_progress()
                },
            },
    {
        match ensure_active(signals) {
            Ok(()) => {},
            Err(e) => {
                return Err(e);
            },
        }
        let place = match self.take_place() {
            Some(place) => place,
            None => {
                return Err(SttError::Busy);
            },
        };
        match self.limits.audio.validate_pcm(audio) {
            Ok(()) => {},
            Err(_) => {
                self.release(place);
                return Err(SttError::Audio);
            },
        }
        match audio.resample(ENGINE_SAMPLE_RATE) {
            Ok(plan) => Ok((plan, place)),
            Err(_) => {
                self.release(place);
                Err(SttError::Audio)
            },
        }
    }

    /// Takes a place unless all are taken.
    fn take_place(&mut self) -> (place: Option<Place>)
        ensures
            final(self).same_policy(*old(self)),
            final(self).in_progress() <= final(self).capacity(),
            place is Some <==> old(self).in_progress() < old(self).capacity(),
            final(self).in_progress() == count_after(
                old(self).in_progress(),
                old(self).capacity(),
                PlaceEvent::Ask,
            ),
    {
        proof {
            use_type_invariant(&*self);
        }
        let mut limiter = Limiter::new(0);
        std::mem::swap(&mut limiter, &mut self.limiter);
        let taken = limiter.acquire();
        self.limiter = limiter;
        taken
    }

    /// Gives a place back when its operation ends.
    pub fn release(&mut self, place: Place)
        ensures
            final(self).same_policy(*old(self)),
            final(self).in_progress() == count_after(
                old(self).in_progress(),
                old(self).capacity(),
                PlaceEvent::Return,
            ),
    {
        proof {
            use_type_invariant(&*self);
        }
        let mut limiter = Limiter::new(0);
        std::mem::swap(&mut limiter, &mut self.limiter);
        limiter.release(place);
        self.limiter = limiter;
    }

    /// Takes a place for a streaming session.
    pub fn reserve_stream(&mut self, signals: RequestSignals) -> (r: Result<Place, SttError>)
        ensures
            final(self).same_policy(*old(self)),
            match r {
                Ok(_) => {
                    &&& stop_error(signals) is None
                    &&& capacity_refusal(old(self).in_progress(), old(self).capacity()) is None
                    &&& final(self).in_progress() == old(self).in_progress() + 1
                    &&& final(self).in_progress() <= final(self).capacity()
                },
                Err(e) => {
                    &&& final(self).in_progress() == old(self).in_progress()
                    &&& if stop_error(signals) is Some {
                        stop_error(signals) == Some(e)
                    } else {
                        capacity_refusal(old(self).in_progress(), old(self).capacity()) == Some(e)
                    }
                },
            },
    {
        match ensure_active(signals) {
            Ok(()) => {},
            Err(e) => {
                return Err(e);
            },
        }
        match self.take_place() {
            Some(place) => Ok(place),
            None => Err(SttError::Busy),
        }
    }

    /// Opens a session on the place reserved for it once the recognizer has opened its stream;
    /// `native` tells what that came to. The session holds its place until it ends, and one that
    /// cannot be opened gives it back at once.
    pub fn start_stream(
        &mut self,
        place: Place,
        source_sample_rate: u32,
        native: Result<(), SttError>,
    ) -> (r: Result<StreamingSession, SttError>)
        ensures
            final(self).same_policy(*old(self)),
            match r {
                Ok(session) => {
                    &&& native is Ok
                    &&& supported_rate(source_sample_rate)
                    &&& session.held() == place
                    &&& final(self).in_progress() == old(self).in_progress()
                    &&& session.fresh(
                        source_sample_rate,
                        old(self).policy(),
                        old(self).activity(),
                    )
                },
                Err(e) => {
                    &&& final(self).in_progress() == count_after(
                        old(self).in_progress(),
                        old(self).capacity(),
                        PlaceEvent::Return,
                    )
                    &&& match native {
                        Err(failure) => e == failure,
                        Ok(()) => !supported_rate(source_sample_rate) && e == SttError::Audio,
                    }
                },
            },
    {
        proof {
            use_type_invariant(&*self);
        }
        match native {
            Ok(()) => {},
            Err(e) => {
                self.release(place);
                return Err(e);
            },
        }
        let decoder = match IncrementalPcm16::new(source_sample_rate, self.limits.audio) {
            Ok(decoder) => decoder,
            Err(_) => {
                self.release(place);
                return Err(SttError::Audio);
            },
        };
        let resampler = match StreamingResampler::new(source_sample_rate, ENGINE_SAMPLE_RATE) {
            Ok(resampler) => resampler,
            Err(_) => {
                self.release(place);
                return Err(SttError::Audio);
            },
        };
        let vad = match EnergyVad::new(self.vad, ENGINE_SAMPLE_RATE) {
            Ok(vad) => vad,
            Err(_) => {
                self.release(place);
                return Err(SttError::Audio);
            },
        };
        Ok(
            StreamingSession {
                decoder,
                resampler,
                vad,
                max_chunk_bytes: self.limits.max_chunk_bytes,
                residual: Vec::new(),
                last_interim: String::new(),
                last_final: None,
                current_has_audio: false,
                place,
            },
        )
    }
}

/// Batches and live sessions never exceed the engine's capacity: through any history of operations
/// that take a place and give it back when they end, are dropped, or fail to start, those in progress
/// are those that hold a place; the next one is refused as busy exactly when as many as allowed are
/// in progress, and once one of them ends there is a place again.
pub proof fn operations_are_bounded(engine: SttEngine, history: Seq<PlaceEvent>)
    requires
        engine.in_progress() == 0,
        returns_are_held(engine.capacity(), history),
    ensures
        ({
            let most = engine.capacity();
            let now = held_after(most, history);
            &&& now == count_of(most, history)
            &&& now <= most
            &&& now == most <==> capacity_refusal(now as nat, most) == Some(SttError::Busy)
            &&& now < most <==> capacity_refusal(now as nat, most) is None
            &&& now > 0 ==> capacity_refusal(
                count_of(most, history.push(PlaceEvent::Return)),
                most,
            ) is None
        }),
{
    places_are_bounded(engine.capacity(), history);
    assert(history.push(PlaceEvent::Return).drop_last() =~= history);
}

/// What a batch result comes to after the recognizer has accepted all samples.
pub fn batch_accepted(native: Result<(), SttError>, signals: RequestSignals) -> (r: Result<
    (),
    SttError,
>)
    ensures
        match r {
            Ok(()) => native is Ok && stop_error(signals) is None,
            Err(e) => match native {
                Err(failure) => e == failure,
                Ok(()) => stop_error(signals) == Some(e),
            },
        },
{
    match native {
        Err(e) => Err(e),
        Ok(()) => ensure_active(signals),
    }
}

/// What a batch result comes to after the recognizer has finished.
pub fn batch_finished(native: Result<String, SttError>, signals: RequestSignals) -> (r: Result<
    String,
    SttError,
>)
    ensures
        match r {
            Ok(text) => native == Ok::<String, SttError>(text) && stop_error(signals) is None,
            Err(e) => match native {
                Err(failure) => e == failure,
                Ok(_) => stop_error(signals) == Some(e),
            },
        },
{
    match native {
        Err(e) => Err(e),
        Ok(text) => match ensure_active(signals) {
            Ok(()) => Ok(text),
            Err(e) => Err(e),
        },
    }
}

/// What to ask of the recognizer after it accepted a frame.
#[derive(Debug, Clone, Copy, PartialEq, Eq, Structural)]
pub enum FrameStep {
    /// The utterance ended: finish it.
    FinishUtterance,
    /// Read the current hypothesis.
    ReadInterim,
}

/// What is left to do to close a session.
#[derive(Debug)]
pub enum FinishStep {
    /// Hand these samples to the recognizer first.
    AcceptResidual(Vec<Sample>),
    /// Finish the open utterance.
    FinishStream,
    /// Publish this text: no audio followed the last final result.
    Publish(String),
}

/// A transcript over plain text.
pub struct Published {
    /// Whether the text is interim or final.
    pub kind: TranscriptKind,
    /// The text.
    pub text: Seq<char>,
}

/// A transcript's text and kind.
pub open spec fn published_view(update: Transcript) -> Published {
    Published { kind: update.kind, text: update.text@ }
}

/// What a session knows of the utterances it has heard.
pub struct Recognition {
    /// The detector's counters.
    pub activity: VadState,
    /// The last published hypothesis of the open utterance.
    pub hypothesis: Seq<char>,
    /// The last final result.
    pub last_result: Option<Seq<char>>,
    /// Whether the open utterance has any audio.
    pub has_audio: bool,
}

impl Recognition {
    /// Nothing heard yet.
    pub open spec fn initial() -> Recognition {
        Recognition {
            activity: VadState::idle(),
            hypothesis: Seq::empty(),
            last_result: None,
            has_audio: false,
        }
    }

    /// After the recognizer was given a frame of `samples` samples.
    pub open spec fn heard(
        self,
        config: VadConfig,
        rate: u32,
        samples: nat,
        voiced: bool,
    ) -> Recognition {
        Recognition {
            activity: self.activity.next(config, rate, samples, voiced),
            has_audio: true,
            ..self
        }
    }

    /// Whether such a frame ends the utterance.
    pub open spec fn closes(
        self,
        config: VadConfig,
        rate: u32,
        samples: nat,
        voiced: bool,
    ) -> bool {
        self.activity.event(config, rate, samples, voiced) == VadEvent::Ended
    }

    /// Whether a hypothesis is worth publishing: it is not empty and does not repeat the last.
    pub open spec fn is_news(self, text: Seq<char>) -> bool {
        text.len() > 0 && text != self.hypothesis
    }

    /// After a hypothesis was read.
    pub open spec fn offered(self, text: Seq<char>) -> Recognition {
        if self.is_news(text) {
            Recognition { hypothesis: text, ..self }
        } else {
            self
        }
    }

    /// What reading a hypothesis publishes, if anything.
    pub open spec fn interim(self, text: Seq<char>) -> Option<Published> {
        if self.is_news(text) {
            Some(Published { kind: TranscriptKind::Interim, text })
        } else {
            None
        }
    }

    /// After the utterance ended with a text.
    pub open spec fn concluded(self, text: Seq<char>) -> Recognition {
        Recognition { last_result: Some(text), ..self }
    }

    /// After the recognizer opened a stream for the next utterance.
    pub open spec fn reopened(self) -> Recognition {
        Recognition { hypothesis: Seq::empty(), has_audio: false, ..self }
    }
}

/// What a final result with this text publishes.
pub open spec fn final_result(text: Seq<char>) -> Published {
    Published { kind: TranscriptKind::Final, text }
}

/// Whether the samples that a chunk completes are more than conversion can place, after these bytes
/// and samples.
pub open spec fn conversion_overflows(
    received: Seq<u8>,
    decoded: Seq<Sample>,
    bytes: Seq<u8>,
) -> bool {
    decoded.len() + emitted(received, bytes).len() > u64::MAX / 48_000
}

/// Whether a stream stays within its bounds with these bytes after those received.
pub open spec fn decodable(
    bounds: AudioLimits,
    rate: u32,
    received: Seq<u8>,
    bytes: Seq<u8>,
) -> bool {
    let total = received.len() + bytes.len();
    bounds.admit_failure(total, rate, total / 2) is None
}

/// Why a chunk is refused after these bytes and samples, if it is; `stop` is how a stop is reported.
pub open spec fn chunk_refusal(
    bounds: AudioLimits,
    rate: u32,
    chunk_bound: usize,
    received: Seq<u8>,
    decoded: Seq<Sample>,
    bytes: Seq<u8>,
    stop: Option<SttError>,
) -> Option<SttError> {
    if bytes.len() == 0 || bytes.len() > chunk_bound {
        Some(SttError::InvalidInput)
    } else if stop is Some {
        stop
    } else if !decodable(bounds, rate, received, bytes) {
        Some(SttError::Audio)
    } else if conversion_overflows(received, decoded, bytes) {
        Some(SttError::Audio)
    } else {
        None
    }
}

/// Why a session cannot be closed, if it cannot; `stop` is how a stop is reported.
pub open spec fn closing_refusal(
    received: Seq<u8>,
    waiting: Seq<Sample>,
    recognition: Recognition,
    stop: Option<SttError>,
) -> Option<SttError> {
    if stop is Some {
        stop
    } else if received.len() % 2 != 0 || received.len() == 0 {
        Some(SttError::Audio)
    } else if waiting.len() == 0 && !recognition.has_audio && recognition.last_result is None {
        Some(SttError::Audio)
    } else {
        None
    }
}

/// One bounded incremental raw-PCM16 recognition session.
pub struct StreamingSession {
    decoder: IncrementalPcm16,
    resampler: StreamingResampler,
    vad: EnergyVad,
    max_chunk_bytes: usize,
    residual: Vec<Sample>,
    last_interim: String,
    last_final: Option<String>,
    current_has_audio: bool,
    place: Place,
}

/// The view of an optional text.
pub open spec fn optional_text(text: Option<String>) -> Option<Seq<char>> {
    match text {
        Some(text) => Some(text@),
        None => None,
    }
}

impl StreamingSession {
    /// Sample rate of the stream.
    pub closed spec fn rate(self) -> u32 {
        self.decoder.rate()
    }

    /// The admission limits.
    pub closed spec fn bounds(self) -> AudioLimits {
        self.decoder.bounds()
    }

    /// Every byte accepted so far.
    pub closed spec fn received(self) -> Seq<u8> {
        self.decoder.received()
    }

    /// Every sample decoded and handed to conversion so far.
    pub closed spec fn decoded(self) -> Seq<Sample> {
        self.resampler.wave()
    }

    /// The converter's rates.
    pub closed spec fn conversion(self) -> (u32, u32) {
        (self.resampler.source(), self.resampler.target())
    }

    /// Samples that do not make a frame yet.
    pub closed spec fn waiting(self) -> Seq<Sample> {
        self.residual@
    }

    /// The detector's counters.
    pub closed spec fn activity(self) -> VadState {
        self.vad.state()
    }

    /// The detector's configuration and rate.
    pub closed spec fn detector(self) -> (VadConfig, u32) {
        (self.vad.settings(), self.vad.rate())
    }

    /// Largest accepted chunk.
    pub closed spec fn chunk_bound(self) -> usize {
        self.max_chunk_bytes
    }

    /// The last published hypothesis of the open utterance.
    pub closed spec fn hypothesis(self) -> Seq<char> {
        self.last_interim@
    }

    /// The last final result.
    pub closed spec fn last_result(self) -> Option<Seq<char>> {
        optional_text(self.last_final)
    }

    /// Whether the open utterance has any audio.
    pub closed spec fn has_audio(self) -> bool {
        self.current_has_audio
    }

    /// The place that the session holds.
    pub closed spec fn held(self) -> Place {
        self.place
    }

    /// What the session knows of the utterances it has heard.
    pub open spec fn recognition(self) -> Recognition {
        Recognition {
            activity: self.activity(),
            hypothesis: self.hypothesis(),
            last_result: self.last_result(),
            has_audio: self.has_audio(),
        }
    }

    /// A session that has received nothing.
    pub open spec fn fresh(self, rate: u32, limits: SttLimits, vad: VadConfig) -> bool {
        &&& self.rate() == rate
        &&& self.bounds() == limits.audio
        &&& self.received() == Seq::<u8>::empty()
        &&& self.decoded() == Seq::<Sample>::empty()
        &&& self.conversion() == (rate, ENGINE_SAMPLE_RATE)
        &&& self.waiting() == Seq::<Sample>::empty()
        &&& self.detector() == (vad, ENGINE_SAMPLE_RATE)
        &&& self.chunk_bound() == limits.max_chunk_bytes
        &&& self.recognition() == Recognition::initial()
    }

    /// Whether everything received has been handed to conversion.
    pub open spec fn in_step(self) -> bool {
        self.decoded() == wave_of(decode_pcm16(self.received()))
    }

    /// Everything that recognition does not touch.
    pub open spec fn same_input(self, other: StreamingSession) -> bool {
        &&& self.rate() == other.rate()
        &&& self.bounds() == other.bounds()
        &&& self.received() == other.received()
        &&& self.decoded() == other.decoded()
        &&& self.conversion() == other.conversion()
        &&& self.detector() == other.detector()
        &&& self.chunk_bound() == other.chunk_bound()
        &&& self.held() == other.held()
    }

    /// Why a chunk is refused, if it is.
    pub open spec fn chunk_failure(self, bytes: Seq<u8>, signals: RequestSignals) -> Option<
        SttError,
    > {
        chunk_refusal(
            self.bounds(),
            self.rate(),
            self.chunk_bound(),
            self.received(),
            self.decoded(),
            bytes,
            stop_error(signals),
        )
    }

    /// Whether a chunk is decoded, even where its samples are then more than conversion can place.
    pub open spec fn takes(self, bytes: Seq<u8>, signals: RequestSignals) -> bool {
        &&& 0 < bytes.len() <= self.chunk_bound()
        &&& stop_error(signals) is None
        &&& decodable(self.bounds(), self.rate(), self.received(), bytes)
    }

    /// Accepts one arbitrary raw little-endian PCM16 byte frame and plans the conversion of the
    /// samples it completes; `None` where it completes none, and nothing is left to do.
    pub fn push_pcm16(&mut self, bytes: &[u8], signals: RequestSignals) -> (r: Result<
        Option<Vec<Interpolation>>,
        SttError,
    >)
        ensures
            final(self).recognition() == old(self).recognition(),
            final(self).waiting() == old(self).waiting(),
            final(self).rate() == old(self).rate(),
            final(self).bounds() == old(self).bounds(),
            final(self).conversion() == old(self).conversion(),
            final(self).detector() == old(self).detector(),
            final(self).chunk_bound() == old(self).chunk_bound(),
            final(self).held() == old(self).held(),
            match r {
                Ok(steps) => {
                    &&& old(self).chunk_failure(bytes@, signals) is None
                    &&& final(self).received() == old(self).received() + bytes@
                    &&& final(self).decoded() == old(self).decoded() + emitted(
                        old(self).received(),
                        bytes@,
                    )
                    &&& old(self).in_step() ==> final(self).in_step()
                    &&& steps is None <==> emitted(old(self).received(), bytes@).len() == 0
                    &&& steps matches Some(steps) ==> stream_steps(
                        old(self).decoded(),
                        old(self).conversion().0,
                        old(self).conversion().1,
                    ) + steps@ == stream_steps(
                        final(self).decoded(),
                        old(self).conversion().0,
                        old(self).conversion().1,
                    )
                },
                Err(e) => {
                    &&& old(self).chunk_failure(bytes@, signals) == Some(e)
                    &&& final(self).decoded() == old(self).decoded()
                    &&& final(self).received() == if old(self).takes(bytes@, signals) {
                        old(self).received() + bytes@
                    } else {
                        old(self).received()
                    }
                },
            },
    {
        if bytes.len() == 0 || bytes.len() > self.max_chunk_bytes {
            return Err(SttError::InvalidInput);
        }
        match ensure_active(signals) {
            Ok(()) => {},
            Err(e) => {
                return Err(e);
            },
        }
        let decoded = match self.decoder.push(bytes) {
            Ok(decoded) => decoded,
            Err(_) => {
                return Err(SttError::Audio);
            },
        };
        proof {
            frame_boundaries_are_invisible(old(self).received(), bytes@, Seq::empty());
        }
        match self.resampler.push(decoded.as_slice()) {
            Ok(steps) => if decoded.is_empty() {
                Ok(None)
            } else {
                Ok(Some(steps))
            },
            Err(_) => Err(SttError::Audio),
        }
    }

    /// Queues converted samples and hands out the complete frames.
    pub fn queue_converted(&mut self, converted: &[Sample]) -> (frames: Vec<Vec<Sample>>)
        ensures
            final(self).recognition() == old(self).recognition(),
            final(self).same_input(*old(self)),
            frame_views(frames@) == whole_frames(old(self).waiting() + converted@),
            final(self).waiting() == left_over(old(self).waiting() + converted@),
    {
        cut_frames(&mut self.residual, converted)
    }

    /// Records that the recognizer was given a frame; `voiced` tells whether it reaches the
    /// voice-activity threshold.
    pub fn frame_accepted(
        &mut self,
        native: Result<(), SttError>,
        frame: &[Sample],
        voiced: bool,
    ) -> (r: Result<FrameStep, SttError>)
        ensures
            final(self).same_input(*old(self)),
            final(self).waiting() == old(self).waiting(),
            ({
                let (config, rate) = old(self).detector();
                let before = old(self).recognition();
                match native {
                    Err(failure) => {
                        &&& r == Err::<FrameStep, SttError>(failure)
                        &&& final(self).recognition() == before
                    },
                    Ok(()) => if EnergyVad::valid_frame(frame@) {
                        &&& r == Ok::<FrameStep, SttError>(
                            if before.closes(config, rate, frame@.len(), voiced) {
                                FrameStep::FinishUtterance
                            } else {
                                FrameStep::ReadInterim
                            },
                        )
                        &&& final(self).recognition() == before.heard(
                            config,
                            rate,
                            frame@.len(),
                            voiced,
                        )
                    } else {
                        &&& r == Err::<FrameStep, SttError>(SttError::Audio)
                        &&& final(self).recognition() == (Recognition { has_audio: true, ..before })
                    },
                }
            }),
    {
        match native {
            Ok(()) => {},
            Err(e) => {
                return Err(e);
            },
        }
        self.current_has_audio = true;
        match self.vad.process(frame, voiced) {
            Ok(VadEvent::Ended) => Ok(FrameStep::FinishUtterance),
            Ok(_) => Ok(FrameStep::ReadInterim),
            Err(_) => Err(SttError::Audio),
        }
    }

    /// Publishes a hypothesis unless it is empty or repeats the last one.
    pub fn interim_read(&mut self, native: Result<String, SttError>) -> (r: Result<
        Option<Transcript>,
        SttError,
    >)
        ensures
            final(self).same_input(*old(self)),
            final(self).waiting() == old(self).waiting(),
            match native {
                Err(failure) => {
                    &&& r is Err && r->Err_0 == failure
                    &&& final(self).recognition() == old(self).recognition()
                },
                Ok(text) => {
                    &&& r is Ok
                    &&& old(self).recognition().interim(text@) == match r->Ok_0 {
                        Some(update) => Some(published_view(update)),
                        None => None,
                    }
                    &&& final(self).recognition() == old(self).recognition().offered(text@)
                },
            },
    {
        let text = match native {
            Ok(text) => text,
            Err(e) => {
                return Err(e);
            },
        };
        let empty = same_text(text.as_str(), "");
        proof {
            reveal_strlit("");
            if text@.len() == 0 {
                assert(text@ =~= ""@);
            }
        }
        if empty || same_text(text.as_str(), self.last_interim.as_str()) {
            return Ok(None);
        }
        self.last_interim = text.clone();
        Ok(Some(Transcript { kind: TranscriptKind::Interim, text }))
    }

    /// Publishes the final result of an utterance that voice activity ended; `signals` are those
    /// after the recognizer finished.
    pub fn utterance_finished(
        &mut self,
        native: Result<String, SttError>,
        signals: RequestSignals,
    ) -> (r: Result<Transcript, SttError>)
        ensures
            final(self).same_input(*old(self)),
            final(self).waiting() == old(self).waiting(),
            match native {
                Err(failure) => {
                    &&& r is Err && r->Err_0 == failure
                    &&& final(self).recognition() == old(self).recognition()
                },
                Ok(text) => match r {
                    Ok(update) => {
                        &&& stop_error(signals) is None
                        &&& published_view(update) == final_result(text@)
                        &&& final(self).recognition() == old(self).recognition().concluded(text@)
                    },
                    Err(e) => {
                        &&& stop_error(signals) == Some(e)
                        &&& final(self).recognition() == old(self).recognition()
                    },
                },
            },
    {
        let text = match native {
            Ok(text) => text,
            Err(e) => {
                return Err(e);
            },
        };
        match ensure_active(signals) {
            Ok(()) => {},
            Err(e) => {
                return Err(e);
            },
        }
        self.last_final = Some(text.clone());
        Ok(Transcript { kind: TranscriptKind::Final, text })
    }

    /// Starts the next utterance once the recognizer has opened a new stream.
    pub fn stream_replaced(&mut self, native: Result<(), SttError>) -> (r: Result<(), SttError>)
        ensures
            final(self).same_input(*old(self)),
            final(self).waiting() == old(self).waiting(),
            match native {
                Err(failure) => {
                    &&& r is Err && r->Err_0 == failure
                    &&& final(self).recognition() == old(self).recognition()
                },
                Ok(()) => {
                    &&& r is Ok
                    &&& final(self).recognition() == old(self).recognition().reopened()
                },
            },
    {
        match native {
            Ok(()) => {},
            Err(e) => {
                return Err(e);
            },
        }
        self.current_has_audio = false;
        self.last_interim = String::new();
        Ok(())
    }

    /// Closes input. Rejects a stopped request and partial or empty PCM. Either way what is left of
    /// the session holds its place.
    pub fn finish(self, signals: RequestSignals) -> (r: (
        ClosingSession,
        Result<FinishStep, SttError>,
    ))
        ensures
            r.0.recognition() == self.recognition(),
            r.0.detector() == self.detector(),
            r.0.held() == self.held(),
            match r.1 {
                Ok(step) => {
                    &&& self.closing_failure(signals) is None
                    &&& match step {
                        FinishStep::AcceptResidual(samples) => {
                            &&& self.waiting().len() > 0
                            &&& samples@ == self.waiting()
                        },
                        FinishStep::FinishStream => self.waiting().len() == 0 && self.has_audio(),
                        FinishStep::Publish(text) => {
                            &&& self.waiting().len() == 0
                            &&& !self.has_audio()
                            &&& self.last_result() == Some(text@)
                        },
                    }
                },
                Err(e) => self.closing_failure(signals) == Some(e),
            },
    {
        let StreamingSession {
            decoder,
            vad,
            residual,
            last_interim,
            last_final,
            current_has_audio,
            place,
            ..
        } = self;
        let closing = ClosingSession { vad, last_interim, last_final, current_has_audio, place };
        match ensure_active(signals) {
            Ok(()) => {},
            Err(e) => {
                return (closing, Err(e));
            },
        }
        match decoder.finish() {
            Ok(_) => {},
            Err(_) => {
                return (closing, Err(SttError::Audio));
            },
        }
        if residual.len() > 0 {
            return (closing, Ok(FinishStep::AcceptResidual(residual)));
        }
        let step = closing.next_step();
        (closing, step)
    }

    /// Ends the session without a result and gives its place up.
    pub fn abandon(self) -> (place: Place)
        ensures
            place == self.held(),
    {
        self.place
    }

    /// Why a session cannot be closed, if it cannot.
    pub open spec fn closing_failure(self, signals: RequestSignals) -> Option<SttError> {
        closing_refusal(self.received(), self.waiting(), self.recognition(), stop_error(signals))
    }
}

/// A session whose input is closed.
pub struct ClosingSession {
    vad: EnergyVad,
    last_interim: String,
    last_final: Option<String>,
    current_has_audio: bool,
    place: Place,
}

impl ClosingSession {
    /// The place that the session holds.
    pub closed spec fn held(self) -> Place {
        self.place
    }

    /// What is known of the utterances heard.
    pub closed spec fn recognition(self) -> Recognition {
        Recognition {
            activity: self.vad.state(),
            hypothesis: self.last_interim@,
            last_result: optional_text(self.last_final),
            has_audio: self.current_has_audio,
        }
    }

    /// The detector's configuration and rate.
    pub closed spec fn detector(self) -> (VadConfig, u32) {
        (self.vad.settings(), self.vad.rate())
    }

    fn next_step(&self) -> (r: Result<FinishStep, SttError>)
        ensures
            match r {
                Ok(FinishStep::AcceptResidual(_)) => false,
                Ok(FinishStep::FinishStream) => self.recognition().has_audio,
                Ok(FinishStep::Publish(text)) => {
                    &&& !self.recognition().has_audio
                    &&& self.recognition().last_result == Some(text@)
                },
                Err(e) => {
                    &&& e == SttError::Audio
                    &&& !self.recognition().has_audio
                    &&& self.recognition().last_result is None
                },
            },
    {
        if self.current_has_audio {
            return Ok(FinishStep::FinishStream);
        }
        match &self.last_final {
            Some(text) => Ok(FinishStep::Publish(text.clone())),
            None => Err(SttError::Audio),
        }
    }

    /// Records that the recognizer was given the samples that made no frame: the open utterance
    /// then has audio and is to be finished.
    pub fn residual_accepted(
        &mut self,
        native: Result<(), SttError>,
        residual: &[Sample],
        voiced: bool,
    ) -> (r: Result<(), SttError>)
        ensures
            final(self).detector() == old(self).detector(),
            final(self).held() == old(self).held(),
            ({
                let (config, rate) = old(self).detector();
                let before = old(self).recognition();
                match native {
                    Err(failure) => {
                        &&& r == Err::<(), SttError>(failure)
                        &&& final(self).recognition() == before
                    },
                    Ok(()) => if EnergyVad::valid_frame(residual@) {
                        &&& r is Ok
                        &&& final(self).recognition() == before.heard(
                            config,
                            rate,
                            residual@.len(),
                            voiced,
                        )
                    } else {
                        &&& r == Err::<(), SttError>(SttError::Audio)
                        &&& final(self).recognition() == (Recognition { has_audio: true, ..before })
                    },
                }
            }),
    {
        match native {
            Ok(()) => {},
            Err(e) => {
                return Err(e);
            },
        }
        self.current_has_audio = true;
        match self.vad.process(residual, voiced) {
            Ok(_) => Ok(()),
            Err(_) => Err(SttError::Audio),
        }
    }

    /// Publishes the session's last final result and gives its place up; `signals` are those after
    /// the recognizer finished.
    pub fn published(self, text: Result<String, SttError>, signals: RequestSignals) -> (r: (
        Result<Transcript, SttError>,
        Place,
    ))
        ensures
            r.1 == self.held(),
            match text {
                Err(failure) => r.0 is Err && r.0->Err_0 == failure,
                Ok(text) => match r.0 {
                    Ok(update) => {
                        &&& stop_error(signals) is None
                        &&& published_view(update) == final_result(text@)
                    },
                    Err(e) => stop_error(signals) == Some(e),
                },
            },
    {
        let result = match batch_finished(text, signals) {
            Ok(text) => Ok(Transcript { kind: TranscriptKind::Final, text }),
            Err(e) => Err(e),
        };
        (result, self.place)
    }

    /// Ends the session without a result and gives its place up.
    pub fn abandon(self) -> (place: Place)
        ensures
            place == self.held(),
    {
        self.place
    }
}

/// A new session is in step, and chunks that are accepted keep it so: together with the laws of
/// decoding, conversion, and framing, what the recognizer is given depends on the bytes alone.
pub proof fn new_sessions_are_in_step(
    session: StreamingSession,
    rate: u32,
    limits: SttLimits,
    vad: VadConfig,
)
    requires
        session.fresh(rate, limits, vad),
    ensures
        session.in_step(),
{
    assert(session.decoded() =~= wave_of(decode_pcm16(session.received())));
}

/// A stop is reported by its reason, cancellation before the deadline, and as nothing else.
pub proof fn stops_are_reported_by_reason(signals: RequestSignals)
    ensures
        stop_error(signals) == Some(SttError::Cancelled) <==> signals.cancelled,
        stop_error(signals) == Some(SttError::DeadlineExceeded) <==> signals.expired
            && !signals.cancelled,
        stop_error(signals) is None <==> !signals.expired && !signals.cancelled,
{
}

/// A hypothesis is published once: one that is empty or was just published says nothing new, and one
/// that differs is published as it is, as interim. With a new utterance everything but the empty
/// text is news again. Reading a hypothesis changes nothing else.
pub proof fn hypotheses_are_published_once(
    recognition: Recognition,
    first: Seq<char>,
    second: Seq<char>,
)
    ensures
        recognition.interim(Seq::empty()) is None,
        recognition.interim(recognition.hypothesis) is None,
        first.len() > 0 && first != recognition.hypothesis ==> recognition.interim(first) == Some(
            Published { kind: TranscriptKind::Interim, text: first },
        ),
        recognition.offered(first).interim(first) is None,
        first.len() > 0 && second.len() > 0 && first != second ==> recognition.offered(
            first,
        ).interim(second) is Some,
        first.len() > 0 ==> recognition.reopened().interim(first) is Some,
        recognition.offered(first).activity == recognition.activity,
        recognition.offered(first).last_result == recognition.last_result,
        recognition.offered(first).has_audio == recognition.has_audio,
{
}

/// What an utterance ends with is kept until the next one ends: neither the audio that follows, nor
/// its hypotheses, nor a new stream change it.
pub proof fn results_outlast_their_utterance(
    recognition: Recognition,
    text: Seq<char>,
    later: Seq<char>,
    config: VadConfig,
    rate: u32,
    samples: nat,
    voiced: bool,
)
    ensures
        final_result(text) == (Published { kind: TranscriptKind::Final, text }),
        recognition.concluded(text).last_result == Some(text),
        recognition.concluded(text).reopened().offered(later).heard(
            config,
            rate,
            samples,
            voiced,
        ).last_result == Some(text),
        !recognition.concluded(text).reopened().has_audio,
        recognition.concluded(text).reopened().activity == recognition.activity,
        recognition.heard(config, rate, samples, voiced).has_audio,
        recognition.heard(config, rate, samples, voiced).hypothesis == recognition.hypothesis,
{
}

/// A chunk that is empty or too long is invalid even where the request must stop; one of acceptable
/// size is refused for the stop; and otherwise the audio decides, by what all chunks together come
/// to.
pub proof fn chunks_are_refused_in_order(
    bounds: AudioLimits,
    rate: u32,
    chunk_bound: usize,
    received: Seq<u8>,
    decoded: Seq<Sample>,
    bytes: Seq<u8>,
    signals: RequestSignals,
)
    ensures
        ({
            let refusal = chunk_refusal(
                bounds,
                rate,
                chunk_bound,
                received,
                decoded,
                bytes,
                stop_error(signals),
            );
            &&& refusal == Some(SttError::InvalidInput) <==> bytes.len() == 0 || bytes.len()
                > chunk_bound
            &&& refusal == Some(SttError::Cancelled) <==> 0 < bytes.len() <= chunk_bound
                && signals.cancelled
            &&& refusal == Some(SttError::DeadlineExceeded) <==> 0 < bytes.len() <= chunk_bound
                && signals.expired && !signals.cancelled
            &&& refusal is None ==> bounds.admit_failure(
                received.len() + bytes.len(),
                rate,
                (received.len() + bytes.len()) / 2,
            ) is None
            &&& refusal is Some ==> refusal != Some(SttError::Busy) && refusal != Some(
                SttError::Engine,
            )
        }),
{
}

/// A session is closed exactly when the request goes on, whole samples were received, and there is
/// something to publish: samples that wait, an open utterance with audio, or an earlier result.
pub proof fn sessions_close_with_something_to_say(
    received: Seq<u8>,
    waiting: Seq<Sample>,
    recognition: Recognition,
    signals: RequestSignals,
)
    ensures
        ({
            let refusal = closing_refusal(received, waiting, recognition, stop_error(signals));
            &&& refusal is None <==> {
                &&& !signals.cancelled && !signals.expired
                &&& received.len() > 0 && received.len() % 2 == 0
                &&& waiting.len() > 0 || recognition.has_audio || recognition.last_result is Some
            }
            &&& refusal == Some(SttError::Cancelled) <==> signals.cancelled
            &&& refusal == Some(SttError::DeadlineExceeded) <==> signals.expired
                && !signals.cancelled
            &&& refusal == Some(SttError::Audio) <==> refusal is Some && !signals.cancelled
                && !signals.expired
        }),
{
}

/// A batch is refused for a stop before the server is found full, and for that before its audio is
/// looked at.
pub proof fn batches_are_refused_in_order(
    engine: SttEngine,
    audio: MonoPcm,
    signals: RequestSignals,
)
    ensures
        engine.batch_failure(audio, signals) == Some(SttError::Cancelled) <==> signals.cancelled,
        engine.batch_failure(audio, signals) == Some(SttError::DeadlineExceeded) <==> signals.expired
            && !signals.cancelled,
        engine.batch_failure(audio, signals) == Some(SttError::Busy) <==> !signals.cancelled
            && !signals.expired && engine.in_progress() >= engine.capacity(),
        engine.batch_failure(audio, signals) is None ==> engine.in_progress() < engine.capacity()
            && 2 * audio.wave().len() <= engine.policy().audio.byte_bound(),
{
}

/// A recognizer's result is passed on unless the request must stop, and the recognizer's own failure
/// comes first.
pub proof fn recognizer_results_are_passed_on(
    native: Result<String, SttError>,
    signals: RequestSignals,
    result: Result<String, SttError>,
)
    requires
        call_ensures(batch_finished, (native, signals), result),
    ensures
        native is Err ==> result == native,
        native is Ok && !signals.cancelled && !signals.expired ==> result == native,
        native is Ok && signals.cancelled ==> result == Err::<String, SttError>(
            SttError::Cancelled,
        ),
        native is Ok && signals.expired && !signals.cancelled ==> result == Err::<
            String,
            SttError,
        >(SttError::DeadlineExceeded),
{
}

/// A policy can be used exactly when something may run, a chunk may hold something, and the
/// detector's settings can be used.
pub proof fn policies_allow_something(limits: SttLimits, vad: VadConfig)
    ensures
        valid_policy(limits, vad) <==> limits.max_concurrent > 0 && limits.max_chunk_bytes > 0
            && EnergyVad::valid_config(vad),
{
}

/// A chunk of acceptable size is taken exactly when everything received with it stays within the
/// byte and duration bounds, and its samples can be placed in time at every rate.
pub proof fn acceptable_chunks_are_taken(
    bounds: AudioLimits,
    rate: u32,
    chunk_bound: usize,
    received: Seq<u8>,
    decoded: Seq<Sample>,
    bytes: Seq<u8>,
)
    requires
        0 < bytes.len() <= chunk_bound,
        rate * bounds.duration_bound_ms() <= u64::MAX,
    ensures
        ({
            let total = received.len() + bytes.len();
            chunk_refusal(bounds, rate, chunk_bound, received, decoded, bytes, None) is None <==> {
                &&& total <= bounds.byte_bound()
                &&& (total / 2) * 1_000 <= rate * bounds.duration_bound_ms()
                &&& (decoded.len() + emitted(received, bytes).len()) * 48_000 <= u64::MAX
            }
        }),
{
    let total = received.len() + bytes.len();
    admission_is_bounded_by_size_and_duration(bounds, total, rate, total / 2, 0, 0);
}

/// An update is published with its own text and kind.
pub proof fn updates_are_published_as_they_are(update: Transcript)
    ensures
        published_view(update).text == update.text@,
        published_view(update).kind == update.kind,
{
}

}
