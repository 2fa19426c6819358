//! Bounded speech-synthesis policy and completed results.

use vstd::prelude::*;
use vstd::arithmetic::power2::pow2;
use vstd::string::*;
use vstd::utf8::encode_utf8;
use crate::audio::{all_normalized, supported_rate, values_of, MonoPcm};
use crate::chunks::{
    chunked, chunks_are_the_whole, concatenated, copy_slice, cut, piece_views,
};
use crate::limiter::{count_after, Limiter, Place, PlaceEvent};
use crate::native::{
    contains_nul, has_nul, speeds_lie_between_half_and_double, valid_speed, GeneratedAudio,
};
use crate::pcm::encode_pcm16;
use crate::request::{RequestSignals, RequestStop};
use crate::sample::{absolute_value, Sample};
use crate::text::{blank, is_blank, whitespace};
use crate::wav::wav_image;

verus! {

/// Sanitized speech-synthesis failure.
#[derive(Debug, Clone, Copy, PartialEq, Eq, Structural)]
pub enum TtsError {
    /// Input or configuration was invalid.
    InvalidInput,
    /// The bounded execution capacity is occupied.
    Busy,
    /// The caller or server cancelled the operation.
    Cancelled,
    /// The operation exhausted its deadline.
    DeadlineExceeded,
    /// The native synthesizer failed without exposing private runtime details.
    Engine,
    /// Native output was invalid or outside the product bound.
    Output,
}

impl TtsError {
    /// The stable description.
    pub open spec fn text(self) -> Seq<char> {
        match self {
            TtsError::InvalidInput => "speech synthesis input is invalid"@,
            TtsError::Busy => "speech synthesis capacity is busy"@,
            TtsError::Cancelled => "speech synthesis was cancelled"@,
            TtsError::DeadlineExceeded => "speech synthesis deadline was exceeded"@,
            TtsError::Engine => "speech synthesis engine failed"@,
            TtsError::Output => "speech synthesis output is invalid"@,
        }
    }

    /// Stable description.
    pub fn message(self) -> (message: &'static str)
        ensures
            message@ == self.text(),
    {
        match self {
            TtsError::InvalidInput => "speech synthesis input is invalid",
            TtsError::Busy => "speech synthesis capacity is busy",
            TtsError::Cancelled => "speech synthesis was cancelled",
            TtsError::DeadlineExceeded => "speech synthesis deadline was exceeded",
            TtsError::Engine => "speech synthesis engine failed",
            TtsError::Output => "speech synthesis output is invalid",
        }
    }
}

/// Bounded speech-synthesis resource policy.
#[derive(Debug, Clone, Copy)]
pub struct TtsLimits {
    /// Maximum simultaneous native synthesis calls.
    pub max_concurrent: usize,
    /// Maximum UTF-8 request length.
    pub max_text_bytes: usize,
    /// Maximum samples copied from the native runtime.
    pub max_output_samples: usize,
    /// Maximum samples exposed in one post-synthesis transport chunk.
    pub max_chunk_samples: usize,
}

impl Default for TtsLimits {
    fn default() -> (limits: Self)
        ensures
            limits == (TtsLimits {
                max_concurrent: 1,
                max_text_bytes: 4_096,
                max_output_samples: 6_615_000,
                max_chunk_samples: 22_050,
            }),
    {
        TtsLimits {
            max_concurrent: 1,
            max_text_bytes: 4_096,
            max_output_samples: 6_615_000,
            max_chunk_samples: 22_050,
        }
    }
}

/// One bounded chunk cut from a completed synthesis result.
///
/// These are transport chunks produced after full native synthesis, not incremental synthesis.
#[derive(Debug, PartialEq)]
pub struct TransportChunk {
    /// Normalized mono samples.
    pub samples: Vec<Sample>,
    /// Whether this is the final chunk of the completed result.
    pub final_chunk: bool,
}

/// The samples of chunks.
pub open spec fn chunk_samples(chunks: Seq<TransportChunk>) -> Seq<Seq<Sample>> {
    chunks.map_values(|chunk: TransportChunk| chunk.samples@)
}

/// Completed owned speech-synthesis result.
#[derive(Debug, PartialEq)]
pub struct Synthesis {
    audio: MonoPcm,
    max_chunk_samples: usize,
}

impl Synthesis {
    #[verifier::type_invariant]
    spec fn well_formed(self) -> bool {
        self.max_chunk_samples > 0
    }

    /// The synthesized recording.
    pub closed spec fn recording(self) -> MonoPcm {
        self.audio
    }

    /// Most samples of one transport chunk.
    pub closed spec fn chunk_bound(self) -> usize {
        self.max_chunk_samples
    }

    /// Creates a completed synthesis result from validated mono PCM.
    pub fn from_audio(audio: MonoPcm, max_chunk_samples: usize) -> (r: Result<Self, TtsError>)
        ensures
            r is Ok <==> max_chunk_samples != 0,
            match r {
                Ok(synthesis) => {
                    &&& synthesis.recording() == audio
                    &&& synthesis.chunk_bound() == max_chunk_samples
                },
                Err(e) => e == TtsError::InvalidInput,
            },
    {
        if max_chunk_samples == 0 {
            return Err(TtsError::InvalidInput);
        }
        Ok(Synthesis { audio, max_chunk_samples })
    }

    /// Validated synthesized mono PCM.
    pub fn audio(&self) -> (audio: &MonoPcm)
        ensures
            *audio == self.recording(),
    {
        &self.audio
    }

    /// Encodes the completed result as raw little-endian PCM16.
    pub fn pcm16(&self) -> (bytes: Vec<u8>)
        ensures
            bytes@ == encode_pcm16(values_of(self.recording().wave())),
    {
        self.audio.to_pcm16_le()
    }

    /// Encodes the completed result as a mono PCM16 RIFF/WAVE file.
    pub fn wav(&self) -> (r: Result<Vec<u8>, TtsError>)
        ensures
            r is Ok <==> 2 * self.recording().wave().len() + 36 <= u32::MAX,
            match r {
                Ok(bytes) => bytes@ == wav_image(
                    self.recording().rate(),
                    encode_pcm16(values_of(self.recording().wave())),
                ),
                Err(e) => e == TtsError::Output,
            },
    {
        match self.audio.to_wav_pcm16() {
            Ok(bytes) => Ok(bytes),
            Err(_) => Err(TtsError::Output),
        }
    }

    /// Splits completed PCM into bounded transport chunks, of which exactly the last is final.
    ///
    /// Native synthesis finishes before the first chunk exists.
    pub fn transport_chunks(&self) -> (chunks: Vec<TransportChunk>)
        ensures
            chunk_samples(chunks@) == chunked(
                self.recording().wave(),
                self.chunk_bound() as nat,
            ),
            chunks@.len() > 0,
            forall|i: int|
                0 <= i < chunks@.len() ==> (#[trigger] chunks@[i]).final_chunk == (i + 1
                    == chunks@.len()),
    {
        proof {
            use_type_invariant(self);
        }
        let samples = self.audio.samples();
        let pieces = cut(samples, self.max_chunk_samples);
        let count: usize = pieces.len();
        let ghost views = piece_views(pieces@);
        assert(views.len() == count);
        let mut chunks: Vec<TransportChunk> = Vec::new();
        let mut index: usize = 0;
        while index < count
            invariant
                index <= count,
                count == pieces@.len(),
                views == piece_views(pieces@),
                chunks@.len() == index,
                chunk_samples(chunks@) =~= views.take(index as int),
                forall|i: int|
                    0 <= i < index ==> (#[trigger] chunks@[i]).final_chunk == (i + 1 == count),
            decreases count - index,
        {
            let ghost before = chunk_samples(chunks@);
            assert(views[index as int] == pieces@[index as int]@);
            chunks.push(
                TransportChunk {
                    samples: copy_slice(pieces[index].as_slice()),
                    final_chunk: index + 1 == count,
                },
            );
            assert(chunk_samples(chunks@) =~= before.push(views[index as int]));
            index += 1;
        }
        assert(views.take(index as int) =~= views);
        chunks
    }
}

/// How a stop is reported.
pub open spec fn stop_error(signals: RequestSignals) -> Option<TtsError> {
    match signals.stop() {
        None => None,
        Some(RequestStop::Cancelled) => Some(TtsError::Cancelled),
        Some(RequestStop::DeadlineExceeded) => Some(TtsError::DeadlineExceeded),
    }
}

/// Refuses to go on with a request that must stop.
pub fn ensure_active(signals: RequestSignals) -> (r: Result<(), TtsError>)
    ensures
        match r {
            Ok(()) => stop_error(signals) is None,
            Err(e) => stop_error(signals) == Some(e),
        },
{
    match signals.stop_reason() {
        None => Ok(()),
        Some(RequestStop::Cancelled) => Err(TtsError::Cancelled),
        Some(RequestStop::DeadlineExceeded) => Err(TtsError::DeadlineExceeded),
    }
}

/// Local speech-synthesis policy.
#[derive(Debug)]
pub struct TtsEngine {
    limiter: Limiter,
    limits: TtsLimits,
}

/// Whether a policy can be used.
pub open spec fn valid_policy(limits: TtsLimits) -> bool {
    &&& limits.max_concurrent != 0
    &&& limits.max_text_bytes != 0
    &&& limits.max_output_samples != 0
    &&& limits.max_chunk_samples != 0
}

impl TtsEngine {
    #[verifier::type_invariant]
    spec fn well_formed(self) -> bool {
        valid_policy(self.limits)
    }

    /// Operations in progress.
    pub closed spec fn in_progress(self) -> nat {
        self.limiter.count()
    }

    /// Most operations at a time.
    pub closed spec fn capacity(self) -> nat {
        self.limiter.bound()
    }

    /// The limits.
    pub closed spec fn policy(self) -> TtsLimits {
        self.limits
    }

    /// What no operation changes.
    pub open spec fn same_policy(self, other: TtsEngine) -> bool {
        self.policy() == other.policy() && self.capacity() == other.capacity()
    }

    /// Bounds a synthesizer: rejects zero resource bounds.
    pub fn new(limits: TtsLimits) -> (r: Result<Self, TtsError>)
        ensures
            r is Ok <==> valid_policy(limits),
            match r {
                Ok(engine) => {
                    &&& engine.policy() == limits
                    &&& engine.capacity() == limits.max_concurrent
                    &&& engine.in_progress() == 0
                },
                Err(e) => e == TtsError::InvalidInput,
            },
    {
        if limits.max_concurrent == 0 || limits.max_text_bytes == 0 || limits.max_output_samples
            == 0 || limits.max_chunk_samples == 0 {
            return Err(TtsError::InvalidInput);
        }
        Ok(TtsEngine { limiter: Limiter::new(limits.max_concurrent), limits })
    }

    /// Whether a text and a speed can be spoken.
    pub open spec fn valid_request(self, text: Seq<char>, speed: Sample) -> bool {
        &&& !blank(text)
        &&& encode_utf8(text).len() <= self.policy().max_text_bytes
        &&& !has_nul(text)
        &&& valid_speed(speed)
    }

    /// Why a request is refused before the synthesizer is asked, if it is.
    pub open spec fn request_failure(
        self,
        text: Seq<char>,
        speed: Sample,
        signals: RequestSignals,
    ) -> Option<TtsError> {
        if !self.valid_request(text, speed) {
            Some(TtsError::InvalidInput)
        } else if stop_error(signals) is Some {
            stop_error(signals)
        } else if self.in_progress() >= self.capacity() {
            Some(TtsError::Busy)
        } else {
            None
        }
    }

    /// Starts the synthesis of one bounded UTF-8 text: takes a place and gives the most samples to
    /// ask the synthesizer for. A refused request takes no place.
    pub fn synthesize(&mut self, text: &str, speed: Sample, signals: RequestSignals) -> (r: Result<
        (usize, Place),
        TtsError,
    >)
        ensures
            final(self).same_policy(*old(self)),
            match r {
                Ok((max_samples, _)) => {
                    &&& old(self).request_failure(text@, speed, signals) is None
                    &&& max_samples == old(self).policy().max_output_samples
                    &&& final(self).in_progress() == old(self).in_progress() + 1
                    &&& final(self).in_progress() <= final(self).capacity()
                },
                Err(e) => {
                    &&& old(self).request_failure(text@, speed, signals) == Some(e)
                    &&& final(self).in_progress() == old(self).in_progress()
                },
            },
    {
        proof {
            use_type_invariant(&*self);
        }
        if is_blank(text) || text.as_bytes().len() > self.limits.max_text_bytes || contains_nul(
            text,
        ) || speed.bits < 0x3f00_0000 || speed.bits > 0x4000_0000 {
            return Err(TtsError::InvalidInput);
        }
        match ensure_active(signals) {
            Ok(()) => {},
            Err(e) => {
                return Err(e);
            },
        }
        let mut limiter = Limiter::new(0);
        std::mem::swap(&mut limiter, &mut self.limiter);
        let taken = limiter.acquire();
        self.limiter = limiter;
        match taken {
            Some(place) => Ok((self.limits.max_output_samples, place)),
            None => Err(TtsError::Busy),
        }
    }

    /// Gives a place back when its operation ends.
    pub fn release(&mut self, place: Place)
        ensures
            final(self).same_policy(*old(self)),
            final(self).in_progress() == count_after(
                old(self).in_progress(),
                old(self).capacity(),
                PlaceEvent::Return,
            ),
    {
        proof {
            use_type_invariant(&*self);
        }
        let mut limiter = Limiter::new(0);
        std::mem::swap(&mut limiter, &mut self.limiter);
        limiter.release(place);
        self.limiter = limiter;
    }

    /// Why generated audio is not published, if it is not. A request that stopped meanwhile is
    /// fenced whatever was generated.
    pub open spec fn publication_failure(
        self,
        generated: GeneratedAudio,
        signals: RequestSignals,
    ) -> Option<TtsError> {
        if stop_error(signals) is Some {
            stop_error(signals)
        } else if generated.samples@.len() > self.policy().max_output_samples
            || MonoPcm::new_failure(generated.sample_rate, generated.samples@) is Some {
            Some(TtsError::Output)
        } else {
            None
        }
    }

    /// Publishes what the synthesizer generated; `signals` are those after it finished.
    pub fn generated(&self, native: Result<GeneratedAudio, TtsError>, signals: RequestSignals) -> (r:
        Result<Synthesis, TtsError>)
        ensures
            match native {
                Err(failure) => r is Err && r->Err_0 == failure,
                Ok(generated) => match r {
                    Ok(synthesis) => {
                        &&& self.publication_failure(generated, signals) is None
                        &&& synthesis.recording().rate() == generated.sample_rate
                        &&& synthesis.recording().wave() == generated.samples@
                        &&& synthesis.chunk_bound() == self.policy().max_chunk_samples
                    },
                    Err(e) => self.publication_failure(generated, signals) == Some(e),
                },
            },
    {
        proof {
            use_type_invariant(self);
        }
        let generated = match native {
            Ok(generated) => generated,
            Err(e) => {
                return Err(e);
            },
        };
        match ensure_active(signals) {
            Ok(()) => {},
            Err(e) => {
                return Err(e);
            },
        }
        if generated.samples.len() > self.limits.max_output_samples {
            return Err(TtsError::Output);
        }
        match MonoPcm::new(generated.sample_rate, generated.samples) {
            Ok(audio) => Synthesis::from_audio(audio, self.limits.max_chunk_samples),
            Err(_) => Err(TtsError::Output),
        }
    }
}

/// A stopped request never publishes audio, whatever the synthesizer generated.
pub proof fn stopped_requests_are_fenced(
    engine: TtsEngine,
    generated: GeneratedAudio,
    signals: RequestSignals,
)
    requires
        signals.cancelled || signals.expired,
    ensures
        engine.publication_failure(generated, signals) is Some,
{
}

/// A request is refused for its input before a stop, and for that before the server is found full.
pub proof fn requests_are_refused_in_order(
    engine: TtsEngine,
    text: Seq<char>,
    speed: Sample,
    signals: RequestSignals,
)
    ensures
        ({
            let failure = engine.request_failure(text, speed, signals);
            let valid = engine.valid_request(text, speed);
            &&& failure == Some(TtsError::InvalidInput) <==> !valid
            &&& failure == Some(TtsError::Cancelled) <==> valid && signals.cancelled
            &&& failure == Some(TtsError::DeadlineExceeded) <==> valid && signals.expired
                && !signals.cancelled
            &&& failure == Some(TtsError::Busy) <==> valid && !signals.cancelled && !signals.expired
                && engine.in_progress() >= engine.capacity()
            &&& failure is None ==> engine.in_progress() < engine.capacity()
        }),
{
}

/// A text is spoken exactly when it says something, fits, and has no NUL, at a speed from one half
/// to two.
pub proof fn spoken_requests_say_something(engine: TtsEngine, text: Seq<char>, speed: Sample)
    ensures
        engine.valid_request(text, speed) <==> {
            &&& exists|i: int| 0 <= i < text.len() && !whitespace(#[trigger] text[i])
            &&& encode_utf8(text).len() <= engine.policy().max_text_bytes
            &&& forall|i: int| 0 <= i < text.len() ==> #[trigger] text[i] != '\0'
            &&& !speed.negative()
            &&& pow2(148) <= absolute_value(speed.bits) <= pow2(150)
        },
{
    speeds_lie_between_half_and_double(speed);
    if !has_nul(text) {
        assert forall|i: int| 0 <= i < text.len() implies #[trigger] text[i] != '\0' by {
            assert(text.contains(text[i]));
        }
    }
}

/// Generated audio is published exactly where the request goes on and it is a recording of
/// acceptable length; a request that was stopped is told the reason of the stop, whatever was
/// generated.
pub proof fn published_audio_is_a_recording(
    engine: TtsEngine,
    generated: GeneratedAudio,
    signals: RequestSignals,
)
    ensures
        ({
            let failure = engine.publication_failure(generated, signals);
            &&& failure == Some(TtsError::Cancelled) <==> signals.cancelled
            &&& failure == Some(TtsError::DeadlineExceeded) <==> signals.expired
                && !signals.cancelled
            &&& failure is None <==> {
                &&& !signals.cancelled && !signals.expired
                &&& generated.samples@.len() <= engine.policy().max_output_samples
                &&& supported_rate(generated.sample_rate)
                &&& generated.samples@.len() > 0
                &&& all_normalized(generated.samples@)
            }
            &&& failure == Some(TtsError::Output) <==> failure is Some && !signals.cancelled
                && !signals.expired
        }),
{
}

/// Transport chunks in a row are the synthesized samples; each is as long as the bound but perhaps
/// the last, and the last one, and no other, says that it is the last.
pub proof fn transport_chunks_are_the_synthesis(
    synthesis: &Synthesis,
    chunks: Vec<TransportChunk>,
    i: int,
)
    requires
        call_ensures(Synthesis::transport_chunks, (synthesis,), chunks),
        synthesis.chunk_bound() > 0,
    ensures
        concatenated(chunk_samples(chunks@)) == synthesis.recording().wave(),
        0 <= i < chunks@.len() ==> {
            &&& chunks@[i].final_chunk <==> i == chunks@.len() - 1
            &&& 0 < chunks@[i].samples@.len() <= synthesis.chunk_bound()
            &&& chunks@[i].samples@.len() < synthesis.chunk_bound() ==> i == chunks@.len() - 1
        },
{
    let wave = synthesis.recording().wave();
    chunks_are_the_whole(wave, synthesis.chunk_bound() as nat);
    if 0 <= i < chunks@.len() {
        assert(chunk_samples(chunks@)[i] == chunks@[i].samples@);
    }
}

/// What is published is what was generated: the same samples at the same rate, and the synthesizer's
/// own failure is passed on.
pub proof fn generated_audio_is_published_as_it_is(
    engine: &TtsEngine,
    native: Result<GeneratedAudio, TtsError>,
    signals: RequestSignals,
    published: Result<Synthesis, TtsError>,
)
    requires
        call_ensures(TtsEngine::generated, (engine, native, signals), published),
    ensures
        published matches Ok(synthesis) ==> {
            &&& native is Ok
            &&& !signals.cancelled && !signals.expired
            &&& synthesis.recording().wave() == native->Ok_0.samples@
            &&& synthesis.recording().rate() == native->Ok_0.sample_rate
        },
        native matches Err(failure) ==> published is Err && published->Err_0 == failure,
        native is Ok && signals.cancelled ==> published is Err && published->Err_0
            == TtsError::Cancelled,
{
}

/// A policy can be used exactly when it allows something of everything.
pub proof fn policies_allow_something(limits: TtsLimits)
    ensures
        valid_policy(limits) <==> limits.max_concurrent > 0 && limits.max_text_bytes > 0
            && limits.max_output_samples > 0 && limits.max_chunk_samples > 0,
{
}

}
