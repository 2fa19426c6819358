//! gRPC request, response, and stream rules.

use vstd::prelude::*;
use vstd::arithmetic::power2::{lemma_pow2_pos, pow2};
use crate::api::{default_limits, VoiceBackendError};
use crate::audio::{pcm16_round_trip, values_of, wave_of, AudioLimits, MonoPcm};
use crate::chunks::{
    chunked, chunks_are_the_whole, concatenated, copy_slice, cut, piece_views,
};
use crate::pcm::{
    decode_pcm16, encode_pcm16, encode_then_decode, values_are_little_endian,
};
use crate::request::{RequestId, RequestIdSource, RequestStop};
use crate::sample::{absolute_value, Sample};
use crate::stt::{Transcript, TranscriptKind};
use crate::tts::Synthesis;
use crate::wav::{files_hold_their_audio_last, wav_failure, wav_image, wav_pcm, wav_rate};

verus! {

/// Longest message in bytes.
pub const MAX_GRPC_MESSAGE_BYTES: usize = 16_777_216;

/// Longest audio message of a stream in bytes.
pub const MAX_STREAM_AUDIO_BYTES: usize = 65_536;

/// Messages that wait for a slow reader.
pub const OUTPUT_QUEUE: usize = 8;

/// Bytes of one outgoing audio message.
pub const TTS_CHUNK_BYTES: usize = 32_768;

/// Status code of a failed call.
#[derive(Debug, Clone, Copy, PartialEq, Eq, Structural)]
pub enum GrpcCode {
    /// The caller's input is invalid.
    InvalidArgument,
    /// A bound is exhausted.
    ResourceExhausted,
    /// The call was cancelled.
    Cancelled,
    /// The deadline elapsed.
    DeadlineExceeded,
    /// The server failed.
    Internal,
}

/// Status of a failed call.
#[derive(Debug, Clone, Copy, PartialEq, Eq)]
pub struct GrpcStatus {
    /// Code.
    pub code: GrpcCode,
    /// Static message.
    pub message: &'static str,
}

/// A status over plain texts.
pub struct StatusView {
    /// Code.
    pub code: GrpcCode,
    /// Message.
    pub message: Seq<char>,
}

impl GrpcStatus {
    /// The status's texts.
    pub open spec fn content(self) -> StatusView {
        StatusView { code: self.code, message: self.message@ }
    }

    /// Creates a status.
    pub fn new(code: GrpcCode, message: &'static str) -> (status: Self)
        ensures
            status.content() == (StatusView { code, message: message@ }),
    {
        GrpcStatus { code, message }
    }

    /// Creates the status of invalid input.
    pub fn invalid(message: &'static str) -> (status: Self)
        ensures
            status.content() == invalid_argument(message@),
    {
        GrpcStatus { code: GrpcCode::InvalidArgument, message }
    }
}

/// The status of invalid input.
pub open spec fn invalid_argument(message: Seq<char>) -> StatusView {
    StatusView { code: GrpcCode::InvalidArgument, message }
}

/// The status that a backend error becomes.
pub open spec fn backend_status(error: VoiceBackendError) -> StatusView {
    match error {
        VoiceBackendError::InvalidInput => invalid_argument("voice input is invalid"@),
        VoiceBackendError::Busy => StatusView {
            code: GrpcCode::ResourceExhausted,
            message: "voice capacity is busy"@,
        },
        VoiceBackendError::Cancelled => StatusView {
            code: GrpcCode::Cancelled,
            message: "the request was cancelled"@,
        },
        VoiceBackendError::DeadlineExceeded => StatusView {
            code: GrpcCode::DeadlineExceeded,
            message: "the request deadline was exceeded"@,
        },
        VoiceBackendError::Engine => StatusView {
            code: GrpcCode::Internal,
            message: "the local voice engine failed"@,
        },
    }
}

/// The status that a backend error becomes.
pub fn map_backend_error(error: VoiceBackendError) -> (status: GrpcStatus)
    ensures
        status.content() == backend_status(error),
{
    match error {
        VoiceBackendError::InvalidInput => GrpcStatus::invalid("voice input is invalid"),
        VoiceBackendError::Busy => GrpcStatus::new(
            GrpcCode::ResourceExhausted,
            "voice capacity is busy",
        ),
        VoiceBackendError::Cancelled => GrpcStatus::new(
            GrpcCode::Cancelled,
            "the request was cancelled",
        ),
        VoiceBackendError::DeadlineExceeded => GrpcStatus::new(
            GrpcCode::DeadlineExceeded,
            "the request deadline was exceeded",
        ),
        VoiceBackendError::Engine => GrpcStatus::new(
            GrpcCode::Internal,
            "the local voice engine failed",
        ),
    }
}

/// Gives a call the next identity.
pub fn identify_call(ids: &mut RequestIdSource) -> (r: Result<RequestId, GrpcStatus>)
    ensures
        match r {
            Ok(id) => {
                &&& old(ids).last() < u64::MAX
                &&& id.number() == old(ids).last() + 1
                &&& final(ids).last() == id.number()
            },
            Err(status) => {
                &&& old(ids).last() == u64::MAX
                &&& *final(ids) == *old(ids)
                &&& status.content() == (StatusView {
                    code: GrpcCode::Internal,
                    message: "request identifiers are unavailable"@,
                })
            },
        },
{
    match ids.next() {
        Ok(id) => Ok(id),
        Err(_) => Err(
            GrpcStatus::new(GrpcCode::Internal, "request identifiers are unavailable"),
        ),
    }
}

/// What a call's own machinery can fail at.
#[derive(Debug, Clone, Copy, PartialEq, Eq, Structural)]
pub enum CallFault {
    /// Its deadline cannot be represented.
    Deadline,
    /// The worker that transcribes failed.
    RecognitionWorker,
    /// The worker that synthesizes failed.
    SynthesisWorker,
}

/// The status of a call whose machinery failed.
pub fn call_fault(fault: CallFault) -> (status: GrpcStatus)
    ensures
        status.content() == (StatusView {
            code: GrpcCode::Internal,
            message: match fault {
                CallFault::Deadline => "request deadline is unavailable"@,
                CallFault::RecognitionWorker => "speech recognition worker failed"@,
                CallFault::SynthesisWorker => "speech synthesis worker failed"@,
            },
        }),
{
    match fault {
        CallFault::Deadline => GrpcStatus::new(
            GrpcCode::Internal,
            "request deadline is unavailable",
        ),
        CallFault::RecognitionWorker => GrpcStatus::new(
            GrpcCode::Internal,
            "speech recognition worker failed",
        ),
        CallFault::SynthesisWorker => GrpcStatus::new(
            GrpcCode::Internal,
            "speech synthesis worker failed",
        ),
    }
}

/// Audio encodings of the protocol.
#[derive(Debug, Clone, Copy, PartialEq, Eq, Structural)]
pub enum AudioEncoding {
    /// Not given.
    Unspecified,
    /// RIFF/WAVE PCM16.
    WavPcm16,
    /// Raw PCM16.
    RawPcm16,
}

/// Why a recording is refused, if it is; `None` stands for an encoding that is not known.
pub open spec fn recording_failure(
    audio: Seq<u8>,
    encoding: Option<AudioEncoding>,
    sample_rate: u32,
) -> Option<StatusView> {
    if audio.len() > MAX_GRPC_MESSAGE_BYTES {
        Some(
            StatusView {
                code: GrpcCode::ResourceExhausted,
                message: "audio exceeds the message limit"@,
            },
        )
    } else if encoding == Some(AudioEncoding::WavPcm16) && sample_rate == 0 {
        if wav_failure(audio, default_limits()) is Some {
            Some(invalid_argument("WAV audio is invalid"@))
        } else {
            None
        }
    } else if encoding == Some(AudioEncoding::RawPcm16) && sample_rate > 0 {
        if MonoPcm::pcm16_failure(audio, sample_rate, default_limits()) is Some {
            Some(invalid_argument("raw PCM16 audio is invalid"@))
        } else {
            None
        }
    } else {
        Some(invalid_argument("encoding and sample rate are inconsistent"@))
    }
}

/// Decodes the recording of a call.
pub fn decode_audio(audio: &[u8], encoding: Option<AudioEncoding>, sample_rate: u32) -> (r: Result<
    MonoPcm,
    GrpcStatus,
>)
    ensures
        match r {
            Ok(recording) => {
                &&& recording_failure(audio@, encoding, sample_rate) is None
                &&& recording.valid()
                &&& if encoding == Some(AudioEncoding::WavPcm16) {
                    &&& recording.rate() == wav_rate(audio@)
                    &&& recording.wave() == wave_of(decode_pcm16(wav_pcm(audio@)))
                } else {
                    &&& recording.rate() == sample_rate
                    &&& recording.wave() == wave_of(decode_pcm16(audio@))
                }
            },
            Err(e) => recording_failure(audio@, encoding, sample_rate) == Some(e.content()),
        },
{
    if audio.len() > MAX_GRPC_MESSAGE_BYTES {
        return Err(
            GrpcStatus::new(GrpcCode::ResourceExhausted, "audio exceeds the message limit"),
        );
    }
    match encoding {
        Some(AudioEncoding::WavPcm16) => {
            if sample_rate != 0 {
                return Err(GrpcStatus::invalid("encoding and sample rate are inconsistent"));
            }
            match MonoPcm::from_wav(audio, AudioLimits::default()) {
                Ok(recording) => Ok(recording),
                Err(_) => Err(GrpcStatus::invalid("WAV audio is invalid")),
            }
        },
        Some(AudioEncoding::RawPcm16) => {
            if sample_rate == 0 {
                return Err(GrpcStatus::invalid("encoding and sample rate are inconsistent"));
            }
            match MonoPcm::from_pcm16_le(audio, sample_rate, AudioLimits::default()) {
                Ok(recording) => Ok(recording),
                Err(_) => Err(GrpcStatus::invalid("raw PCM16 audio is invalid")),
            }
        },
        _ => Err(GrpcStatus::invalid("encoding and sample rate are inconsistent")),
    }
}

/// Accepts an output encoding; `None` stands for one that is not known.
pub fn parse_output_encoding(encoding: Option<AudioEncoding>) -> (r: Result<
    AudioEncoding,
    GrpcStatus,
>)
    ensures
        match encoding {
            Some(AudioEncoding::WavPcm16) | Some(AudioEncoding::RawPcm16) => r == Ok::<
                AudioEncoding,
                GrpcStatus,
            >(encoding->0),
            _ => r matches Err(e) && e.content() == invalid_argument(
                "output encoding is unsupported"@,
            ),
        },
{
    match encoding {
        Some(AudioEncoding::WavPcm16) => Ok(AudioEncoding::WavPcm16),
        Some(AudioEncoding::RawPcm16) => Ok(AudioEncoding::RawPcm16),
        _ => Err(GrpcStatus::invalid("output encoding is unsupported")),
    }
}

/// Accepts the output encoding of a streamed synthesis.
pub fn parse_stream_encoding(encoding: Option<AudioEncoding>) -> (r: Result<(), GrpcStatus>)
    ensures
        match encoding {
            Some(AudioEncoding::RawPcm16) => r is Ok,
            Some(AudioEncoding::WavPcm16) => r matches Err(e) && e.content() == invalid_argument(
                "streaming synthesis requires raw PCM16 output"@,
            ),
            _ => r matches Err(e) && e.content() == invalid_argument(
                "output encoding is unsupported"@,
            ),
        },
{
    match parse_output_encoding(encoding) {
        Ok(AudioEncoding::RawPcm16) => Ok(()),
        Ok(_) => Err(GrpcStatus::invalid("streaming synthesis requires raw PCM16 output")),
        Err(e) => Err(e),
    }
}

/// A speed that is not given is one: both zeros stand for it.
pub fn normalize_speed(speed: Sample) -> (r: Sample)
    ensures
        r.bits == if speed.bits == 0 || speed.bits == 0x8000_0000 {
            0x3f80_0000
        } else {
            speed.bits
        },
{
    if speed.bits == 0 || speed.bits == 0x8000_0000 {
        Sample { bits: 0x3f80_0000 }
    } else {
        speed
    }
}

/// Encodes a completed synthesis.
pub fn encode_synthesis(synthesis: &Synthesis, encoding: AudioEncoding) -> (r: Result<
    Vec<u8>,
    GrpcStatus,
>)
    ensures
        ({
            let audio = synthesis.recording();
            let pcm = encode_pcm16(values_of(audio.wave()));
            match encoding {
                AudioEncoding::WavPcm16 => if 2 * audio.wave().len() + 36 <= u32::MAX {
                    r matches Ok(bytes) && bytes@ == wav_image(audio.rate(), pcm)
                } else {
                    r matches Err(e) && e.content() == (StatusView {
                        code: GrpcCode::Internal,
                        message: "WAV encoding failed"@,
                    })
                },
                AudioEncoding::RawPcm16 => r matches Ok(bytes) && bytes@ == pcm,
                AudioEncoding::Unspecified => r matches Err(e) && e.content() == invalid_argument(
                    "output encoding is required"@,
                ),
            }
        }),
{
    match encoding {
        AudioEncoding::WavPcm16 => match synthesis.wav() {
            Ok(bytes) => Ok(bytes),
            Err(_) => Err(GrpcStatus::new(GrpcCode::Internal, "WAV encoding failed")),
        },
        AudioEncoding::RawPcm16 => Ok(synthesis.pcm16()),
        AudioEncoding::Unspecified => Err(GrpcStatus::invalid("output encoding is required")),
    }
}

/// One message of a streamed synthesis.
#[derive(Debug)]
pub struct AudioChunk {
    /// Raw PCM16.
    pub audio: Vec<u8>,
    /// Position in the stream.
    pub sequence: u32,
    /// Whether this is the last message.
    pub final_chunk: bool,
    /// Sample rate.
    pub sample_rate: u32,
    /// Channels.
    pub channels: u32,
    /// How the audio is cut.
    pub chunking: &'static str,
}

/// The audio of messages.
pub open spec fn chunk_audio(chunks: Seq<AudioChunk>) -> Seq<Seq<u8>> {
    chunks.map_values(|chunk: AudioChunk| chunk.audio@)
}

/// Whether a message stands at its position of a stream of `count`.
pub open spec fn placed(chunk: AudioChunk, index: int, count: nat, sample_rate: u32) -> bool {
    &&& chunk.sequence == index
    &&& chunk.final_chunk == (index + 1 == count)
    &&& chunk.sample_rate == sample_rate
    &&& chunk.channels == 1
    &&& chunk.chunking@ == "post_synthesis_transport"@
}

/// Cuts a completed synthesis into messages. A stream longer than its sequence numbers ends with a
/// failure after the last that has one.
pub fn stream_chunks(synthesis: &Synthesis) -> (r: (Vec<AudioChunk>, Result<(), GrpcStatus>))
    ensures
        ({
            let audio = synthesis.recording();
            let pieces = chunked(encode_pcm16(values_of(audio.wave())), TTS_CHUNK_BYTES as nat);
            let sent = if pieces.len() <= 0x1_0000_0000 {
                pieces.len()
            } else {
                0x1_0000_0000
            };
            &&& chunk_audio(r.0@) == pieces.take(sent as int)
            &&& forall|i: int|
                0 <= i < sent ==> placed(#[trigger] r.0@[i], i, pieces.len(), audio.rate())
            &&& r.1 is Ok <==> pieces.len() <= 0x1_0000_0000
            &&& r.1 matches Err(e) ==> e.content() == (StatusView {
                code: GrpcCode::Internal,
                message: "chunk sequence overflow"@,
            })
        }),
{
    let sample_rate: u32 = synthesis.audio().sample_rate();
    let pcm = synthesis.pcm16();
    let pieces = cut(pcm.as_slice(), TTS_CHUNK_BYTES);
    let ghost views = piece_views(pieces@);
    let count: usize = pieces.len();
    assert(views.len() == count);
    let mut chunks: Vec<AudioChunk> = Vec::new();
    let mut index: usize = 0;
    while index < count
        invariant
            index <= count,
            index <= 0x1_0000_0000,
            count == pieces@.len(),
            views == piece_views(pieces@),
            views == chunked(
                encode_pcm16(values_of(synthesis.recording().wave())),
                TTS_CHUNK_BYTES as nat,
            ),
            sample_rate == synthesis.recording().rate(),
            chunks@.len() == index,
            chunk_audio(chunks@) =~= views.take(index as int),
            forall|i: int|
                0 <= i < index ==> placed(#[trigger] chunks@[i], i, views.len(), sample_rate),
        decreases count - index,
    {
        if index as u64 > 0xffff_ffff {
            return (
                chunks,
                Err(GrpcStatus::new(GrpcCode::Internal, "chunk sequence overflow")),
            );
        }
        let ghost before = chunk_audio(chunks@);
        assert(views[index as int] == pieces@[index as int]@);
        chunks.push(
            AudioChunk {
                audio: copy_slice(pieces[index].as_slice()),
                sequence: index as u32,
                final_chunk: index + 1 == count,
                sample_rate,
                channels: 1,
                chunking: "post_synthesis_transport",
            },
        );
        assert(chunk_audio(chunks@) =~= before.push(views[index as int]));
        index += 1;
    }
    (chunks, Ok(()))
}

/// A message of a transcription stream.
#[derive(Debug, Clone, Copy, PartialEq, Eq)]
pub enum StreamMessage {
    /// Starts the transcription at a sample rate.
    Config(u32),
    /// Audio of so many bytes.
    Audio(usize),
    /// Ends the audio.
    Commit(bool),
    /// Cancels the stream.
    Cancel(bool),
    /// Nothing.
    Empty,
}

/// What is to be done about a message.
#[derive(Debug, Clone, Copy, PartialEq, Eq)]
pub enum StreamAction {
    /// Open a transcription at this rate, then report.
    StartTranscription(u32),
    /// Hand the audio to the transcription, then report.
    PushAudio,
    /// Finish the transcription, then report.
    FinishTranscription,
    /// Cancel the request and end the stream.
    Cancel,
    /// End the stream with this status.
    Fail(GrpcStatus),
    /// Wait for the next message.
    Wait,
    /// End the stream.
    End,
}

/// Where a transcription stream stands.
#[derive(Debug, Clone, Copy, PartialEq, Eq)]
pub struct StreamState {
    /// Whether a transcription is open.
    pub open: bool,
    /// Whether the audio has ended.
    pub committed: bool,
}

/// A stream's step over plain texts.
pub enum StreamStep {
    /// Open a transcription.
    StartTranscription(u32),
    /// Hand over the audio.
    PushAudio,
    /// Finish the transcription.
    FinishTranscription,
    /// Cancel and end.
    Cancel,
    /// End with a status.
    Fail(StatusView),
    /// Wait.
    Wait,
    /// End.
    End,
}

/// The step of an action.
pub open spec fn step_of(action: StreamAction) -> StreamStep {
    match action {
        StreamAction::StartTranscription(rate) => StreamStep::StartTranscription(rate),
        StreamAction::PushAudio => StreamStep::PushAudio,
        StreamAction::FinishTranscription => StreamStep::FinishTranscription,
        StreamAction::Cancel => StreamStep::Cancel,
        StreamAction::Fail(status) => StreamStep::Fail(status.content()),
        StreamAction::Wait => StreamStep::Wait,
        StreamAction::End => StreamStep::End,
    }
}

/// What a message leads to: configuration first and once, then audio, then one commit; cancelling
/// is always possible; anything else is invalid.
pub open spec fn on_message(state: StreamState, message: StreamMessage) -> (
    StreamState,
    StreamStep,
) {
    match message {
        StreamMessage::Config(rate) if !state.open && !state.committed => (
            state,
            StreamStep::StartTranscription(rate),
        ),
        StreamMessage::Audio(bytes) if state.open && !state.committed && 0 < bytes
            <= MAX_STREAM_AUDIO_BYTES => (state, StreamStep::PushAudio),
        StreamMessage::Commit(true) if state.open && !state.committed => (
            StreamState { open: false, committed: true },
            StreamStep::FinishTranscription,
        ),
        StreamMessage::Cancel(true) => (state, StreamStep::Cancel),
        _ => (state, StreamStep::Fail(backend_status(VoiceBackendError::InvalidInput))),
    }
}

/// Where a stream stands once its transcription was opened, or could not be.
pub open spec fn opened(state: StreamState, success: bool) -> StreamState {
    StreamState { open: state.open || success, committed: state.committed }
}

impl StreamState {
    /// A stream that has received nothing.
    pub fn new() -> (state: Self)
        ensures
            !state.open && !state.committed,
    {
        StreamState { open: false, committed: false }
    }

    /// Handles a message.
    pub fn message_received(&mut self, message: StreamMessage) -> (action: StreamAction)
        ensures
            (*final(self), step_of(action)) == on_message(*old(self), message),
    {
        match message {
            StreamMessage::Config(rate) => {
                if !self.open && !self.committed {
                    return StreamAction::StartTranscription(rate);
                }
            },
            StreamMessage::Audio(bytes) => {
                if self.open && !self.committed && bytes > 0 && bytes <= MAX_STREAM_AUDIO_BYTES {
                    return StreamAction::PushAudio;
                }
            },
            StreamMessage::Commit(commit) => {
                if commit && self.open && !self.committed {
                    self.open = false;
                    self.committed = true;
                    return StreamAction::FinishTranscription;
                }
            },
            StreamMessage::Cancel(cancel) => {
                if cancel {
                    return StreamAction::Cancel;
                }
            },
            StreamMessage::Empty => {},
        }
        StreamAction::Fail(map_backend_error(VoiceBackendError::InvalidInput))
    }

    /// Records what opening the transcription came to.
    pub fn started(&mut self, result: Result<(), VoiceBackendError>) -> (action: StreamAction)
        ensures
            match result {
                Ok(()) => {
                    &&& *final(self) == (StreamState { open: true, ..*old(self) })
                    &&& step_of(action) == StreamStep::Wait
                },
                Err(error) => {
                    &&& *final(self) == *old(self)
                    &&& step_of(action) == StreamStep::Fail(backend_status(error))
                },
            },
            *final(self) == opened(*old(self), result is Ok),
    {
        match result {
            Ok(()) => {
                self.open = true;
                StreamAction::Wait
            },
            Err(error) => StreamAction::Fail(map_backend_error(error)),
        }
    }
}

/// What follows audio that was handed over, once its transcripts are sent.
pub fn pushed(result: Result<(), VoiceBackendError>) -> (action: StreamAction)
    ensures
        step_of(action) == match result {
            Ok(()) => StreamStep::Wait,
            Err(error) => StreamStep::Fail(backend_status(error)),
        },
{
    match result {
        Ok(()) => StreamAction::Wait,
        Err(error) => StreamAction::Fail(map_backend_error(error)),
    }
}

/// What follows a finished transcription; `queued` tells whether its result could be queued.
pub fn finished(result: Result<(), VoiceBackendError>, queued: bool) -> (action: StreamAction)
    ensures
        step_of(action) == match result {
            Ok(()) => if queued {
                StreamStep::End
            } else {
                StreamStep::Fail(backend_status(VoiceBackendError::Busy))
            },
            Err(error) => StreamStep::Fail(backend_status(error)),
        },
{
    match result {
        Ok(()) => if queued {
            StreamAction::End
        } else {
            StreamAction::Fail(map_backend_error(VoiceBackendError::Busy))
        },
        Err(error) => StreamAction::Fail(map_backend_error(error)),
    }
}

/// The status of a stream whose input ended before it was committed.
pub fn input_ended() -> (status: GrpcStatus)
    ensures
        status.content() == invalid_argument("stream ended before commit"@),
{
    GrpcStatus::invalid("stream ended before commit")
}

/// The status of a stream whose input failed.
pub fn input_failed() -> (status: GrpcStatus)
    ensures
        status.content() == (StatusView {
            code: GrpcCode::Cancelled,
            message: "input stream failed"@,
        }),
{
    GrpcStatus::new(GrpcCode::Cancelled, "input stream failed")
}

/// The status of a stream whose request must stop.
pub fn stopped(stop: RequestStop) -> (status: GrpcStatus)
    ensures
        status.content() == backend_status(
            match stop {
                RequestStop::Cancelled => VoiceBackendError::Cancelled,
                RequestStop::DeadlineExceeded => VoiceBackendError::DeadlineExceeded,
            },
        ),
{
    match stop {
        RequestStop::Cancelled => map_backend_error(VoiceBackendError::Cancelled),
        RequestStop::DeadlineExceeded => map_backend_error(VoiceBackendError::DeadlineExceeded),
    }
}

/// A transcript of a stream.
#[derive(Debug)]
pub struct TranscriptEvent {
    /// Text.
    pub text: String,
    /// Whether the text is final.
    pub final_text: bool,
}

/// The stream event of a transcript.
pub fn transcript_event(update: Transcript) -> (event: TranscriptEvent)
    ensures
        event.text@ == update.text@,
        event.final_text == (update.kind == TranscriptKind::Final),
{
    TranscriptEvent { text: update.text, final_text: update.kind == TranscriptKind::Final }
}

/// The stream event of a commit's result: it is final, whatever the update says of itself.
pub fn commit_event(update: Transcript) -> (event: TranscriptEvent)
    ensures
        event.text@ == update.text@,
        event.final_text,
{
    TranscriptEvent { text: update.text, final_text: true }
}

/// Audio is transcribed only between configuration and commit, in bounded messages, and after a
/// commit nothing is started, transcribed, or finished again.
pub proof fn streams_follow_their_order(state: StreamState, message: StreamMessage)
    ensures
        ({
            let (next, step) = on_message(state, message);
            &&& step is PushAudio ==> state.open && !state.committed && (message matches
                StreamMessage::Audio(bytes) && 0 < bytes <= MAX_STREAM_AUDIO_BYTES)
            &&& step is FinishTranscription ==> state.open && next.committed && !next.open
            &&& state.committed ==> step is Cancel || step is Fail
            &&& state.open ==> !(step is StartTranscription)
        }),
{
}

/// A stream that was configured, was sent any audio in messages of acceptable size, and was then
/// committed hands over every piece and finishes once. Configuration comes once, and nothing but
/// cancelling follows the commit.
pub proof fn streams_run_their_course(rate: u32, audio: usize, later: StreamMessage)
    requires
        0 < audio <= 65_536,
        !(later matches StreamMessage::Cancel(true)),
    ensures
        ({
            let fresh = StreamState { open: false, committed: false };
            let opened = StreamState { open: true, committed: false };
            let done = StreamState { open: false, committed: true };
            let invalid = StreamStep::Fail(
                StatusView {
                    code: GrpcCode::InvalidArgument,
                    message: "voice input is invalid"@,
                },
            );
            &&& on_message(fresh, StreamMessage::Config(rate)) == (
                fresh,
                StreamStep::StartTranscription(rate),
            )
            &&& on_message(opened, StreamMessage::Audio(audio)) == (opened, StreamStep::PushAudio)
            &&& on_message(opened, StreamMessage::Commit(true)) == (
                done,
                StreamStep::FinishTranscription,
            )
            &&& on_message(opened, StreamMessage::Config(rate)) == (opened, invalid)
            &&& on_message(done, later) == (done, invalid)
        }),
{
}

/// What is not asked for is refused, and refusing changes nothing: a commit or a cancellation that
/// says false, audio or a commit before configuration, audio that is empty or longer than 65536
/// bytes, and a message that is empty.
pub proof fn unasked_messages_are_refused(state: StreamState, message: StreamMessage)
    requires
        match message {
            StreamMessage::Config(_) => state.open || state.committed,
            StreamMessage::Audio(bytes) => !state.open || state.committed || bytes == 0 || bytes
                > 65_536,
            StreamMessage::Commit(asked) => !asked || !state.open || state.committed,
            StreamMessage::Cancel(asked) => !asked,
            StreamMessage::Empty => true,
        },
    ensures
        on_message(state, message) == (
            state,
            StreamStep::Fail(
                StatusView {
                    code: GrpcCode::InvalidArgument,
                    message: "voice input is invalid"@,
                },
            ),
        ),
{
}

/// A stream can be cancelled wherever it stands, and cancelling changes nothing else.
pub proof fn streams_can_always_be_cancelled(state: StreamState)
    ensures
        on_message(state, StreamMessage::Cancel(true)) == (state, StreamStep::Cancel),
{
}

/// Backend errors keep their meaning: the caller's mistake is an invalid argument, a full server
/// is exhausted, a stop is told by its reason, and only a failed engine is internal.
pub proof fn statuses_tell_whose_fault_it_was(error: VoiceBackendError)
    ensures
        backend_status(error).code == GrpcCode::InvalidArgument <==> error
            == VoiceBackendError::InvalidInput,
        backend_status(error).code == GrpcCode::ResourceExhausted <==> error
            == VoiceBackendError::Busy,
        backend_status(error).code == GrpcCode::Cancelled <==> error
            == VoiceBackendError::Cancelled,
        backend_status(error).code == GrpcCode::DeadlineExceeded <==> error
            == VoiceBackendError::DeadlineExceeded,
        backend_status(error).code == GrpcCode::Internal <==> error == VoiceBackendError::Engine,
{
}

/// A recording is taken exactly where its encoding says how to read it: a container without a
/// rate that reads, or raw audio with one. A rate beside a container, raw audio without one, and
/// an encoding that is missing or unknown are inconsistent, whatever the audio holds.
pub proof fn recordings_say_how_they_are_read(audio: Seq<u8>, rate: u32)
    requires
        audio.len() <= 16_777_216,
    ensures
        recording_failure(audio, Some(AudioEncoding::WavPcm16), 0) is None <==> wav_failure(
            audio,
            default_limits(),
        ) is None,
        rate > 0 ==> (recording_failure(audio, Some(AudioEncoding::RawPcm16), rate) is None
            <==> MonoPcm::pcm16_failure(audio, rate, default_limits()) is None),
        ({
            let inconsistent = Some(
                StatusView {
                    code: GrpcCode::InvalidArgument,
                    message: "encoding and sample rate are inconsistent"@,
                },
            );
            &&& rate > 0 ==> recording_failure(audio, Some(AudioEncoding::WavPcm16), rate)
                == inconsistent
            &&& recording_failure(audio, Some(AudioEncoding::RawPcm16), 0) == inconsistent
            &&& recording_failure(audio, Some(AudioEncoding::Unspecified), rate) == inconsistent
            &&& recording_failure(audio, None, rate) == inconsistent
        }),
{
}

/// A recording longer than a message may be is refused as exhausting, whatever is said of it.
pub proof fn long_recordings_are_exhausting(
    audio: Seq<u8>,
    encoding: Option<AudioEncoding>,
    rate: u32,
)
    ensures
        (recording_failure(audio, encoding, rate) matches Some(status) && status.code
            == GrpcCode::ResourceExhausted) <==> audio.len() > MAX_GRPC_MESSAGE_BYTES,
{
}

/// A speed that was not given, which is a zero of either sign, is spoken at one; every other speed
/// is passed on as it is.
pub proof fn missing_speeds_are_one(speed: Sample, normal: Sample)
    requires
        call_ensures(normalize_speed, (speed,), normal),
    ensures
        absolute_value(speed.bits) == 0 ==> normal.bits == 0x3f80_0000,
        absolute_value(speed.bits) != 0 ==> normal == speed,
{
    let exponent = ((speed.bits / 0x80_0000) % 256) as nat;
    let fraction = (speed.bits % 0x80_0000) as nat;
    if exponent > 0 {
        let power = pow2((exponent - 1) as nat);
        lemma_pow2_pos((exponent - 1) as nat);
        assert((fraction + 0x80_0000) * power > 0) by (nonlinear_arith)
            requires
                power > 0,
                fraction >= 0,
        ;
    }
}

/// A stream of audio messages is the synthesized audio: its pieces in a row are the whole, they
/// are numbered from zero, and the last one, and no other, says that it is the last.
pub proof fn streamed_pieces_are_the_synthesis(
    synthesis: &Synthesis,
    r: (Vec<AudioChunk>, Result<(), GrpcStatus>),
    i: int,
)
    requires
        call_ensures(stream_chunks, (synthesis,), r),
        r.1 is Ok,
    ensures
        concatenated(chunk_audio(r.0@)) == encode_pcm16(values_of(synthesis.recording().wave())),
        0 <= i < r.0@.len() ==> {
            &&& r.0@[i].sequence == i
            &&& r.0@[i].final_chunk <==> i == r.0@.len() - 1
            &&& 0 < r.0@[i].audio@.len() <= 32_768
            &&& r.0@[i].audio@.len() < 32_768 ==> i == r.0@.len() - 1
            &&& r.0@[i].sample_rate == synthesis.recording().rate()
            &&& r.0@[i].channels == 1
        },
{
    let whole = encode_pcm16(values_of(synthesis.recording().wave()));
    let pieces = chunked(whole, 32_768);
    chunks_are_the_whole(whole, 32_768);
    assert(pieces.take(pieces.len() as int) =~= pieces);
    assert(chunk_audio(r.0@) == pieces);
    assert(r.0@.len() == pieces.len());
    if 0 <= i < r.0@.len() {
        assert(placed(r.0@[i], i, pieces.len(), synthesis.recording().rate()));
        assert(pieces[i] == r.0@[i].audio@);
    }
}

/// Raw output of a synthesis is its samples, two bytes each with the lower one first, and a
/// container holds exactly that output behind a header of 44 bytes. An encoding that was not
/// chosen gives nothing.
pub proof fn synthesis_output_holds_the_samples(
    synthesis: &Synthesis,
    raw: Result<Vec<u8>, GrpcStatus>,
    contained: Result<Vec<u8>, GrpcStatus>,
    unchosen: Result<Vec<u8>, GrpcStatus>,
)
    requires
        call_ensures(encode_synthesis, (synthesis, AudioEncoding::RawPcm16), raw),
        call_ensures(encode_synthesis, (synthesis, AudioEncoding::WavPcm16), contained),
        call_ensures(encode_synthesis, (synthesis, AudioEncoding::Unspecified), unchosen),
    ensures
        raw is Ok && raw->Ok_0@.len() == 2 * synthesis.recording().wave().len(),
        decode_pcm16(raw->Ok_0@) == values_of(synthesis.recording().wave()),
        contained matches Ok(bytes) ==> bytes@.len() == raw->Ok_0@.len() + 44 && bytes@.skip(44)
            == raw->Ok_0@,
        contained matches Err(status) ==> status.code == GrpcCode::Internal,
        unchosen matches Err(status) && status.code == GrpcCode::InvalidArgument,
{
    encode_then_decode(values_of(synthesis.recording().wave()));
    values_are_little_endian(values_of(synthesis.recording().wave()), Seq::empty(), 0);
    if let Ok(bytes) = contained {
        files_hold_their_audio_last(synthesis.recording().rate(), raw->Ok_0@);
    }
}

/// What follows the transcription's work: audio that was taken waits for more, a finished
/// transcription ends the stream where its result could be queued, and a failure of either ends it
/// with that failure.
pub proof fn work_is_followed_by_its_outcome(
    error: VoiceBackendError,
    taken: StreamAction,
    ended: StreamAction,
    unqueued: StreamAction,
    untaken: StreamAction,
    unfinished: StreamAction,
    queued: bool,
)
    requires
        call_ensures(pushed, (Ok::<(), VoiceBackendError>(()),), taken),
        call_ensures(pushed, (Err::<(), VoiceBackendError>(error),), untaken),
        call_ensures(finished, (Ok::<(), VoiceBackendError>(()), true), ended),
        call_ensures(finished, (Ok::<(), VoiceBackendError>(()), false), unqueued),
        call_ensures(finished, (Err::<(), VoiceBackendError>(error), queued), unfinished),
    ensures
        taken is Wait,
        ended is End,
        unqueued matches StreamAction::Fail(status) && status.code == GrpcCode::ResourceExhausted,
        untaken matches StreamAction::Fail(status) && status.content() == backend_status(error),
        unfinished matches StreamAction::Fail(status) && status.content() == backend_status(error),
{
}

/// Only raw audio is streamed, and a complete synthesis is given raw or in a container; an encoding
/// that was not chosen, or is not known, is the caller's mistake.
pub proof fn output_encodings_are_two(
    encoding: Option<AudioEncoding>,
    whole: Result<AudioEncoding, GrpcStatus>,
    streamed: Result<(), GrpcStatus>,
)
    requires
        call_ensures(parse_output_encoding, (encoding,), whole),
        call_ensures(parse_stream_encoding, (encoding,), streamed),
    ensures
        whole is Ok <==> encoding == Some(AudioEncoding::WavPcm16) || encoding == Some(
            AudioEncoding::RawPcm16,
        ),
        whole matches Ok(chosen) ==> encoding == Some(chosen),
        whole matches Err(status) ==> status.code == GrpcCode::InvalidArgument,
        streamed is Ok <==> encoding == Some(AudioEncoding::RawPcm16),
        streamed matches Err(status) ==> status.code == GrpcCode::InvalidArgument,
{
}

/// Opening a transcription opens the stream and nothing else, and what could not be opened leaves
/// the stream as it was.
pub proof fn opening_changes_nothing_else(state: StreamState)
    ensures
        opened(state, false) == state,
        opened(state, true).open,
        opened(state, true).committed == state.committed,
{
}

/// A recording of a call holds what was sent: raw audio comes at the rate given with its bytes as
/// samples, and a container with the audio and the rate inside.
pub proof fn recordings_hold_what_was_sent(
    audio: &[u8],
    rate: u32,
    raw: Result<MonoPcm, GrpcStatus>,
    contained: Result<MonoPcm, GrpcStatus>,
)
    requires
        call_ensures(decode_audio, (audio, Some(AudioEncoding::RawPcm16), rate), raw),
        call_ensures(decode_audio, (audio, Some(AudioEncoding::WavPcm16), 0), contained),
    ensures
        raw matches Ok(recording) ==> recording.rate() == rate && encode_pcm16(
            values_of(recording.wave()),
        ) == audio@,
        contained matches Ok(recording) ==> recording.rate() == wav_rate(audio@) && encode_pcm16(
            values_of(recording.wave()),
        ) == wav_pcm(audio@),
{
    if raw is Ok {
        pcm16_round_trip(audio@);
    }
    if contained is Ok {
        pcm16_round_trip(wav_pcm(audio@));
    }
}

/// A stop is reported by its reason, and a failed part of a call is internal, whatever part it is.
pub proof fn stops_and_faults_are_told_apart(
    stop: RequestStop,
    stopped_as: GrpcStatus,
    fault: CallFault,
    failed_as: GrpcStatus,
    ended: GrpcStatus,
    broken: GrpcStatus,
)
    requires
        call_ensures(stopped, (stop,), stopped_as),
        call_ensures(call_fault, (fault,), failed_as),
        call_ensures(input_ended, (), ended),
        call_ensures(input_failed, (), broken),
    ensures
        stopped_as.code == GrpcCode::Cancelled <==> stop == RequestStop::Cancelled,
        stopped_as.code == GrpcCode::DeadlineExceeded <==> stop == RequestStop::DeadlineExceeded,
        failed_as.code == GrpcCode::Internal,
        ended.code == GrpcCode::InvalidArgument,
        broken.code == GrpcCode::Cancelled,
{
}

/// A transcript is passed on with its text; it is final where it says so, and a commit's always is.
pub proof fn transcripts_keep_their_text(
    update: Transcript,
    event: TranscriptEvent,
    committed: TranscriptEvent,
)
    requires
        call_ensures(transcript_event, (update,), event),
        call_ensures(commit_event, (update,), committed),
    ensures
        event.text@ == update.text@,
        committed.text@ == update.text@,
        event.final_text <==> update.kind == TranscriptKind::Final,
        committed.final_text,
{
}

/// A step tells exactly what is done: each kind of action has a step of its own, with the action's
/// own rate or status.
pub proof fn steps_tell_what_is_done(action: StreamAction, status: GrpcStatus)
    ensures
        step_of(action) is PushAudio <==> action is PushAudio,
        step_of(action) is FinishTranscription <==> action is FinishTranscription,
        step_of(action) is Cancel <==> action is Cancel,
        step_of(action) is Wait <==> action is Wait,
        step_of(action) is End <==> action is End,
        step_of(action) matches StreamStep::StartTranscription(rate) ==> action
            == StreamAction::StartTranscription(rate),
        step_of(action) matches StreamStep::Fail(told) ==> (action matches StreamAction::Fail(found)
            && found.code == told.code && found.message@ == told.message),
        status.content().code == status.code,
        status.content().message == status.message@,
{
}

}
