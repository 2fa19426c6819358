//! HTTP request and response rules.

use vstd::prelude::*;
use vstd::arithmetic::power2::{lemma2_to64, lemma_pow2_adds, pow2};
use crate::audio::{
    supported_rate, values_of, wave_of, wave_of_is_normalized, AudioLimits, MonoPcm,
};
use crate::number::{decimal, decimal_round_trip};
use crate::number::{decimal_text, parse_unsigned, parse_unsigned_bytes, parse_unsigned_text};
use crate::number::{render_decimal, unsigned, unsigned_numbers_are_bounded};
use crate::pcm::{decode_pcm16, encode_pcm16, encode_then_decode};
use crate::sample::{absolute_value, bounds_are_bounds_of_the_value, Sample};
use crate::stt::SttError;
use crate::text::{blank, blank_ends_do_not_matter, chars_of};
use crate::text::{first_piece_stands_before_the_separator, lower, lowered, position, position_of};
use crate::text::{position_properties, same_text, split, split_at_char, text_of, trim, trimmed};
use crate::text::whitespace;
use crate::tts::{Synthesis, TtsError};
use crate::wav::{wav_failure, wav_image, wav_image_reads_back, wav_pcm, wav_rate};

verus! {

/// Longest ignored multipart field in bytes.
pub const MAX_MULTIPART_FIELD_BYTES: usize = 65_536;

/// Sanitized error returned by a local Voice backend.
#[derive(Debug, Clone, Copy, PartialEq, Eq, Structural)]
pub enum VoiceBackendError {
    /// The request is invalid.
    InvalidInput,
    /// The bounded engine capacity is occupied.
    Busy,
    /// The request was cancelled or disconnected.
    Cancelled,
    /// The request deadline elapsed.
    DeadlineExceeded,
    /// A local engine failed.
    Engine,
}

/// How a speech-recognition failure is reported.
pub open spec fn stt_error(error: SttError) -> VoiceBackendError {
    match error {
        SttError::InvalidInput | SttError::Audio => VoiceBackendError::InvalidInput,
        SttError::Busy => VoiceBackendError::Busy,
        SttError::Cancelled => VoiceBackendError::Cancelled,
        SttError::DeadlineExceeded => VoiceBackendError::DeadlineExceeded,
        SttError::Engine => VoiceBackendError::Engine,
    }
}

/// How a speech-synthesis failure is reported.
pub open spec fn tts_error(error: TtsError) -> VoiceBackendError {
    match error {
        TtsError::InvalidInput | TtsError::Output => VoiceBackendError::InvalidInput,
        TtsError::Busy => VoiceBackendError::Busy,
        TtsError::Cancelled => VoiceBackendError::Cancelled,
        TtsError::DeadlineExceeded => VoiceBackendError::DeadlineExceeded,
        TtsError::Engine => VoiceBackendError::Engine,
    }
}

/// Reports a speech-recognition failure.
pub fn map_stt_error(error: SttError) -> (r: VoiceBackendError)
    ensures
        r == stt_error(error),
{
    match error {
        SttError::InvalidInput | SttError::Audio => VoiceBackendError::InvalidInput,
        SttError::Busy => VoiceBackendError::Busy,
        SttError::Cancelled => VoiceBackendError::Cancelled,
        SttError::DeadlineExceeded => VoiceBackendError::DeadlineExceeded,
        SttError::Engine => VoiceBackendError::Engine,
    }
}

/// Reports a speech-synthesis failure.
pub fn map_tts_error(error: TtsError) -> (r: VoiceBackendError)
    ensures
        r == tts_error(error),
{
    match error {
        TtsError::InvalidInput | TtsError::Output => VoiceBackendError::InvalidInput,
        TtsError::Busy => VoiceBackendError::Busy,
        TtsError::Cancelled => VoiceBackendError::Cancelled,
        TtsError::DeadlineExceeded => VoiceBackendError::DeadlineExceeded,
        TtsError::Engine => VoiceBackendError::Engine,
    }
}

/// A public failure: HTTP status, stable code, and a message without request detail.
#[derive(Debug, Clone, Copy, PartialEq, Eq)]
pub struct ApiError {
    /// HTTP status.
    pub status: u16,
    /// Stable machine-readable code.
    pub code: &'static str,
    /// Static message.
    pub message: &'static str,
}

/// A public failure over plain texts.
pub struct ApiFailure {
    /// HTTP status.
    pub status: u16,
    /// Code.
    pub code: Seq<char>,
    /// Message.
    pub message: Seq<char>,
}

/// The failure of an invalid request.
pub open spec fn invalid_request(message: Seq<char>) -> ApiFailure {
    ApiFailure { status: 400, code: "invalid_request"@, message }
}

/// The failure that a backend error becomes.
pub open spec fn backend_failure(error: VoiceBackendError) -> ApiFailure {
    match error {
        VoiceBackendError::InvalidInput => invalid_request("voice input is invalid"@),
        VoiceBackendError::Busy => ApiFailure {
            status: 429,
            code: "overloaded"@,
            message: "voice capacity is busy"@,
        },
        VoiceBackendError::Cancelled => ApiFailure {
            status: 503,
            code: "cancelled"@,
            message: "the request was cancelled"@,
        },
        VoiceBackendError::DeadlineExceeded => ApiFailure {
            status: 504,
            code: "deadline_exceeded"@,
            message: "the request deadline was exceeded"@,
        },
        VoiceBackendError::Engine => ApiFailure {
            status: 500,
            code: "engine_error"@,
            message: "the local voice engine failed"@,
        },
    }
}

impl ApiError {
    /// The failure's texts.
    pub open spec fn failure(self) -> ApiFailure {
        ApiFailure { status: self.status, code: self.code@, message: self.message@ }
    }

    /// The failure of an invalid request.
    pub fn invalid(message: &'static str) -> (error: Self)
        ensures
            error.failure() == invalid_request(message@),
    {
        ApiError { status: 400, code: "invalid_request", message }
    }

    /// The failure that a backend error becomes.
    pub fn from_backend(error: VoiceBackendError) -> (failure: Self)
        ensures
            failure.failure() == backend_failure(error),
    {
        match error {
            VoiceBackendError::InvalidInput => ApiError::invalid("voice input is invalid"),
            VoiceBackendError::Busy => ApiError {
                status: 429,
                code: "overloaded",
                message: "voice capacity is busy",
            },
            VoiceBackendError::Cancelled => ApiError {
                status: 503,
                code: "cancelled",
                message: "the request was cancelled",
            },
            VoiceBackendError::DeadlineExceeded => ApiError {
                status: 504,
                code: "deadline_exceeded",
                message: "the request deadline was exceeded",
            },
            VoiceBackendError::Engine => ApiError {
                status: 500,
                code: "engine_error",
                message: "the local voice engine failed",
            },
        }
    }
}

/// The media type of a content type: what stands before the first `;`, in lower case.
pub open spec fn media_type(content_type: Seq<char>) -> Seq<char> {
    lower(trim(split(content_type, ';')[0]))
}

/// The rate that one content-type parameter names, if it is a well-formed `rate=`.
pub open spec fn rate_parameter(parameter: Seq<char>) -> Option<nat> {
    let text = trim(parameter);
    let equals = position(text, '=') as int;
    if equals < text.len() && lower(text.take(equals)) == "rate"@ {
        unsigned(trim(text.skip(equals + 1)), u32::MAX as nat)
    } else {
        None
    }
}

/// The first well-formed rate among parameters.
pub open spec fn first_rate(parameters: Seq<Seq<char>>) -> Option<nat>
    decreases parameters.len(),
{
    if parameters.len() == 0 {
        None
    } else if rate_parameter(parameters[0]) is Some {
        rate_parameter(parameters[0])
    } else {
        first_rate(parameters.skip(1))
    }
}

/// The rate that raw PCM is read at: the one given explicitly, or the content type's.
pub open spec fn raw_rate(content_type: Seq<char>, explicit: Option<u32>) -> Option<u32> {
    match explicit {
        Some(rate) => Some(rate),
        None => match first_rate(split(content_type, ';').skip(1)) {
            Some(rate) => Some(rate as u32),
            None => None,
        },
    }
}

/// The default admission limits.
pub open spec fn default_limits() -> AudioLimits {
    AudioLimits::with_bounds(33_554_432, 300_000)
}

/// Whether a media type is WAV.
pub open spec fn wav_type(media: Seq<char>) -> bool {
    media == "audio/wav"@ || media == "audio/x-wav"@
}

/// Whether a media type is raw PCM16.
pub open spec fn raw_type(media: Seq<char>) -> bool {
    media == "audio/pcm"@ || media == "audio/l16"@
}

/// Why an audio body is refused, if it is.
pub open spec fn audio_failure(
    content_type: Seq<char>,
    explicit: Option<u32>,
    bytes: Seq<u8>,
) -> Option<Seq<char>> {
    let media = media_type(content_type);
    if wav_type(media) {
        if explicit is Some {
            Some("WAV sample rate is embedded in the file"@)
        } else if wav_failure(bytes, default_limits()) is Some {
            Some("WAV audio is invalid"@)
        } else {
            None
        }
    } else if raw_type(media) {
        match raw_rate(content_type, explicit) {
            None => Some("raw PCM sample rate is required"@),
            Some(rate) => if MonoPcm::pcm16_failure(bytes, rate, default_limits()) is Some {
                Some("raw PCM16 audio is invalid"@)
            } else {
                None
            },
        }
    } else {
        Some("audio content type is unsupported"@)
    }
}

/// Whether a recording is what an accepted audio body holds.
pub open spec fn audio_content(
    audio: MonoPcm,
    content_type: Seq<char>,
    explicit: Option<u32>,
    bytes: Seq<u8>,
) -> bool {
    if wav_type(media_type(content_type)) {
        &&& audio.rate() == wav_rate(bytes)
        &&& audio.wave() == wave_of(decode_pcm16(wav_pcm(bytes)))
    } else {
        &&& Some(audio.rate()) == raw_rate(content_type, explicit)
        &&& audio.wave() == wave_of(decode_pcm16(bytes))
    }
}

/// Reads the rate of one content-type parameter.
fn parse_rate_parameter(parameter: &[char]) -> (r: Option<u32>)
    ensures
        match r {
            Some(rate) => rate_parameter(parameter@) == Some(rate as nat),
            None => rate_parameter(parameter@) is None,
        },
{
    let text = trimmed(parameter);
    let equals: usize = position_of(text, '=');
    if equals >= text.len() {
        return None;
    }
    let key = lowered(vstd::slice::slice_subrange(text, 0, equals));
    let key_text = text_of(key.as_slice());
    assert(text@.subrange(0, equals as int) =~= text@.take(equals as int));
    if !same_text(key_text.as_str(), "rate") {
        return None;
    }
    let value = vstd::slice::slice_subrange(text, equals + 1, text.len());
    assert(value@ =~= text@.skip(equals + 1));
    match parse_unsigned(trimmed(value), 0xffff_ffff) {
        Some(rate) => Some(rate as u32),
        None => None,
    }
}

/// Finds the first well-formed rate among the parameters behind the first piece.
fn find_rate(pieces: &[Vec<char>]) -> (r: Option<u32>)
    requires
        pieces@.len() > 0,
    ensures
        match r {
            Some(rate) => first_rate(pieces@.map_values(|p: Vec<char>| p@).skip(1)) == Some(
                rate as nat,
            ),
            None => first_rate(pieces@.map_values(|p: Vec<char>| p@).skip(1)) is None,
        },
{
    let ghost texts = pieces@.map_values(|p: Vec<char>| p@);
    let mut i: usize = 1;
    while i < pieces.len()
        invariant
            1 <= i <= pieces@.len(),
            texts == pieces@.map_values(|p: Vec<char>| p@),
            first_rate(texts.skip(1)) == first_rate(texts.skip(i as int)),
        decreases pieces@.len() - i,
    {
        let ghost rest = texts.skip(i as int);
        assert(rest[0] == pieces@[i as int]@);
        match parse_rate_parameter(pieces[i].as_slice()) {
            Some(rate) => {
                return Some(rate);
            },
            None => {},
        }
        assert(rest.skip(1) =~= texts.skip(i + 1));
        i += 1;
    }
    assert(texts.skip(i as int) =~= Seq::empty());
    None
}

/// A split text has a first piece.
proof fn split_is_not_empty(text: Seq<char>, sep: char)
    ensures
        split(text, sep).len() > 0,
{
}

/// Decodes an audio body by its content type.
pub fn decode_audio(content_type: &str, explicit_rate: Option<u32>, bytes: &[u8]) -> (r: Result<
    MonoPcm,
    ApiError,
>)
    ensures
        match r {
            Ok(audio) => {
                &&& audio_failure(content_type@, explicit_rate, bytes@) is None
                &&& audio_content(audio, content_type@, explicit_rate, bytes@)
                &&& audio.valid()
            },
            Err(e) => match audio_failure(content_type@, explicit_rate, bytes@) {
                Some(message) => e.failure() == invalid_request(message),
                None => false,
            },
        },
{
    let chars = chars_of(content_type);
    let pieces = split_at_char(chars.as_slice(), ';');
    let ghost texts = pieces@.map_values(|p: Vec<char>| p@);
    proof {
        split_is_not_empty(content_type@, ';');
        assert(texts =~= split(content_type@, ';'));
    }
    let media_chars = lowered(trimmed(pieces[0].as_slice()));
    let media_text = text_of(media_chars.as_slice());
    let media = media_text.as_str();
    if same_text(media, "audio/wav") || same_text(media, "audio/x-wav") {
        if explicit_rate.is_some() {
            return Err(ApiError::invalid("WAV sample rate is embedded in the file"));
        }
        match MonoPcm::from_wav(bytes, AudioLimits::default()) {
            Ok(audio) => Ok(audio),
            Err(_) => Err(ApiError::invalid("WAV audio is invalid")),
        }
    } else if same_text(media, "audio/pcm") || same_text(media, "audio/l16") {
        proof {
            distinct_types(media@);
        }
        let rate: u32 = match explicit_rate {
            Some(rate) => rate,
            None => match find_rate(pieces.as_slice()) {
                Some(rate) => rate,
                None => {
                    return Err(ApiError::invalid("raw PCM sample rate is required"));
                },
            },
        };
        match MonoPcm::from_pcm16_le(bytes, rate, AudioLimits::default()) {
            Ok(audio) => Ok(audio),
            Err(_) => Err(ApiError::invalid("raw PCM16 audio is invalid")),
        }
    } else {
        Err(ApiError::invalid("audio content type is unsupported"))
    }
}

/// Raw PCM is not WAV.
proof fn distinct_types(media: Seq<char>)
    requires
        raw_type(media),
    ensures
        !wav_type(media),
{
    reveal_strlit("audio/wav");
    reveal_strlit("audio/x-wav");
    reveal_strlit("audio/pcm");
    reveal_strlit("audio/l16");
    assert("audio/wav"@[6] == 'w' && "audio/x-wav"@[6] == 'x');
    assert("audio/pcm"@[6] == 'p' && "audio/l16"@[6] == 'l');
}

/// The view of an optional text.
pub open spec fn optional_view(text: Option<&str>) -> Option<Seq<char>> {
    match text {
        Some(text) => Some(text@),
        None => None,
    }
}

/// Why a request with these headers is refused, if it is.
pub open spec fn request_failure(
    content_type: Option<Seq<char>>,
    rate: Option<Seq<char>>,
    bytes: Seq<u8>,
) -> Option<Seq<char>> {
    match content_type {
        None => Some("content-type is required"@),
        Some(content_type) => match rate {
            None => audio_failure(content_type, None, bytes),
            Some(text) => match unsigned(text, u32::MAX as nat) {
                None => Some("sample rate is malformed"@),
                Some(rate) => audio_failure(content_type, Some(rate as u32), bytes),
            },
        },
    }
}

/// Decodes a request body by its headers; a header that is absent or no text is `None`.
pub fn decode_http_audio(content_type: Option<&str>, rate: Option<&str>, bytes: &[u8]) -> (r:
    Result<MonoPcm, ApiError>)
    ensures
        match r {
            Ok(audio) => {
                &&& request_failure(optional_view(content_type), optional_view(rate), bytes@)
                    is None
                &&& content_type is Some
                &&& audio_content(
                    audio,
                    content_type->0@,
                    match rate {
                        Some(text) => Some(unsigned(text@, u32::MAX as nat)->0 as u32),
                        None => None,
                    },
                    bytes@,
                )
                &&& audio.valid()
            },
            Err(e) => match request_failure(
                optional_view(content_type),
                optional_view(rate),
                bytes@,
            ) {
                Some(message) => e.failure() == invalid_request(message),
                None => false,
            },
        },
{
    let content_type = match content_type {
        Some(content_type) => content_type,
        None => {
            return Err(ApiError::invalid("content-type is required"));
        },
    };
    let explicit: Option<u32> = match rate {
        None => None,
        Some(text) => match parse_unsigned_text(text, 0xffff_ffff) {
            Some(rate) => Some(rate as u32),
            None => {
                return Err(ApiError::invalid("sample rate is malformed"));
            },
        },
    };
    decode_audio(content_type, explicit, bytes)
}

/// A multipart transcription form.
#[derive(Debug)]
pub struct TranscriptionForm {
    file: Option<FormFile>,
    sample_rate: Option<u32>,
}

#[derive(Debug)]
struct FormFile {
    content_type: Option<String>,
    bytes: Vec<u8>,
}

/// A form over plain values.
pub struct FormState {
    /// The file's content type and bytes.
    pub file: Option<(Option<Seq<char>>, Seq<u8>)>,
    /// The sample rate.
    pub rate: Option<u32>,
}

/// The text of a field's bytes when they are ASCII.
pub open spec fn field_text(bytes: Seq<u8>) -> Seq<char> {
    bytes.map_values(|b: u8| b as char)
}

/// A form after a field, or why the field is refused: one file, a rate, and a model name are
/// understood.
pub open spec fn with_field(
    form: FormState,
    name: Seq<char>,
    content_type: Option<Seq<char>>,
    bytes: Seq<u8>,
) -> Result<FormState, Seq<char>> {
    if name == "file"@ && form.file is None {
        Ok(FormState { file: Some((content_type, bytes)), ..form })
    } else if name == "sample_rate"@ && bytes.len() <= 16 {
        match unsigned(field_text(bytes), u32::MAX as nat) {
            Some(rate) => Ok(FormState { rate: Some(rate as u32), ..form }),
            None => Err("sample_rate is malformed"@),
        }
    } else if name == "model"@ && bytes.len() <= MAX_MULTIPART_FIELD_BYTES {
        Ok(form)
    } else {
        Err("multipart field is unsupported or duplicated"@)
    }
}

/// The view of an optional text.
pub open spec fn owned_view(text: Option<String>) -> Option<Seq<char>> {
    match text {
        Some(text) => Some(text@),
        None => None,
    }
}

/// The content type of a file that names none.
pub open spec fn file_type(content_type: Option<Seq<char>>) -> Seq<char> {
    match content_type {
        Some(content_type) => content_type,
        None => "application/octet-stream"@,
    }
}

/// Why a form is refused, if it is.
pub open spec fn form_failure(form: FormState) -> Option<Seq<char>> {
    match form.file {
        None => Some("file is required"@),
        Some((content_type, bytes)) => audio_failure(file_type(content_type), form.rate, bytes),
    }
}

impl TranscriptionForm {
    /// The form as plain values.
    pub closed spec fn state(self) -> FormState {
        FormState {
            file: match self.file {
                Some(file) => Some((owned_view(file.content_type), file.bytes@)),
                None => None,
            },
            rate: self.sample_rate,
        }
    }

    /// An empty form.
    pub fn new() -> (form: Self)
        ensures
            form.state() == (FormState { file: None, rate: None }),
    {
        TranscriptionForm { file: None, sample_rate: None }
    }

    /// Takes a field.
    pub fn add_field(&mut self, name: &str, content_type: Option<String>, bytes: Vec<u8>) -> (r:
        Result<(), ApiError>)
        ensures
            match with_field(old(self).state(), name@, owned_view(content_type), bytes@) {
                Ok(state) => r is Ok && final(self).state() == state,
                Err(message) => {
                    &&& r matches Err(e) && e.failure() == invalid_request(message)
                    &&& final(self).state() == old(self).state()
                },
            },
    {
        if same_text(name, "file") && self.file.is_none() {
            self.file = Some(FormFile { content_type, bytes });
            return Ok(());
        }
        if same_text(name, "sample_rate") && bytes.len() <= 16 {
            match parse_unsigned_bytes(bytes.as_slice(), 0xffff_ffff) {
                Some(rate) => {
                    self.sample_rate = Some(rate as u32);
                    return Ok(());
                },
                None => {
                    return Err(ApiError::invalid("sample_rate is malformed"));
                },
            }
        }
        if same_text(name, "model") && bytes.len() <= MAX_MULTIPART_FIELD_BYTES {
            return Ok(());
        }
        Err(ApiError::invalid("multipart field is unsupported or duplicated"))
    }

    /// Decodes the form's audio.
    pub fn finish(self) -> (r: Result<MonoPcm, ApiError>)
        ensures
            match r {
                Ok(audio) => {
                    &&& form_failure(self.state()) is None
                    &&& audio_content(
                        audio,
                        file_type((self.state().file->0).0),
                        self.state().rate,
                        (self.state().file->0).1,
                    )
                    &&& audio.valid()
                },
                Err(e) => match form_failure(self.state()) {
                    Some(message) => e.failure() == invalid_request(message),
                    None => false,
                },
            },
    {
        match self.file {
            None => Err(ApiError::invalid("file is required")),
            Some(file) => match file.content_type {
                Some(content_type) => decode_audio(
                    content_type.as_str(),
                    self.sample_rate,
                    file.bytes.as_slice(),
                ),
                None => decode_audio(
                    "application/octet-stream",
                    self.sample_rate,
                    file.bytes.as_slice(),
                ),
            },
        }
    }
}

/// A speech request.
#[derive(Debug)]
pub struct SpeechRequest {
    /// Text to speak.
    pub input: String,
    /// Speed.
    pub speed: Sample,
    /// Requested encoding.
    pub response_format: String,
    /// Requested model.
    pub model: Option<String>,
    /// Requested voice.
    pub voice: Option<String>,
}

/// Encoding of a speech response.
#[derive(Debug, Clone, Copy, PartialEq, Eq, Structural)]
pub enum SpeechFormat {
    /// RIFF/WAVE.
    Wav,
    /// Raw PCM16.
    Pcm,
}

/// The default speed: the single-precision number one.
pub fn default_speed() -> (speed: Sample)
    ensures
        speed.bits == 0x3f80_0000,
{
    Sample { bits: 0x3f80_0000 }
}

/// Whether an optional name is absent or the expected one.
pub open spec fn absent_or(name: Option<String>, expected: Seq<char>) -> bool {
    match name {
        None => true,
        Some(name) => name@ == expected,
    }
}

/// The encoding a request asks for, or why it is refused.
pub open spec fn speech_format(request: SpeechRequest) -> Result<SpeechFormat, Seq<char>> {
    if !absent_or(request.model, "impossible-voice-tts"@) || !absent_or(
        request.voice,
        "kristin"@,
    ) {
        Err("model or voice is unsupported"@)
    } else if request.response_format@ == "wav"@ {
        Ok(SpeechFormat::Wav)
    } else if request.response_format@ == "pcm"@ {
        Ok(SpeechFormat::Pcm)
    } else {
        Err("response_format must be wav or pcm"@)
    }
}

/// Whether an optional name is absent or the expected one.
fn is_absent_or(name: &Option<String>, expected: &str) -> (r: bool)
    ensures
        r == absent_or(*name, expected@),
{
    match name {
        None => true,
        Some(name) => same_text(name.as_str(), expected),
    }
}

/// Accepts a speech request and tells its encoding.
pub fn check_speech(request: &SpeechRequest) -> (r: Result<SpeechFormat, ApiError>)
    ensures
        match speech_format(*request) {
            Ok(format) => r == Ok::<SpeechFormat, ApiError>(format),
            Err(message) => r matches Err(e) && e.failure() == invalid_request(message),
        },
{
    if !is_absent_or(&request.model, "impossible-voice-tts") || !is_absent_or(
        &request.voice,
        "kristin",
    ) {
        return Err(ApiError::invalid("model or voice is unsupported"));
    }
    let format = request.response_format.as_str();
    if same_text(format, "wav") {
        Ok(SpeechFormat::Wav)
    } else if same_text(format, "pcm") {
        Ok(SpeechFormat::Pcm)
    } else {
        Err(ApiError::invalid("response_format must be wav or pcm"))
    }
}

/// A speech response.
#[derive(Debug)]
pub struct SpeechResponse {
    /// Body.
    pub bytes: Vec<u8>,
    /// `content-type`.
    pub content_type: &'static str,
    /// `x-audio-sample-rate`.
    pub sample_rate: String,
    /// `x-audio-channels`.
    pub channels: &'static str,
    /// `x-audio-format`.
    pub format: &'static str,
}

/// Encodes a completed synthesis as a response.
pub fn speech_response(synthesis: &Synthesis, format: SpeechFormat) -> (r: Result<
    SpeechResponse,
    ApiError,
>)
    ensures
        match r {
            Ok(response) => {
                let audio = synthesis.recording();
                let pcm = encode_pcm16(values_of(audio.wave()));
                &&& response.sample_rate@ == decimal_text(audio.rate() as nat)
                &&& response.channels@ == "1"@
                &&& response.format@ == "pcm_s16le"@
                &&& match format {
                    SpeechFormat::Wav => {
                        &&& response.content_type@ == "audio/wav"@
                        &&& response.bytes@ == wav_image(audio.rate(), pcm)
                        &&& pcm.len() + 36 <= u32::MAX
                    },
                    SpeechFormat::Pcm => {
                        &&& response.content_type@ == "audio/pcm"@
                        &&& response.bytes@ == pcm
                    },
                }
            },
            Err(e) => {
                &&& format == SpeechFormat::Wav
                &&& 2 * synthesis.recording().wave().len() + 36 > u32::MAX
                &&& e.failure() == backend_failure(VoiceBackendError::Engine)
            },
        },
{
    let sample_rate = render_decimal(synthesis.audio().sample_rate() as u64);
    let (content_type, bytes): (&'static str, Vec<u8>) = match format {
        SpeechFormat::Wav => match synthesis.wav() {
            Ok(bytes) => ("audio/wav", bytes),
            Err(_) => {
                return Err(ApiError::from_backend(VoiceBackendError::Engine));
            },
        },
        SpeechFormat::Pcm => ("audio/pcm", synthesis.pcm16()),
    };
    Ok(SpeechResponse { bytes, content_type, sample_rate, channels: "1", format: "pcm_s16le" })
}

/// A field of a form.
pub struct FormField {
    /// Its name.
    pub name: Seq<char>,
    /// Its content type.
    pub content_type: Option<Seq<char>>,
    /// Its bytes.
    pub bytes: Seq<u8>,
}

impl FormField {
    /// A model name that may be ignored.
    pub open spec fn is_model(self) -> bool {
        self.name == "model"@ && self.bytes.len() <= 65_536
    }
}

/// A form after fields in a row, or why one of them is refused.
pub open spec fn form_of(fields: Seq<FormField>) -> Result<FormState, Seq<char>>
    decreases fields.len(),
{
    if fields.len() == 0 {
        Ok(FormState { file: None, rate: None })
    } else {
        match form_of(fields.drop_last()) {
            Err(message) => Err(message),
            Ok(form) => with_field(
                form,
                fields.last().name,
                fields.last().content_type,
                fields.last().bytes,
            ),
        }
    }
}

/// The names of fields differ.
proof fn field_names_differ()
    ensures
        "file"@ != "model"@,
        "file"@ != "sample_rate"@,
        "model"@ != "sample_rate"@,
{
    reveal_strlit("file");
    reveal_strlit("model");
    reveal_strlit("sample_rate");
    assert("file"@[0] == 'f' && "model"@[0] == 'm' && "sample_rate"@[0] == 's');
}

/// A model name is accepted in every state of a form and changes nothing, whatever it says.
pub proof fn model_names_change_nothing(
    form: FormState,
    content_type: Option<Seq<char>>,
    bytes: Seq<u8>,
)
    requires
        bytes.len() <= 65_536,
    ensures
        with_field(form, "model"@, content_type, bytes) == Ok::<FormState, Seq<char>>(form),
{
    field_names_differ();
}

/// What a rate field comes to by itself.
pub open spec fn rate_told(bytes: Seq<u8>) -> Result<u32, Seq<char>> {
    if bytes.len() > 16 {
        Err("multipart field is unsupported or duplicated"@)
    } else {
        match unsigned(field_text(bytes), u32::MAX as nat) {
            Some(rate) => Ok(rate as u32),
            None => Err("sample_rate is malformed"@),
        }
    }
}

/// The order of fields does not matter: a form whose fields are one file, at most one rate, and any
/// model names comes to that file and that rate, or to the failure of that rate, wherever among the
/// fields they stand. `file` and `rate` are their places.
pub proof fn forms_do_not_depend_on_order(fields: Seq<FormField>, file: int, rate: Option<int>)
    requires
        0 <= file < fields.len(),
        fields[file].name == "file"@,
        rate matches Some(at) ==> 0 <= at < fields.len() && fields[at].name == "sample_rate"@,
        forall|i: int|
            0 <= i < fields.len() && i != file && rate != Some(i) ==> (
            #[trigger] fields[i]).is_model(),
    ensures
        form_of(fields) == match rate {
            None => Ok::<FormState, Seq<char>>(
                FormState {
                    file: Some((fields[file].content_type, fields[file].bytes)),
                    rate: None,
                },
            ),
            Some(at) => match rate_told(fields[at].bytes) {
                Err(message) => Err(message),
                Ok(told) => Ok(
                    FormState {
                        file: Some((fields[file].content_type, fields[file].bytes)),
                        rate: Some(told),
                    },
                ),
            },
        },
{
    form_prefix(fields, file, rate, fields.len() as int);
    assert(fields.take(fields.len() as int) =~= fields);
}

/// What the first fields of such a form come to.
proof fn form_prefix(fields: Seq<FormField>, file: int, rate: Option<int>, n: int)
    requires
        0 <= n <= fields.len(),
        0 <= file < fields.len(),
        fields[file].name == "file"@,
        rate matches Some(at) ==> 0 <= at < fields.len() && fields[at].name == "sample_rate"@,
        forall|i: int|
            0 <= i < fields.len() && i != file && rate != Some(i) ==> (
            #[trigger] fields[i]).is_model(),
    ensures
        ({
            let taken = if file < n {
                Some((fields[file].content_type, fields[file].bytes))
            } else {
                None
            };
            form_of(fields.take(n)) == match rate {
                Some(at) => if at < n {
                    match rate_told(fields[at].bytes) {
                        Err(message) => Err::<FormState, Seq<char>>(message),
                        Ok(told) => Ok(FormState { file: taken, rate: Some(told) }),
                    }
                } else {
                    Ok(FormState { file: taken, rate: None })
                },
                None => Ok(FormState { file: taken, rate: None }),
            }
        }),
    decreases n,
{
    field_names_differ();
    if n > 0 {
        form_prefix(fields, file, rate, n - 1);
        assert(fields.take(n).drop_last() =~= fields.take(n - 1));
        assert(fields.take(n).last() == fields[n - 1]);
        if n - 1 != file && rate != Some(n - 1) {
            assert(fields[n - 1].is_model());
        }
    }
}

/// A form takes one file and nothing unknown: a second file, a field of any other name, and a model
/// name that is too long are refused in every state, and a second rate replaces the first.
pub proof fn forms_take_one_file_and_nothing_unknown(
    form: FormState,
    name: Seq<char>,
    content_type: Option<Seq<char>>,
    bytes: Seq<u8>,
)
    ensures
        ({
            let refused = Err::<FormState, Seq<char>>(
                "multipart field is unsupported or duplicated"@,
            );
            &&& form.file is Some ==> with_field(form, "file"@, content_type, bytes) == refused
            &&& form.file is None ==> with_field(form, "file"@, content_type, bytes) == Ok::<
                FormState,
                Seq<char>,
            >(FormState { file: Some((content_type, bytes)), rate: form.rate })
            &&& name != "file"@ && name != "sample_rate"@ && name != "model"@ ==> with_field(
                form,
                name,
                content_type,
                bytes,
            ) == refused
            &&& bytes.len() > 65_536 ==> with_field(form, "model"@, content_type, bytes) == refused
            &&& rate_told(bytes) is Ok ==> with_field(form, "sample_rate"@, content_type, bytes)
                == Ok::<FormState, Seq<char>>(
                FormState { file: form.file, rate: Some(rate_told(bytes)->Ok_0) },
            )
        }),
{
    field_names_differ();
}

/// A form without a file is refused, one with a file is its file: its bytes are read by its own
/// content type and the form's rate.
pub proof fn forms_are_their_file(
    content_type: Option<Seq<char>>,
    bytes: Seq<u8>,
    rate: Option<u32>,
)
    ensures
        form_failure(FormState { file: None, rate }) == Some("file is required"@),
        content_type matches Some(named) ==> form_failure(
            FormState { file: Some((content_type, bytes)), rate },
        ) == audio_failure(named, rate, bytes),
        file_type(None) == "application/octet-stream"@,
{
}

/// A speech request is accepted exactly when it asks for WAV or raw PCM16 and names no other model
/// and no other voice than the one there is; nothing else about it matters here.
pub proof fn speech_requests_name_what_there_is(request: SpeechRequest, other: SpeechRequest)
    ensures
        speech_format(request) == Ok::<SpeechFormat, Seq<char>>(SpeechFormat::Wav) <==> {
            &&& request.response_format@ == "wav"@
            &&& request.model matches Some(model) ==> model@ == "impossible-voice-tts"@
            &&& request.voice matches Some(voice) ==> voice@ == "kristin"@
        },
        speech_format(request) == Ok::<SpeechFormat, Seq<char>>(SpeechFormat::Pcm) <==> {
            &&& request.response_format@ == "pcm"@
            &&& request.model matches Some(model) ==> model@ == "impossible-voice-tts"@
            &&& request.voice matches Some(voice) ==> voice@ == "kristin"@
        },
        speech_format(request) == Err::<SpeechFormat, Seq<char>>(
            "model or voice is unsupported"@,
        ) <==> {
            ||| request.model is Some && request.model->0@ != "impossible-voice-tts"@
            ||| request.voice is Some && request.voice->0@ != "kristin"@
        },
        request.response_format == other.response_format && request.model == other.model
            && request.voice == other.voice ==> speech_format(request) == speech_format(other),
{
    reveal_strlit("wav");
    reveal_strlit("pcm");
    assert("wav"@[0] == 'w' && "pcm"@[0] == 'p');
    reveal_strlit("model or voice is unsupported");
    reveal_strlit("response_format must be wav or pcm");
    assert("model or voice is unsupported"@[0] == 'm');
    assert("response_format must be wav or pcm"@[0] == 'r');
}

/// Failures keep their meaning on the way to a client: input that is refused is a bad request,
/// occupied capacity is overload, a cancelled request is unavailable, an elapsed deadline is a
/// timeout, and a failed engine is an internal error, for recognition as for synthesis.
pub proof fn failures_keep_their_meaning(stt: SttError, tts: TtsError)
    ensures
        ({
            let failure = backend_failure(stt_error(stt));
            match stt {
                SttError::InvalidInput | SttError::Audio => failure.status == 400 && failure.code
                    == "invalid_request"@,
                SttError::Busy => failure.status == 429 && failure.code == "overloaded"@,
                SttError::Cancelled => failure.status == 503 && failure.code == "cancelled"@,
                SttError::DeadlineExceeded => failure.status == 504 && failure.code
                    == "deadline_exceeded"@,
                SttError::Engine => failure.status == 500 && failure.code == "engine_error"@,
            }
        }),
        ({
            let failure = backend_failure(tts_error(tts));
            match tts {
                TtsError::InvalidInput | TtsError::Output => failure.status == 400 && failure.code
                    == "invalid_request"@,
                TtsError::Busy => failure.status == 429 && failure.code == "overloaded"@,
                TtsError::Cancelled => failure.status == 503 && failure.code == "cancelled"@,
                TtsError::DeadlineExceeded => failure.status == 504 && failure.code
                    == "deadline_exceeded"@,
                TtsError::Engine => failure.status == 500 && failure.code == "engine_error"@,
            }
        }),
{
}

/// The rate that is given explicitly wins over the content type's, and only raw audio takes one: a
/// WAV file brings its own.
pub proof fn explicit_rates_win(content_type: Seq<char>, rate: u32, bytes: Seq<u8>)
    ensures
        raw_rate(content_type, Some(rate)) == Some(rate),
        wav_type(media_type(content_type)) ==> audio_failure(content_type, Some(rate), bytes)
            == Some("WAV sample rate is embedded in the file"@),
        raw_type(media_type(content_type)) ==> (audio_failure(content_type, Some(rate), bytes)
            is None <==> MonoPcm::pcm16_failure(bytes, rate, default_limits()) is None),
        raw_type(media_type(content_type)) && raw_rate(content_type, None) is None
            ==> audio_failure(content_type, None, bytes) == Some(
            "raw PCM sample rate is required"@,
        ),
        wav_type(media_type(content_type)) ==> (audio_failure(content_type, None, bytes) is None
            <==> wav_failure(bytes, default_limits()) is None),
        audio_failure(content_type, Some(rate), bytes) is None ==> raw_type(
            media_type(content_type),
        ),
        audio_failure(content_type, None, bytes) is None ==> raw_type(media_type(content_type))
            || wav_type(media_type(content_type)),
{
    if raw_type(media_type(content_type)) {
        distinct_types(media_type(content_type));
    }
}

/// Which media types are understood.
pub proof fn four_media_types_are_understood(media: Seq<char>)
    ensures
        wav_type("audio/wav"@) && wav_type("audio/x-wav"@),
        raw_type("audio/pcm"@) && raw_type("audio/l16"@),
        wav_type(media) || raw_type(media) ==> media == "audio/wav"@ || media == "audio/x-wav"@
            || media == "audio/pcm"@ || media == "audio/l16"@,
        !(wav_type(media) && raw_type(media)),
{
    if raw_type(media) {
        distinct_types(media);
    }
}

/// The media type is what stands before the first `;`, in whatever case and between whatever blanks
/// it is written; parameters behind it do not matter.
pub proof fn media_types_are_read_loosely(
    before: Seq<char>,
    media: Seq<char>,
    after: Seq<char>,
    parameters: Seq<char>,
)
    requires
        blank(before),
        blank(after),
        media.len() > 0,
        !whitespace(media[0]),
        !whitespace(media.last()),
        !media.contains(';'),
    ensures
        media_type(before + media + after) == lower(media),
        media_type(before + media + after + seq![';'] + parameters) == lower(media),
{
    let first = before + media + after;
    blank_ends_do_not_matter(before, media, after);
    if first.contains(';') {
        let i = choose|i: int| 0 <= i < first.len() && first[i] == ';';
        if i < before.len() {
            assert(whitespace(before[i]));
        } else if i < before.len() + media.len() {
            assert(media[i - before.len()] == ';');
            assert(media.contains(';'));
        } else {
            assert(whitespace(after[i - before.len() - media.len()]));
        }
    }
    first_piece_stands_before_the_separator(first, parameters, ';');
}

/// A `rate` parameter is read in whatever case it is named and between whatever blanks it and its
/// number are written: its rate is that number. A parameter of another name, or without `=`, has
/// none.
pub proof fn rates_are_read_loosely(
    before: Seq<char>,
    key: Seq<char>,
    between: Seq<char>,
    digits: Seq<char>,
    after: Seq<char>,
)
    requires
        blank(before),
        blank(between),
        blank(after),
        key.len() > 0,
        !whitespace(key[0]),
        !key.contains('='),
        digits.len() > 0,
        !whitespace(digits[0]),
        !whitespace(digits.last()),
    ensures
        rate_parameter(before + (key + seq!['='] + (between + digits)) + after) == if lower(key)
            == "rate"@ {
            unsigned(digits, u32::MAX as nat)
        } else {
            None
        },
        !whitespace(key.last()) ==> rate_parameter(before + key + after) is None,
{
    let text = key + seq!['='] + (between + digits);
    assert(text[0] == key[0]);
    assert(text.last() == digits.last());
    blank_ends_do_not_matter(before, text, after);
    position_properties(text, '=');
    let p = position(text, '=') as int;
    assert(text[key.len() as int] == '=');
    if p < key.len() {
        assert(key[p] == '=');
        assert(key.contains('='));
    }
    assert(text.take(p) =~= key);
    assert(text.skip(p + 1) =~= between + digits + Seq::empty());
    blank_ends_do_not_matter(between, digits, Seq::empty());
    if !whitespace(key.last()) {
        blank_ends_do_not_matter(before, key, after);
        position_properties(key, '=');
        let q = position(key, '=') as int;
        if q < key.len() {
            assert(key[q] == '=');
            assert(key.contains('='));
        }
    }
}

/// The first parameter with a readable rate decides, and parameters without one are passed over.
pub proof fn the_first_readable_rate_decides(
    media: Seq<char>,
    parameter: Seq<char>,
    rest: Seq<char>,
)
    requires
        !media.contains(';'),
        !parameter.contains(';'),
    ensures
        ({
            let with = media + seq![';'] + (parameter + seq![';'] + rest);
            let without = media + seq![';'] + rest;
            &&& rate_parameter(parameter) is Some ==> raw_rate(with, None) == Some(
                rate_parameter(parameter)->0 as u32,
            )
            &&& rate_parameter(parameter) is None ==> raw_rate(with, None) == raw_rate(
                without,
                None,
            )
            &&& raw_rate(media, None) is None
        }),
{
    let tail = parameter + seq![';'] + rest;
    first_piece_stands_before_the_separator(media, tail, ';');
    first_piece_stands_before_the_separator(media, rest, ';');
    first_piece_stands_before_the_separator(parameter, rest, ';');
    let with = split(media + seq![';'] + tail, ';').skip(1);
    let without = split(media + seq![';'] + rest, ';').skip(1);
    assert(with =~= seq![parameter] + split(rest, ';'));
    assert(without =~= split(rest, ';'));
    assert(with[0] == parameter);
    assert(with.skip(1) =~= without);
    assert(split(media, ';').skip(1) =~= Seq::empty());
}

/// By default audio of 32 MiB and five minutes is admitted.
pub proof fn five_minutes_are_admitted()
    ensures
        default_limits().byte_bound() == 32 * 1_048_576,
        default_limits().duration_bound_ms() == 5 * 60 * 1_000,
{
    default_limits().bounds_determine(33_554_432, 300_000);
}

/// What is answered to a speech request can be transcribed as it was sent: its body, with its own
/// content type and, where it is raw, the rate of its header, is a recording with the PCM16 values
/// of the synthesis at its rate.
#[verifier::rlimit(40)]
pub proof fn spoken_answers_can_be_transcribed(
    synthesis: &Synthesis,
    format: SpeechFormat,
    answer: Result<SpeechResponse, ApiError>,
    content_type: &str,
    explicit: Option<u32>,
    bytes: &[u8],
    read: Result<MonoPcm, ApiError>,
)
    requires
        supported_rate(synthesis.recording().rate()),
        2 * synthesis.recording().wave().len() + 44 <= usize::MAX,
        call_ensures(speech_response, (synthesis, format), answer),
        answer is Ok,
        content_type@ == answer->Ok_0.content_type@,
        bytes@ == answer->Ok_0.bytes@,
        explicit == match format {
            SpeechFormat::Wav => None,
            SpeechFormat::Pcm => Some(synthesis.recording().rate()),
        },
        call_ensures(decode_audio, (content_type, explicit, bytes), read),
    ensures
        read matches Ok(audio) ==> audio.rate() == synthesis.recording().rate() && values_of(
            audio.wave(),
        ) == values_of(synthesis.recording().wave()),
        decimal(answer->Ok_0.sample_rate@) == Some(synthesis.recording().rate() as nat),
        answer->Ok_0.channels@ == "1"@,
{
    let values = values_of(synthesis.recording().wave());
    encode_then_decode(values);
    wave_of_is_normalized(values);
    decimal_round_trip(synthesis.recording().rate() as nat);
    own_types_are_understood();
    if format == SpeechFormat::Wav {
        wav_image_reads_back(synthesis.recording().rate(), encode_pcm16(values));
    } else {
        distinct_types("audio/pcm"@);
    }
}

/// The types of answers are media types as they stand.
proof fn own_types_are_understood()
    ensures
        media_type("audio/wav"@) == "audio/wav"@,
        media_type("audio/pcm"@) == "audio/pcm"@,
{
    reveal_strlit("audio/wav");
    reveal_strlit("audio/pcm");
    plain_types_stay("audio/wav"@);
    plain_types_stay("audio/pcm"@);
}

/// A type in small letters without blanks or parameters stays as it is.
proof fn plain_types_stay(media: Seq<char>)
    requires
        media.len() > 0,
        forall|i: int| 0 <= i < media.len() ==> 'a' <= #[trigger] media[i] <= 'z' || media[i] == '/',
    ensures
        media_type(media) == media,
{
    let none = Seq::<char>::empty();
    assert(none + media + none =~= media);
    assert(!whitespace(media[0]) && !whitespace(media.last()));
    media_types_are_read_loosely(none, media, none, none);
    assert(lower(media) =~= media);
}

/// Speech that names no speed is spoken at one.
pub proof fn speech_defaults_to_speed_one(speed: Sample)
    requires
        call_ensures(default_speed, (), speed),
    ensures
        !speed.negative(),
        absolute_value(speed.bits) == pow2(149),
{
    lemma_pow2_adds(23, 126);
    lemma2_to64();
    bounds_are_bounds_of_the_value(speed);
    assert(speed.bits / 0x80_0000 == 127 && speed.bits % 0x80_0000 == 0);
}

/// A rate field is read as the number it writes, and a later one replaces an earlier one; what is
/// longer than 16 bytes is no rate.
pub proof fn rate_fields_are_numbers(
    form: FormState,
    first: Seq<u8>,
    second: Seq<u8>,
    n: nat,
    content_type: Option<Seq<char>>,
)
    requires
        n <= u32::MAX,
        field_text(second) == decimal_text(n),
        second.len() <= 16,
    ensures
        with_field(form, "sample_rate"@, content_type, second) == Ok::<FormState, Seq<char>>(
            FormState { rate: Some(n as u32), ..form },
        ),
        with_field(form, "sample_rate"@, content_type, first) matches Ok(earlier) ==> with_field(
            earlier,
            "sample_rate"@,
            content_type,
            second,
        ) == with_field(form, "sample_rate"@, content_type, second),
        first.len() > 16 ==> with_field(form, "sample_rate"@, content_type, first) is Err,
{
    unsigned_numbers_are_bounded(Seq::empty(), n, u32::MAX as nat);
    reveal_strlit("file");
    reveal_strlit("sample_rate");
    reveal_strlit("model");
    assert("file"@.len() == 4 && "sample_rate"@.len() == 11 && "model"@.len() == 5);
}

/// A failure is told as it is: its status, its code, and its message.
pub proof fn failures_are_told_as_they_are(error: ApiError)
    ensures
        error.failure().status == error.status,
        error.failure().code == error.code@,
        error.failure().message == error.message@,
{
}

}
