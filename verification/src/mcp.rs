//! JSON-RPC tools and resources.

use vstd::prelude::*;
use vstd::string::*;
use vstd::utf8::encode_utf8;
use crate::api::{default_limits, VoiceBackendError};
use crate::audio::{
    supported_rate, values_of, wave_of, wave_of_is_normalized, AudioLimits, MonoPcm,
};
use crate::pcm::{decode_pcm16, encode_pcm16, encode_then_decode};
use crate::text::same_text;
use crate::tts::Synthesis;
use crate::wav::{
    files_hold_their_audio_last, wav_failure, wav_image, wav_image_reads_back, wav_pcm, wav_rate,
};

verus! {

/// Most bytes of decoded or encoded audio.
pub const MAX_MCP_AUDIO_BYTES: usize = 4_194_304;

/// Most bytes of base64 text.
pub const MAX_MCP_TEXT_BYTES: usize = 5_592_408;

/// A JSON-RPC failure.
#[derive(Debug, Clone, Copy, PartialEq, Eq)]
pub struct RpcFailure {
    /// JSON-RPC code.
    pub code: i32,
    /// Static message.
    pub message: &'static str,
}

/// A failure over plain texts.
pub struct RpcError {
    /// JSON-RPC code.
    pub code: int,
    /// Message.
    pub message: Seq<char>,
}

impl RpcFailure {
    /// The failure's texts.
    pub open spec fn error(self) -> RpcError {
        RpcError { code: self.code as int, message: self.message@ }
    }

    /// Creates a failure.
    pub fn new(code: i32, message: &'static str) -> (failure: Self)
        ensures
            failure.error() == (RpcError { code: code as int, message: message@ }),
    {
        RpcFailure { code, message }
    }
}

/// The failure of unacceptable parameters.
pub open spec fn bad_params() -> RpcError {
    RpcError { code: -32_602, message: "invalid tool parameters"@ }
}

/// The failure of a body that is no request.
pub open spec fn bad_request() -> RpcError {
    RpcError { code: -32_600, message: "invalid JSON-RPC request"@ }
}

/// The failure of a local engine.
pub open spec fn engine_error() -> RpcError {
    RpcError { code: -32_003, message: "local voice engine failed"@ }
}

/// The failure of unacceptable parameters.
pub fn invalid_params() -> (failure: RpcFailure)
    ensures
        failure.error() == bad_params(),
{
    RpcFailure::new(-32_602, "invalid tool parameters")
}

/// The failure of a body that is no request.
pub fn invalid_request() -> (failure: RpcFailure)
    ensures
        failure.error() == bad_request(),
{
    RpcFailure::new(-32_600, "invalid JSON-RPC request")
}

/// The failure of a local engine.
pub fn engine_failure() -> (failure: RpcFailure)
    ensures
        failure.error() == engine_error(),
{
    RpcFailure::new(-32_003, "local voice engine failed")
}

/// The failure that a backend error becomes.
pub open spec fn rpc_error(error: VoiceBackendError) -> RpcError {
    match error {
        VoiceBackendError::InvalidInput => bad_params(),
        VoiceBackendError::Busy => RpcError { code: -32_003, message: "voice capacity is busy"@ },
        VoiceBackendError::Cancelled => RpcError { code: -32_800, message: "request cancelled"@ },
        VoiceBackendError::DeadlineExceeded => RpcError {
            code: -32_800,
            message: "request deadline exceeded"@,
        },
        VoiceBackendError::Engine => engine_error(),
    }
}

/// The failure that a backend error becomes.
pub fn map_backend_error(error: VoiceBackendError) -> (failure: RpcFailure)
    ensures
        failure.error() == rpc_error(error),
{
    match error {
        VoiceBackendError::InvalidInput => invalid_params(),
        VoiceBackendError::Busy => RpcFailure::new(-32_003, "voice capacity is busy"),
        VoiceBackendError::Cancelled => RpcFailure::new(-32_800, "request cancelled"),
        VoiceBackendError::DeadlineExceeded => RpcFailure::new(
            -32_800,
            "request deadline exceeded",
        ),
        VoiceBackendError::Engine => engine_failure(),
    }
}

/// What a request body is.
#[derive(Debug)]
pub enum RpcBody {
    /// No JSON.
    NotJson,
    /// JSON, but no request.
    NotRequest,
    /// A request.
    Request {
        /// Protocol version.
        jsonrpc: String,
        /// Whether it has an identifier.
        identified: bool,
        /// Method name.
        method: String,
    },
}

/// The methods.
#[derive(Debug, Clone, Copy, PartialEq, Eq, Structural)]
pub enum RpcMethod {
    /// `initialize`.
    Initialize,
    /// `ping`.
    Ping,
    /// `tools/list`.
    ListTools,
    /// `tools/call`.
    CallTool,
    /// `resources/list`.
    ListResources,
    /// `resources/read`.
    ReadResource,
}

/// What becomes of a body.
#[derive(Debug)]
pub enum RpcRoute {
    /// Answer with a failure; `echo` tells whether to repeat the request's identifier.
    Failure {
        /// The failure.
        failure: RpcFailure,
        /// Whether the request's identifier is repeated.
        echo: bool,
    },
    /// A notification: accept it and do nothing.
    Accepted,
    /// Perform a method.
    Method(RpcMethod),
}

/// The method of a name.
pub open spec fn method_named(name: Seq<char>) -> Option<RpcMethod> {
    if name == "initialize"@ {
        Some(RpcMethod::Initialize)
    } else if name == "ping"@ {
        Some(RpcMethod::Ping)
    } else if name == "tools/list"@ {
        Some(RpcMethod::ListTools)
    } else if name == "tools/call"@ {
        Some(RpcMethod::CallTool)
    } else if name == "resources/list"@ {
        Some(RpcMethod::ListResources)
    } else if name == "resources/read"@ {
        Some(RpcMethod::ReadResource)
    } else {
        None
    }
}

/// Finds the method of a name.
fn find_method(name: &str) -> (r: Option<RpcMethod>)
    ensures
        r == method_named(name@),
{
    if same_text(name, "initialize") {
        Some(RpcMethod::Initialize)
    } else if same_text(name, "ping") {
        Some(RpcMethod::Ping)
    } else if same_text(name, "tools/list") {
        Some(RpcMethod::ListTools)
    } else if same_text(name, "tools/call") {
        Some(RpcMethod::CallTool)
    } else if same_text(name, "resources/list") {
        Some(RpcMethod::ListResources)
    } else if same_text(name, "resources/read") {
        Some(RpcMethod::ReadResource)
    } else {
        None
    }
}

/// Whether a route is a failure.
pub open spec fn fails(route: RpcRoute, error: RpcError, echoed: bool) -> bool {
    match route {
        RpcRoute::Failure { failure, echo } => failure.error() == error && echo == echoed,
        _ => false,
    }
}

/// Routes a request body.
pub fn route(body: &RpcBody) -> (route: RpcRoute)
    ensures
        match *body {
            RpcBody::NotJson => fails(
                route,
                RpcError { code: -32_700, message: "JSON-RPC parse error"@ },
                false,
            ),
            RpcBody::NotRequest => fails(route, bad_request(), false),
            RpcBody::Request { jsonrpc, identified, method } => if jsonrpc@ != "2.0"@ {
                fails(route, bad_request(), true)
            } else if !identified {
                route is Accepted
            } else {
                match method_named(method@) {
                    Some(known) => route == RpcRoute::Method(known),
                    None => fails(
                        route,
                        RpcError { code: -32_601, message: "method not found"@ },
                        true,
                    ),
                }
            },
        },
{
    match body {
        RpcBody::NotJson => RpcRoute::Failure {
            failure: RpcFailure::new(-32_700, "JSON-RPC parse error"),
            echo: false,
        },
        RpcBody::NotRequest => RpcRoute::Failure { failure: invalid_request(), echo: false },
        RpcBody::Request { jsonrpc, identified, method } => {
            if !same_text(jsonrpc.as_str(), "2.0") {
                return RpcRoute::Failure { failure: invalid_request(), echo: true };
            }
            if !*identified {
                return RpcRoute::Accepted;
            }
            match find_method(method.as_str()) {
                Some(known) => RpcRoute::Method(known),
                None => RpcRoute::Failure {
                    failure: RpcFailure::new(-32_601, "method not found"),
                    echo: true,
                },
            }
        },
    }
}

/// Accepts exactly the supported protocol version, and gives it; `None` stands for parameters that
/// name none.
pub fn initialize(protocol_version: Option<&str>) -> (r: Result<&'static str, RpcFailure>)
    ensures
        match protocol_version {
            None => r matches Err(e) && e.error() == bad_request(),
            Some(version) => if version@ == "2025-03-26"@ {
                r matches Ok(supported) && supported@ == "2025-03-26"@
            } else {
                r matches Err(e) && e.error() == (RpcError {
                    code: -32_602,
                    message: "MCP protocol version is unsupported"@,
                })
            },
        },
{
    match protocol_version {
        None => Err(invalid_request()),
        Some(version) => if same_text(version, "2025-03-26") {
            Ok("2025-03-26")
        } else {
            Err(RpcFailure::new(-32_602, "MCP protocol version is unsupported"))
        },
    }
}

/// The tools.
#[derive(Debug, Clone, Copy, PartialEq, Eq, Structural)]
pub enum Tool {
    /// Transcribe audio.
    TranscribeAudio,
    /// Synthesize speech.
    SynthesizeSpeech,
    /// List the models.
    ListModels,
    /// Report readiness.
    Health,
}

impl Tool {
    /// The tool's name.
    pub open spec fn text(self) -> Seq<char> {
        match self {
            Tool::TranscribeAudio => "transcribe_audio"@,
            Tool::SynthesizeSpeech => "synthesize_speech"@,
            Tool::ListModels => "list_models"@,
            Tool::Health => "health"@,
        }
    }

    /// The tool's name.
    pub fn name(self) -> (name: &'static str)
        ensures
            name@ == self.text(),
    {
        match self {
            Tool::TranscribeAudio => "transcribe_audio",
            Tool::SynthesizeSpeech => "synthesize_speech",
            Tool::ListModels => "list_models",
            Tool::Health => "health",
        }
    }

    /// What the tool does.
    pub fn description(self) -> (description: &'static str)
        ensures
            description@ == match self {
                Tool::TranscribeAudio =>
                    "Transcribe bounded base64 WAV or raw PCM16 using the local model."@,
                Tool::SynthesizeSpeech => "Synthesize bounded text with the local Kristin voice."@,
                Tool::ListModels => "List the curated local STT model and TTS voice."@,
                Tool::Health => "Return local engine readiness."@,
            },
    {
        match self {
            Tool::TranscribeAudio =>
                "Transcribe bounded base64 WAV or raw PCM16 using the local model.",
            Tool::SynthesizeSpeech => "Synthesize bounded text with the local Kristin voice.",
            Tool::ListModels => "List the curated local STT model and TTS voice.",
            Tool::Health => "Return local engine readiness.",
        }
    }

    /// The tool's arguments.
    pub fn arguments(self) -> (arguments: Vec<ToolArgument>)
        ensures
            match self {
                Tool::TranscribeAudio => {
                    &&& arguments@.len() == 3
                    &&& arguments@[0].is("audio_base64"@, true)
                    &&& arguments@[0].kind == (ArgumentKind::Text {
                        max_length: MAX_MCP_TEXT_BYTES,
                    })
                    &&& arguments@[1].is("encoding"@, true)
                    &&& arguments@[1].kind is Encoding
                    &&& arguments@[2].is("sample_rate"@, false)
                    &&& arguments@[2].kind == (ArgumentKind::Integer {
                        minimum: 8_000,
                        maximum: 48_000,
                    })
                },
                Tool::SynthesizeSpeech => {
                    &&& arguments@.len() == 3
                    &&& arguments@[0].is("text"@, true)
                    &&& arguments@[0].kind == (ArgumentKind::Text { max_length: 4_096 })
                    &&& arguments@[1].is("speed"@, false)
                    &&& arguments@[1].kind is Speed
                    &&& arguments@[2].is("format"@, false)
                    &&& arguments@[2].kind is Encoding
                },
                _ => arguments@.len() == 0,
            },
    {
        let mut arguments: Vec<ToolArgument> = Vec::new();
        match self {
            Tool::TranscribeAudio => {
                arguments.push(
                    ToolArgument {
                        name: "audio_base64",
                        required: true,
                        kind: ArgumentKind::Text { max_length: MAX_MCP_TEXT_BYTES },
                    },
                );
                arguments.push(
                    ToolArgument {
                        name: "encoding",
                        required: true,
                        kind: ArgumentKind::Encoding,
                    },
                );
                arguments.push(
                    ToolArgument {
                        name: "sample_rate",
                        required: false,
                        kind: ArgumentKind::Integer { minimum: 8_000, maximum: 48_000 },
                    },
                );
            },
            Tool::SynthesizeSpeech => {
                arguments.push(
                    ToolArgument {
                        name: "text",
                        required: true,
                        kind: ArgumentKind::Text { max_length: 4_096 },
                    },
                );
                arguments.push(
                    ToolArgument { name: "speed", required: false, kind: ArgumentKind::Speed },
                );
                arguments.push(
                    ToolArgument { name: "format", required: false, kind: ArgumentKind::Encoding },
                );
            },
            _ => {},
        }
        arguments
    }
}

/// One argument of a tool.
#[derive(Debug, Clone, Copy)]
pub struct ToolArgument {
    /// Name.
    pub name: &'static str,
    /// Whether it must be given.
    pub required: bool,
    /// What is accepted.
    pub kind: ArgumentKind,
}

impl ToolArgument {
    /// Whether an argument has a name and is required or not.
    pub open spec fn is(self, name: Seq<char>, required: bool) -> bool {
        self.name@ == name && self.required == required
    }
}

/// What an argument accepts.
#[derive(Debug, Clone, Copy, PartialEq, Eq)]
pub enum ArgumentKind {
    /// A text.
    Text {
        /// Its longest length.
        max_length: usize,
    },
    /// `wav` or `pcm16`.
    Encoding,
    /// A whole number.
    Integer {
        /// The least.
        minimum: u32,
        /// The greatest.
        maximum: u32,
    },
    /// A number from one half to two.
    Speed,
}

/// The listed tools.
pub open spec fn listed_tools() -> Seq<Tool> {
    seq![Tool::TranscribeAudio, Tool::SynthesizeSpeech, Tool::ListModels, Tool::Health]
}

/// Lists the tools.
pub fn tools() -> (tools: Vec<Tool>)
    ensures
        tools@ == listed_tools(),
{
    let mut tools: Vec<Tool> = Vec::new();
    tools.push(Tool::TranscribeAudio);
    tools.push(Tool::SynthesizeSpeech);
    tools.push(Tool::ListModels);
    tools.push(Tool::Health);
    assert(tools@ =~= listed_tools());
    tools
}

/// The tool of a name, or the failure; `None` stands for parameters that are no call.
pub open spec fn tool_called(name: Option<Seq<char>>) -> Result<Tool, RpcError> {
    match name {
        None => Err(bad_params()),
        Some(name) => if name == "transcribe_audio"@ {
            Ok(Tool::TranscribeAudio)
        } else if name == "synthesize_speech"@ {
            Ok(Tool::SynthesizeSpeech)
        } else if name == "list_models"@ {
            Ok(Tool::ListModels)
        } else if name == "health"@ {
            Ok(Tool::Health)
        } else {
            Err(RpcError { code: -32_602, message: "tool not found"@ })
        },
    }
}

/// The view of an optional text.
pub open spec fn optional_view(text: Option<&str>) -> Option<Seq<char>> {
    match text {
        Some(text) => Some(text@),
        None => None,
    }
}

/// Finds the tool that a call names.
pub fn find_tool(name: Option<&str>) -> (r: Result<Tool, RpcFailure>)
    ensures
        match tool_called(optional_view(name)) {
            Ok(tool) => r == Ok::<Tool, RpcFailure>(tool),
            Err(error) => r matches Err(e) && e.error() == error,
        },
{
    match name {
        None => Err(invalid_params()),
        Some(name) => if same_text(name, "transcribe_audio") {
            Ok(Tool::TranscribeAudio)
        } else if same_text(name, "synthesize_speech") {
            Ok(Tool::SynthesizeSpeech)
        } else if same_text(name, "list_models") {
            Ok(Tool::ListModels)
        } else if same_text(name, "health") {
            Ok(Tool::Health)
        } else {
            Err(RpcFailure::new(-32_602, "tool not found"))
        },
    }
}

/// The listed tools are exactly those that can be called: each is found by its own name, and no
/// other name finds any.
pub proof fn listed_tools_are_callable(tool: Tool, name: Seq<char>)
    ensures
        listed_tools().contains(tool),
        tool_called(Some(tool.text())) == Ok::<Tool, RpcError>(tool),
        tool_called(Some(name)) matches Ok(found) ==> found.text() == name,
{
    let tools = listed_tools();
    assert(tools[0] == Tool::TranscribeAudio && tools[1] == Tool::SynthesizeSpeech);
    assert(tools[2] == Tool::ListModels && tools[3] == Tool::Health);
    reveal_strlit("transcribe_audio");
    reveal_strlit("synthesize_speech");
    reveal_strlit("list_models");
    reveal_strlit("health");
    assert("transcribe_audio"@.len() == 16 && "synthesize_speech"@.len() == 17);
    assert("list_models"@.len() == 11 && "health"@.len() == 6);
}

/// Accepts arguments of a tool that takes none: anything but an object with members. `None` stands
/// for arguments that are no object.
pub fn require_empty(members: Option<usize>) -> (r: Result<(), RpcFailure>)
    ensures
        r is Ok <==> (members matches Some(n) ==> n == 0),
        r matches Err(e) ==> e.error() == bad_params(),
{
    match members {
        Some(n) => if n == 0 {
            Ok(())
        } else {
            Err(invalid_params())
        },
        None => Ok(()),
    }
}

/// The bytes that a text is the standard base64 form of, with padding; `None` where it is none.
pub uninterp spec fn decoded_base64(text: Seq<char>) -> Option<Seq<u8>>;

/// The standard base64 form of bytes, with padding.
pub uninterp spec fn base64_text(bytes: Seq<u8>) -> Seq<char>;

/// `base64::Engine::decode` of the `STANDARD` engine gives the bytes that a text is the base64 form
/// of, and an error where it is none.
#[verifier::external_body]
fn decode_base64(text: &str) -> (bytes: Option<Vec<u8>>)
    ensures
        match bytes {
            Some(bytes) => decoded_base64(text@) == Some(bytes@),
            None => decoded_base64(text@) is None,
        },
{
    base64::Engine::decode(&base64::engine::general_purpose::STANDARD, text).ok()
}

/// `base64::Engine::encode` of the `STANDARD` engine gives the base64 form of bytes: four ASCII
/// characters for every three bytes or part of three, which decode to those bytes again. More bytes
/// than allowed here could exceed what a text can hold, where it panics.
#[verifier::external_body]
fn encode_base64(bytes: &[u8]) -> (text: String)
    requires
        bytes@.len() <= MAX_MCP_AUDIO_BYTES,
    ensures
        text@ == base64_text(bytes@),
        encode_utf8(text@).len() == 4 * ((bytes@.len() + 2) / 3),
        decoded_base64(text@) == Some(bytes@),
{
    base64::Engine::encode(&base64::engine::general_purpose::STANDARD, bytes)
}

/// Arguments of the transcription tool.
#[derive(Debug)]
pub struct TranscribeArguments {
    /// Audio in base64.
    pub audio_base64: String,
    /// `wav` or `pcm16`.
    pub encoding: String,
    /// Sample rate of raw audio.
    pub sample_rate: Option<u32>,
}

/// Whether decoded audio can be transcribed.
pub open spec fn acceptable_audio(
    bytes: Option<Seq<u8>>,
    encoding: Seq<char>,
    sample_rate: Option<u32>,
) -> bool {
    match bytes {
        None => false,
        Some(bytes) => {
            &&& bytes.len() <= MAX_MCP_AUDIO_BYTES
            &&& if encoding == "wav"@ {
                sample_rate is None && wav_failure(bytes, default_limits()) is None
            } else {
                &&& encoding == "pcm16"@
                &&& sample_rate is Some
                &&& MonoPcm::pcm16_failure(bytes, sample_rate->0, default_limits()) is None
            }
        },
    }
}

/// Whether a recording is what acceptable bytes hold.
pub open spec fn audio_of(
    audio: MonoPcm,
    bytes: Seq<u8>,
    encoding: Seq<char>,
    sample_rate: Option<u32>,
) -> bool {
    if encoding == "wav"@ {
        &&& audio.rate() == wav_rate(bytes)
        &&& audio.wave() == wave_of(decode_pcm16(wav_pcm(bytes)))
    } else {
        &&& Some(audio.rate()) == sample_rate
        &&& audio.wave() == wave_of(decode_pcm16(bytes))
    }
}

/// The view of optional bytes.
pub open spec fn bytes_view(bytes: Option<Vec<u8>>) -> Option<Seq<u8>> {
    match bytes {
        Some(bytes) => Some(bytes@),
        None => None,
    }
}

/// Reads decoded audio; `None` stands for a text that was no base64.
pub fn read_audio(bytes: Option<Vec<u8>>, encoding: &str, sample_rate: Option<u32>) -> (r: Result<
    MonoPcm,
    RpcFailure,
>)
    ensures
        r is Ok <==> acceptable_audio(bytes_view(bytes), encoding@, sample_rate),
        match r {
            Ok(audio) => audio_of(audio, bytes->0@, encoding@, sample_rate) && audio.valid(),
            Err(e) => e.error() == bad_params(),
        },
{
    let bytes = match bytes {
        Some(bytes) => bytes,
        None => {
            return Err(invalid_params());
        },
    };
    if bytes.len() > MAX_MCP_AUDIO_BYTES {
        return Err(invalid_params());
    }
    if same_text(encoding, "wav") {
        if sample_rate.is_some() {
            return Err(invalid_params());
        }
        match MonoPcm::from_wav(bytes.as_slice(), AudioLimits::default()) {
            Ok(audio) => Ok(audio),
            Err(_) => Err(invalid_params()),
        }
    } else if same_text(encoding, "pcm16") {
        let rate: u32 = match sample_rate {
            Some(rate) => rate,
            None => {
                return Err(invalid_params());
            },
        };
        match MonoPcm::from_pcm16_le(bytes.as_slice(), rate, AudioLimits::default()) {
            Ok(audio) => Ok(audio),
            Err(_) => Err(invalid_params()),
        }
    } else {
        Err(invalid_params())
    }
}

/// Whether the transcription tool's arguments can be transcribed.
pub open spec fn acceptable_arguments(arguments: TranscribeArguments) -> bool {
    &&& encode_utf8(arguments.audio_base64@).len() <= MAX_MCP_TEXT_BYTES
    &&& acceptable_audio(
        decoded_base64(arguments.audio_base64@),
        arguments.encoding@,
        arguments.sample_rate,
    )
}

/// Decodes the transcription tool's arguments; `None` stands for ones that are no such arguments.
pub fn decode_arguments(arguments: Option<TranscribeArguments>) -> (r: Result<MonoPcm, RpcFailure>)
    ensures
        r is Ok <==> (arguments matches Some(found) && acceptable_arguments(found)),
        match r {
            Ok(audio) => {
                &&& audio_of(
                    audio,
                    decoded_base64(arguments->0.audio_base64@)->0,
                    arguments->0.encoding@,
                    arguments->0.sample_rate,
                )
                &&& audio.valid()
            },
            Err(e) => e.error() == bad_params(),
        },
{
    let arguments = match arguments {
        Some(arguments) => arguments,
        None => {
            return Err(invalid_params());
        },
    };
    if arguments.audio_base64.as_str().as_bytes().len() > MAX_MCP_TEXT_BYTES {
        return Err(invalid_params());
    }
    let bytes = decode_base64(arguments.audio_base64.as_str());
    read_audio(bytes, arguments.encoding.as_str(), arguments.sample_rate)
}

/// Audio within the byte bound always has a base64 form within the text bound, and the longest
/// audio just reaches it.
pub proof fn text_bound_fits_byte_bound(bytes: nat)
    ensures
        bytes <= MAX_MCP_AUDIO_BYTES ==> 4 * ((bytes + 2) / 3) <= MAX_MCP_TEXT_BYTES,
        bytes == MAX_MCP_AUDIO_BYTES ==> 4 * ((bytes + 2) / 3) == MAX_MCP_TEXT_BYTES,
{
}

/// Encoding of synthesized audio.
#[derive(Debug, Clone, Copy, PartialEq, Eq, Structural)]
pub enum ToolFormat {
    /// RIFF/WAVE.
    Wav,
    /// Raw PCM16.
    Pcm16,
}

/// Accepts the format of a synthesis call; `None` stands for arguments that are none.
pub fn check_format(format: Option<&str>) -> (r: Result<ToolFormat, RpcFailure>)
    ensures
        match format {
            Some(format) => if format@ == "wav"@ {
                r == Ok::<ToolFormat, RpcFailure>(ToolFormat::Wav)
            } else if format@ == "pcm16"@ {
                r == Ok::<ToolFormat, RpcFailure>(ToolFormat::Pcm16)
            } else {
                r matches Err(e) && e.error() == bad_params()
            },
            None => r matches Err(e) && e.error() == bad_params(),
        },
{
    match format {
        None => Err(invalid_params()),
        Some(format) => if same_text(format, "wav") {
            Ok(ToolFormat::Wav)
        } else if same_text(format, "pcm16") {
            Ok(ToolFormat::Pcm16)
        } else {
            Err(invalid_params())
        },
    }
}

/// Audio content of a tool result.
#[derive(Debug)]
pub struct AudioContent {
    /// Audio in base64.
    pub data: String,
    /// Media type.
    pub mime_type: &'static str,
}

/// The bytes of a synthesis in a format.
pub open spec fn result_bytes(synthesis: Synthesis, format: ToolFormat) -> Seq<u8> {
    let audio = synthesis.recording();
    let pcm = encode_pcm16(values_of(audio.wave()));
    match format {
        ToolFormat::Wav => wav_image(audio.rate(), pcm),
        ToolFormat::Pcm16 => pcm,
    }
}

/// Why a synthesis cannot be a tool result, if it cannot.
pub open spec fn result_failure(synthesis: Synthesis, format: ToolFormat) -> Option<RpcError> {
    if format == ToolFormat::Wav && 2 * synthesis.recording().wave().len() + 36 > u32::MAX {
        Some(engine_error())
    } else if result_bytes(synthesis, format).len() > MAX_MCP_AUDIO_BYTES {
        Some(RpcError { code: -32_003, message: "tool result exceeds the MCP limit"@ })
    } else {
        None
    }
}

/// Encodes a completed synthesis as a tool result. Its data decodes to the synthesized audio.
pub fn synthesis_result(synthesis: &Synthesis, format: ToolFormat) -> (r: Result<
    AudioContent,
    RpcFailure,
>)
    ensures
        match r {
            Ok(content) => {
                &&& result_failure(*synthesis, format) is None
                &&& content.data@ == base64_text(result_bytes(*synthesis, format))
                &&& decoded_base64(content.data@) == Some(result_bytes(*synthesis, format))
                &&& content.mime_type@ == match format {
                    ToolFormat::Wav => "audio/wav"@,
                    ToolFormat::Pcm16 => "audio/pcm"@,
                }
            },
            Err(e) => result_failure(*synthesis, format) == Some(e.error()),
        },
{
    let (mime_type, bytes): (&'static str, Vec<u8>) = match format {
        ToolFormat::Wav => match synthesis.wav() {
            Ok(bytes) => ("audio/wav", bytes),
            Err(_) => {
                return Err(engine_failure());
            },
        },
        ToolFormat::Pcm16 => ("audio/pcm", synthesis.pcm16()),
    };
    if bytes.len() > MAX_MCP_AUDIO_BYTES {
        return Err(RpcFailure::new(-32_003, "tool result exceeds the MCP limit"));
    }
    Ok(AudioContent { data: encode_base64(bytes.as_slice()), mime_type })
}

/// The resources.
#[derive(Debug, Clone, Copy, PartialEq, Eq, Structural)]
pub enum Resource {
    /// What the server can do.
    Capabilities,
    /// Whether it is ready.
    Status,
}

impl Resource {
    /// The resource's address.
    pub open spec fn address(self) -> Seq<char> {
        match self {
            Resource::Capabilities => "voice://capabilities"@,
            Resource::Status => "voice://status"@,
        }
    }

    /// The resource's address.
    pub fn uri(self) -> (uri: &'static str)
        ensures
            uri@ == self.address(),
    {
        match self {
            Resource::Capabilities => "voice://capabilities",
            Resource::Status => "voice://status",
        }
    }

    /// The resource's name.
    pub fn name(self) -> (name: &'static str)
        ensures
            name@ == match self {
                Resource::Capabilities => "Voice capabilities"@,
                Resource::Status => "Voice status"@,
            },
    {
        match self {
            Resource::Capabilities => "Voice capabilities",
            Resource::Status => "Voice status",
        }
    }

    /// The resource's JSON text.
    pub fn text(self) -> (text: &'static str)
        ensures
            text@ == match self {
                Resource::Capabilities =>
                    "{\"grpc\":true,\"http\":true,\"mcp\":true,\"offline_after_setup\":true,\"speech_to_text\":true,\"text_to_speech\":true,\"websocket\":true}"@,
                Resource::Status => "{\"downloads_during_serve\":false,\"status\":\"ready\"}"@,
            },
    {
        match self {
            Resource::Capabilities =>
                "{\"grpc\":true,\"http\":true,\"mcp\":true,\"offline_after_setup\":true,\"speech_to_text\":true,\"text_to_speech\":true,\"websocket\":true}",
            Resource::Status => "{\"downloads_during_serve\":false,\"status\":\"ready\"}",
        }
    }
}

/// Lists the resources.
pub fn resources() -> (resources: Vec<Resource>)
    ensures
        resources@ == seq![Resource::Capabilities, Resource::Status],
{
    let mut resources: Vec<Resource> = Vec::new();
    resources.push(Resource::Capabilities);
    resources.push(Resource::Status);
    assert(resources@ =~= seq![Resource::Capabilities, Resource::Status]);
    resources
}

/// The resource of an address, or the failure; `None` stands for parameters that name none.
pub open spec fn resource_read(uri: Option<Seq<char>>) -> Result<Resource, RpcError> {
    match uri {
        None => Err(bad_params()),
        Some(uri) => if uri == "voice://capabilities"@ {
            Ok(Resource::Capabilities)
        } else if uri == "voice://status"@ {
            Ok(Resource::Status)
        } else {
            Err(RpcError { code: -32_002, message: "resource not found"@ })
        },
    }
}

/// Finds the resource of an address.
pub fn read_resource(uri: Option<&str>) -> (r: Result<Resource, RpcFailure>)
    ensures
        match resource_read(optional_view(uri)) {
            Ok(resource) => r == Ok::<Resource, RpcFailure>(resource),
            Err(error) => r matches Err(e) && e.error() == error,
        },
{
    match uri {
        None => Err(invalid_params()),
        Some(uri) => if same_text(uri, "voice://capabilities") {
            Ok(Resource::Capabilities)
        } else if same_text(uri, "voice://status") {
            Ok(Resource::Status)
        } else {
            Err(RpcFailure::new(-32_002, "resource not found"))
        },
    }
}

/// Every listed resource can be read at its own address, and no other address can.
pub proof fn listed_resources_are_readable(resource: Resource, uri: Seq<char>)
    ensures
        resource_read(Some(resource.address())) == Ok::<Resource, RpcError>(resource),
        resource_read(Some(uri)) matches Ok(found) ==> found.address() == uri,
{
    reveal_strlit("voice://capabilities");
    reveal_strlit("voice://status");
    assert("voice://capabilities"@.len() == 20 && "voice://status"@.len() == 14);
}

/// The text content of the tools that take no arguments.
pub fn static_tool_text(tool: Tool) -> (text: Option<&'static str>)
    ensures
        match tool {
            Tool::ListModels => text matches Some(found) && found@
                == "{\"stt\":\"impossible-voice-stt\",\"tts\":\"impossible-voice-tts\",\"voice\":\"kristin\"}"@,
            Tool::Health => text matches Some(found) && found@ == "{\"status\":\"ready\"}"@,
            _ => text is None,
        },
{
    match tool {
        Tool::ListModels => Some(
            "{\"stt\":\"impossible-voice-stt\",\"tts\":\"impossible-voice-tts\",\"voice\":\"kristin\"}",
        ),
        Tool::Health => Some("{\"status\":\"ready\"}"),
        _ => None,
    }
}

/// The name by which a method is asked for.
pub open spec fn wire_name(method: RpcMethod) -> Seq<char> {
    match method {
        RpcMethod::Initialize => "initialize"@,
        RpcMethod::Ping => "ping"@,
        RpcMethod::ListTools => "tools/list"@,
        RpcMethod::CallTool => "tools/call"@,
        RpcMethod::ListResources => "resources/list"@,
        RpcMethod::ReadResource => "resources/read"@,
    }
}

/// A request reaches the method that it names, and only that one. A method is performed only for a
/// request of protocol version 2.0 with an identifier; one without an identifier is accepted and
/// nothing comes of it, whatever it names; and an identifier is repeated exactly where there was a
/// request to take it from.
pub proof fn requests_reach_the_method_they_name(
    body: &RpcBody,
    reached: RpcRoute,
    method: RpcMethod,
)
    requires
        call_ensures(route, (body,), reached),
    ensures
        reached == RpcRoute::Method(method) <==> (*body matches RpcBody::Request {
            jsonrpc,
            identified,
            method: name,
        } && jsonrpc@ == "2.0"@ && identified && name@ == wire_name(method)),
        reached is Accepted <==> (*body matches RpcBody::Request { jsonrpc, identified, .. }
            && jsonrpc@ == "2.0"@ && !identified),
        reached matches RpcRoute::Failure { failure, echo } ==> (echo <==> body is Request) && (
        failure.code == -32_700 <==> body is NotJson) && (failure.code == -32_601 <==> (
        *body matches RpcBody::Request { jsonrpc, .. } && jsonrpc@ == "2.0"@)),
{
    if let RpcBody::Request { jsonrpc, identified, method: name } = body {
        methods_are_found_by_name(method, name@);
    }
}

/// A method is found by its own name and by no other.
proof fn methods_are_found_by_name(method: RpcMethod, name: Seq<char>)
    ensures
        method_named(name) == Some(method) <==> name == wire_name(method),
{
    reveal_strlit("initialize");
    reveal_strlit("ping");
    reveal_strlit("tools/list");
    reveal_strlit("tools/call");
    reveal_strlit("resources/list");
    reveal_strlit("resources/read");
    assert("initialize"@.len() == 10 && "ping"@.len() == 4);
    assert("initialize"@[0] == 'i' && "tools/list"@[0] == 't' && "tools/call"@[0] == 't');
    assert("tools/list"@[6] == 'l' && "tools/call"@[6] == 'c');
    assert("resources/list"@.len() == 14 && "resources/read"@.len() == 14);
    assert("resources/list"@[10] == 'l' && "resources/read"@[10] == 'r');
}

/// Backend errors keep their meaning: unacceptable input, a server at capacity or a failed engine,
/// and a stopped request have codes of their own, and no two errors read alike.
pub proof fn failures_tell_what_went_wrong(a: VoiceBackendError, b: VoiceBackendError)
    ensures
        rpc_error(a).code == -32_602 <==> a == VoiceBackendError::InvalidInput,
        rpc_error(a).code == -32_003 <==> a == VoiceBackendError::Busy || a
            == VoiceBackendError::Engine,
        rpc_error(a).code == -32_800 <==> a == VoiceBackendError::Cancelled || a
            == VoiceBackendError::DeadlineExceeded,
        rpc_error(a) == rpc_error(b) ==> a == b,
{
    reveal_strlit("voice capacity is busy");
    reveal_strlit("local voice engine failed");
    reveal_strlit("request cancelled");
    reveal_strlit("request deadline exceeded");
    assert("voice capacity is busy"@.len() == 22 && "local voice engine failed"@.len() == 25);
    assert("request cancelled"@.len() == 17 && "request deadline exceeded"@.len() == 25);
}

/// Audio of a call is taken exactly where it says how it is read: a container without a rate, or
/// raw audio with one. A rate beside a container, raw audio without one, another encoding, text
/// that is no base64, and more than 4 MiB are refused, whatever the audio holds.
pub proof fn audio_says_how_it_is_read(bytes: Seq<u8>, encoding: Seq<char>, rate: u32)
    ensures
        acceptable_audio(Some(bytes), "wav"@, None) <==> bytes.len() <= 4_194_304 && wav_failure(
            bytes,
            default_limits(),
        ) is None,
        acceptable_audio(Some(bytes), "pcm16"@, Some(rate)) <==> bytes.len() <= 4_194_304
            && MonoPcm::pcm16_failure(bytes, rate, default_limits()) is None,
        !acceptable_audio(Some(bytes), "wav"@, Some(rate)),
        !acceptable_audio(Some(bytes), "pcm16"@, None),
        encoding != "wav"@ && encoding != "pcm16"@ ==> !acceptable_audio(
            Some(bytes),
            encoding,
            Some(rate),
        ) && !acceptable_audio(Some(bytes), encoding, None),
        !acceptable_audio(None, encoding, Some(rate)),
        !acceptable_audio(None, encoding, None),
{
    reveal_strlit("wav");
    reveal_strlit("pcm16");
    assert("wav"@.len() == 3 && "pcm16"@.len() == 5);
}

/// What the synthesis tool gives, the transcription tool reads: the decoded result, taken in the
/// encoding it was asked for, is a recording at the synthesis's rate with the same PCM16 values.
pub proof fn synthesized_audio_reads_back(synthesis: Synthesis, audio: MonoPcm)
    requires
        supported_rate(synthesis.recording().rate()),
        2 * synthesis.recording().wave().len() + 36 <= u32::MAX,
        2 * synthesis.recording().wave().len() + 44 <= usize::MAX,
    ensures
        audio_of(audio, result_bytes(synthesis, ToolFormat::Wav), "wav"@, None) ==> audio.rate()
            == synthesis.recording().rate() && values_of(audio.wave()) == values_of(
            synthesis.recording().wave(),
        ),
        audio_of(
            audio,
            result_bytes(synthesis, ToolFormat::Pcm16),
            "pcm16"@,
            Some(synthesis.recording().rate()),
        ) ==> audio.rate() == synthesis.recording().rate() && values_of(audio.wave()) == values_of(
            synthesis.recording().wave(),
        ),
{
    reveal_strlit("wav");
    reveal_strlit("pcm16");
    assert("wav"@.len() == 3 && "pcm16"@.len() == 5);
    let values = values_of(synthesis.recording().wave());
    encode_then_decode(values);
    wave_of_is_normalized(values);
    wav_image_reads_back(synthesis.recording().rate(), encode_pcm16(values));
}

/// A result is refused exactly where its audio is longer than 4 MiB, header and all.
pub proof fn results_are_bounded(synthesis: Synthesis)
    ensures
        result_failure(synthesis, ToolFormat::Pcm16) is None <==> 2
            * synthesis.recording().wave().len() <= 4_194_304,
        result_failure(synthesis, ToolFormat::Wav) is None <==> 2
            * synthesis.recording().wave().len() + 44 <= 4_194_304,
{
    let values = values_of(synthesis.recording().wave());
    files_hold_their_audio_last(synthesis.recording().rate(), encode_pcm16(values));
}

/// The tools are known by these names.
pub proof fn tools_are_called_by_name(name: Seq<char>)
    ensures
        tool_called(Some(name)) == Ok::<Tool, RpcError>(Tool::TranscribeAudio) <==> name
            == "transcribe_audio"@,
        tool_called(Some(name)) == Ok::<Tool, RpcError>(Tool::SynthesizeSpeech) <==> name
            == "synthesize_speech"@,
        tool_called(Some(name)) == Ok::<Tool, RpcError>(Tool::ListModels) <==> name
            == "list_models"@,
        tool_called(Some(name)) == Ok::<Tool, RpcError>(Tool::Health) <==> name == "health"@,
        tool_called(Some(name)) matches Err(error) ==> error.code == -32_602,
        tool_called(None) matches Err(error) && error.code == -32_602,
{
    listed_tools_are_callable(Tool::Health, name);
    listed_tools_are_callable(Tool::ListModels, name);
    listed_tools_are_callable(Tool::SynthesizeSpeech, name);
    listed_tools_are_callable(Tool::TranscribeAudio, name);
}

/// The resources are known by these addresses.
pub proof fn resources_are_read_by_address(uri: Seq<char>)
    ensures
        resource_read(Some(uri)) == Ok::<Resource, RpcError>(Resource::Capabilities) <==> uri
            == "voice://capabilities"@,
        resource_read(Some(uri)) == Ok::<Resource, RpcError>(Resource::Status) <==> uri
            == "voice://status"@,
        resource_read(Some(uri)) matches Err(error) ==> error.code == -32_002,
        resource_read(None) matches Err(error) && error.code == -32_602,
{
    listed_resources_are_readable(Resource::Capabilities, uri);
    listed_resources_are_readable(Resource::Status, uri);
}

/// A session opens for version `2025-03-26` of the protocol and for no other, and is answered with
/// the version it asked for.
pub proof fn one_protocol_version_is_spoken(
    version: Option<&str>,
    answer: Result<&'static str, RpcFailure>,
)
    requires
        call_ensures(initialize, (version,), answer),
    ensures
        answer is Ok <==> (version matches Some(asked) && asked@ == "2025-03-26"@),
        answer matches Ok(spoken) ==> version matches Some(asked) && spoken@ == asked@,
        answer matches Err(failure) ==> failure.code == if version is None {
            -32_600int
        } else {
            -32_602int
        },
{
}

/// A synthesis is given as `wav` or as `pcm16`, and a tool without arguments takes none.
pub proof fn formats_are_named(
    format: Option<&str>,
    chosen: Result<ToolFormat, RpcFailure>,
    members: Option<usize>,
    taken: Result<(), RpcFailure>,
)
    requires
        call_ensures(check_format, (format,), chosen),
        call_ensures(require_empty, (members,), taken),
    ensures
        chosen == Ok::<ToolFormat, RpcFailure>(ToolFormat::Wav) <==> (format matches Some(name)
            && name@ == "wav"@),
        chosen == Ok::<ToolFormat, RpcFailure>(ToolFormat::Pcm16) <==> (format matches Some(name)
            && name@ == "pcm16"@),
        chosen matches Err(failure) ==> failure.code == -32_602,
        taken is Err <==> (members matches Some(n) && n > 0),
        taken matches Err(failure) ==> failure.code == -32_602,
{
    reveal_strlit("wav");
    reveal_strlit("pcm16");
    assert("wav"@.len() == 3 && "pcm16"@.len() == 5);
}

/// The result of a synthesis can be handed back as it was given: its data, in the encoding that was
/// asked for, is read as a recording with the PCM16 values of the synthesis at its rate.
pub proof fn results_can_be_handed_back(
    synthesis: &Synthesis,
    format: ToolFormat,
    result: Result<AudioContent, RpcFailure>,
    arguments: TranscribeArguments,
    read: Result<MonoPcm, RpcFailure>,
)
    requires
        supported_rate(synthesis.recording().rate()),
        2 * synthesis.recording().wave().len() + 36 <= u32::MAX,
        2 * synthesis.recording().wave().len() + 44 <= usize::MAX,
        call_ensures(synthesis_result, (synthesis, format), result),
        result is Ok,
        arguments.audio_base64@ == result->Ok_0.data@,
        match format {
            ToolFormat::Wav => arguments.encoding@ == "wav"@ && arguments.sample_rate is None,
            ToolFormat::Pcm16 => arguments.encoding@ == "pcm16"@ && arguments.sample_rate == Some(
                synthesis.recording().rate(),
            ),
        },
        call_ensures(decode_arguments, (Some(arguments),), read),
    ensures
        read matches Ok(audio) ==> audio.rate() == synthesis.recording().rate() && values_of(
            audio.wave(),
        ) == values_of(synthesis.recording().wave()),
        result->Ok_0.mime_type@ == match format {
            ToolFormat::Wav => "audio/wav"@,
            ToolFormat::Pcm16 => "audio/pcm"@,
        },
{
    if let Ok(audio) = read {
        synthesized_audio_reads_back(*synthesis, audio);
    }
}

}
