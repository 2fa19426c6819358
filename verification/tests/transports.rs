//! HTTP, realtime, gRPC, and MCP rules.

use impossible_voice::api::{
    check_speech, decode_audio, decode_http_audio, default_speed, map_stt_error, map_tts_error,
    speech_response, ApiError, SpeechFormat, SpeechRequest, TranscriptionForm, VoiceBackendError,
};
use impossible_voice::audio::{AudioLimits, MonoPcm};
use impossible_voice::grpc::{
    self, AudioEncoding, CallFault, GrpcCode, StreamAction, StreamMessage, StreamState,
};
use impossible_voice::mcp::{
    self, ArgumentKind, Resource, RpcBody, RpcMethod, RpcRoute, Tool, ToolFormat,
    TranscribeArguments,
};
use impossible_voice::realtime::{
    backend_failed, closing_event, ClientEvent, ServerEvent, SessionAction, SessionMode, SessionState,
};
use impossible_voice::request::{RequestIdSource, RequestStop};
use impossible_voice::sample::Sample;
use impossible_voice::stt::{SttError, Transcript, TranscriptKind};
use impossible_voice::tts::{Synthesis, TtsError};

fn sample(value: f32) -> Sample {
    Sample { bits: value.to_bits() }
}

fn synthesis(count: usize) -> Synthesis {
    let audio = MonoPcm::new(22_050, vec![sample(0.25); count]).unwrap();
    Synthesis::from_audio(audio, 2).unwrap()
}

fn wav() -> Vec<u8> {
    synthesis(4).wav().unwrap()
}

#[test]
fn audio_bodies_are_decoded_by_content_type() {
    let pcm = vec![0_u8; 640];
    let audio = decode_audio("audio/pcm", Some(16_000), &pcm).unwrap();
    assert_eq!(audio.sample_rate(), 16_000);
    assert_eq!(audio.samples().len(), 320);
    for content_type in [
        "audio/L16; rate=8000",
        " Audio/PCM ;channels=1; RATE= +8000 ",
        "audio/pcm;rate=x;rate=8000",
        "audio/pcm;rate;rate=8000;rate=16000",
    ] {
        assert_eq!(decode_audio(content_type, None, &pcm).unwrap().sample_rate(), 8_000);
    }
    assert_eq!(
        decode_audio("audio/pcm;rate=8000", Some(16_000), &pcm).unwrap().sample_rate(),
        16_000
    );
    assert_eq!(decode_audio("AUDIO/X-WAV", None, &wav()).unwrap().sample_rate(), 22_050);
    assert_eq!(decode_audio("audio/wav; a=b", None, &wav()).unwrap().samples().len(), 4);
}

#[test]
fn audio_body_failures_are_told_apart() {
    let message = |content_type, rate, bytes: &[u8]| {
        let error = decode_audio(content_type, rate, bytes).unwrap_err();
        assert_eq!((error.status, error.code), (400, "invalid_request"));
        error.message
    };
    assert_eq!(
        message("audio/wav", Some(16_000), &wav()),
        "WAV sample rate is embedded in the file"
    );
    assert_eq!(message("audio/wav", None, &[0; 4]), "WAV audio is invalid");
    assert_eq!(message("audio/pcm", None, &[0; 4]), "raw PCM sample rate is required");
    assert_eq!(message("audio/pcm;rate =8000", None, &[0; 4]), "raw PCM sample rate is required");
    assert_eq!(message("audio/pcm", Some(1), &[0; 4]), "raw PCM16 audio is invalid");
    assert_eq!(message("audio/mpeg", None, &[0; 4]), "audio content type is unsupported");
    assert_eq!(message("", None, &[0; 4]), "audio content type is unsupported");
    let header = |content_type, rate| {
        decode_http_audio(content_type, rate, &[0; 4]).unwrap_err().message
    };
    assert_eq!(header(None, None), "content-type is required");
    assert_eq!(header(Some("audio/pcm"), Some("x")), "sample rate is malformed");
    assert_eq!(header(Some("audio/pcm"), Some("4294967296")), "sample rate is malformed");
    assert_eq!(
        decode_http_audio(Some("audio/pcm"), Some("16000"), &[0; 4]).unwrap().sample_rate(),
        16_000
    );
}

#[test]
fn transcription_forms_take_one_file() {
    let mut form = TranscriptionForm::new();
    assert!(form.add_field("model", None, vec![0; 64 * 1024]).is_ok());
    assert!(form.add_field("sample_rate", None, b"8000".to_vec()).is_ok());
    assert!(form.add_field("sample_rate", None, b"16000".to_vec()).is_ok());
    assert!(form.add_field("file", Some("audio/pcm".to_string()), vec![0; 8]).is_ok());
    let unsupported = "multipart field is unsupported or duplicated";
    for (name, bytes) in [
        ("file", vec![0; 8]),
        ("model", vec![0; 64 * 1024 + 1]),
        ("sample_rate", vec![b'1'; 17]),
        ("path", vec![]),
        ("", vec![]),
    ] {
        assert_eq!(form.add_field(name, None, bytes).unwrap_err().message, unsupported);
    }
    for bytes in [&b"x"[..], b"", b"\xff", b"4294967296"] {
        assert_eq!(
            form.add_field("sample_rate", None, bytes.to_vec()).unwrap_err().message,
            "sample_rate is malformed"
        );
    }
    let audio = form.finish().unwrap();
    assert_eq!((audio.sample_rate(), audio.samples().len()), (16_000, 4));
    assert_eq!(TranscriptionForm::new().finish().unwrap_err().message, "file is required");
    let mut untyped = TranscriptionForm::new();
    untyped.add_field("file", None, vec![0; 8]).unwrap();
    assert_eq!(
        untyped.finish().unwrap_err().message,
        "audio content type is unsupported"
    );
}

fn speech(format: &str, model: Option<&str>, voice: Option<&str>) -> SpeechRequest {
    SpeechRequest {
        input: "hello".to_string(),
        speed: default_speed(),
        response_format: format.to_string(),
        model: model.map(str::to_string),
        voice: voice.map(str::to_string),
    }
}

#[test]
fn speech_requests_and_responses_follow_the_contract() {
    assert_eq!(default_speed(), sample(1.0));
    assert_eq!(check_speech(&speech("wav", None, Some("kristin"))).unwrap(), SpeechFormat::Wav);
    assert_eq!(
        check_speech(&speech("pcm", Some("impossible-voice-tts"), None)).unwrap(),
        SpeechFormat::Pcm
    );
    assert_eq!(
        check_speech(&speech("wav", Some("other"), None)).unwrap_err().message,
        "model or voice is unsupported"
    );
    assert_eq!(
        check_speech(&speech("mp3", None, Some("other"))).unwrap_err().message,
        "model or voice is unsupported"
    );
    assert_eq!(
        check_speech(&speech("mp3", None, None)).unwrap_err().message,
        "response_format must be wav or pcm"
    );
    let synthesis = synthesis(4);
    let response = speech_response(&synthesis, SpeechFormat::Wav).unwrap();
    assert_eq!(response.content_type, "audio/wav");
    assert_eq!(&response.bytes[..4], b"RIFF");
    assert_eq!(response.sample_rate, "22050");
    assert_eq!((response.channels, response.format), ("1", "pcm_s16le"));
    let response = speech_response(&synthesis, SpeechFormat::Pcm).unwrap();
    assert_eq!(response.content_type, "audio/pcm");
    assert_eq!(response.bytes, synthesis.pcm16());
}

#[test]
fn backend_errors_become_stable_failures() {
    let cases = [
        (VoiceBackendError::InvalidInput, 400, "invalid_request", "voice input is invalid"),
        (VoiceBackendError::Busy, 429, "overloaded", "voice capacity is busy"),
        (VoiceBackendError::Cancelled, 503, "cancelled", "the request was cancelled"),
        (
            VoiceBackendError::DeadlineExceeded,
            504,
            "deadline_exceeded",
            "the request deadline was exceeded",
        ),
        (VoiceBackendError::Engine, 500, "engine_error", "the local voice engine failed"),
    ];
    for (error, status, code, message) in cases {
        assert_eq!(ApiError::from_backend(error), ApiError { status, code, message });
    }
    assert_eq!(map_stt_error(SttError::Audio), VoiceBackendError::InvalidInput);
    assert_eq!(map_stt_error(SttError::Busy), VoiceBackendError::Busy);
    assert_eq!(map_stt_error(SttError::DeadlineExceeded), VoiceBackendError::DeadlineExceeded);
    assert_eq!(map_tts_error(TtsError::Output), VoiceBackendError::InvalidInput);
    assert_eq!(map_tts_error(TtsError::Engine), VoiceBackendError::Engine);
    assert_eq!(map_tts_error(TtsError::Cancelled), VoiceBackendError::Cancelled);
}

fn start(mode: SessionMode, sample_rate: Option<u32>) -> Option<ClientEvent> {
    Some(ClientEvent::SessionStart { mode, sample_rate })
}

fn announced(action: SessionAction) -> ServerEvent {
    match action {
        SessionAction::Announce(event) => event,
        other => panic!("unexpected {other:?}"),
    }
}

fn refused(action: SessionAction) -> &'static str {
    match action {
        SessionAction::Refuse(event) => {
            assert_eq!(event.kind, "error");
            event.code.unwrap()
        }
        other => panic!("unexpected {other:?}"),
    }
}

#[test]
fn realtime_transcription_enforces_its_sequence() {
    let mut session = SessionState::new();
    let action = session.text_received(start(SessionMode::Stt, Some(16_000)), 7);
    assert!(matches!(action, SessionAction::StartTranscription(16_000)));
    let ready = announced(session.transcription_started(Ok(()), 7));
    assert_eq!((ready.kind, ready.session_id), ("session_ready", 7));
    let action = session.text_received(Some(ClientEvent::AudioAppend { bytes: 4 }), 7);
    assert!(matches!(action, SessionAction::Wait));
    assert!(matches!(session.binary_received(4, 7), SessionAction::PushAudio));
    let update = Transcript { kind: TranscriptKind::Interim, text: "partial-4".to_string() };
    let event = ServerEvent::transcript(&update, 7);
    assert_eq!((event.kind, event.text.as_deref()), ("transcript_interim", Some("partial-4")));
    let action = session.text_received(Some(ClientEvent::AudioCommit), 7);
    assert!(matches!(action, SessionAction::FinishTranscription));
    let last = Transcript { kind: TranscriptKind::Final, text: "final-4".to_string() };
    let events = session.transcription_finished(Ok(last), 7).unwrap();
    assert_eq!(events[0].kind, "transcript_final");
    assert_eq!(events[1].kind, "session_completed");
    for event in [
        ClientEvent::AudioAppend { bytes: 4 },
        ClientEvent::AudioCommit,
        ClientEvent::SessionStart { mode: SessionMode::Stt, sample_rate: Some(8_000) },
    ] {
        assert_eq!(refused(session.text_received(Some(event), 7)), "invalid_sequence");
    }
}

#[test]
fn realtime_violations_are_answered_with_stable_codes() {
    let mut fresh = SessionState::new();
    assert_eq!(refused(fresh.binary_received(2, 1)), "audio_declaration_required");
    let mut session = SessionState::new();
    assert_eq!(refused(session.text_received(None, 1)), "invalid_request");
    assert_eq!(
        refused(session.text_received(start(SessionMode::Stt, None), 1)),
        "sample_rate_required"
    );
    let mut session = SessionState::new();
    assert_eq!(
        refused(session.text_received(start(SessionMode::Tts, Some(8_000)), 1)),
        "sample_rate_not_allowed"
    );
    let mut session = SessionState::new();
    session.text_received(start(SessionMode::Stt, Some(16_000)), 1);
    assert_eq!(
        refused(session.transcription_started(Err(VoiceBackendError::Busy), 1)),
        "overloaded"
    );
    assert_eq!(
        refused(session.text_received(Some(ClientEvent::AudioCommit), 1)),
        "stt_session_required"
    );
    session.text_received(Some(ClientEvent::AudioAppend { bytes: 2 }), 1);
    assert_eq!(refused(session.text_received(None, 1)), "audio_frame_expected");
    assert_eq!(
        refused(session.text_received(Some(ClientEvent::Ping), 1)),
        "audio_frame_expected"
    );
    assert_eq!(refused(session.binary_received(2, 1)), "stt_session_required");
    session.transcription_started(Ok(()), 1);
    session.text_received(Some(ClientEvent::AudioAppend { bytes: 2 }), 1);
    assert_eq!(refused(session.binary_received(4, 1)), "audio_frame_invalid");
    assert_eq!(refused(session.binary_received(2, 1)), "audio_declaration_required");
    for bytes in [0, 64 * 1024 + 1] {
        let event = Some(ClientEvent::AudioAppend { bytes });
        assert_eq!(refused(session.text_received(event, 1)), "invalid_sequence");
    }
    let speak = ClientEvent::SpeechGenerate { input: "a".to_string(), speed: sample(1.0) };
    assert_eq!(refused(session.text_received(Some(speak), 1)), "invalid_sequence");
    assert_eq!(announced(session.text_received(Some(ClientEvent::Ping), 1)).kind, "pong");
    match session.text_received(Some(ClientEvent::Cancel), 1) {
        SessionAction::Cancel(event) => assert_eq!(event.kind, "cancelled"),
        other => panic!("unexpected {other:?}"),
    }
    assert!(matches!(
        session.text_received(Some(ClientEvent::Close), 1),
        SessionAction::End
    ));
    let failed = session.transcription_finished(Err(VoiceBackendError::Busy), 1);
    assert_eq!(refused(failed.unwrap_err()), "overloaded");
    let failed = session.transcription_finished(Err(VoiceBackendError::InvalidInput), 1);
    assert!(matches!(failed, Err(SessionAction::Abort)));
    for error in [
        VoiceBackendError::InvalidInput,
        VoiceBackendError::Cancelled,
        VoiceBackendError::DeadlineExceeded,
        VoiceBackendError::Engine,
    ] {
        assert!(matches!(backend_failed(error, 1), SessionAction::Abort));
    }
    assert_eq!(closing_event(true, 1).unwrap().code, Some("deadline_exceeded"));
    assert!(closing_event(false, 1).is_none());
}

#[test]
fn realtime_speech_labels_post_synthesis_chunks() {
    let mut session = SessionState::new();
    let ready = announced(session.text_received(start(SessionMode::Tts, None), 3));
    assert_eq!(ready.kind, "session_ready");
    let speak = ClientEvent::SpeechGenerate { input: "hello".to_string(), speed: sample(1.0) };
    match session.text_received(Some(speak), 3) {
        SessionAction::Synthesize(input, speed) => {
            assert_eq!(input, "hello");
            assert_eq!(speed, sample(1.0));
        }
        other => panic!("unexpected {other:?}"),
    }
    let failed = session.synthesis_finished(Err(VoiceBackendError::Busy), 3);
    assert_eq!(refused(failed.err().unwrap()), "overloaded");
    let synthesis = synthesis(20_000);
    let messages = session.synthesis_finished(Ok(&synthesis), 3).unwrap();
    assert_eq!(messages.metadata.kind, "speech_metadata");
    assert_eq!(messages.metadata.chunking, Some("post_synthesis_transport"));
    assert_eq!(messages.metadata.sample_rate, Some(22_050));
    assert_eq!(messages.metadata.channels, Some(1));
    let sizes: Vec<usize> = messages.audio.iter().map(Vec::len).collect();
    assert_eq!(sizes, [32 * 1024, 40_000 - 32 * 1024]);
    assert_eq!(messages.audio.concat(), synthesis.pcm16());
    assert_eq!(messages.completed.kind, "speech_completed");
    let again = ClientEvent::SpeechGenerate { input: "hello".to_string(), speed: sample(1.0) };
    assert_eq!(refused(session.text_received(Some(again), 3)), "invalid_sequence");
}

fn request(jsonrpc: &str, identified: bool, method: &str) -> RpcBody {
    RpcBody::Request {
        jsonrpc: jsonrpc.to_string(),
        identified,
        method: method.to_string(),
    }
}

#[test]
fn rpc_bodies_are_routed_by_method() {
    for (name, method) in [
        ("initialize", RpcMethod::Initialize),
        ("ping", RpcMethod::Ping),
        ("tools/list", RpcMethod::ListTools),
        ("tools/call", RpcMethod::CallTool),
        ("resources/list", RpcMethod::ListResources),
        ("resources/read", RpcMethod::ReadResource),
    ] {
        assert!(matches!(
            mcp::route(&request("2.0", true, name)),
            RpcRoute::Method(found) if found == method
        ));
    }
    let failure = |body: RpcBody| match mcp::route(&body) {
        RpcRoute::Failure { failure, echo } => (failure.code, failure.message, echo),
        other => panic!("unexpected {other:?}"),
    };
    assert_eq!(failure(RpcBody::NotJson), (-32_700, "JSON-RPC parse error", false));
    assert_eq!(failure(RpcBody::NotRequest), (-32_600, "invalid JSON-RPC request", false));
    assert_eq!(
        failure(request("1.0", false, "ping")),
        (-32_600, "invalid JSON-RPC request", true)
    );
    assert_eq!(failure(request("2.0", true, "x")), (-32_601, "method not found", true));
    assert!(matches!(mcp::route(&request("2.0", false, "x")), RpcRoute::Accepted));
}

#[test]
fn rpc_initialization_negotiates_one_version() {
    assert_eq!(mcp::initialize(Some("2025-03-26")).unwrap(), "2025-03-26");
    let error = mcp::initialize(Some("1900-01-01")).unwrap_err();
    assert_eq!((error.code, error.message), (-32_602, "MCP protocol version is unsupported"));
    assert_eq!(mcp::initialize(None).unwrap_err().code, -32_600);
}

#[test]
fn every_listed_tool_can_be_called() {
    let tools = mcp::tools();
    assert_eq!(tools.len(), 4);
    for tool in &tools {
        assert_eq!(mcp::find_tool(Some(tool.name())).unwrap(), *tool);
    }
    let names: Vec<&str> = tools.iter().map(|tool| tool.name()).collect();
    assert_eq!(names, ["transcribe_audio", "synthesize_speech", "list_models", "health"]);
    assert_eq!(mcp::find_tool(Some("other")).unwrap_err().message, "tool not found");
    assert_eq!(mcp::find_tool(None).unwrap_err().message, "invalid tool parameters");
    let arguments = Tool::TranscribeAudio.arguments();
    assert_eq!(arguments[0].kind, ArgumentKind::Text { max_length: 5_592_408 });
    assert!(arguments[0].required && arguments[1].required && !arguments[2].required);
    assert_eq!(Tool::SynthesizeSpeech.arguments()[1].kind, ArgumentKind::Speed);
    assert!(Tool::Health.arguments().is_empty());
    assert!(Tool::Health.description().contains("readiness"));
    assert!(mcp::require_empty(None).is_ok());
    assert!(mcp::require_empty(Some(0)).is_ok());
    assert_eq!(mcp::require_empty(Some(1)).unwrap_err().code, -32_602);
    assert_eq!(mcp::static_tool_text(Tool::Health), Some("{\"status\":\"ready\"}"));
    assert!(mcp::static_tool_text(Tool::ListModels).unwrap().contains("kristin"));
    assert_eq!(mcp::static_tool_text(Tool::TranscribeAudio), None);
}

fn arguments(text: &str, encoding: &str, sample_rate: Option<u32>) -> Option<TranscribeArguments> {
    Some(TranscribeArguments {
        audio_base64: text.to_string(),
        encoding: encoding.to_string(),
        sample_rate,
    })
}

#[test]
fn tool_audio_is_decoded_from_base64() {
    let audio = mcp::decode_arguments(arguments("AQACAA==", "pcm16", Some(16_000))).unwrap();
    assert_eq!(audio.to_pcm16_le(), [1, 0, 2, 0]);
    for bad in [
        arguments("AQACAA", "pcm16", Some(16_000)),
        arguments("AQACAB==", "pcm16", Some(16_000)),
        arguments("AQAC AA==", "pcm16", Some(16_000)),
        arguments("AQACAA==", "pcm16", None),
        arguments("AQACAA==", "pcm16", Some(1)),
        arguments("AQACAA==", "mp3", Some(16_000)),
        arguments("AQACAA==", "wav", None),
        arguments("", "wav", None),
        arguments("\u{e9}", "wav", None),
        None,
    ] {
        assert_eq!(mcp::decode_arguments(bad).unwrap_err().code, -32_602);
    }
    let content = mcp::synthesis_result(&synthesis(4), ToolFormat::Wav).unwrap();
    assert_eq!(content.mime_type, "audio/wav");
    assert!(content.data.starts_with("UklGR"));
    let audio = mcp::decode_arguments(arguments(&content.data, "wav", None)).unwrap();
    assert_eq!(audio.sample_rate(), 22_050);
    assert_eq!(audio.to_pcm16_le(), synthesis(4).pcm16());
    assert!(mcp::decode_arguments(arguments(&content.data, "wav", Some(22_050))).is_err());
    let content = mcp::synthesis_result(&synthesis(2), ToolFormat::Pcm16).unwrap();
    assert_eq!((content.data.as_str(), content.mime_type), ("ACAAIA==", "audio/pcm"));
    let long = "A".repeat(5_592_412);
    assert!(mcp::decode_arguments(arguments(&long, "pcm16", Some(48_000))).is_err());
    assert!(mcp::read_audio(Some(vec![0; 4 * 1024 * 1024]), "pcm16", Some(48_000)).is_ok());
    assert!(mcp::read_audio(Some(vec![0; 4 * 1024 * 1024 + 2]), "pcm16", Some(48_000)).is_err());
    assert!(mcp::read_audio(None, "pcm16", Some(48_000)).is_err());
    let error = mcp::synthesis_result(&synthesis(2 * 1024 * 1024 + 1), ToolFormat::Pcm16);
    assert_eq!(error.unwrap_err().message, "tool result exceeds the MCP limit");
    assert_eq!(mcp::check_format(Some("wav")).unwrap(), ToolFormat::Wav);
    assert_eq!(mcp::check_format(Some("pcm16")).unwrap(), ToolFormat::Pcm16);
    assert!(mcp::check_format(Some("pcm")).is_err());
    assert!(mcp::check_format(None).is_err());
}

#[test]
fn every_listed_resource_can_be_read() {
    for resource in mcp::resources() {
        assert_eq!(mcp::read_resource(Some(resource.uri())).unwrap(), resource);
    }
    assert!(Resource::Capabilities.text().contains("speech_to_text"));
    assert_eq!(Resource::Status.name(), "Voice status");
    assert_eq!(
        Resource::Status.text(),
        "{\"downloads_during_serve\":false,\"status\":\"ready\"}"
    );
    let error = mcp::read_resource(Some("file:///etc")).unwrap_err();
    assert_eq!((error.code, error.message), (-32_002, "resource not found"));
    assert_eq!(mcp::read_resource(None).unwrap_err().code, -32_602);
    let codes: Vec<i32> = [
        VoiceBackendError::InvalidInput,
        VoiceBackendError::Busy,
        VoiceBackendError::Cancelled,
        VoiceBackendError::DeadlineExceeded,
        VoiceBackendError::Engine,
    ]
    .into_iter()
    .map(|error| mcp::map_backend_error(error).code)
    .collect();
    assert_eq!(codes, [-32_602, -32_003, -32_800, -32_800, -32_003]);
}

#[test]
fn grpc_recordings_need_a_consistent_encoding() {
    let raw = Some(AudioEncoding::RawPcm16);
    let riff = Some(AudioEncoding::WavPcm16);
    assert_eq!(grpc::decode_audio(&[0; 640], raw, 16_000).unwrap().samples().len(), 320);
    assert_eq!(grpc::decode_audio(&wav(), riff, 0).unwrap().sample_rate(), 22_050);
    for (encoding, rate) in [(riff, 16_000), (raw, 0), (Some(AudioEncoding::Unspecified), 0), (None, 0)] {
        let error = grpc::decode_audio(&[0; 4], encoding, rate).unwrap_err();
        assert_eq!(error.code, GrpcCode::InvalidArgument);
        assert_eq!(error.message, "encoding and sample rate are inconsistent");
    }
    assert_eq!(grpc::decode_audio(&[0; 4], riff, 0).unwrap_err().message, "WAV audio is invalid");
    assert_eq!(
        grpc::decode_audio(&[0; 4], raw, 1).unwrap_err().message,
        "raw PCM16 audio is invalid"
    );
    let large = vec![0; 16 * 1024 * 1024 + 1];
    let error = grpc::decode_audio(&large, None, 0).unwrap_err();
    assert_eq!(error.code, GrpcCode::ResourceExhausted);
    assert_eq!(grpc::parse_output_encoding(riff), Ok(AudioEncoding::WavPcm16));
    assert!(grpc::parse_output_encoding(None).is_err());
    assert!(grpc::parse_output_encoding(Some(AudioEncoding::Unspecified)).is_err());
    assert!(grpc::parse_stream_encoding(raw).is_ok());
    assert_eq!(
        grpc::parse_stream_encoding(riff).unwrap_err().message,
        "streaming synthesis requires raw PCM16 output"
    );
    assert_eq!(grpc::normalize_speed(sample(0.0)), sample(1.0));
    assert_eq!(grpc::normalize_speed(sample(-0.0)), sample(1.0));
    assert_eq!(grpc::normalize_speed(sample(1.5)), sample(1.5));
    let speech = synthesis(4);
    let bytes = grpc::encode_synthesis(&speech, AudioEncoding::WavPcm16).unwrap();
    assert_eq!(&bytes[..4], b"RIFF");
    assert_eq!(
        grpc::encode_synthesis(&speech, AudioEncoding::RawPcm16).unwrap(),
        speech.pcm16()
    );
    assert!(grpc::encode_synthesis(&speech, AudioEncoding::Unspecified).is_err());
}

#[test]
fn grpc_streams_follow_config_audio_commit() {
    let mut stream = StreamState::new();
    let invalid = |action| match action {
        StreamAction::Fail(status) => status.code == GrpcCode::InvalidArgument,
        _ => false,
    };
    assert!(invalid(stream.message_received(StreamMessage::Audio(2))));
    assert!(invalid(stream.message_received(StreamMessage::Commit(true))));
    assert_eq!(
        stream.message_received(StreamMessage::Config(16_000)),
        StreamAction::StartTranscription(16_000)
    );
    assert_eq!(stream.started(Ok(())), StreamAction::Wait);
    assert!(invalid(stream.message_received(StreamMessage::Config(16_000))));
    assert!(invalid(stream.message_received(StreamMessage::Audio(0))));
    assert!(invalid(stream.message_received(StreamMessage::Audio(64 * 1024 + 1))));
    assert_eq!(stream.message_received(StreamMessage::Audio(64 * 1024)), StreamAction::PushAudio);
    assert_eq!(grpc::pushed(Ok(())), StreamAction::Wait);
    assert!(invalid(stream.message_received(StreamMessage::Commit(false))));
    assert!(invalid(stream.message_received(StreamMessage::Cancel(false))));
    assert!(invalid(stream.message_received(StreamMessage::Empty)));
    assert_eq!(
        stream.message_received(StreamMessage::Commit(true)),
        StreamAction::FinishTranscription
    );
    assert_eq!(grpc::finished(Ok(()), true), StreamAction::End);
    assert!(invalid(stream.message_received(StreamMessage::Audio(2))));
    assert!(invalid(stream.message_received(StreamMessage::Config(16_000))));
    assert_eq!(stream.message_received(StreamMessage::Cancel(true)), StreamAction::Cancel);
    let code = |action| match action {
        StreamAction::Fail(status) => status.code,
        other => panic!("unexpected {other:?}"),
    };
    assert_eq!(code(grpc::finished(Ok(()), false)), GrpcCode::ResourceExhausted);
    assert_eq!(
        code(grpc::finished(Err(VoiceBackendError::Engine), true)),
        GrpcCode::Internal
    );
    assert_eq!(code(grpc::pushed(Err(VoiceBackendError::Busy))), GrpcCode::ResourceExhausted);
    let mut refused = StreamState::new();
    assert_eq!(
        code(refused.started(Err(VoiceBackendError::DeadlineExceeded))),
        GrpcCode::DeadlineExceeded
    );
    assert_eq!(grpc::input_ended().message, "stream ended before commit");
    assert_eq!(grpc::input_failed().code, GrpcCode::Cancelled);
    assert_eq!(grpc::stopped(RequestStop::Cancelled).code, GrpcCode::Cancelled);
    assert_eq!(grpc::stopped(RequestStop::DeadlineExceeded).code, GrpcCode::DeadlineExceeded);
    let event = grpc::transcript_event(Transcript {
        kind: TranscriptKind::Final,
        text: "final-4".to_string(),
    });
    assert!(event.final_text);
    assert_eq!(event.text, "final-4");
    let interim = || Transcript { kind: TranscriptKind::Interim, text: "last".to_string() };
    assert!(!grpc::transcript_event(interim()).final_text);
    let event = grpc::commit_event(interim());
    assert!(event.final_text);
    assert_eq!(event.text, "last");
    let mut ids = RequestIdSource::after(u64::MAX - 1);
    assert_eq!(grpc::identify_call(&mut ids).unwrap().get(), u64::MAX);
    assert_eq!(
        grpc::identify_call(&mut ids).unwrap_err().message,
        "request identifiers are unavailable"
    );
    assert_eq!(
        grpc::call_fault(CallFault::SynthesisWorker).message,
        "speech synthesis worker failed"
    );
}

#[test]
fn grpc_synthesis_streams_numbered_chunks() {
    let speech = synthesis(40_000);
    let (chunks, end) = grpc::stream_chunks(&speech);
    assert!(end.is_ok());
    assert_eq!(chunks.len(), 3);
    for (index, chunk) in chunks.iter().enumerate() {
        assert_eq!(chunk.sequence as usize, index);
        assert_eq!(chunk.final_chunk, index == 2);
        assert_eq!((chunk.sample_rate, chunk.channels), (22_050, 1));
        assert_eq!(chunk.chunking, "post_synthesis_transport");
    }
    let joined: Vec<u8> = chunks.into_iter().flat_map(|chunk| chunk.audio).collect();
    assert_eq!(joined, speech.pcm16());
    let decoded = MonoPcm::from_pcm16_le(&joined, 22_050, AudioLimits::default()).unwrap();
    assert_eq!(decoded.samples().len(), 40_000);
}
