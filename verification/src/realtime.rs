//! Realtime session rules: which message may follow which, and what is answered.

use vstd::prelude::*;
use crate::api::VoiceBackendError;
use crate::audio::values_of;
use crate::chunks::{chunked, cut, piece_views};
use crate::pcm::encode_pcm16;
use crate::sample::Sample;
use crate::stt::{Transcript, TranscriptKind};
use crate::tts::Synthesis;

verus! {

/// Longest message in bytes.
pub const MAX_WS_MESSAGE_BYTES: usize = 65_536;

/// Longest session in seconds.
pub const MAX_WS_SESSION_SECONDS: u64 = 300;

/// Code of the frame that closes a session.
pub const CLOSE_CODE: u16 = 1_000;

/// Bytes of one outgoing audio message.
pub const TTS_CHUNK_BYTES: usize = 32_768;

/// What a session does.
#[derive(Debug, Clone, Copy, PartialEq, Eq, Structural)]
pub enum SessionMode {
    /// Transcribe audio.
    Stt,
    /// Speak text.
    Tts,
}

/// A client's text message.
#[derive(Debug)]
pub enum ClientEvent {
    /// Start the session.
    SessionStart {
        /// What the session does.
        mode: SessionMode,
        /// Sample rate of the audio to transcribe.
        sample_rate: Option<u32>,
    },
    /// Declare the size of the next binary message.
    AudioAppend {
        /// Its bytes.
        bytes: usize,
    },
    /// End the audio.
    AudioCommit,
    /// Speak a text.
    SpeechGenerate {
        /// The text.
        input: String,
        /// Its speed.
        speed: Sample,
    },
    /// Cancel the session.
    Cancel,
    /// Ask for a sign of life.
    Ping,
    /// Close the session.
    Close,
}

/// A message to the client.
#[derive(Debug)]
pub struct ServerEvent {
    /// Kind of event.
    pub kind: &'static str,
    /// The session.
    pub session_id: u64,
    /// Transcript text.
    pub text: Option<String>,
    /// Error code.
    pub code: Option<&'static str>,
    /// Sample rate of the audio that follows.
    pub sample_rate: Option<u32>,
    /// Channels of the audio that follows.
    pub channels: Option<u8>,
    /// How the audio that follows is cut.
    pub chunking: Option<&'static str>,
}

/// A message over plain texts.
pub struct EventView {
    /// Kind of event.
    pub kind: Seq<char>,
    /// The session.
    pub session_id: u64,
    /// Transcript text.
    pub text: Option<Seq<char>>,
    /// Error code.
    pub code: Option<Seq<char>>,
    /// Sample rate.
    pub sample_rate: Option<u32>,
    /// Channels.
    pub channels: Option<u8>,
    /// Chunking.
    pub chunking: Option<Seq<char>>,
}

/// The view of an optional text.
pub open spec fn owned_text(text: Option<String>) -> Option<Seq<char>> {
    match text {
        Some(text) => Some(text@),
        None => None,
    }
}

/// The view of an optional constant text.
pub open spec fn static_text(text: Option<&'static str>) -> Option<Seq<char>> {
    match text {
        Some(text) => Some(text@),
        None => None,
    }
}

/// An event of a kind with nothing more to say.
pub open spec fn plain_event(kind: Seq<char>, session_id: u64) -> EventView {
    EventView {
        kind,
        session_id,
        text: None,
        code: None,
        sample_rate: None,
        channels: None,
        chunking: None,
    }
}

/// An error event.
pub open spec fn error_event(code: Seq<char>, session_id: u64) -> EventView {
    EventView { code: Some(code), ..plain_event("error"@, session_id) }
}

/// A transcript event.
pub open spec fn transcript_event(update: Transcript, session_id: u64) -> EventView {
    EventView {
        text: Some(update.text@),
        ..plain_event(
            match update.kind {
                TranscriptKind::Interim => "transcript_interim"@,
                TranscriptKind::Final => "transcript_final"@,
            },
            session_id,
        )
    }
}

/// The announcement of synthesized audio.
pub open spec fn metadata_event(sample_rate: u32, session_id: u64) -> EventView {
    EventView {
        sample_rate: Some(sample_rate),
        channels: Some(1),
        chunking: Some("post_synthesis_transport"@),
        ..plain_event("speech_metadata"@, session_id)
    }
}

impl ServerEvent {
    /// The event's texts.
    pub open spec fn content(self) -> EventView {
        EventView {
            kind: self.kind@,
            session_id: self.session_id,
            text: owned_text(self.text),
            code: static_text(self.code),
            sample_rate: self.sample_rate,
            channels: self.channels,
            chunking: static_text(self.chunking),
        }
    }

    /// An event of a kind with nothing more to say.
    pub fn plain(kind: &'static str, session_id: u64) -> (event: Self)
        ensures
            event.content() == plain_event(kind@, session_id),
    {
        ServerEvent {
            kind,
            session_id,
            text: None,
            code: None,
            sample_rate: None,
            channels: None,
            chunking: None,
        }
    }

    /// An error event.
    pub fn error(code: &'static str, session_id: u64) -> (event: Self)
        ensures
            event.content() == error_event(code@, session_id),
    {
        ServerEvent {
            kind: "error",
            session_id,
            text: None,
            code: Some(code),
            sample_rate: None,
            channels: None,
            chunking: None,
        }
    }

    /// A transcript event.
    pub fn transcript(update: &Transcript, session_id: u64) -> (event: Self)
        ensures
            event.content() == transcript_event(*update, session_id),
    {
        let kind = match update.kind {
            TranscriptKind::Interim => "transcript_interim",
            TranscriptKind::Final => "transcript_final",
        };
        ServerEvent {
            kind,
            session_id,
            text: Some(update.text.clone()),
            code: None,
            sample_rate: None,
            channels: None,
            chunking: None,
        }
    }

    /// The announcement of synthesized audio.
    pub fn metadata(sample_rate: u32, session_id: u64) -> (event: Self)
        ensures
            event.content() == metadata_event(sample_rate, session_id),
    {
        ServerEvent {
            kind: "speech_metadata",
            session_id,
            text: None,
            code: None,
            sample_rate: Some(sample_rate),
            channels: Some(1),
            chunking: Some("post_synthesis_transport"),
        }
    }
}

/// What is to be done about a message.
#[derive(Debug)]
pub enum SessionAction {
    /// Wait for the next message.
    Wait,
    /// Open a transcription at this rate, then report.
    StartTranscription(u32),
    /// Send this event.
    Announce(ServerEvent),
    /// Hand the binary message to the transcription and send its transcripts.
    PushAudio,
    /// Finish the transcription, then report.
    FinishTranscription,
    /// Speak this text at this speed, then report.
    Synthesize(String, Sample),
    /// Cancel the request, send this event, and end the session.
    Cancel(ServerEvent),
    /// End the session.
    End,
    /// Send this event and abort the session.
    Refuse(ServerEvent),
    /// Abort the session.
    Abort,
}

/// What is to be done about a message, over plain texts.
pub enum Step {
    /// Wait for the next message.
    Wait,
    /// Open a transcription.
    StartTranscription(u32),
    /// Send an event.
    Announce(EventView),
    /// Hand over the binary message.
    PushAudio,
    /// Finish the transcription.
    FinishTranscription,
    /// Speak a text.
    Synthesize(Seq<char>, Sample),
    /// Cancel and end.
    Cancel(EventView),
    /// End the session.
    End,
    /// Refuse and abort.
    Refuse(EventView),
    /// Abort the session.
    Abort,
}

/// The step of an action.
pub open spec fn step_of(action: SessionAction) -> Step {
    match action {
        SessionAction::Wait => Step::Wait,
        SessionAction::StartTranscription(rate) => Step::StartTranscription(rate),
        SessionAction::Announce(event) => Step::Announce(event.content()),
        SessionAction::PushAudio => Step::PushAudio,
        SessionAction::FinishTranscription => Step::FinishTranscription,
        SessionAction::Synthesize(input, speed) => Step::Synthesize(input@, speed),
        SessionAction::Cancel(event) => Step::Cancel(event.content()),
        SessionAction::End => Step::End,
        SessionAction::Refuse(event) => Step::Refuse(event.content()),
        SessionAction::Abort => Step::Abort,
    }
}

/// Where a session stands.
#[derive(Debug, Clone, Copy, PartialEq, Eq)]
pub struct SessionState {
    /// What the session does, once it started.
    pub mode: Option<SessionMode>,
    /// Declared size of the binary message that must come next.
    pub pending_audio: Option<usize>,
    /// Whether a transcription is open.
    pub transcribing: bool,
    /// Whether the session's operation is over.
    pub completed: bool,
}

impl SessionState {
    /// A session that has not started.
    pub open spec fn initial() -> SessionState {
        SessionState { mode: None, pending_audio: None, transcribing: false, completed: false }
    }

    /// A session that has not started.
    pub fn new() -> (state: Self)
        ensures
            state == SessionState::initial(),
    {
        SessionState { mode: None, pending_audio: None, transcribing: false, completed: false }
    }
}

/// What a client event leads to.
pub open spec fn on_event(state: SessionState, event: ClientEvent, session_id: u64) -> (
    SessionState,
    Step,
) {
    match event {
        ClientEvent::SessionStart { mode, sample_rate } => if state.mode is Some {
            (state, Step::Refuse(error_event("invalid_sequence"@, session_id)))
        } else {
            let started = SessionState { mode: Some(mode), ..state };
            match (mode, sample_rate) {
                (SessionMode::Stt, Some(rate)) => (started, Step::StartTranscription(rate)),
                (SessionMode::Stt, None) => (
                    started,
                    Step::Refuse(error_event("sample_rate_required"@, session_id)),
                ),
                (SessionMode::Tts, Some(_)) => (
                    started,
                    Step::Refuse(error_event("sample_rate_not_allowed"@, session_id)),
                ),
                (SessionMode::Tts, None) => (
                    started,
                    Step::Announce(plain_event("session_ready"@, session_id)),
                ),
            }
        },
        ClientEvent::AudioAppend { bytes } => if state.mode == Some(SessionMode::Stt)
            && !state.completed && 0 < bytes <= MAX_WS_MESSAGE_BYTES {
            (SessionState { pending_audio: Some(bytes), ..state }, Step::Wait)
        } else {
            (state, Step::Refuse(error_event("invalid_sequence"@, session_id)))
        },
        ClientEvent::AudioCommit => if state.mode == Some(SessionMode::Stt) && !state.completed {
            if state.transcribing {
                (SessionState { transcribing: false, ..state }, Step::FinishTranscription)
            } else {
                (state, Step::Refuse(error_event("stt_session_required"@, session_id)))
            }
        } else {
            (state, Step::Refuse(error_event("invalid_sequence"@, session_id)))
        },
        ClientEvent::SpeechGenerate { input, speed } => if state.mode == Some(SessionMode::Tts)
            && !state.completed {
            (state, Step::Synthesize(input@, speed))
        } else {
            (state, Step::Refuse(error_event("invalid_sequence"@, session_id)))
        },
        ClientEvent::Cancel => (state, Step::Cancel(plain_event("cancelled"@, session_id))),
        ClientEvent::Ping => (state, Step::Announce(plain_event("pong"@, session_id))),
        ClientEvent::Close => (state, Step::End),
    }
}

/// What a text message leads to; `None` stands for one that is no client event.
pub open spec fn on_text(
    state: SessionState,
    event: Option<ClientEvent>,
    session_id: u64,
) -> (SessionState, Step) {
    if state.pending_audio is Some {
        (state, Step::Refuse(error_event("audio_frame_expected"@, session_id)))
    } else {
        match event {
            None => (state, Step::Refuse(error_event("invalid_request"@, session_id))),
            Some(event) => on_event(state, event, session_id),
        }
    }
}

/// What a binary message of this length leads to.
pub open spec fn on_binary(state: SessionState, length: nat, session_id: u64) -> (
    SessionState,
    Step,
) {
    match state.pending_audio {
        None => (state, Step::Refuse(error_event("audio_declaration_required"@, session_id))),
        Some(expected) => {
            let taken = SessionState { pending_audio: None, ..state };
            if length != expected || expected > MAX_WS_MESSAGE_BYTES {
                (taken, Step::Refuse(error_event("audio_frame_invalid"@, session_id)))
            } else if !state.transcribing {
                (taken, Step::Refuse(error_event("stt_session_required"@, session_id)))
            } else {
                (taken, Step::PushAudio)
            }
        },
    }
}

/// What a failure of the backend leads to: overload is answered with its code, and every other
/// failure ends the session as it is.
pub open spec fn on_failure(error: VoiceBackendError, session_id: u64) -> Step {
    match error {
        VoiceBackendError::Busy => Step::Refuse(error_event("overloaded"@, session_id)),
        _ => Step::Abort,
    }
}

/// Where a session stands once its transcription was opened, or could not be.
pub open spec fn after_opening(state: SessionState, success: bool) -> SessionState {
    SessionState { transcribing: state.transcribing || success, ..state }
}

/// Where a session stands once its result was answered, or could not be.
pub open spec fn after_answer(state: SessionState, success: bool) -> SessionState {
    SessionState { completed: state.completed || success, ..state }
}

/// Handles a failure of the backend.
pub fn backend_failed(error: VoiceBackendError, session_id: u64) -> (action: SessionAction)
    ensures
        step_of(action) == on_failure(error, session_id),
{
    match error {
        VoiceBackendError::Busy => SessionState::refuse("overloaded", session_id),
        _ => SessionAction::Abort,
    }
}

impl SessionState {
    fn refuse(code: &'static str, session_id: u64) -> (action: SessionAction)
        ensures
            step_of(action) == Step::Refuse(error_event(code@, session_id)),
    {
        SessionAction::Refuse(ServerEvent::error(code, session_id))
    }

    /// Handles a client event.
    pub fn handle_client_event(&mut self, event: ClientEvent, session_id: u64) -> (action:
        SessionAction)
        ensures
            (*final(self), step_of(action)) == on_event(*old(self), event, session_id),
    {
        match event {
            ClientEvent::SessionStart { mode, sample_rate } => {
                if self.mode.is_some() {
                    return SessionState::refuse("invalid_sequence", session_id);
                }
                self.mode = Some(mode);
                match mode {
                    SessionMode::Stt => match sample_rate {
                        Some(rate) => SessionAction::StartTranscription(rate),
                        None => SessionState::refuse("sample_rate_required", session_id),
                    },
                    SessionMode::Tts => if sample_rate.is_some() {
                        SessionState::refuse("sample_rate_not_allowed", session_id)
                    } else {
                        SessionAction::Announce(ServerEvent::plain("session_ready", session_id))
                    },
                }
            },
            ClientEvent::AudioAppend { bytes } => {
                if self.is_mode(SessionMode::Stt) && !self.completed && bytes > 0 && bytes
                    <= MAX_WS_MESSAGE_BYTES {
                    self.pending_audio = Some(bytes);
                    SessionAction::Wait
                } else {
                    SessionState::refuse("invalid_sequence", session_id)
                }
            },
            ClientEvent::AudioCommit => {
                if self.is_mode(SessionMode::Stt) && !self.completed {
                    if self.transcribing {
                        self.transcribing = false;
                        SessionAction::FinishTranscription
                    } else {
                        SessionState::refuse("stt_session_required", session_id)
                    }
                } else {
                    SessionState::refuse("invalid_sequence", session_id)
                }
            },
            ClientEvent::SpeechGenerate { input, speed } => {
                if self.is_mode(SessionMode::Tts) && !self.completed {
                    SessionAction::Synthesize(input, speed)
                } else {
                    SessionState::refuse("invalid_sequence", session_id)
                }
            },
            ClientEvent::Cancel => SessionAction::Cancel(
                ServerEvent::plain("cancelled", session_id),
            ),
            ClientEvent::Ping => SessionAction::Announce(ServerEvent::plain("pong", session_id)),
            ClientEvent::Close => SessionAction::End,
        }
    }

    fn is_mode(&self, mode: SessionMode) -> (r: bool)
        ensures
            r == (self.mode == Some(mode)),
    {
        match self.mode {
            Some(current) => current == mode,
            None => false,
        }
    }

    /// Handles a text message; `None` stands for one that is no client event.
    pub fn text_received(&mut self, event: Option<ClientEvent>, session_id: u64) -> (action:
        SessionAction)
        ensures
            (*final(self), step_of(action)) == on_text(*old(self), event, session_id),
    {
        if self.pending_audio.is_some() {
            return SessionState::refuse("audio_frame_expected", session_id);
        }
        match event {
            None => SessionState::refuse("invalid_request", session_id),
            Some(event) => self.handle_client_event(event, session_id),
        }
    }

    /// Handles a binary message of a length.
    pub fn binary_received(&mut self, length: usize, session_id: u64) -> (action: SessionAction)
        ensures
            (*final(self), step_of(action)) == on_binary(*old(self), length as nat, session_id),
    {
        let expected: usize = match self.pending_audio {
            Some(expected) => expected,
            None => {
                return SessionState::refuse("audio_declaration_required", session_id);
            },
        };
        self.pending_audio = None;
        if length != expected || expected > MAX_WS_MESSAGE_BYTES {
            return SessionState::refuse("audio_frame_invalid", session_id);
        }
        if !self.transcribing {
            return SessionState::refuse("stt_session_required", session_id);
        }
        SessionAction::PushAudio
    }

    /// Records what opening the transcription came to.
    pub fn transcription_started(
        &mut self,
        opened: Result<(), VoiceBackendError>,
        session_id: u64,
    ) -> (action: SessionAction)
        ensures
            match opened {
                Ok(()) => {
                    &&& *final(self) == (SessionState { transcribing: true, ..*old(self) })
                    &&& step_of(action) == Step::Announce(plain_event("session_ready"@, session_id))
                },
                Err(error) => {
                    &&& *final(self) == *old(self)
                    &&& step_of(action) == on_failure(error, session_id)
                },
            },
            *final(self) == after_opening(*old(self), opened is Ok),
    {
        match opened {
            Ok(()) => {
                self.transcribing = true;
                SessionAction::Announce(ServerEvent::plain("session_ready", session_id))
            },
            Err(error) => backend_failed(error, session_id),
        }
    }

    /// Records the transcription's final result: the events to send, or what its failure leads to.
    pub fn transcription_finished(
        &mut self,
        update: Result<Transcript, VoiceBackendError>,
        session_id: u64,
    ) -> (r: Result<Vec<ServerEvent>, SessionAction>)
        ensures
            match (update, r) {
                (Err(error), Err(action)) => {
                    &&& *final(self) == *old(self)
                    &&& step_of(action) == on_failure(error, session_id)
                },
                (Ok(update), Ok(events)) => {
                    &&& *final(self) == (SessionState { completed: true, ..*old(self) })
                    &&& events@.len() == 2
                    &&& events@[0].content() == transcript_event(update, session_id)
                    &&& events@[1].content() == plain_event("session_completed"@, session_id)
                },
                _ => false,
            },
            *final(self) == after_answer(*old(self), update is Ok),
    {
        match update {
            Err(error) => Err(backend_failed(error, session_id)),
            Ok(update) => {
                self.completed = true;
                let mut events: Vec<ServerEvent> = Vec::new();
                events.push(ServerEvent::transcript(&update, session_id));
                events.push(ServerEvent::plain("session_completed", session_id));
                Ok(events)
            },
        }
    }

    /// Records what a synthesis came to: what to send, or what its failure leads to.
    pub fn synthesis_finished(
        &mut self,
        synthesis: Result<&Synthesis, VoiceBackendError>,
        session_id: u64,
    ) -> (r: Result<SpeechMessages, SessionAction>)
        ensures
            match (synthesis, r) {
                (Err(error), Err(action)) => {
                    &&& *final(self) == *old(self)
                    &&& step_of(action) == on_failure(error, session_id)
                },
                (Ok(synthesis), Ok(messages)) => {
                    let audio = synthesis.recording();
                    &&& *final(self) == (SessionState { completed: true, ..*old(self) })
                    &&& messages.metadata.content() == metadata_event(audio.rate(), session_id)
                    &&& piece_views(messages.audio@) == chunked(
                        encode_pcm16(values_of(audio.wave())),
                        TTS_CHUNK_BYTES as nat,
                    )
                    &&& messages.completed.content() == plain_event(
                        "speech_completed"@,
                        session_id,
                    )
                },
                _ => false,
            },
            *final(self) == after_answer(*old(self), synthesis is Ok),
    {
        match synthesis {
            Err(error) => Err(backend_failed(error, session_id)),
            Ok(synthesis) => {
                self.completed = true;
                let pcm = synthesis.pcm16();
                Ok(
                    SpeechMessages {
                        metadata: ServerEvent::metadata(
                            synthesis.audio().sample_rate(),
                            session_id,
                        ),
                        audio: cut(pcm.as_slice(), TTS_CHUNK_BYTES),
                        completed: ServerEvent::plain("speech_completed", session_id),
                    },
                )
            },
        }
    }
}

/// The last event of a session, if there is one: a session that outlived its bound says so.
pub fn closing_event(timed_out: bool, session_id: u64) -> (event: Option<ServerEvent>)
    ensures
        match event {
            Some(event) => timed_out && event.content() == error_event(
                "deadline_exceeded"@,
                session_id,
            ),
            None => !timed_out,
        },
{
    if timed_out {
        Some(ServerEvent::error("deadline_exceeded", session_id))
    } else {
        None
    }
}

/// The messages of a completed synthesis in order.
#[derive(Debug)]
pub struct SpeechMessages {
    /// Announces the audio.
    pub metadata: ServerEvent,
    /// The audio.
    pub audio: Vec<Vec<u8>>,
    /// Ends the audio.
    pub completed: ServerEvent,
}

/// Whether a state can occur: audio is only declared, and a transcription only open, in a started
/// transcription session; a declaration is within bounds; a completed session has nothing open.
pub open spec fn consistent(state: SessionState) -> bool {
    &&& state.pending_audio is Some ==> state.mode == Some(SessionMode::Stt) && !state.completed
        && 0 < state.pending_audio->0 <= MAX_WS_MESSAGE_BYTES
    &&& state.transcribing ==> state.mode == Some(SessionMode::Stt) && !state.completed
    &&& state.completed ==> state.mode is Some
}

/// Messages keep a session consistent.
pub proof fn messages_keep_consistency(
    state: SessionState,
    event: Option<ClientEvent>,
    length: nat,
    session_id: u64,
)
    requires
        consistent(state),
    ensures
        consistent(on_text(state, event, session_id).0),
        consistent(on_binary(state, length, session_id).0),
        consistent(SessionState::initial()),
{
}

/// Audio reaches the recognizer only as declared: right after a declaration of exactly its size,
/// in an open transcription, and each declaration serves once.
pub proof fn audio_follows_its_declaration(state: SessionState, length: nat, session_id: u64)
    ensures
        on_binary(state, length, session_id).1 is PushAudio ==> {
            &&& state.pending_audio is Some
            &&& state.pending_audio->0 == length
            &&& length <= MAX_WS_MESSAGE_BYTES
            &&& state.transcribing
        },
        on_binary(state, length, session_id).0.pending_audio is None,
{
}

/// While a declared binary message is due, no text message is acted upon.
pub proof fn declared_audio_comes_first(
    state: SessionState,
    event: Option<ClientEvent>,
    session_id: u64,
)
    requires
        state.pending_audio is Some,
    ensures
        on_text(state, event, session_id) == (
            state,
            Step::Refuse(error_event("audio_frame_expected"@, session_id)),
        ),
{
}

/// A session starts once and completes once: afterwards no audio is declared, nothing is committed,
/// and nothing is spoken.
pub proof fn completed_sessions_do_no_more(
    state: SessionState,
    event: ClientEvent,
    session_id: u64,
)
    requires
        state.completed,
        state.mode is Some,
    ensures
        match event {
            ClientEvent::Cancel | ClientEvent::Ping | ClientEvent::Close => true,
            _ => on_event(state, event, session_id) == (
                state,
                Step::Refuse(error_event("invalid_sequence"@, session_id)),
            ),
        },
{
}

/// Protocol violations and overload are answered: no message of a client ends a session without an
/// error event that says why, and neither does a backend whose capacity is taken.
pub proof fn violations_are_answered(
    state: SessionState,
    event: Option<ClientEvent>,
    length: nat,
    session_id: u64,
)
    ensures
        !(on_text(state, event, session_id).1 is Abort),
        !(on_binary(state, length, session_id).1 is Abort),
        on_failure(VoiceBackendError::Busy, session_id) == Step::Refuse(
            error_event("overloaded"@, session_id),
        ),
{
}

/// Speech is asked for as the client gave it: in a speech session that has started and not completed
/// and has no audio due, every text at every speed is handed on unchanged, however often.
pub proof fn speech_is_spoken_as_asked(
    state: SessionState,
    input: String,
    speed: Sample,
    session_id: u64,
)
    requires
        state.mode == Some(SessionMode::Tts),
        !state.completed,
        state.pending_audio is None,
    ensures
        on_text(state, Some(ClientEvent::SpeechGenerate { input, speed }), session_id) == (
            state,
            Step::Synthesize(input@, speed),
        ),
{
}

/// Sessions start as asked: a transcription at exactly the rate given, which it needs, or speech,
/// which must name none. Whatever was asked, a session starts only once.
pub proof fn sessions_start_as_asked(
    state: SessionState,
    mode: SessionMode,
    rate: u32,
    sample_rate: Option<u32>,
    session_id: u64,
)
    requires
        state.pending_audio is None,
    ensures
        ({
            let stt = Some(
                ClientEvent::SessionStart { mode: SessionMode::Stt, sample_rate: Some(rate) },
            );
            let stt_without = Some(
                ClientEvent::SessionStart { mode: SessionMode::Stt, sample_rate: None },
            );
            let tts = Some(ClientEvent::SessionStart { mode: SessionMode::Tts, sample_rate: None });
            let tts_with = Some(
                ClientEvent::SessionStart { mode: SessionMode::Tts, sample_rate: Some(rate) },
            );
            let any = Some(ClientEvent::SessionStart { mode, sample_rate });
            let again = Step::Refuse(error_event("invalid_sequence"@, session_id));
            &&& state.mode is None ==> {
                &&& on_text(state, stt, session_id).1 == Step::StartTranscription(rate)
                &&& on_text(state, stt_without, session_id).1 == Step::Refuse(
                    error_event("sample_rate_required"@, session_id),
                )
                &&& on_text(state, tts, session_id).1 == Step::Announce(
                    plain_event("session_ready"@, session_id),
                )
                &&& on_text(state, tts_with, session_id).1 == Step::Refuse(
                    error_event("sample_rate_not_allowed"@, session_id),
                )
                &&& on_text(state, any, session_id).0 == (SessionState { mode: Some(mode), ..state })
                &&& on_text(on_text(state, any, session_id).0, any, session_id).1 == again
            }
            &&& state.mode is Some ==> on_text(state, any, session_id) == (state, again)
        }),
{
}

/// Audio passes through an open transcription frame by frame: a declaration of one to 65,536 bytes
/// followed by a binary message of exactly that size hands the message over and leaves the session
/// where it was, a message of any other size is refused, and so is any other declaration.
pub proof fn declared_audio_is_handed_over(
    state: SessionState,
    bytes: usize,
    length: nat,
    session_id: u64,
)
    requires
        state.mode == Some(SessionMode::Stt),
        state.transcribing,
        !state.completed,
        state.pending_audio is None,
    ensures
        ({
            let declared = on_text(state, Some(ClientEvent::AudioAppend { bytes }), session_id);
            if 1 <= bytes <= 65_536 {
                &&& declared.1 == Step::Wait
                &&& on_binary(declared.0, bytes as nat, session_id) == (state, Step::PushAudio)
                &&& length != bytes ==> on_binary(declared.0, length, session_id) == (
                    state,
                    Step::Refuse(error_event("audio_frame_invalid"@, session_id)),
                )
            } else {
                declared == (state, Step::Refuse(error_event("invalid_sequence"@, session_id)))
            }
        }),
        on_binary(state, length, session_id) == (
            state,
            Step::Refuse(error_event("audio_declaration_required"@, session_id)),
        ),
{
}

/// A commit finishes an open transcription and leaves none open; without one it says so.
pub proof fn commits_finish_the_transcription(state: SessionState, session_id: u64)
    requires
        state.mode == Some(SessionMode::Stt),
        !state.completed,
        state.pending_audio is None,
    ensures
        ({
            let committed = on_text(state, Some(ClientEvent::AudioCommit), session_id);
            if state.transcribing {
                &&& committed == (
                    SessionState { transcribing: false, ..state },
                    Step::FinishTranscription,
                )
                &&& on_text(committed.0, Some(ClientEvent::AudioCommit), session_id).1
                    == Step::Refuse(error_event("stt_session_required"@, session_id))
            } else {
                committed == (
                    state,
                    Step::Refuse(error_event("stt_session_required"@, session_id)),
                )
            }
        }),
{
}

/// What does not belong to a session is out of sequence: audio before a transcription session has
/// started or in a speech session, and speech before a speech session has started or in a
/// transcription session.
pub proof fn foreign_messages_are_out_of_sequence(
    state: SessionState,
    bytes: usize,
    input: String,
    speed: Sample,
    session_id: u64,
)
    requires
        state.pending_audio is None,
    ensures
        ({
            let refused = (
                state,
                Step::Refuse(error_event("invalid_sequence"@, session_id)),
            );
            &&& state.mode != Some(SessionMode::Stt) ==> on_text(
                state,
                Some(ClientEvent::AudioAppend { bytes }),
                session_id,
            ) == refused && on_text(state, Some(ClientEvent::AudioCommit), session_id) == refused
            &&& state.mode != Some(SessionMode::Tts) ==> on_text(
                state,
                Some(ClientEvent::SpeechGenerate { input, speed }),
                session_id,
            ) == refused
        }),
{
}

/// A client can always ask for a sign of life, cancel, or close, unless a declared binary message is
/// due, and none of these changes where the session stands.
pub proof fn control_messages_are_always_answered(state: SessionState, session_id: u64)
    requires
        state.pending_audio is None,
    ensures
        on_text(state, Some(ClientEvent::Ping), session_id) == (
            state,
            Step::Announce(plain_event("pong"@, session_id)),
        ),
        on_text(state, Some(ClientEvent::Cancel), session_id) == (
            state,
            Step::Cancel(plain_event("cancelled"@, session_id)),
        ),
        on_text(state, Some(ClientEvent::Close), session_id) == (state, Step::End),
        on_text(state, None, session_id) == (
            state,
            Step::Refuse(error_event("invalid_request"@, session_id)),
        ),
{
}

/// The event that a step sends, if it sends one.
pub open spec fn event_sent(step: Step) -> Option<EventView> {
    match step {
        Step::Announce(event) => Some(event),
        Step::Cancel(event) => Some(event),
        Step::Refuse(event) => Some(event),
        _ => None,
    }
}

/// Every event names its session; an error carries a code, and nothing else does.
pub proof fn events_name_their_session(
    state: SessionState,
    event: Option<ClientEvent>,
    length: nat,
    error: VoiceBackendError,
    session_id: u64,
)
    ensures
        forall|step: Step|
            step == on_text(state, event, session_id).1 || step == on_binary(
                state,
                length,
                session_id,
            ).1 || step == on_failure(error, session_id) ==> match #[trigger] event_sent(step) {
                Some(sent) => {
                    &&& sent.session_id == session_id
                    &&& sent.code is Some <==> step is Refuse
                    &&& sent.code is Some ==> sent.kind == "error"@
                    &&& sent.text is None
                    &&& sent.sample_rate is None
                },
                None => true,
            },
{
}

/// A transcript event carries the update's own text and kind, and audio is announced with its own
/// rate as mono audio that was cut after synthesis.
pub proof fn results_are_sent_as_they_are(update: Transcript, sample_rate: u32, session_id: u64)
    ensures
        transcript_event(update, session_id).text == Some(update.text@),
        transcript_event(update, session_id).kind == if update.kind == TranscriptKind::Final {
            "transcript_final"@
        } else {
            "transcript_interim"@
        },
        transcript_event(update, session_id).session_id == session_id,
        transcript_event(update, session_id).code is None,
        metadata_event(sample_rate, session_id).kind == "speech_metadata"@,
        metadata_event(sample_rate, session_id).sample_rate == Some(sample_rate),
        metadata_event(sample_rate, session_id).channels == Some(1u8),
        metadata_event(sample_rate, session_id).chunking == Some("post_synthesis_transport"@),
        metadata_event(sample_rate, session_id).session_id == session_id,
{
}

/// A transcription session runs its course: it starts, is opened, takes declared audio as often as
/// it comes, and is committed; with its result it is complete. An opening or a result that failed
/// leaves the session where it was.
pub proof fn transcription_sessions_run_their_course(rate: u32, bytes: usize, session_id: u64)
    requires
        1 <= bytes <= 65_536,
    ensures
        ({
            let start = Some(
                ClientEvent::SessionStart { mode: SessionMode::Stt, sample_rate: Some(rate) },
            );
            let append = Some(ClientEvent::AudioAppend { bytes });
            let started = on_text(SessionState::initial(), start, session_id);
            let open = after_opening(started.0, true);
            let declared = on_text(open, append, session_id);
            let taken = on_binary(declared.0, bytes as nat, session_id);
            let committed = on_text(taken.0, Some(ClientEvent::AudioCommit), session_id);
            let complete = after_answer(committed.0, true);
            &&& started.1 == Step::StartTranscription(rate)
            &&& after_opening(started.0, false) == started.0
            &&& declared.1 == Step::Wait
            &&& taken == (open, Step::PushAudio)
            &&& committed.1 == Step::FinishTranscription
            &&& after_answer(committed.0, false) == committed.0
            &&& complete.completed && !complete.transcribing && complete.mode == Some(
                SessionMode::Stt,
            ) && complete.pending_audio is None
        }),
{
}

/// A speech session runs its course: it starts, speaks what it is given, and is complete with the
/// first result.
pub proof fn speech_sessions_run_their_course(input: String, speed: Sample, session_id: u64)
    ensures
        ({
            let start = Some(
                ClientEvent::SessionStart { mode: SessionMode::Tts, sample_rate: None },
            );
            let speak = Some(ClientEvent::SpeechGenerate { input, speed });
            let started = on_text(SessionState::initial(), start, session_id);
            let asked = on_text(started.0, speak, session_id);
            let complete = after_answer(asked.0, true);
            &&& started.1 == Step::Announce(plain_event("session_ready"@, session_id))
            &&& asked == (started.0, Step::Synthesize(input@, speed))
            &&& complete.completed
            &&& on_text(complete, speak, session_id) == (
                complete,
                Step::Refuse(error_event("invalid_sequence"@, session_id)),
            )
        }),
{
}

/// A server at capacity says so before the session ends; every other failure ends it without a
/// word. A session that outlived its bound says so, and no other does.
pub proof fn failures_end_the_session(
    error: VoiceBackendError,
    timed_out: bool,
    last: Option<ServerEvent>,
    session_id: u64,
)
    requires
        call_ensures(closing_event, (timed_out, session_id), last),
    ensures
        on_failure(error, session_id) is Refuse <==> error == VoiceBackendError::Busy,
        on_failure(error, session_id) is Abort <==> error != VoiceBackendError::Busy,
        on_failure(VoiceBackendError::Busy, session_id) == Step::Refuse(
            error_event("overloaded"@, session_id),
        ),
        last is Some <==> timed_out,
        last matches Some(event) ==> event.content() == error_event(
            "deadline_exceeded"@,
            session_id,
        ),
{
}

/// A step tells exactly what is done: each kind of action has a step of its own, with the action's
/// own rate, text, speed, or event, and no event says more or less than what is sent.
pub proof fn steps_tell_what_is_done(action: SessionAction, event: ServerEvent)
    ensures
        step_of(action) is Wait <==> action is Wait,
        step_of(action) is PushAudio <==> action is PushAudio,
        step_of(action) is FinishTranscription <==> action is FinishTranscription,
        step_of(action) is End <==> action is End,
        step_of(action) is Abort <==> action is Abort,
        step_of(action) matches Step::StartTranscription(rate) ==> action
            == SessionAction::StartTranscription(rate),
        step_of(action) matches Step::Synthesize(text, speed) ==> (action
            matches SessionAction::Synthesize(input, asked) && input@ == text && asked == speed),
        step_of(action) matches Step::Announce(sent) ==> (action matches SessionAction::Announce(
            found,
        ) && found.content() == sent),
        step_of(action) matches Step::Cancel(sent) ==> (action matches SessionAction::Cancel(found)
            && found.content() == sent),
        step_of(action) matches Step::Refuse(sent) ==> (action matches SessionAction::Refuse(found)
            && found.content() == sent),
        event.content().kind == event.kind@,
        event.content().session_id == event.session_id,
        event.content().text is Some <==> event.text is Some,
        event.text matches Some(text) ==> event.content().text == Some(text@),
        event.content().code is Some <==> event.code is Some,
        event.code matches Some(code) ==> event.content().code == Some(code@),
        event.content().sample_rate == event.sample_rate,
        event.content().channels == event.channels,
        event.content().chunking is Some <==> event.chunking is Some,
        event.chunking matches Some(chunking) ==> event.content().chunking == Some(chunking@),
{
}

}
