//! Speech-recognition and speech-synthesis policy.

use impossible_voice::audio::{AudioLimits, MonoPcm};
use impossible_voice::engines::{inspect, LoadProgress, VoiceEngines};
use impossible_voice::manifest::ArtifactError;
use impossible_voice::limiter::{Limiter, Place};
use impossible_voice::native::{
    check_output, check_path, check_synthesis, check_threads, check_version, copied_output,
    library_names, DecodeBudget, GeneratedAudio, OnlineStream, OutputHeader,
};
use impossible_voice::request::RequestSignals;
use impossible_voice::resample::{Interpolation, Resampling};
use impossible_voice::sample::Sample;
use impossible_voice::setup::SetupReport;
use impossible_voice::stt::{
    batch_accepted, batch_finished, ensure_active, FinishStep, FrameStep, StreamingSession,
    SttEngine, SttError, SttLimits, Transcript, TranscriptKind,
};
use impossible_voice::tts::{Synthesis, TtsEngine, TtsError, TtsLimits};
use impossible_voice::vad::VadConfig;

const FRAME: usize = 320;
const ACTIVE: RequestSignals = RequestSignals { cancelled: false, expired: false };
const CANCELLED: RequestSignals = RequestSignals { cancelled: true, expired: false };
const EXPIRED: RequestSignals = RequestSignals { cancelled: false, expired: true };

fn sample(value: f32) -> Sample {
    Sample { bits: value.to_bits() }
}

fn number(value: Sample) -> f32 {
    f32::from_bits(value.bits)
}

fn convert(step: &Interpolation) -> Sample {
    let fraction = f32::from(step.numerator) / f32::from(step.denominator);
    sample(number(step.left) + (number(step.right) - number(step.left)) * fraction)
}

fn vad() -> VadConfig {
    VadConfig {
        rms_threshold: sample(0.01),
        min_speech_ms: 20,
        trailing_silence_ms: 20,
        max_utterance_ms: 1_000,
    }
}

fn voiced(frame: &[Sample]) -> bool {
    let energy = frame
        .iter()
        .map(|value| f64::from(number(*value)) * f64::from(number(*value)))
        .sum::<f64>()
        / frame.len() as f64;
    energy.sqrt() >= f64::from(number(vad().rms_threshold))
}

fn engine(max_concurrent: usize) -> SttEngine {
    SttEngine::new(SttLimits { max_concurrent, ..SttLimits::default() }, vad()).unwrap()
}

/// A recognizer that counts the samples it was given.
struct FakeStream {
    accepted: usize,
}

struct Running {
    session: StreamingSession,
    stream: FakeStream,
}

impl Running {
    fn start(engine: &mut SttEngine, rate: u32) -> Result<Self, SttError> {
        let place = engine.reserve_stream(ACTIVE)?;
        let session = engine.start_stream(place, rate, Ok(()))?;
        Ok(Running { session, stream: FakeStream { accepted: 0 } })
    }

    fn push(&mut self, bytes: &[u8]) -> Result<Vec<Transcript>, SttError> {
        let Some(steps) = self.session.push_pcm16(bytes, ACTIVE)? else {
            return Ok(Vec::new());
        };
        let converted: Vec<Sample> = steps.iter().map(convert).collect();
        let mut updates = Vec::new();
        for frame in self.session.queue_converted(&converted) {
            ensure_active(ACTIVE)?;
            self.stream.accepted += frame.len();
            let loud = voiced(&frame);
            match self.session.frame_accepted(Ok(()), &frame, loud)? {
                FrameStep::FinishUtterance => {
                    let text = format!("final-{}", self.stream.accepted);
                    updates.push(self.session.utterance_finished(Ok(text), ACTIVE)?);
                    self.stream = FakeStream { accepted: 0 };
                    self.session.stream_replaced(Ok(()))?;
                }
                FrameStep::ReadInterim => {
                    let text = format!("partial-{}", self.stream.accepted);
                    updates.extend(self.session.interim_read(Ok(text))?);
                }
            }
        }
        Ok(updates)
    }

    fn finish(self) -> Result<Transcript, SttError> {
        self.close().0
    }

    fn close(self) -> (Result<Transcript, SttError>, Place) {
        let Running { session, mut stream } = self;
        let (mut closing, step) = session.finish(ACTIVE);
        let text = match step {
            Ok(FinishStep::AcceptResidual(residual)) => {
                stream.accepted += residual.len();
                let accepted = closing.residual_accepted(Ok(()), &residual, voiced(&residual));
                accepted.map(|()| format!("final-{}", stream.accepted))
            }
            Ok(FinishStep::FinishStream) => Ok(format!("final-{}", stream.accepted)),
            Ok(FinishStep::Publish(text)) => Ok(text),
            Err(error) => return (Err(error), closing.abandon()),
        };
        closing.published(text, ACTIVE)
    }
}

fn pcm(value: i16, count: usize) -> Vec<u8> {
    vec![value; count].into_iter().flat_map(i16::to_le_bytes).collect()
}

#[test]
fn batch_resamples_and_returns_only_final_text() {
    let mut engine = engine(1);
    let audio = MonoPcm::new(8_000, vec![sample(0.25); 800]).unwrap();
    let (plan, place) = engine.transcribe(&audio, ACTIVE).unwrap();
    let accepted = match plan {
        Resampling::Unchanged(same) => same.samples().len(),
        Resampling::Steps(steps) => {
            assert!(steps.iter().all(|step| convert(step) == sample(0.25)));
            steps.len()
        }
    };
    batch_accepted(Ok(()), ACTIVE).unwrap();
    let text = batch_finished(Ok(format!("final-{accepted}")), ACTIVE).unwrap();
    engine.release(place);
    assert_eq!(text, "final-1599");
}

#[test]
fn streaming_emits_interim_and_vad_final_results() {
    let mut engine = engine(1);
    let mut session = Running::start(&mut engine, 16_000).unwrap();
    let speech = pcm(2_000, FRAME);
    let silence = pcm(0, FRAME);
    assert!(session
        .push(&speech)
        .unwrap()
        .iter()
        .any(|update| update.kind == TranscriptKind::Interim));
    let updates = session.push(&silence).unwrap();
    let vad_final = updates
        .iter()
        .find(|update| update.kind == TranscriptKind::Final)
        .expect("missing VAD final");
    assert_eq!(vad_final.text, "final-640");
    let explicit_final = session.finish().unwrap();
    assert_eq!(explicit_final.kind, TranscriptKind::Final);
    assert_eq!(explicit_final.text, vad_final.text);
    assert_ne!(explicit_final.text, "final-0");
}

#[test]
fn streaming_results_are_invariant_to_transport_chunk_splits() {
    let bytes = [pcm(2_000, FRAME), pcm(0, FRAME)].concat();
    let contiguous = run_stream(&bytes, 16_000, &[bytes.len()]);
    let fragmented = run_stream(&bytes, 16_000, &[1, 3, 17, 129, 5, 511, 7]);
    assert_eq!(fragmented, contiguous);
    for rate in [8_000, 44_100, 48_000] {
        let contiguous = run_stream(&bytes, rate, &[bytes.len()]);
        let fragmented = run_stream(&bytes, rate, &[1, 3, 17, 129, 5, 511, 7]);
        assert_eq!(fragmented, contiguous);
    }
}

fn run_stream(bytes: &[u8], rate: u32, chunk_sizes: &[usize]) -> (Vec<Transcript>, Transcript) {
    let mut engine = engine(1);
    let mut session = Running::start(&mut engine, rate).unwrap();
    let mut updates = Vec::new();
    let mut offset = 0;
    let mut index = 0;
    while offset < bytes.len() {
        let size = chunk_sizes[index % chunk_sizes.len()].min(bytes.len() - offset);
        updates.extend(session.push(&bytes[offset..offset + size]).unwrap());
        offset += size;
        index += 1;
    }
    (updates, session.finish().unwrap())
}

#[test]
fn cancellation_and_concurrency_are_fenced() {
    let mut engine = engine(1);
    let session = Running::start(&mut engine, 16_000).unwrap();
    assert!(matches!(Running::start(&mut engine, 16_000), Err(SttError::Busy)));
    let audio = MonoPcm::new(16_000, vec![sample(0.0); 320]).unwrap();
    assert_eq!(engine.transcribe(&audio, CANCELLED).unwrap_err(), SttError::Cancelled);
    assert_eq!(engine.transcribe(&audio, ACTIVE).unwrap_err(), SttError::Busy);
    engine.release(session.session.abandon());
    assert!(Running::start(&mut engine, 16_000).is_ok());
}

#[test]
fn partial_pcm_and_oversized_chunks_fail_closed() {
    let mut engine = engine(1);
    let mut session = Running::start(&mut engine, 16_000).unwrap();
    assert_eq!(
        session.push(&vec![0; 64 * 1024 + 1]),
        Err(SttError::InvalidInput)
    );
    session.push(&[0]).unwrap();
    assert_eq!(session.finish(), Err(SttError::Audio));
}

#[test]
fn stopped_requests_report_why() {
    assert_eq!(ensure_active(ACTIVE), Ok(()));
    assert_eq!(ensure_active(CANCELLED), Err(SttError::Cancelled));
    assert_eq!(ensure_active(EXPIRED), Err(SttError::DeadlineExceeded));
    let both = RequestSignals { cancelled: true, expired: true };
    assert_eq!(ensure_active(both), Err(SttError::Cancelled));
    assert_eq!(batch_accepted(Err(SttError::Engine), CANCELLED), Err(SttError::Engine));
    assert_eq!(batch_accepted(Ok(()), EXPIRED), Err(SttError::DeadlineExceeded));
    assert_eq!(
        batch_finished(Ok("text".to_string()), CANCELLED),
        Err(SttError::Cancelled)
    );
    assert_eq!(
        batch_finished(Err(SttError::Engine), ACTIVE),
        Err(SttError::Engine)
    );
}

#[test]
fn recognition_policy_must_be_usable() {
    let limits = SttLimits::default();
    assert_eq!((limits.max_concurrent, limits.max_chunk_bytes), (2, 64 * 1024));
    for bad in [
        SttLimits { max_concurrent: 0, ..limits },
        SttLimits { max_chunk_bytes: 0, ..limits },
    ] {
        assert_eq!(SttEngine::new(bad, vad()).unwrap_err(), SttError::InvalidInput);
    }
    let bad = VadConfig { min_speech_ms: 0, ..vad() };
    assert_eq!(SttEngine::new(limits, bad).unwrap_err(), SttError::InvalidInput);
    let mut engine = engine(1);
    let place = engine.reserve_stream(ACTIVE).unwrap();
    assert_eq!(engine.start_stream(place, 1, Ok(())).err(), Some(SttError::Audio));
    let place = engine.reserve_stream(ACTIVE).unwrap();
    assert_eq!(
        engine.start_stream(place, 16_000, Err(SttError::Engine)).err(),
        Some(SttError::Engine)
    );
    assert!(engine.reserve_stream(ACTIVE).is_ok());
    let long = SttLimits { audio: AudioLimits::new(4, 1_000).unwrap(), ..limits };
    let mut strict = SttEngine::new(long, vad()).unwrap();
    let audio = MonoPcm::new(16_000, vec![sample(0.0); 3]).unwrap();
    assert_eq!(strict.transcribe(&audio, ACTIVE).unwrap_err(), SttError::Audio);
}

#[test]
fn interim_results_are_published_only_when_they_change() {
    let mut engine = engine(1);
    let mut running = Running::start(&mut engine, 16_000).unwrap();
    let session = &mut running.session;
    assert!(session.interim_read(Ok(String::new())).unwrap().is_none());
    assert_eq!(session.interim_read(Ok("a".to_string())).unwrap().unwrap().text, "a");
    assert!(session.interim_read(Ok("a".to_string())).unwrap().is_none());
    assert_eq!(session.interim_read(Ok("b".to_string())).unwrap().unwrap().text, "b");
    assert_eq!(session.interim_read(Err(SttError::Engine)).unwrap_err(), SttError::Engine);
    assert!(session.utterance_finished(Ok("done".to_string()), CANCELLED).is_err());
    assert_eq!(session.stream_replaced(Err(SttError::Engine)), Err(SttError::Engine));
    assert!(session.stream_replaced(Ok(())).is_ok());
    assert_eq!(session.interim_read(Ok("b".to_string())).unwrap().unwrap().text, "b");
    assert_eq!(SttError::Busy.message(), "speech recognition capacity is busy");
}

#[test]
fn closing_hands_over_what_made_no_frame() {
    let mut engine = engine(1);
    let mut session = Running::start(&mut engine, 16_000).unwrap();
    session.push(&pcm(2_000, 100)).unwrap();
    let (update, place) = session.close();
    assert_eq!(update.unwrap().text, "final-100");
    engine.release(place);
    let session = Running::start(&mut engine, 16_000).unwrap();
    let (update, place) = session.close();
    assert_eq!(update, Err(SttError::Audio));
    engine.release(place);
    let session = Running::start(&mut engine, 16_000).unwrap();
    let (closing, step) = session.session.finish(EXPIRED);
    assert!(matches!(step, Err(SttError::DeadlineExceeded)));
    engine.release(closing.abandon());
    let session = Running::start(&mut engine, 16_000).unwrap();
    let (closing, _) = session.session.finish(ACTIVE);
    let (update, _) = closing.published(Ok("text".to_string()), CANCELLED);
    assert_eq!(update, Err(SttError::Cancelled));
}

fn tts(max_output_samples: usize) -> TtsEngine {
    TtsEngine::new(TtsLimits {
        max_chunk_samples: 3,
        max_output_samples,
        ..TtsLimits::default()
    })
    .unwrap()
}

fn generate(samples: usize, max_samples: usize) -> Result<GeneratedAudio, TtsError> {
    if samples > max_samples {
        return Err(TtsError::Output);
    }
    Ok(GeneratedAudio { samples: vec![sample(0.25); samples], sample_rate: 22_050 })
}

fn synthesize(
    engine: &mut TtsEngine,
    samples: usize,
    text: &str,
    signals: RequestSignals,
) -> Result<Synthesis, TtsError> {
    let (max_samples, place) = engine.synthesize(text, sample(1.0), signals)?;
    let result = engine.generated(generate(samples, max_samples), signals);
    engine.release(place);
    result
}

#[test]
fn synthesis_produces_valid_wav_and_post_synthesis_chunks() {
    let synthesis = synthesize(&mut tts(10), 7, "hello", ACTIVE).unwrap();
    assert_eq!(synthesis.wav().unwrap()[..4], *b"RIFF");
    let chunks = synthesis.transport_chunks();
    assert_eq!(
        chunks.iter().map(|chunk| chunk.samples.len()).sum::<usize>(),
        7
    );
    assert_eq!(chunks.iter().filter(|chunk| chunk.final_chunk).count(), 1);
    assert!(chunks.last().is_some_and(|chunk| chunk.final_chunk));
    let joined: Vec<Sample> = chunks.iter().flat_map(|chunk| chunk.samples.clone()).collect();
    assert_eq!(joined, synthesis.audio().samples());
    assert_eq!(synthesis.pcm16(), synthesis.audio().to_pcm16_le());
}

#[test]
fn text_output_and_capacity_limits_fail_closed() {
    let mut engine = tts(10);
    assert_eq!(
        synthesize(&mut engine, 11, "", ACTIVE).unwrap_err(),
        TtsError::InvalidInput
    );
    assert_eq!(
        synthesize(&mut engine, 11, "hello", ACTIVE).unwrap_err(),
        TtsError::Output
    );
    let (_, place) = engine.synthesize("hello", sample(1.0), ACTIVE).unwrap();
    assert_eq!(
        synthesize(&mut engine, 11, "hello", ACTIVE).unwrap_err(),
        TtsError::Busy
    );
    engine.release(place);
    assert!(synthesize(&mut engine, 1, "hello", ACTIVE).is_ok());
}

#[test]
fn cancellation_prevents_native_work_and_publication() {
    let mut engine = tts(10);
    assert_eq!(
        synthesize(&mut engine, 2, "hello", CANCELLED).unwrap_err(),
        TtsError::Cancelled
    );
    engine.synthesize("hello", sample(1.0), ACTIVE).unwrap();
    assert_eq!(
        engine.generated(generate(2, 10), CANCELLED).unwrap_err(),
        TtsError::Cancelled
    );
    assert_eq!(
        engine.generated(generate(2, 10), EXPIRED).unwrap_err(),
        TtsError::DeadlineExceeded
    );
}

#[test]
fn synthesis_requests_are_validated() {
    let mut engine = TtsEngine::new(TtsLimits::default()).unwrap();
    let longest = "a".repeat(4_096);
    let (max_samples, place) = engine.synthesize(&longest, sample(0.5), ACTIVE).unwrap();
    assert_eq!(max_samples, 22_050 * 5 * 60);
    engine.release(place);
    for text in ["", " \t\n\u{3000}", "a\0b", &format!("{longest}a")] {
        assert_eq!(
            engine.synthesize(text, sample(1.0), ACTIVE).unwrap_err(),
            TtsError::InvalidInput
        );
    }
    for speed in [0.499, 2.001, 0.0, -1.0, f32::NAN, f32::INFINITY] {
        assert_eq!(
            engine.synthesize("a", sample(speed), ACTIVE).unwrap_err(),
            TtsError::InvalidInput
        );
    }
    assert!(engine.synthesize("a", sample(2.0), ACTIVE).is_ok());
    let bad = GeneratedAudio { samples: vec![sample(2.0)], sample_rate: 22_050 };
    assert_eq!(engine.generated(Ok(bad), ACTIVE).unwrap_err(), TtsError::Output);
    let bad = GeneratedAudio { samples: vec![sample(0.0)], sample_rate: 1 };
    assert_eq!(engine.generated(Ok(bad), ACTIVE).unwrap_err(), TtsError::Output);
    let failed = engine.generated(Err(TtsError::Engine), ACTIVE);
    assert_eq!(failed.unwrap_err(), TtsError::Engine);
    let limits = TtsLimits::default();
    for bad in [
        TtsLimits { max_concurrent: 0, ..limits },
        TtsLimits { max_text_bytes: 0, ..limits },
        TtsLimits { max_output_samples: 0, ..limits },
        TtsLimits { max_chunk_samples: 0, ..limits },
    ] {
        assert_eq!(TtsEngine::new(bad).unwrap_err(), TtsError::InvalidInput);
    }
    let audio = MonoPcm::new(16_000, vec![sample(0.0)]).unwrap();
    assert_eq!(Synthesis::from_audio(audio, 0).unwrap_err(), TtsError::InvalidInput);
    assert_eq!(TtsError::Output.message(), "speech synthesis output is invalid");
}

fn report(status: &'static str) -> SetupReport {
    SetupReport {
        profile: "impossible-voice-en-cpu-v1".to_string(),
        platform: "linux-x86_64",
        status,
        artifacts: Vec::new(),
    }
}

#[test]
fn missing_profile_is_not_ready_without_creating_artifacts() {
    let inspection = inspect(Ok(()), Ok(report("not-ready")), LoadProgress::Loaded).unwrap();
    assert!(!inspection.is_ready());
    assert!(!inspection.downloads_attempted);
    assert_eq!(inspection.native_runtime, "not-checked");
}

#[test]
fn inspections_report_how_far_loading_came() {
    let cases = [
        (LoadProgress::Uninitialized, "not-loadable", "not-checked", "not-checked", false),
        (LoadProgress::Unverified, "not-loadable", "not-checked", "not-checked", false),
        (LoadProgress::RuntimeFailed, "not-loadable", "not-checked", "not-checked", false),
        (LoadProgress::RecognizerFailed, "loadable", "not-loadable", "not-checked", false),
        (LoadProgress::SynthesizerFailed, "loadable", "loadable", "not-loadable", false),
        (LoadProgress::Loaded, "loadable", "loadable", "loadable", true),
    ];
    for (progress, runtime, stt, tts, ready) in cases {
        let inspection = inspect(Ok(()), Ok(report("ready")), progress).unwrap();
        assert_eq!(inspection.native_runtime, runtime);
        assert_eq!(inspection.speech_to_text, stt);
        assert_eq!(inspection.text_to_speech, tts);
        assert_eq!(inspection.is_ready(), ready);
    }
    let failed = || ArtifactError::new("x");
    let error = inspect(Ok(()), Err(failed()), LoadProgress::Loaded).unwrap_err();
    assert_eq!(error.message, "artifact status is unavailable");
    let error = inspect(Err(failed()), Err(failed()), LoadProgress::Loaded).unwrap_err();
    assert_eq!(error.message, "artifact inspection initialization failed");
}

#[test]
fn engines_are_composed_only_when_everything_is_loaded() {
    let message = |places, progress| VoiceEngines::load(places, progress).unwrap_err().message;
    assert_eq!(message(0, LoadProgress::Loaded), "engine concurrency is invalid");
    assert_eq!(
        message(1, LoadProgress::Uninitialized),
        "artifact inspection initialization failed"
    );
    assert_eq!(message(1, LoadProgress::Unverified), "voice artifacts are not verified");
    assert_eq!(message(1, LoadProgress::RuntimeFailed), "native voice runtime is not loadable");
    assert_eq!(
        message(1, LoadProgress::RecognizerFailed),
        "speech recognition model is not loadable"
    );
    assert_eq!(
        message(1, LoadProgress::SynthesizerFailed),
        "speech synthesis model is not loadable"
    );
    let mut engines = VoiceEngines::load(1, LoadProgress::Loaded).unwrap();
    assert!(engines.stt().reserve_stream(ACTIVE).is_ok());
    assert_eq!(engines.stt().reserve_stream(ACTIVE).unwrap_err(), SttError::Busy);
    assert!(engines.tts().synthesize("a", sample(1.0), ACTIVE).is_ok());
    let refused = engines.tts().synthesize("a", sample(1.0), ACTIVE);
    assert_eq!(refused.unwrap_err(), TtsError::Busy);
}

#[test]
fn native_boundary_rules_hold() {
    assert!(check_version("1.13.8").is_ok());
    assert!(check_version("1.13.9").is_err());
    assert!(check_threads(0).is_err());
    assert!(check_threads(1).is_ok());
    assert!(check_threads(32).is_ok());
    assert!(check_threads(33).is_err());
    assert!(check_path(Some("a/b")).is_ok());
    assert!(check_path(Some("a\0b")).is_err());
    assert!(check_path(None).is_err());
    let mut stream = OnlineStream::new();
    assert_eq!(stream.accept(&[sample(0.0); 5]), Ok(5));
    assert!(stream.accept(&[]).is_err());
    assert!(stream.accept(&[sample(f32::NAN)]).is_err());
    assert!(stream.finish().is_ok());
    assert_eq!(stream.finish().unwrap_err().message, "speech stream is already finished");
    assert!(stream.accept(&[sample(0.0)]).is_err());
    let mut budget = DecodeBudget::new();
    for _ in 0..100_000 {
        assert!(budget.may_ask().is_ok());
        budget.taken();
    }
    assert_eq!(
        budget.may_ask().unwrap_err().message,
        "speech decoder exceeded its work bound"
    );
    assert!(check_synthesis("a", sample(1.0), 1).is_ok());
    assert!(check_synthesis(" ", sample(1.0), 1).is_err());
    assert!(check_synthesis("a", sample(3.0), 1).is_err());
    assert!(check_synthesis("a", sample(1.0), 0).is_err());
    assert!(check_synthesis(&"a".repeat(16_385), sample(1.0), 1).is_err());
    let header = OutputHeader { present: true, length: 2, sample_rate: 22_050 };
    assert_eq!(check_output(header, 2), Ok(2));
    assert_eq!(
        check_output(header, 1).unwrap_err().message,
        "speech synthesis output exceeds its limit"
    );
    for bad in [
        OutputHeader { present: false, ..header },
        OutputHeader { length: 0, ..header },
        OutputHeader { sample_rate: 0, ..header },
    ] {
        assert_eq!(
            check_output(bad, 9).unwrap_err().message,
            "speech synthesis output is invalid"
        );
    }
    assert_eq!(copied_output(header, vec![sample(0.5)]).unwrap().sample_rate, 22_050);
    assert!(copied_output(header, vec![sample(f32::INFINITY)]).is_err());
    assert_eq!(library_names("linux").1, "libsherpa-onnx-c-api.so");
    assert_eq!(library_names("windows").0[0], "onnxruntime.dll");
    assert_eq!(library_names("other"), (Vec::new(), "unsupported"));
}

#[test]
fn only_reserved_places_start_streams() {
    let mut engine = engine(2);
    let first = engine.reserve_stream(ACTIVE).unwrap();
    let second = engine.reserve_stream(ACTIVE).unwrap();
    assert_eq!(engine.reserve_stream(ACTIVE).unwrap_err(), SttError::Busy);
    let session = engine.start_stream(first, 16_000, Ok(())).unwrap();
    assert!(engine.start_stream(second, 16_000, Err(SttError::Engine)).is_err());
    assert!(engine.reserve_stream(ACTIVE).is_ok());
    assert!(engine.reserve_stream(ACTIVE).is_err());
    engine.release(session.abandon());
    assert!(engine.reserve_stream(ACTIVE).is_ok());
    assert_eq!(engine.reserve_stream(CANCELLED).unwrap_err(), SttError::Cancelled);
}

#[test]
fn chunks_that_complete_no_sample_ask_for_nothing() {
    let mut engine = engine(1);
    let mut running = Running::start(&mut engine, 8_000).unwrap();
    let empty = running.session.push_pcm16(&[], ACTIVE);
    assert_eq!(empty.unwrap_err(), SttError::InvalidInput);
    assert!(running.session.push_pcm16(&[0], ACTIVE).unwrap().is_none());
    assert!(running.session.push_pcm16(&[0], ACTIVE).unwrap().is_some());
    assert_eq!(
        running.session.push_pcm16(&[0, 0], CANCELLED).unwrap_err(),
        SttError::Cancelled
    );
}

#[test]
fn every_split_of_a_short_stream_gives_the_same_transcripts() {
    let bytes = [pcm(2_000, FRAME), pcm(0, FRAME + 5)].concat();
    let whole = run_stream(&bytes, 16_000, &[bytes.len()]);
    for first in [1, 2, 639, 640, 641, 1_279, 1_281] {
        assert_eq!(run_stream(&bytes, 16_000, &[first, bytes.len()]), whole);
    }
}

#[test]
fn limiters_hand_out_as_many_places_as_they_have() {
    let mut limiter = Limiter::new(2);
    let first = limiter.acquire().unwrap();
    let second = limiter.acquire().unwrap();
    assert!(limiter.acquire().is_none());
    limiter.release(first);
    assert!(limiter.acquire().is_some());
    limiter.release(second);
    assert!(limiter.acquire().is_some());
    assert!(limiter.acquire().is_none());
}

#[test]
fn samples_are_compared_as_numbers() {
    assert_eq!(sample(0.0), sample(-0.0));
    assert_ne!(sample(f32::NAN), sample(f32::NAN));
    assert_eq!(sample(f32::INFINITY), sample(f32::INFINITY));
    assert_ne!(sample(f32::INFINITY), sample(f32::NEG_INFINITY));
    assert_ne!(sample(0.5), sample(-0.5));
    let quiet = |zero: f32| MonoPcm::new(16_000, vec![sample(zero); 2]).unwrap();
    assert_eq!(quiet(0.0), quiet(-0.0));
}
