//! Read-only engine inspection and composition.

use vstd::prelude::*;
use crate::manifest::ArtifactError;
use crate::sample::Sample;
use crate::setup::SetupReport;
use crate::stt::{SttEngine, SttLimits};
use crate::text::same_text;
use crate::tts::{TtsEngine, TtsLimits};
use crate::vad::VadConfig;

verus! {

/// Sanitized engine composition failure.
#[derive(Debug, Clone, Copy, PartialEq, Eq)]
pub struct EngineLoadError {
    /// Stable message without private detail.
    pub message: &'static str,
}

impl EngineLoadError {
    /// Creates a failure with a stable message.
    pub fn new(message: &'static str) -> (error: Self)
        ensures
            error.message@ == message@,
    {
        EngineLoadError { message }
    }
}

/// Threads given to each native engine.
pub const ENGINE_THREADS: i32 = 2;

/// How far loading the native engines came.
#[derive(Debug, Clone, Copy, PartialEq, Eq, Structural)]
pub enum LoadProgress {
    /// Inspection of the artifacts could not be initialized.
    Uninitialized,
    /// The artifacts are not verified.
    Unverified,
    /// The native runtime is not loadable.
    RuntimeFailed,
    /// The runtime is loaded, the speech recognition model is not.
    RecognizerFailed,
    /// The runtime and the recognition model are loaded, the speech synthesis model is not.
    SynthesizerFailed,
    /// Everything is loaded.
    Loaded,
}

/// Privacy-safe read-only engine inspection result.
#[derive(Debug)]
pub struct EngineInspection {
    /// Overall status.
    pub status: &'static str,
    /// Artifact verification.
    pub artifacts: SetupReport,
    /// Native runtime.
    pub native_runtime: &'static str,
    /// Speech recognition model.
    pub speech_to_text: &'static str,
    /// Speech synthesis model.
    pub text_to_speech: &'static str,
    /// Whether anything was downloaded.
    pub downloads_attempted: bool,
}

/// The three engine states that an inspection reports.
pub struct EngineStates {
    /// Native runtime.
    pub runtime: Seq<char>,
    /// Speech recognition model.
    pub stt: Seq<char>,
    /// Speech synthesis model.
    pub tts: Seq<char>,
}

/// The states after loading came this far: what was loaded is loadable, the first failure is not,
/// and what comes after it was not checked.
pub open spec fn states_after(progress: LoadProgress) -> EngineStates {
    match progress {
        LoadProgress::Uninitialized | LoadProgress::Unverified | LoadProgress::RuntimeFailed =>
        EngineStates {
            runtime: "not-loadable"@,
            stt: "not-checked"@,
            tts: "not-checked"@,
        },
        LoadProgress::RecognizerFailed => EngineStates {
            runtime: "loadable"@,
            stt: "not-loadable"@,
            tts: "not-checked"@,
        },
        LoadProgress::SynthesizerFailed => EngineStates {
            runtime: "loadable"@,
            stt: "loadable"@,
            tts: "not-loadable"@,
        },
        LoadProgress::Loaded => EngineStates {
            runtime: "loadable"@,
            stt: "loadable"@,
            tts: "loadable"@,
        },
    }
}

impl EngineInspection {
    /// The engine states reported.
    pub open spec fn states(self) -> EngineStates {
        EngineStates {
            runtime: self.native_runtime@,
            stt: self.speech_to_text@,
            tts: self.text_to_speech@,
        }
    }

    /// Whether artifacts and both native engines are loadable.
    pub fn is_ready(&self) -> (r: bool)
        ensures
            r == (self.status@ == "ready"@),
    {
        same_text(self.status, "ready")
    }
}

/// Whether an artifact report calls for loading the engines.
pub fn needs_loading(artifacts: &SetupReport) -> (r: bool)
    ensures
        r == (artifacts.status@ == "ready"@),
{
    same_text(artifacts.status, "ready")
}

fn not_loadable(
    artifacts: SetupReport,
    native_runtime: &'static str,
    speech_to_text: &'static str,
    text_to_speech: &'static str,
) -> (inspection: EngineInspection)
    ensures
        inspection.status@ == "not-ready"@,
        inspection.artifacts == artifacts,
        inspection.native_runtime@ == native_runtime@,
        inspection.speech_to_text@ == speech_to_text@,
        inspection.text_to_speech@ == text_to_speech@,
        !inspection.downloads_attempted,
{
    EngineInspection {
        status: "not-ready",
        artifacts,
        native_runtime,
        speech_to_text,
        text_to_speech,
        downloads_attempted: false,
    }
}

/// Reports artifact verification and engine loadability. `store` tells whether inspection of the
/// artifacts could be initialized, and `load` how far loading came where the artifacts called for
/// it; otherwise nothing was checked.
pub fn inspect(
    store: Result<(), ArtifactError>,
    status: Result<SetupReport, ArtifactError>,
    load: LoadProgress,
) -> (r: Result<EngineInspection, EngineLoadError>)
    ensures
        match (status, r) {
            (_, Err(e)) => if store is Err {
                e.message@ == "artifact inspection initialization failed"@
            } else {
                status is Err && e.message@ == "artifact status is unavailable"@
            },
            (Ok(artifacts), Ok(inspection)) => {
                let attempted = artifacts.status@ == "ready"@;
                &&& store is Ok
                &&& inspection.artifacts == artifacts
                &&& !inspection.downloads_attempted
                &&& inspection.status@ == if attempted && load == LoadProgress::Loaded {
                    "ready"@
                } else {
                    "not-ready"@
                }
                &&& inspection.states() == if attempted {
                    states_after(load)
                } else {
                    EngineStates {
                        runtime: "not-checked"@,
                        stt: "not-checked"@,
                        tts: "not-checked"@,
                    }
                }
            },
            (Err(_), Ok(_)) => false,
        },
{
    match store {
        Ok(()) => {},
        Err(_) => {
            return Err(EngineLoadError::new("artifact inspection initialization failed"));
        },
    }
    let artifacts = match status {
        Ok(artifacts) => artifacts,
        Err(_) => {
            return Err(EngineLoadError::new("artifact status is unavailable"));
        },
    };
    if !needs_loading(&artifacts) {
        return Ok(not_loadable(artifacts, "not-checked", "not-checked", "not-checked"));
    }
    match load {
        LoadProgress::Uninitialized | LoadProgress::Unverified | LoadProgress::RuntimeFailed => Ok(
            not_loadable(artifacts, "not-loadable", "not-checked", "not-checked"),
        ),
        LoadProgress::RecognizerFailed => Ok(
            not_loadable(artifacts, "loadable", "not-loadable", "not-checked"),
        ),
        LoadProgress::SynthesizerFailed => Ok(
            not_loadable(artifacts, "loadable", "loadable", "not-loadable"),
        ),
        LoadProgress::Loaded => Ok(
            EngineInspection {
                status: "ready",
                artifacts,
                native_runtime: "loadable",
                speech_to_text: "loadable",
                text_to_speech: "loadable",
                downloads_attempted: false,
            },
        ),
    }
}

/// Policies of fully loaded local STT and TTS engines.
#[derive(Debug)]
pub struct VoiceEngines {
    stt: SttEngine,
    tts: TtsEngine,
}

/// Why engines are not composed, if they are not.
pub open spec fn load_failure(max_concurrent: usize, progress: LoadProgress) -> Option<Seq<char>> {
    if max_concurrent == 0 {
        Some("engine concurrency is invalid"@)
    } else {
        match progress {
            LoadProgress::Uninitialized => Some("artifact inspection initialization failed"@),
            LoadProgress::Unverified => Some("voice artifacts are not verified"@),
            LoadProgress::RuntimeFailed => Some("native voice runtime is not loadable"@),
            LoadProgress::RecognizerFailed => Some("speech recognition model is not loadable"@),
            LoadProgress::SynthesizerFailed => Some("speech synthesis model is not loadable"@),
            LoadProgress::Loaded => None,
        }
    }
}

impl VoiceEngines {
    /// The speech-recognition policy.
    pub closed spec fn recognition(self) -> SttEngine {
        self.stt
    }

    /// The speech-synthesis policy.
    pub closed spec fn synthesis(self) -> TtsEngine {
        self.tts
    }

    /// Composes both engines once loading came as far as `progress`.
    pub fn load(max_concurrent: usize, progress: LoadProgress) -> (r: Result<Self, EngineLoadError>)
        ensures
            match r {
                Ok(engines) => {
                    &&& load_failure(max_concurrent, progress) is None
                    &&& engines.recognition().capacity() == max_concurrent
                    &&& engines.recognition().in_progress() == 0
                    &&& engines.recognition().activity() == (VadConfig {
                        rms_threshold: Sample { bits: 0x3c75_c28f },
                        min_speech_ms: 120,
                        trailing_silence_ms: 600,
                        max_utterance_ms: 30_000,
                    })
                    &&& engines.recognition().policy().max_concurrent == max_concurrent
                    &&& engines.recognition().policy().max_chunk_bytes == 65_536
                    &&& engines.recognition().policy().audio.byte_bound() == 33_554_432
                    &&& engines.recognition().policy().audio.duration_bound_ms() == 300_000
                    &&& engines.synthesis().in_progress() == 0
                    &&& engines.synthesis().capacity() == max_concurrent
                    &&& engines.synthesis().policy() == (TtsLimits {
                        max_concurrent,
                        max_text_bytes: 4_096,
                        max_output_samples: 6_615_000,
                        max_chunk_samples: 22_050,
                    })
                },
                Err(e) => load_failure(max_concurrent, progress) == Some(e.message@),
            },
    {
        if max_concurrent == 0 {
            return Err(EngineLoadError::new("engine concurrency is invalid"));
        }
        match progress {
            LoadProgress::Uninitialized => {
                return Err(EngineLoadError::new("artifact inspection initialization failed"));
            },
            LoadProgress::Unverified => {
                return Err(EngineLoadError::new("voice artifacts are not verified"));
            },
            LoadProgress::RuntimeFailed => {
                return Err(EngineLoadError::new("native voice runtime is not loadable"));
            },
            LoadProgress::RecognizerFailed => {
                return Err(EngineLoadError::new("speech recognition model is not loadable"));
            },
            LoadProgress::SynthesizerFailed => {
                return Err(EngineLoadError::new("speech synthesis model is not loadable"));
            },
            LoadProgress::Loaded => {},
        }
        let stt_limits = SttLimits::default();
        let vad = VadConfig::default();
        let stt = match SttEngine::new(SttLimits { max_concurrent, ..stt_limits }, vad) {
            Ok(stt) => stt,
            Err(_) => {
                return Err(EngineLoadError::new("speech recognition policy is invalid"));
            },
        };
        let tts_limits = TtsLimits::default();
        let tts = match TtsEngine::new(TtsLimits { max_concurrent, ..tts_limits }) {
            Ok(tts) => tts,
            Err(_) => {
                return Err(EngineLoadError::new("speech synthesis policy is invalid"));
            },
        };
        Ok(VoiceEngines { stt, tts })
    }

    /// Loaded speech-recognition policy.
    pub fn stt(&mut self) -> (stt: &mut SttEngine)
        ensures
            *stt == old(self).recognition(),
            final(self).recognition() == *final(stt),
            final(self).synthesis() == old(self).synthesis(),
    {
        &mut self.stt
    }

    /// Loaded speech-synthesis policy.
    pub fn tts(&mut self) -> (tts: &mut TtsEngine)
        ensures
            *tts == old(self).synthesis(),
            final(self).synthesis() == *final(tts),
            final(self).recognition() == old(self).recognition(),
    {
        &mut self.tts
    }
}

/// Inspection never calls a profile ready that is not verified and fully loadable.
pub proof fn ready_means_loaded(states: EngineStates, progress: LoadProgress)
    requires
        states == states_after(progress),
        states.runtime == "loadable"@,
        states.stt == "loadable"@,
        states.tts == "loadable"@,
    ensures
        progress == LoadProgress::Loaded,
{
    reveal_strlit("loadable");
    reveal_strlit("not-loadable");
    reveal_strlit("not-checked");
    assert("loadable"@.len() != "not-loadable"@.len());
    assert("loadable"@.len() != "not-checked"@.len());
}

/// Loading goes from the runtime to recognition to synthesis, and is reported so: what comes after
/// the first failure was not checked, and what comes before it is loadable.
pub proof fn loading_goes_in_order(progress: LoadProgress)
    ensures
        ({
            let states = states_after(progress);
            &&& states.runtime == "loadable"@ || states.runtime == "not-loadable"@
            &&& states.runtime == "loadable"@ <==> states.stt != "not-checked"@
            &&& states.stt == "loadable"@ <==> states.tts != "not-checked"@
            &&& states.tts == "loadable"@ <==> progress == LoadProgress::Loaded
            &&& states.tts == "not-loadable"@ <==> progress == LoadProgress::SynthesizerFailed
            &&& states.stt == "not-loadable"@ <==> progress == LoadProgress::RecognizerFailed
        }),
{
    reveal_strlit("loadable");
    reveal_strlit("not-loadable");
    reveal_strlit("not-checked");
    assert("loadable"@.len() == 8 && "not-loadable"@.len() == 12 && "not-checked"@.len() == 11);
}

/// Engines are composed exactly where they may run and everything was loaded; every failure is told
/// apart, and one to run none of them comes first.
pub proof fn engines_are_composed_when_loaded(max_concurrent: usize, progress: LoadProgress)
    ensures
        load_failure(max_concurrent, progress) is None <==> max_concurrent > 0 && progress
            == LoadProgress::Loaded,
        load_failure(0, progress) == Some("engine concurrency is invalid"@),
        max_concurrent > 0 && progress != LoadProgress::Loaded ==> load_failure(
            max_concurrent,
            progress,
        ) == Some(
            match progress {
                LoadProgress::Uninitialized => "artifact inspection initialization failed"@,
                LoadProgress::Unverified => "voice artifacts are not verified"@,
                LoadProgress::RuntimeFailed => "native voice runtime is not loadable"@,
                LoadProgress::RecognizerFailed => "speech recognition model is not loadable"@,
                _ => "speech synthesis model is not loadable"@,
            },
        ),
{
}

/// Loaded engines keep to their bounds: as many operations each as asked for, five minutes of audio
/// either way at 22,050 samples a second, synthesized audio by the second, and frames of 64 KiB.
pub proof fn loaded_engines_keep_their_bounds(
    max_concurrent: usize,
    progress: LoadProgress,
    loaded: Result<VoiceEngines, EngineLoadError>,
)
    requires
        call_ensures(VoiceEngines::load, (max_concurrent, progress), loaded),
    ensures
        loaded is Ok <==> max_concurrent > 0 && progress == LoadProgress::Loaded,
        loaded matches Ok(engines) ==> {
            let stt = engines.recognition();
            let tts = engines.synthesis();
            &&& stt.capacity() == max_concurrent && tts.capacity() == max_concurrent
            &&& stt.in_progress() == 0 && tts.in_progress() == 0
            &&& stt.policy().audio.duration_bound_ms() == 5 * 60 * 1_000
            &&& stt.policy().audio.byte_bound() == 32 * 1_048_576
            &&& stt.policy().max_chunk_bytes == 64 * 1_024
            &&& tts.policy().max_output_samples == 5 * 60 * 22_050
            &&& tts.policy().max_chunk_samples == 22_050
            &&& tts.policy().max_text_bytes == 4 * 1_024
            &&& stt.activity().min_speech_ms == 120
            &&& stt.activity().trailing_silence_ms == 600
            &&& stt.activity().max_utterance_ms == 30_000
        },
{
    engines_are_composed_when_loaded(max_concurrent, progress);
}

/// An inspection is ready exactly when the artifacts are and everything was loaded; it never
/// downloads, and checks nothing where the artifacts are not ready.
pub proof fn inspections_tell_what_was_loaded(
    store: Result<(), ArtifactError>,
    status: Result<SetupReport, ArtifactError>,
    load: LoadProgress,
    told: Result<EngineInspection, EngineLoadError>,
)
    requires
        call_ensures(inspect, (store, status, load), told),
    ensures
        told is Ok <==> store is Ok && status is Ok,
        told matches Ok(inspection) ==> {
            let ready = status->Ok_0.status@ == "ready"@;
            &&& inspection.status@ == "ready"@ <==> ready && load == LoadProgress::Loaded
            &&& inspection.artifacts == status->Ok_0
            &&& !inspection.downloads_attempted
            &&& !ready ==> inspection.native_runtime@ == "not-checked"@
                && inspection.speech_to_text@ == "not-checked"@ && inspection.text_to_speech@
                == "not-checked"@
        },
{
    reveal_strlit("ready");
    reveal_strlit("not-ready");
    assert("ready"@.len() == 5 && "not-ready"@.len() == 9);
}

}
