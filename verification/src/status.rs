//! The capabilities the daemon advertises in its status answer, decided from
//! what the running process has configured.
use vstd::prelude::*;

verus! {

/// The runtime features the media worker reports.
#[derive(Debug, Clone, Copy, PartialEq, Eq, Structural)]
pub struct WorkerFeatures {
    pub ffmpeg: bool,
    pub faster_whisper: bool,
    pub playwright: bool,
}

/// What the status answer reads of the running daemon.
#[derive(Debug, Clone, Copy, PartialEq, Eq, Structural)]
pub struct RuntimeFacts {
    /// The media worker's features, when a worker is configured.
    pub worker: Option<WorkerFeatures>,
    /// A remote transcription provider is registered.
    pub remote_transcription_registered: bool,
    /// At least one agent planning provider reports itself available.
    pub agent_provider_available: bool,
    pub generation_provider: bool,
    pub codex_agent: bool,
    pub codex_image: bool,
    /// At least one authorized import root is configured.
    pub import_roots: bool,
    pub web_capture: bool,
    pub motion_graphics_runtime: bool,
}

/// The transcription engine chosen when a client asks for `auto`.
#[derive(Debug, Clone, Copy, PartialEq, Eq, Structural)]
pub enum AutoEngine {
    NewApiAsr,
    FasterWhisper,
}

/// The capability flags of the status answer that depend on the runtime;
/// the others are always advertised.
#[derive(Debug, Clone, Copy, PartialEq, Eq, Structural)]
pub struct DaemonCapabilities {
    pub external_generation: bool,
    pub agent_planning: bool,
    pub codex_agent: bool,
    pub codex_image_generation: bool,
    pub transcription: bool,
    pub media_worker: bool,
    pub audio_processing: bool,
    pub local_media_import: bool,
    pub linked_file_import: bool,
    pub technical_media_probe: bool,
    pub media_derivatives: bool,
    pub media_visual_analysis: bool,
    pub isolated_web_capture: bool,
    pub motion_graphic_jsx: bool,
    pub ffmpeg_export: bool,
    pub headless_preview: bool,
    pub headless_export: bool,
    /// Transcription engines: local faster-whisper and remote New API ASR.
    pub faster_whisper: bool,
    pub new_api_asr: bool,
    pub auto_selected: Option<AutoEngine>,
}

pub open spec fn ffmpeg_of(f: RuntimeFacts) -> bool {
    f.worker matches Some(w) && w.ffmpeg
}

pub open spec fn whisper_of(f: RuntimeFacts) -> bool {
    f.worker matches Some(w) && w.faster_whisper
}

pub open spec fn playwright_of(f: RuntimeFacts) -> bool {
    f.worker matches Some(w) && w.playwright
}

/// Remote transcription needs both the worker and a registered provider.
pub open spec fn remote_of(f: RuntimeFacts) -> bool {
    f.worker is Some && f.remote_transcription_registered
}

pub open spec fn capabilities_spec(f: RuntimeFacts) -> DaemonCapabilities {
    DaemonCapabilities {
        external_generation: f.generation_provider,
        agent_planning: f.agent_provider_available,
        codex_agent: f.codex_agent,
        codex_image_generation: f.codex_image,
        transcription: whisper_of(f) || remote_of(f),
        media_worker: f.worker is Some,
        audio_processing: ffmpeg_of(f),
        local_media_import: f.import_roots,
        linked_file_import: f.import_roots,
        technical_media_probe: ffmpeg_of(f),
        media_derivatives: ffmpeg_of(f),
        media_visual_analysis: ffmpeg_of(f),
        isolated_web_capture: f.web_capture && playwright_of(f),
        motion_graphic_jsx: f.motion_graphics_runtime,
        ffmpeg_export: ffmpeg_of(f),
        headless_preview: playwright_of(f),
        headless_export: ffmpeg_of(f) && playwright_of(f),
        faster_whisper: whisper_of(f),
        new_api_asr: remote_of(f),
        auto_selected: if remote_of(f) {
            Some(AutoEngine::NewApiAsr)
        } else if whisper_of(f) {
            Some(AutoEngine::FasterWhisper)
        } else {
            None
        },
    }
}

/// The runtime-dependent capability flags of the status answer.
pub fn daemon_capabilities(f: &RuntimeFacts) -> (r: DaemonCapabilities)
    ensures
        r == capabilities_spec(*f),
{
    let (ffmpeg, whisper, playwright) = match f.worker {
        Some(w) => (w.ffmpeg, w.faster_whisper, w.playwright),
        None => (false, false, false),
    };
    let remote = f.worker.is_some() && f.remote_transcription_registered;
    DaemonCapabilities {
        external_generation: f.generation_provider,
        agent_planning: f.agent_provider_available,
        codex_agent: f.codex_agent,
        codex_image_generation: f.codex_image,
        transcription: whisper || remote,
        media_worker: f.worker.is_some(),
        audio_processing: ffmpeg,
        local_media_import: f.import_roots,
        linked_file_import: f.import_roots,
        technical_media_probe: ffmpeg,
        media_derivatives: ffmpeg,
        media_visual_analysis: ffmpeg,
        isolated_web_capture: f.web_capture && playwright,
        motion_graphic_jsx: f.motion_graphics_runtime,
        ffmpeg_export: ffmpeg,
        headless_preview: playwright,
        headless_export: ffmpeg && playwright,
        faster_whisper: whisper,
        new_api_asr: remote,
        auto_selected: if remote {
            Some(AutoEngine::NewApiAsr)
        } else if whisper {
            Some(AutoEngine::FasterWhisper)
        } else {
            None
        },
    }
}

/// The wire name of the engine chosen for `auto`.
pub fn auto_engine_name(e: AutoEngine) -> (r: &'static str)
    ensures
        e == AutoEngine::NewApiAsr ==> r@ == "new-api-asr"@,
        e == AutoEngine::FasterWhisper ==> r@ == "faster-whisper"@,
{
    proof {
        reveal_strlit("new-api-asr");
        reveal_strlit("faster-whisper");
    }
    match e {
        AutoEngine::NewApiAsr => "new-api-asr",
        AutoEngine::FasterWhisper => "faster-whisper",
    }
}

/// Every capability that needs ffmpeg is advertised only with a worker, and
/// transcription is advertised exactly when one of its engines is.
pub proof fn lemma_capabilities_follow_worker(f: RuntimeFacts)
    ensures
        capabilities_spec(f).ffmpeg_export ==> capabilities_spec(f).media_worker,
        capabilities_spec(f).headless_export ==> capabilities_spec(f).ffmpeg_export
            && capabilities_spec(f).headless_preview,
        capabilities_spec(f).transcription <==> (capabilities_spec(f).faster_whisper
            || capabilities_spec(f).new_api_asr),
        capabilities_spec(f).transcription <==> capabilities_spec(f).auto_selected is Some,
        capabilities_spec(f).new_api_asr ==> capabilities_spec(f).media_worker,
{
}

} // verus!
