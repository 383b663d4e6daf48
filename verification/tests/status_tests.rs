use openchatcut_daemon::status::{auto_engine_name, daemon_capabilities, AutoEngine, RuntimeFacts, WorkerFeatures};

fn facts(worker: Option<WorkerFeatures>) -> RuntimeFacts {
    RuntimeFacts {
        worker,
        remote_transcription_registered: false,
        agent_provider_available: false,
        generation_provider: false,
        codex_agent: false,
        codex_image: false,
        import_roots: false,
        web_capture: false,
        motion_graphics_runtime: false,
    }
}

#[test]
fn bare_daemon_advertises_no_runtime_capabilities() {
    let c = daemon_capabilities(&facts(None));
    assert!(!c.media_worker && !c.transcription && !c.ffmpeg_export && !c.headless_preview);
    assert_eq!(c.auto_selected, None);
}

#[test]
fn worker_features_drive_media_capabilities() {
    let mut f = facts(Some(WorkerFeatures { ffmpeg: true, faster_whisper: true, playwright: false }));
    f.web_capture = true;
    f.import_roots = true;
    let c = daemon_capabilities(&f);
    assert!(c.media_worker && c.audio_processing && c.ffmpeg_export && c.media_derivatives);
    assert!(c.transcription && c.faster_whisper && !c.new_api_asr);
    assert_eq!(c.auto_selected, Some(AutoEngine::FasterWhisper));
    assert!(!c.headless_preview && !c.headless_export && !c.isolated_web_capture);
    assert!(c.local_media_import && c.linked_file_import);
}

#[test]
fn remote_transcription_needs_worker() {
    let mut f = facts(None);
    f.remote_transcription_registered = true;
    assert!(!daemon_capabilities(&f).transcription);
    f.worker = Some(WorkerFeatures { ffmpeg: true, faster_whisper: true, playwright: true });
    f.web_capture = true;
    let c = daemon_capabilities(&f);
    assert_eq!(c.auto_selected, Some(AutoEngine::NewApiAsr));
    assert!(c.headless_export && c.isolated_web_capture);
    assert_eq!(auto_engine_name(AutoEngine::NewApiAsr), "new-api-asr");
    assert_eq!(auto_engine_name(AutoEngine::FasterWhisper), "faster-whisper");
}
