use openchatcut_daemon::agent::{
    agent_capability_response_text, capability_for, check_capability_call, refusal_error,
    validate_agent_capability_references,
    AssetFacts, CapabilityCall, CapabilityKind, CapabilityRefusal, ExportFormat, GenerationKind,
    ProviderFacts, RefusalReason, TranscriptionEngine,
};
use openchatcut_daemon::json::JsonValue;
use openchatcut_daemon::media::AssetKind;

fn asset(id: &str, kind: AssetKind, has_audio: bool, managed: bool) -> AssetFacts {
    AssetFacts { id: id.to_string(), kind, has_audio, managed }
}

fn assets() -> Vec<AssetFacts> {
    vec![
        asset("img", AssetKind::Image, false, true),
        asset("silent", AssetKind::Video, false, true),
        asset("talk", AssetKind::Video, true, true),
        asset("voice", AssetKind::Audio, false, true),
        asset("linked", AssetKind::Audio, false, false),
    ]
}

fn providers() -> Vec<ProviderFacts> {
    vec![
        ProviderFacts {
            id: "pix".to_string(),
            capabilities: vec![CapabilityKind::ImageGeneration],
            available: true,
            availability: JsonValue::Str("available".to_string()),
        },
        ProviderFacts {
            id: "tunes".to_string(),
            capabilities: vec![CapabilityKind::MusicGeneration],
            available: false,
            availability: JsonValue::Str("missingCredentials".to_string()),
        },
    ]
}

fn transcribe(id: &str, engine: Option<TranscriptionEngine>) -> CapabilityCall {
    CapabilityCall::StartTranscription { asset_id: id.to_string(), engine }
}

fn check(call: CapabilityCall, worker: bool, remote: bool) -> Option<RefusalReason> {
    check_capability_call(&call, worker, remote, &assets(), &providers())
}

#[test]
fn search_is_always_allowed() {
    assert_eq!(check(CapabilityCall::SearchBroll, false, false), None);
}

#[test]
fn transcription_needs_worker_and_audible_managed_asset() {
    assert_eq!(check(transcribe("talk", None), false, false), Some(RefusalReason::TranscriptionUnavailable));
    assert_eq!(check(transcribe("talk", None), true, false), None);
    assert_eq!(check(transcribe("voice", Some(TranscriptionEngine::Auto)), true, false), None);
    assert_eq!(check(transcribe("missing", None), true, false), Some(RefusalReason::AssetNotFound));
    assert_eq!(check(transcribe("img", None), true, false), Some(RefusalReason::AssetNotTranscribable));
    assert_eq!(check(transcribe("silent", None), true, false), Some(RefusalReason::AssetNotTranscribable));
    assert_eq!(check(transcribe("linked", None), true, false), Some(RefusalReason::AssetNotTranscribable));
}

#[test]
fn remote_asr_needs_configuration() {
    let call = || transcribe("voice", Some(TranscriptionEngine::NewApiAsr));
    assert_eq!(check(call(), true, false), Some(RefusalReason::RemoteTranscriptionUnavailable));
    assert_eq!(check(call(), true, true), None);
    assert_eq!(check(transcribe("voice", Some(TranscriptionEngine::FasterWhisper)), true, false), None);
}

#[test]
fn generation_checks_provider() {
    let generate = |kind, provider: &str| CapabilityCall::GenerateAsset { kind, provider: provider.to_string() };
    assert_eq!(check(generate(GenerationKind::Image, "pix"), false, false), None);
    assert_eq!(check(generate(GenerationKind::Image, "nobody"), true, false), Some(RefusalReason::ProviderNotFound));
    assert_eq!(check(generate(GenerationKind::Video, "pix"), true, false), Some(RefusalReason::ProviderCapabilityMismatch));
    assert_eq!(check(generate(GenerationKind::Music, "tunes"), true, false), Some(RefusalReason::ProviderUnavailable));
    assert_eq!(capability_for(GenerationKind::Voice), CapabilityKind::SpeechSynthesis);
    assert_eq!(capability_for(GenerationKind::Sfx), CapabilityKind::SoundEffectGeneration);
    assert_eq!(capability_for(GenerationKind::WebCapture), CapabilityKind::WebCapture);
}

#[test]
fn audio_processing_needs_managed_media() {
    let process = |id: &str| CapabilityCall::ProcessAudio { asset_id: id.to_string() };
    assert_eq!(check(process("voice"), false, false), Some(RefusalReason::AudioProcessingUnavailable));
    assert_eq!(check(process("voice"), true, false), None);
    assert_eq!(check(process("silent"), true, false), None);
    assert_eq!(check(process("img"), true, false), Some(RefusalReason::AssetNotProcessable));
    assert_eq!(check(process("linked"), true, false), Some(RefusalReason::AssetNotProcessable));
    assert_eq!(check(process("gone"), true, false), Some(RefusalReason::AssetNotFound));
}

#[test]
fn rendered_exports_need_worker() {
    let export = |format| CapabilityCall::StartExport { format };
    for format in [ExportFormat::Mp4, ExportFormat::Webm, ExportFormat::Wav, ExportFormat::Mp3, ExportFormat::Png, ExportFormat::PngSequence, ExportFormat::Prores4444] {
        assert_eq!(check(export(format), false, false), Some(RefusalReason::ExportUnavailable));
        assert_eq!(check(export(format), true, false), None);
    }
    assert_eq!(check(export(ExportFormat::Other), false, false), None);
}

#[test]
fn first_refused_call_decides() {
    let calls = vec![
        CapabilityCall::SearchBroll,
        CapabilityCall::StartExport { format: ExportFormat::Mp4 },
        transcribe("missing", None),
    ];
    let r = validate_agent_capability_references(Ok(()), false, false, &assets(), &providers(), &calls);
    assert_eq!(r, Err(CapabilityRefusal { call_index: 1, reason: RefusalReason::ExportUnavailable }));
    let r = validate_agent_capability_references(Ok(()), true, false, &assets(), &providers(), &calls);
    assert_eq!(r, Err(CapabilityRefusal { call_index: 2, reason: RefusalReason::AssetNotFound }));
    let ok = vec![CapabilityCall::SearchBroll, transcribe("talk", None)];
    assert_eq!(validate_agent_capability_references(Ok(()), true, false, &assets(), &providers(), &ok), Ok(()));
    assert_eq!(validate_agent_capability_references(Ok(()), true, false, &assets(), &providers(), &vec![]), Ok(()));
}

#[test]
fn structural_failure_refuses_whole_workflow() {
    let calls = vec![CapabilityCall::SearchBroll];
    let r = validate_agent_capability_references(Err("duplicate call id".to_string()), true, true, &assets(), &providers(), &calls);
    assert_eq!(r, Err(CapabilityRefusal { call_index: 0, reason: RefusalReason::InvalidWorkflow }));
    let e = refusal_error(r.unwrap_err(), "duplicate call id", &calls, &providers()).unwrap();
    assert_eq!(e.status, 400);
    assert_eq!(e.code, "invalid_agent_workflow");
    assert_eq!(e.message, "duplicate call id");
}

#[test]
fn refusal_errors_carry_codes_and_details() {
    let calls = vec![CapabilityCall::GenerateAsset { kind: GenerationKind::Music, provider: "tunes".to_string() }];
    let e = refusal_error(CapabilityRefusal { call_index: 0, reason: RefusalReason::ExportUnavailable }, "", &calls, &providers()).unwrap();
    assert_eq!(e.status, 501);
    assert_eq!(e.code, "capability_not_available");
    assert_eq!(e.message, "media export requires the configured media worker");
    let d = e.details.unwrap();
    assert_eq!(d.get_str("capability"), Some("ffmpegExport"));

    let e = refusal_error(CapabilityRefusal { call_index: 0, reason: RefusalReason::ProviderUnavailable }, "", &calls, &providers()).unwrap();
    assert_eq!(e.status, 501);
    assert_eq!(e.message, "the planned generation provider is not currently available");
    let d = e.details.unwrap();
    assert_eq!(d.get_str("provider"), Some("tunes"));
    assert_eq!(d.get_str("availability"), Some("missingCredentials"));

    let e = refusal_error(CapabilityRefusal { call_index: 0, reason: RefusalReason::AssetNotTranscribable }, "", &calls, &providers()).unwrap();
    assert_eq!(e.status, 400);
    assert_eq!(e.code, "asset_not_transcribable");
    assert!(e.details.is_none());

    let e = refusal_error(CapabilityRefusal { call_index: 0, reason: RefusalReason::RemoteTranscriptionUnavailable }, "", &calls, &providers()).unwrap();
    assert_eq!(e.message, "New API ASR is not configured");
    assert_eq!(e.details.unwrap().get_str("capability"), Some("remoteTranscription"));

    assert!(refusal_error(CapabilityRefusal { call_index: 0, reason: RefusalReason::AssetNotFound }, "", &calls, &providers()).is_none());
    assert!(refusal_error(CapabilityRefusal { call_index: 0, reason: RefusalReason::ProviderNotFound }, "", &calls, &providers()).is_none());
}

#[test]
fn response_text_summarizes_checks_and_pending_actions() {
    let obj = |entries: Vec<(&str, JsonValue)>| JsonValue::Object(entries.into_iter().map(|(k, v)| (k.to_string(), v)).collect());
    let results = vec![
        obj(vec![("result", obj(vec![("localMatches", JsonValue::Array(vec![JsonValue::Null, JsonValue::Null]))]))]),
        obj(vec![("result", obj(vec![]))]),
    ];
    assert_eq!(
        agent_capability_response_text("  Plan ready. ", &results, 1),
        "Plan ready.\n\nAutomatically completed 2 read-only checks; found 2 managed local B-roll matches. Prepared 1 durable creative action for review; no job has started yet."
    );
    let one = vec![obj(vec![("result", obj(vec![("localMatches", JsonValue::Array(vec![JsonValue::Null]))]))])];
    assert_eq!(
        agent_capability_response_text("Done", &one, 0),
        "Done\n\nAutomatically completed 1 read-only check; found 1 managed local B-roll match."
    );
    assert_eq!(agent_capability_response_text("  Plan ready. ", &vec![], 0), "  Plan ready. ");
    assert_eq!(
        agent_capability_response_text("x", &vec![], 3),
        "x\n\nPrepared 3 durable creative actions for review; no job has started yet."
    );
}
