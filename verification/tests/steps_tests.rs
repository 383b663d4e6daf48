use openchatcut_daemon::conversation::{reject_privileged_agent_operations, OperationKind};
use openchatcut_daemon::image_jobs::{
    image_job_step, materialize_decision, CodexImageJobInput, CodexImageRunError, ImageJobAction,
    ImageJobEvent, ImageJobPhase, MaterializeAction, MaterializeEvent,
};
use openchatcut_daemon::json::{JsonNumber, JsonValue};
use openchatcut_daemon::media::AssetKind;
use openchatcut_daemon::requests::UploadManagedMediaQuery;
use openchatcut_daemon::tools::{check_agent_plan_request, check_tool_call, Tool};
use openchatcut_daemon::uploads::{
    after_upload_preflight, plan_managed_upload, upload_duration, upload_has_audio, UploadStep,
};

fn s(v: &str) -> JsonValue {
    JsonValue::Str(v.to_string())
}

fn obj(entries: Vec<(&str, JsonValue)>) -> JsonValue {
    JsonValue::Object(entries.into_iter().map(|(k, v)| (k.to_string(), v)).collect())
}

fn job_input(placement: bool) -> CodexImageJobInput {
    CodexImageJobInput {
        provider: "codex-image".to_string(),
        kind: "image".to_string(),
        model: None,
        prompt: "a hero shot".to_string(),
        seed: None,
        placement: if placement { Some(obj(vec![])) } else { None },
        options: Vec::new(),
    }
}

fn done() -> ImageJobEvent {
    ImageJobEvent::StepDone { cancel_requested: false }
}

#[test]
fn image_job_runs_through_its_phases() {
    let input = job_input(true);
    let (p, a) = image_job_step(&input, true, ImageJobPhase::Start, ImageJobEvent::Begin { checkpoint_generated: false, cancel_requested: false });
    assert!(matches!((p, a), (ImageJobPhase::Resetting, ImageJobAction::ResetDirectory)));
    let (p, a) = image_job_step(&input, true, p, done());
    assert!(matches!(a, ImageJobAction::MarkRunning));
    let (p, a) = image_job_step(&input, true, p, done());
    assert!(matches!(a, ImageJobAction::Generate));
    let (p, a) = image_job_step(&input, true, p, done());
    assert!(matches!(a, ImageJobAction::InspectCandidate));
    let (p, a) = image_job_step(&input, true, p, done());
    assert!(matches!(a, ImageJobAction::SaveCheckpoint));
    let (p, a) = image_job_step(&input, true, p, done());
    assert!(matches!(a, ImageJobAction::InstallContent));
    let (p, a) = image_job_step(&input, true, p, done());
    assert!(matches!(a, ImageJobAction::Materialize));
    let (p, a) = image_job_step(&input, true, p, done());
    assert!(matches!(a, ImageJobAction::PlaceAsset));
    let (p, a) = image_job_step(&input, true, p, done());
    assert!(matches!(a, ImageJobAction::QueueDerivatives));
    let (p, a) = image_job_step(&input, true, p, ImageJobEvent::StepFailed(CodexImageRunError::new("X", "y", false)));
    assert!(matches!((p, a), (ImageJobPhase::Finished, ImageJobAction::Finish)));
}

#[test]
fn image_job_resumes_fails_and_cleans_up() {
    let input = job_input(false);
    let (p, a) = image_job_step(&input, false, ImageJobPhase::Start, ImageJobEvent::Begin { checkpoint_generated: true, cancel_requested: false });
    assert!(matches!((p, a), (ImageJobPhase::LoadingCheckpoint, ImageJobAction::LoadCheckpoint)));
    let (_, a) = image_job_step(&input, false, p, ImageJobEvent::StepDone { cancel_requested: true });
    assert!(matches!(a, ImageJobAction::Fail(e) if e.cancelled && e.code == "CODEX_IMAGE_CANCELLED"));
    let (_, a) = image_job_step(&input, false, ImageJobPhase::Materializing, done());
    assert!(matches!(a, ImageJobAction::Finish));
    let (_, a) = image_job_step(
        &input,
        false,
        ImageJobPhase::Materializing,
        ImageJobEvent::MaterializeFailed { error: CodexImageRunError::new("CODEX_IMAGE_ASSET_CONFLICT", "m", false), content_created: true },
    );
    assert!(matches!(a, ImageJobAction::RemoveContentThenFail(e) if e.code == "CODEX_IMAGE_ASSET_CONFLICT"));
    let (_, a) = image_job_step(&input, false, ImageJobPhase::Generating, ImageJobEvent::GenerationFailed { cancel_requested: false, message: "boom".to_string() });
    assert!(matches!(a, ImageJobAction::Fail(e) if e.code == "CODEX_IMAGE_GENERATION_FAILED" && e.message == "boom" && e.retryable));
    let mut bad = job_input(false);
    bad.model = Some("other".to_string());
    let (p, a) = image_job_step(&bad, false, ImageJobPhase::Start, ImageJobEvent::Begin { checkpoint_generated: false, cancel_requested: false });
    assert!(matches!((p, a), (ImageJobPhase::Failed, ImageJobAction::Fail(e)) if e.code == "CODEX_IMAGE_MODEL_UNSUPPORTED"));
    let (p, a) = image_job_step(&input, false, ImageJobPhase::Finished, done());
    assert!(matches!((p, a), (ImageJobPhase::Finished, ImageJobAction::Ignore)));
}

#[test]
fn materializing_retries_on_revision_conflicts() {
    let (n, a) = materialize_decision("j1", 1, MaterializeEvent::ProjectRead { existing: None, revision: 7 });
    assert!(matches!((n, a), (1, MaterializeAction::Commit { base_revision: 7 })));
    let mine = Some(Some(obj(vec![("jobId", s("j1"))])));
    assert!(matches!(materialize_decision("j1", 2, MaterializeEvent::ProjectRead { existing: mine, revision: 9 }).1, MaterializeAction::ReuseExisting { revision: 9 }));
    let theirs = Some(None);
    assert!(matches!(
        materialize_decision("j1", 1, MaterializeEvent::ProjectRead { existing: theirs, revision: 9 }).1,
        MaterializeAction::Fail(e) if e.code == "CODEX_IMAGE_ASSET_CONFLICT"
    ));
    assert!(matches!(
        materialize_decision("j1", 1, MaterializeEvent::Committed { replayed: false, revision: Some(8) }).1,
        MaterializeAction::Finish { revision: 8, replayed: false, publish: true }
    ));
    let conflict = || MaterializeEvent::CommitFailed { code: "revisionConflict".to_string(), message: "m".to_string() };
    assert!(matches!(materialize_decision("j1", 3, conflict()), (4, MaterializeAction::ReadProject)));
    assert!(matches!(materialize_decision("j1", 4, conflict()).1, MaterializeAction::Fail(e) if e.code == "CODEX_IMAGE_REVISION_CONFLICT" && e.retryable));
    let other = MaterializeEvent::CommitFailed { code: "io".to_string(), message: "disk".to_string() };
    assert!(matches!(materialize_decision("j1", 1, other).1, MaterializeAction::Fail(e) if e.code == "CODEX_IMAGE_MATERIALIZATION_FAILED" && e.message == "disk"));
}

fn query() -> UploadManagedMediaQuery {
    UploadManagedMediaQuery {
        asset_id: "asset:1".to_string(),
        name: "clip.mp4".to_string(),
        duration_ticks: None,
        width: None,
        height: None,
        has_audio: Some(true),
        last_modified: None,
    }
}

#[test]
fn uploads_are_checked_before_the_body() {
    let p = plan_managed_upload(Some("4"), Some("key-1"), Some("100"), &query()).unwrap();
    assert_eq!((p.expected_revision, p.idempotency_key.as_str(), p.name.as_str()), (4, "key-1", "clip.mp4"));
    assert_eq!(plan_managed_upload(None, Some("k"), None, &query()).unwrap_err().code, "missing_expected_revision");
    assert_eq!(plan_managed_upload(Some("4"), Some("  "), None, &query()).unwrap_err().code, "missing_idempotency_key");
    let e = plan_managed_upload(Some("4"), Some("k"), Some("2147483649"), &query()).unwrap_err();
    assert_eq!((e.status, e.code.as_str()), (413, "media_too_large"));
    assert_eq!(upload_duration(&query()), None);
    assert_eq!(upload_duration(&UploadManagedMediaQuery { duration_ticks: Some(0), ..query() }), None);
    assert_eq!(upload_duration(&UploadManagedMediaQuery { duration_ticks: Some(90), ..query() }), Some(90));
    assert!(upload_has_audio(AssetKind::Video, &query()));
    assert!(upload_has_audio(AssetKind::Audio, &UploadManagedMediaQuery { has_audio: None, ..query() }));
    assert!(matches!(after_upload_preflight(Some(None), 4, 9, JsonValue::Null), UploadStep::Replay { revision: 4 }));
    assert!(matches!(after_upload_preflight(None, 4, 4, JsonValue::Null), UploadStep::InstallAndCommit));
    match after_upload_preflight(None, 4, 5, s("h")) {
        UploadStep::Refuse(e) => {
            assert_eq!((e.status, e.code.as_str()), (409, "revisionConflict"));
            assert!(matches!(e.details, Some(JsonValue::Object(d)) if d.len() == 3 && d[1].0 == "currentRevision"));
        }
        other => panic!("unexpected {other:?}"),
    }
}

#[test]
fn tool_calls_are_checked_in_order() {
    let wire = obj(vec![
        ("idempotencyKey", s("k1")),
        ("arguments", obj(vec![("projectId", s("p1")), ("expectedRevision", JsonValue::Number(JsonNumber::PosInt(3))), ("kind", s("image"))])),
    ]);
    let a = check_tool_call(Tool::GenerateAsset, &wire).unwrap();
    assert_eq!(a.idempotency_key.as_deref(), Some("k1"));
    assert_eq!(a.expected_revision, Some(3));
    assert_eq!(a.texts, vec!["p1".to_string(), "image".to_string()]);
    let e = check_tool_call(Tool::ImportRemoteMedia, &wire).unwrap_err();
    assert_eq!((e.status, e.code.as_str()), (428, "confirmation_required"));
    assert_eq!(e.message, "remote media import contacts an external host and requires confirm=true");
    let e = check_tool_call(Tool::StartExport, &wire).unwrap_err();
    assert_eq!((e.code.as_str(), e.message.as_str()), ("missing_field", "format is required"));
    let no_key = obj(vec![("projectId", s("p1"))]);
    assert_eq!(check_tool_call(Tool::ApplyScriptEdit, &no_key).unwrap_err().code, "missing_idempotency_key");
    let read = check_tool_call(Tool::ReadProject, &no_key).unwrap();
    assert_eq!((read.idempotency_key, read.texts), (None, vec!["p1".to_string()]));
    assert!(check_tool_call(Tool::GetStatus, &obj(vec![])).is_ok());
}

#[test]
fn privileged_operations_are_refused() {
    assert!(reject_privileged_agent_operations(&vec![OperationKind::Other, OperationKind::Other]).is_ok());
    let e = reject_privileged_agent_operations(&vec![OperationKind::Other, OperationKind::UpsertAsset]).unwrap_err();
    assert_eq!((e.status, e.code.as_str()), (403, "privileged_operation_forbidden"));
}

#[test]
fn agent_plan_requests_are_checked() {
    let ok = check_agent_plan_request(&obj(vec![("projectId", s("p1")), ("instruction", s("cut the intro"))])).unwrap();
    assert_eq!((ok.project_id.as_str(), ok.instruction.as_str(), ok.provider.as_str()), ("p1", "cut the intro", "codex"));
    let code = |v: JsonValue| check_agent_plan_request(&v).unwrap_err().code;
    assert_eq!(code(obj(vec![("instruction", s("x"))])), "missing_field");
    assert_eq!(code(obj(vec![("projectId", s("p1")), ("instruction", s("x")), ("provider", s("acme"))])), "unsupported_agent_provider");
    assert_eq!(code(obj(vec![("projectId", s("p1")), ("instruction", s("   "))])), "invalid_agent_instruction");
    assert_eq!(code(obj(vec![("projectId", s("p1")), ("instruction", s("a\0b"))])), "invalid_agent_instruction");
    let e = check_agent_plan_request(&obj(vec![("projectId", s("p1")), ("instruction", s("x")), ("provider", s("ollama"))])).unwrap_err();
    assert_eq!((e.status, e.code.as_str()), (428, "external_agent_confirmation_required"));
    let ok = check_agent_plan_request(&obj(vec![
        ("projectId", s("p1")),
        ("instruction", s("x")),
        ("provider", s("ollama")),
        ("confirmExternal", JsonValue::Bool(true)),
    ]))
    .unwrap();
    assert_eq!(ok.provider, "ollama");
}
