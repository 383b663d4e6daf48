use openchatcut_daemon::image_jobs::{
    after_commit_failure, candidate_relative_path, check_candidate_file,
    check_candidate_location, check_checkpoint_matches, check_job_input, checkpoint_relative_path,
    classify_candidate, derivatives_idempotency_key, ensure_not_cancelled as image_not_cancelled,
    existing_asset_decision, generated_asset_id, generated_asset_name, generated_checkpoint_of,
    generation_failure, job_directory, job_disposition, materialize_idempotency_key,
    materialize_transaction_id, removes_job_directory, CodexImageJobInput, CodexImageRunError,
    JobDisposition,
};
use openchatcut_daemon::jobs::{
    accept_existing_export, allow_overwrite, ensure_not_cancelled, native_export_for,
    native_failure, native_job_kinds, native_outcome, output_file_name, pinned_target,
    progress_label, verify_package_asset_snapshot, verify_pinned_document,
    verify_planned_content, NativeExport, NativeOutcome,
};
use openchatcut_daemon::json::{json_equal, JsonNumber, JsonValue};

fn s(v: &str) -> JsonValue {
    JsonValue::Str(v.to_string())
}

fn obj(entries: Vec<(&str, JsonValue)>) -> JsonValue {
    JsonValue::Object(entries.into_iter().map(|(k, v)| (k.to_string(), v)).collect())
}

fn input(provider: &str, kind: &str, model: Option<&str>) -> CodexImageJobInput {
    CodexImageJobInput {
        provider: provider.to_string(),
        kind: kind.to_string(),
        model: model.map(str::to_string),
        prompt: "a hero shot".to_string(),
        seed: None,
        placement: None,
        options: Vec::new(),
    }
}

#[test]
fn image_job_inputs() {
    assert!(check_job_input(&input("codex-image", "image", None)).is_ok());
    assert!(check_job_input(&input("codex-image", "image", Some("gpt-image-2"))).is_ok());
    assert_eq!(check_job_input(&input("other", "image", None)).unwrap_err().code, "CODEX_IMAGE_INVALID_JOB");
    assert_eq!(
        check_job_input(&input("codex-image", "image", Some("dall-e"))).unwrap_err().code,
        "CODEX_IMAGE_MODEL_UNSUPPORTED"
    );
    assert!(image_not_cancelled(true).unwrap_err().cancelled);
}

#[test]
fn image_errors_record_code_message_and_retryability() {
    let e = CodexImageRunError::new("CODEX_IMAGE_IO_FAILED", "disk", true);
    let j = e.json();
    assert_eq!(j.get_str("code"), Some("CODEX_IMAGE_IO_FAILED"));
    assert_eq!(j.get_str("message"), Some("disk"));
    assert_eq!(j.get_bool("retryable"), Some(true));
    let c = CodexImageRunError::cancelled();
    assert!(c.cancelled && !c.retryable);
    assert!(generation_failure(true, "x").cancelled);
    let g = generation_failure(false, "tool broke");
    assert_eq!((g.code.as_str(), g.message.as_str(), g.retryable), ("CODEX_IMAGE_GENERATION_FAILED", "tool broke", true));
}

#[test]
fn job_directories_are_hashed_names() {
    let d = job_directory("/data/tmp", "job:1");
    assert!(d.starts_with("/data/tmp/codex-image-jobs/"));
    assert_eq!(d.len(), "/data/tmp/codex-image-jobs/".len() + 32);
    assert_eq!(d, job_directory("/data/tmp", "job:1"));
    assert_ne!(d, job_directory("/data/tmp", "job:2"));
}

#[test]
fn checkpoints() {
    let checkpoint = obj(vec![
        ("phase", s("generated")),
        ("relativePath", s("out/image.png")),
        ("sha256", s("ab")),
        ("byteSize", JsonValue::Number(JsonNumber::PosInt(3))),
        ("mimeType", s("image/png")),
    ]);
    let output = obj(vec![("checkpoint", checkpoint)]);
    let c = generated_checkpoint_of(Some(&output)).unwrap();
    assert_eq!(checkpoint_relative_path(c).unwrap(), "out/image.png");
    assert!(check_checkpoint_matches(c, "ab", 3, "image/png").is_ok());
    assert_eq!(check_checkpoint_matches(c, "ab", 4, "image/png").unwrap_err().code, "CODEX_IMAGE_RESUME_TAMPERED");
    let unsafe_path = obj(vec![("relativePath", s("../x.png"))]);
    assert_eq!(checkpoint_relative_path(&unsafe_path).unwrap_err().message, "Codex image checkpoint contains an unsafe path");
    let absolute = obj(vec![("relativePath", s("/x.png"))]);
    assert!(checkpoint_relative_path(&absolute).is_err());
    let missing = checkpoint_relative_path(&obj(vec![])).unwrap_err();
    assert_eq!(missing.message, "Codex image checkpoint has no relativePath");
    let other_phase = obj(vec![("checkpoint", obj(vec![("phase", s("started"))]))]);
    assert!(generated_checkpoint_of(Some(&other_phase)).is_none());
}

#[test]
fn candidates() {
    assert!(check_candidate_location("/j/d/a.png", "/j/d").is_ok());
    assert!(check_candidate_location("/j/dd/a.png", "/j/d").is_err());
    assert!(check_candidate_file(false, true).is_ok());
    assert_eq!(check_candidate_file(true, true).unwrap_err().code, "CODEX_IMAGE_PATH_REJECTED");
    assert_eq!(candidate_relative_path("/j/d/sub/a.png", "/j/d").unwrap(), "sub/a.png");
    assert!(candidate_relative_path("/k/a.png", "/j/d").is_err());
    assert_eq!(classify_candidate("a.png", b"\x89PNG\r\n\x1a\n").unwrap(), "image/png");
    assert_eq!(classify_candidate("a.mp3", b"ID3\x04").unwrap_err().code, "CODEX_IMAGE_MEDIA_REJECTED");
}

#[test]
fn materialization_names() {
    assert_eq!(generated_asset_id("job:1"), "asset:generated:job:1");
    assert_eq!(generated_asset_name("image/jpeg"), "Codex generated image.jpg");
    assert_eq!(generated_asset_name("image/png"), "Codex generated image.png");
    assert_eq!(materialize_transaction_id("job:1"), "tx:job:job:1:generated-asset");
    assert_eq!(materialize_idempotency_key("job:1"), "job:job:1:materialize-generation");
    assert_eq!(derivatives_idempotency_key("job:1"), "codex-image-derivatives:job:1");
    let mine = obj(vec![("jobId", s("job:1"))]);
    assert!(existing_asset_decision(Some(&mine), "job:1").is_ok());
    assert_eq!(existing_asset_decision(Some(&mine), "job:2").unwrap_err().code, "CODEX_IMAGE_ASSET_CONFLICT");
    assert!(existing_asset_decision(None, "job:1").is_err());
    assert!(after_commit_failure("revisionConflict", "m", 1).is_none());
    assert_eq!(after_commit_failure("revisionConflict", "m", 4).unwrap().code, "CODEX_IMAGE_REVISION_CONFLICT");
    assert_eq!(after_commit_failure("boom", "m", 1).unwrap().code, "CODEX_IMAGE_MATERIALIZATION_FAILED");
}

#[test]
fn run_dispositions() {
    let ok: Result<JsonValue, CodexImageRunError> = Ok(JsonValue::Null);
    assert_eq!(job_disposition(&ok, true), JobDisposition::Complete);
    let cancelled: Result<JsonValue, CodexImageRunError> = Err(CodexImageRunError::cancelled());
    assert_eq!(job_disposition(&cancelled, true), JobDisposition::Requeue);
    assert_eq!(job_disposition(&cancelled, false), JobDisposition::MarkCancelled);
    let failed: Result<JsonValue, CodexImageRunError> = Err(CodexImageRunError::new("X", "y", false));
    assert_eq!(job_disposition(&failed, true), JobDisposition::Fail);
    assert!(!removes_job_directory(JobDisposition::Requeue));
    assert!(removes_job_directory(JobDisposition::Fail));
}

#[test]
fn native_jobs() {
    assert_eq!(native_job_kinds(), vec!["subtitle_export", "nle_xml_export", "project_package_export"]);
    assert_eq!(progress_label("nle_xml_export"), "Rendering editable NLE handoff from pinned revision");
    assert_eq!(progress_label("other"), "Running daemon-native export");
    assert_eq!(native_failure("m").get_str("code"), Some("NATIVE_EXPORT_FAILED"));
    assert_eq!(native_outcome(true, true), NativeOutcome::Complete);
    assert_eq!(native_outcome(false, true), NativeOutcome::Cancelled);
    assert_eq!(native_outcome(false, false), NativeOutcome::Failed);
    assert!(ensure_not_cancelled(true).is_err());
    assert_eq!(pinned_target(Some("p"), Some(3)).unwrap(), ("p".to_string(), 3));
    assert_eq!(pinned_target(Some("p"), None).unwrap_err(), "native job has no pinned revision");
    assert_eq!(native_export_for("nle_xml_export").unwrap(), NativeExport::Nle);
    assert_eq!(native_export_for("x").unwrap_err(), "unsupported daemon-native job kind x");
}

#[test]
fn native_exports_match_their_plan() {
    let input = obj(vec![
        ("documentHash", s("h1")),
        ("assetHashes", JsonValue::Array(vec![obj(vec![("assetId", s("a")), ("contentHash", JsonValue::Null)])])),
        ("contentSha256", s("ba7816bf8f01cfea414140de5dae2223b00361a396177a9cb410ff61f20015ad")),
        ("contentBytes", JsonValue::Number(JsonNumber::PosInt(3))),
        ("outputFileName", s("subs.srt")),
        ("allowOverwrite", JsonValue::Bool(true)),
    ]);
    assert!(verify_pinned_document(&input, &s("h1")).is_ok());
    assert!(verify_pinned_document(&input, &s("h2")).is_err());
    let snapshot = JsonValue::Array(vec![obj(vec![("assetId", s("a")), ("contentHash", JsonValue::Null)])]);
    assert!(verify_package_asset_snapshot(&input, &snapshot).is_ok());
    assert!(verify_package_asset_snapshot(&input, &JsonValue::Array(vec![])).is_err());
    assert!(verify_planned_content(&input, b"abc").is_ok());
    assert!(verify_planned_content(&input, b"abd").is_err());
    assert_eq!(output_file_name(&input).unwrap(), "subs.srt");
    assert!(allow_overwrite(&input));
    assert!(!allow_overwrite(&obj(vec![])));
    assert!(accept_existing_export(false, Some("h"), "h"));
    assert!(!accept_existing_export(true, Some("h"), "h"));
    assert!(!accept_existing_export(false, None, "h"));
    assert!(json_equal(&snapshot, &snapshot));
}
