use openchatcut_daemon::json::{JsonNumber, JsonValue};
use openchatcut_daemon::requests::{
    authorize_artifact_download, check_artifact_file, declared_length_too_large,
    default_limit, default_media_gc_age_hours, export_artifact_mime_type, export_dimensions,
    import_content_error, local_agent_reply, media_too_large_error, optional_agent_history_binding,
    parse_u64, portable_export_output_file_name, require_nonempty_ids,
    required_expected_revision, required_idempotency_header, required_revision_header,
    required_string, required_tool_idempotency_key, resolve_idempotency_key, route_not_found,
    safe_upload_name, search_index_text, search_tokens, stable_import_suffix, stable_tool_suffix,
    tool_success, transcription_upload_file_name, validate_agent_history_binding,
    validate_agent_provider_id, validate_derivative_kind, validate_uploaded_dimensions,
    CreateAgentSessionRequest, CreateProjectRequest, HealthResponse, HistoryNavigationRequest,
    MediaGcRequest, UploadManagedMediaQuery, CAPABILITIES_REPLY, GREETING_REPLY,
    MOTION_GRAPHICS_REPLY,
};
use openchatcut_daemon::media::AssetKind;

fn s(v: &str) -> JsonValue {
    JsonValue::Str(v.to_string())
}

fn obj(entries: Vec<(&str, JsonValue)>) -> JsonValue {
    JsonValue::Object(entries.into_iter().map(|(k, v)| (k.to_string(), v)).collect())
}

fn upload_query() -> UploadManagedMediaQuery {
    UploadManagedMediaQuery {
        asset_id: "asset:1".to_string(),
        name: "clip.mp4".to_string(),
        duration_ticks: None,
        width: None,
        height: None,
        has_audio: None,
        last_modified: None,
    }
}

#[test]
fn defaults() {
    assert_eq!(default_media_gc_age_hours(), 24);
    assert_eq!(default_limit(), 100);
    assert_eq!(HealthResponse::ok().status, "ok");
    assert_eq!(route_not_found().status, 404);
}

#[test]
fn gc_requests_are_bounded() {
    let mut request = MediaGcRequest::preview();
    assert!(request.check_minimum_age().is_ok());
    assert_eq!(request.minimum_age_seconds(), 86_400);
    request.min_age_hours = 0;
    assert_eq!(
        request.check_minimum_age().unwrap_err().code,
        "invalid_gc_minimum_age"
    );
    request.min_age_hours = 8761;
    assert!(request.check_minimum_age().is_err());
    request.min_age_hours = 8760;
    request.confirm = true;
    assert!(request.check_no_active_jobs(&Vec::new()).is_ok());
    let refused = request.check_no_active_jobs(&vec!["job:1".to_string()]).unwrap_err();
    assert_eq!((refused.status, refused.code.as_str()), (409, "asset_gc_jobs_active"));
    request.confirm = false;
    assert!(request.check_no_active_jobs(&vec!["job:1".to_string()]).is_ok());
}

#[test]
fn project_names_are_trimmed_and_bounded() {
    let request = CreateProjectRequest {
        name: "  My cut  ".to_string(),
        project_id: None,
        idempotency_key: None,
    };
    assert_eq!(request.checked_name().unwrap(), "My cut");
    let blank = CreateProjectRequest { name: "   ".to_string(), project_id: None, idempotency_key: None };
    assert_eq!(blank.checked_name().unwrap_err().code, "invalid_project_name");
    let long = CreateProjectRequest { name: "é".repeat(201), project_id: None, idempotency_key: None };
    assert!(long.checked_name().is_err());
    let exact = CreateProjectRequest { name: "é".repeat(200), project_id: None, idempotency_key: None };
    assert!(exact.checked_name().is_ok());
}

#[test]
fn idempotency_keys_come_from_header_or_body() {
    assert_eq!(resolve_idempotency_key(Some("a"), None, "m").unwrap(), "a");
    assert_eq!(resolve_idempotency_key(None, Some("b"), "m").unwrap(), "b");
    assert_eq!(resolve_idempotency_key(Some("a"), Some("a"), "m").unwrap(), "a");
    assert_eq!(
        resolve_idempotency_key(Some("a"), Some("b"), "m").unwrap_err().code,
        "idempotency_key_mismatch"
    );
    let missing = resolve_idempotency_key(None, None, "project creation requires an Idempotency-Key header").unwrap_err();
    assert_eq!(missing.code, "missing_idempotency_key");
    assert_eq!(missing.message, "project creation requires an Idempotency-Key header");
}

#[test]
fn upload_names_keep_the_final_component() {
    assert_eq!(safe_upload_name("dir/sub/ clip.mp4 ").unwrap(), "clip.mp4");
    let control = safe_upload_name("bad\u{7}.mp4").unwrap_err();
    assert_eq!(control.code, "invalid_media_name");
    assert_eq!(control.message, "uploaded media name must not contain control characters");
    let empty = safe_upload_name("dir/..").unwrap_err();
    assert_eq!(empty.message, "uploaded media name must contain 1 to 255 Unicode characters");
    assert!(safe_upload_name(&"a".repeat(256)).is_err());
    assert!(safe_upload_name(&"a".repeat(255)).is_ok());
}

#[test]
fn upload_metadata_bounds() {
    assert!(validate_uploaded_dimensions(&upload_query()).is_ok());
    let mut q = upload_query();
    q.width = Some(32_768);
    q.height = Some(1);
    q.duration_ticks = Some(5);
    assert!(validate_uploaded_dimensions(&q).is_ok());
    q.width = Some(32_769);
    assert_eq!(validate_uploaded_dimensions(&q).unwrap_err().code, "invalid_media_metadata");
    let mut q = upload_query();
    q.duration_ticks = Some(0);
    assert!(validate_uploaded_dimensions(&q).is_err());
}

#[test]
fn headers_and_lengths() {
    assert_eq!(parse_u64("42"), Some(42));
    assert_eq!(parse_u64("+7"), Some(7));
    assert_eq!(parse_u64("18446744073709551615"), Some(u64::MAX));
    assert_eq!(parse_u64("18446744073709551616"), None);
    assert_eq!(parse_u64("-1"), None);
    assert_eq!(parse_u64(""), None);
    assert_eq!(parse_u64("+"), None);
    assert_eq!(parse_u64("1 2"), None);
    assert!(declared_length_too_large(Some("2147483649")));
    assert!(!declared_length_too_large(Some("2147483648")));
    assert!(!declared_length_too_large(Some("lots")));
    assert_eq!(required_revision_header(Some("12")).unwrap(), 12);
    assert_eq!(required_revision_header(None).unwrap_err().code, "missing_expected_revision");
    assert_eq!(required_idempotency_header(Some(" k ")).unwrap(), " k ");
    assert_eq!(required_idempotency_header(Some("  ")).unwrap_err().code, "missing_idempotency_key");
    let too_large = media_too_large_error();
    assert_eq!((too_large.status, too_large.code.as_str()), (413, "media_too_large"));
}

#[test]
fn import_errors_are_mapped() {
    assert_eq!(import_content_error("import source is 9 bytes, exceeding the 1 byte limit").status, 413);
    let changed = import_content_error("the source changed mid-read");
    assert_eq!((changed.status, changed.code.as_str()), (409, "import_source_changed"));
    let other = import_content_error("disk on fire");
    assert_eq!((other.status, other.message.as_str()), (500, "disk on fire"));
}

#[test]
fn agent_providers_and_history_bindings() {
    assert!(validate_agent_provider_id("ollama").is_ok());
    assert_eq!(validate_agent_provider_id("other").unwrap_err().code, "unsupported_agent_provider");
    let default = CreateAgentSessionRequest { provider: None };
    assert_eq!(default.checked_provider().unwrap(), "codex");
    assert_eq!(validate_agent_history_binding(None, None, false, false).unwrap(), None);
    assert_eq!(
        validate_agent_history_binding(Some("s"), None, true, false).unwrap_err().code,
        "incomplete_agent_history_binding"
    );
    assert_eq!(
        validate_agent_history_binding(Some("s"), Some(""), true, true).unwrap_err().code,
        "invalid_agent_history_binding"
    );
    assert_eq!(
        validate_agent_history_binding(Some("s"), Some("m"), true, true).unwrap(),
        Some(("s".to_string(), "m".to_string()))
    );
    let nav = HistoryNavigationRequest {
        expected_revision: 3,
        idempotency_key: "k".to_string(),
        agent_session_id: Some("s".to_string()),
        agent_message_id: None,
    };
    assert!(nav.history_binding().is_err());
    let input = obj(vec![("agentSessionId", s("s")), ("agentMessageId", JsonValue::Null)]);
    assert_eq!(
        optional_agent_history_binding(&input).unwrap_err().code,
        "invalid_agent_history_binding"
    );
}

#[test]
fn tool_arguments() {
    let input = obj(vec![
        ("idempotencyKey", s("key")),
        ("expectedRevision", JsonValue::Number(JsonNumber::PosInt(4))),
    ]);
    assert_eq!(required_tool_idempotency_key(&input).unwrap(), "key");
    assert_eq!(required_expected_revision(&input).unwrap(), 4);
    let empty = obj(vec![("idempotencyKey", s(""))]);
    assert_eq!(required_tool_idempotency_key(&empty).unwrap_err().code, "invalid_idempotency_key");
    assert_eq!(required_tool_idempotency_key(&obj(vec![])).unwrap_err().code, "missing_idempotency_key");
    assert_eq!(required_expected_revision(&obj(vec![])).unwrap_err().code, "missing_expected_revision");
    let missing = required_string(&obj(vec![]), "outputPath").unwrap_err();
    assert_eq!(missing.message, "outputPath is required");
    assert_eq!(require_nonempty_ids(Vec::<u8>::new(), "clipIds").unwrap_err().message, "clipIds must not be empty");
    assert_eq!(require_nonempty_ids(vec![1u8], "clipIds").unwrap(), vec![1u8]);
    let wrapped = tool_success(s("x"));
    assert_eq!(wrapped.get_bool("ok"), Some(true));
    assert_eq!(wrapped.get_str("data"), Some("x"));
}

#[test]
fn export_names_and_types() {
    assert_eq!(export_artifact_mime_type("cut.MP4"), "video/mp4");
    assert_eq!(export_artifact_mime_type("subs.vtt"), "text/plain; charset=utf-8");
    assert_eq!(export_artifact_mime_type("p.occproj"), "application/vnd.openchatcut.project+zip");
    assert_eq!(export_artifact_mime_type("noext"), "application/octet-stream");
    let ok = obj(vec![("outputPath", s("final.MP4"))]);
    assert_eq!(portable_export_output_file_name(&ok, "mp4", "Mp4").unwrap(), "final.MP4");
    let nested = obj(vec![("outputPath", s("a/final.mp4"))]);
    assert_eq!(
        portable_export_output_file_name(&nested, "mp4", "Mp4").unwrap_err().code,
        "invalid_export_output_path"
    );
    let wrong = obj(vec![("outputPath", s("final.mov"))]);
    let e = portable_export_output_file_name(&wrong, "mp4", "Mp4").unwrap_err();
    assert_eq!(e.code, "export_extension_mismatch");
    assert_eq!(e.message, "Mp4 exports must use the .mp4 extension");
}

#[test]
fn export_dimensions_need_both_sides() {
    assert_eq!(export_dimensions(None).unwrap(), None);
    let both = obj(vec![(
        "resolution",
        obj(vec![
            ("width", JsonValue::Number(JsonNumber::PosInt(1920))),
            ("height", JsonValue::Number(JsonNumber::PosInt(1080))),
        ]),
    )]);
    assert_eq!(export_dimensions(Some(&both)).unwrap(), Some((1920, 1080)));
    let one = obj(vec![("width", JsonValue::Number(JsonNumber::PosInt(10)))]);
    assert_eq!(export_dimensions(Some(&one)).unwrap_err().code, "invalid_export_dimensions");
    let huge = obj(vec![
        ("width", JsonValue::Number(JsonNumber::PosInt(1 << 40))),
        ("height", JsonValue::Number(JsonNumber::PosInt(1))),
    ]);
    assert!(export_dimensions(Some(&huge)).is_err());
}

#[test]
fn artifact_downloads_are_authorized() {
    let input = obj(vec![("outputFileName", s("cut.mp4"))]);
    let output = obj(vec![
        ("verified", JsonValue::Bool(true)),
        ("outputPath", s("/data/exports/cut.mp4")),
    ]);
    let d = authorize_artifact_download("job:1", "succeeded", "export", Some(&output), &input, "/data/exports").unwrap();
    assert_eq!(d.path, "/data/exports/cut.mp4");
    assert_eq!(d.mime_type, "video/mp4");
    assert_eq!(d.content_disposition, "attachment; filename=\"cut.mp4\"");
    let running = authorize_artifact_download("job:1", "running", "export", Some(&output), &input, "/data/exports").unwrap_err();
    assert_eq!((running.status, running.code.as_str()), (409, "job_artifact_not_ready"));
    let import = authorize_artifact_download("job:1", "succeeded", "import", Some(&output), &input, "/data/exports").unwrap_err();
    assert_eq!(import.code, "job_has_no_downloadable_artifact");
    let unverified = obj(vec![("outputPath", s("/data/exports/cut.mp4"))]);
    assert_eq!(
        authorize_artifact_download("job:1", "succeeded", "export", Some(&unverified), &input, "/data/exports").unwrap_err().code,
        "job_artifact_not_verified"
    );
    let moved = obj(vec![("verified", JsonValue::Bool(true)), ("outputPath", s("/tmp/cut.mp4"))]);
    assert_eq!(
        authorize_artifact_download("job:1", "succeeded", "export", Some(&moved), &input, "/data/exports").unwrap_err().code,
        "job_artifact_path_mismatch"
    );
    let sneaky = obj(vec![("outputFileName", s("../cut.mp4"))]);
    assert_eq!(
        authorize_artifact_download("job:1", "succeeded", "export", Some(&output), &sneaky, "/data/exports").unwrap_err().status,
        500
    );
    let odd = obj(vec![("outputFileName", s("my cut é.mp4"))]);
    let odd_out = obj(vec![("verified", JsonValue::Bool(true)), ("outputPath", s("/e/my cut é.mp4"))]);
    let d = authorize_artifact_download("j", "succeeded", "subtitle_export", Some(&odd_out), &odd, "/e").unwrap();
    assert_eq!(d.content_disposition, "attachment; filename=\"my_cut__.mp4\"");
    assert!(check_artifact_file("j", true, false).is_ok());
    assert_eq!(check_artifact_file("j", true, true).unwrap_err().code, "job_artifact_invalid");
    assert!(validate_derivative_kind("contactSheet").is_ok());
    assert_eq!(validate_derivative_kind("poster").unwrap_err().code, "invalid_derivative_kind");
}

#[test]
fn transcription_file_names() {
    assert_eq!(transcription_upload_file_name(Some("audio/x-m4a"), "x.wav", AssetKind::Audio), "source.m4a");
    assert_eq!(transcription_upload_file_name(None, "Talk.FLAC", AssetKind::Audio), "source.flac");
    assert_eq!(transcription_upload_file_name(Some("text/plain"), "x.txt", AssetKind::Video), "source.mp4");
    assert_eq!(transcription_upload_file_name(None, "x", AssetKind::Audio), "source.wav");
}

#[test]
fn canned_agent_replies() {
    assert_eq!(local_agent_reply("  Hello "), Some(GREETING_REPLY));
    assert_eq!(local_agent_reply("你好"), Some(GREETING_REPLY));
    assert_eq!(local_agent_reply("So, what can you do?"), Some(CAPABILITIES_REPLY));
    assert_eq!(local_agent_reply("你能做什么"), Some(CAPABILITIES_REPLY));
    assert_eq!(local_agent_reply("Like ChatCut"), Some(MOTION_GRAPHICS_REPLY));
    assert_eq!(local_agent_reply("做一个 HTML 特效"), Some(MOTION_GRAPHICS_REPLY));
    assert_eq!(local_agent_reply("cut the intro"), None);
}

#[test]
fn search_text_is_normalized() {
    assert_eq!(search_index_text("  Big-City  Night!! "), "big city night");
    assert_eq!(search_index_text("ÄRGER über"), "ärger über");
    let tokens = search_tokens("city, City night");
    assert_eq!(tokens.len(), 2);
}

#[test]
fn stable_suffixes_are_hex_prefixes() {
    let a = stable_import_suffix("p", "k");
    assert_eq!(a.len(), 32);
    assert!(a.chars().all(|c| c.is_ascii_hexdigit()));
    assert_ne!(a, stable_import_suffix("pk", ""));
    assert_eq!(a, stable_import_suffix("p", "k"));
    let t = stable_tool_suffix("p", "k", "ns");
    assert_eq!(t.len(), 32);
    assert_ne!(t, stable_tool_suffix("p", "k", "other"));
}
