use openchatcut_daemon::codex::{
    check_generated_image_file, check_generated_image_location, check_plan_not_mixed,
    check_plan_summary, check_planning_visual, check_planning_visual_count,
    check_planning_visual_file, check_planning_visual_raster, encoded_member_is_blank,
    normalize_operations, partial_summary_from_structured_output, safe_protocol_error,
    sanitize_stderr, plan_event, CodexPlanEvent, CodexPlanningVisual, ImageSession, PlannerSession,
    ProtocolStep,
};
use openchatcut_daemon::json::{JsonNumber, JsonValue};

fn s(v: &str) -> JsonValue {
    JsonValue::Str(v.to_string())
}

fn obj(entries: Vec<(&str, JsonValue)>) -> JsonValue {
    JsonValue::Object(entries.into_iter().map(|(k, v)| (k.to_string(), v)).collect())
}

fn num(n: u64) -> JsonValue {
    JsonValue::Number(JsonNumber::PosInt(n))
}

#[test]
fn streams_only_the_summary_from_partial_structured_output() {
    assert_eq!(
        partial_summary_from_structured_output(r#"{"summary":"Tighten the \"intro\""#).as_deref(),
        Some("Tighten the \"intro\"")
    );
    assert_eq!(
        partial_summary_from_structured_output(
            r#"{"summary":"Done","operationsJson":"[{\\"type\\":"#
        )
        .as_deref(),
        Some("Done")
    );
}

#[test]
fn partial_summary_cuts_at_an_undecodable_escape() {
    assert_eq!(
        partial_summary_from_structured_output(r#"{"summary": "Trim \u00"#).as_deref(),
        Some("Trim ")
    );
    assert_eq!(partial_summary_from_structured_output(r#"{"operations":[]"#), None);
    assert_eq!(partial_summary_from_structured_output(r#"{"summary" 3"#), None);
}

#[test]
fn protocol_errors_are_bounded() {
    let long = "x".repeat(600);
    assert_eq!(safe_protocol_error(&obj(vec![("message", s(&long))])).len(), 500);
    assert_eq!(safe_protocol_error(&obj(vec![])), "unknown Codex error");
}

#[test]
fn stderr_is_cut_to_eight_short_lines() {
    let text = (0..10).map(|i| format!("line{i}")).collect::<Vec<_>>().join("\n");
    assert_eq!(
        sanitize_stderr(&text),
        "line0 | line1 | line2 | line3 | line4 | line5 | line6 | line7"
    );
    assert_eq!(sanitize_stderr("a\r\nb\n"), "a | b");
    assert_eq!(sanitize_stderr(""), "");
    let wide = "y".repeat(400);
    assert_eq!(sanitize_stderr(&wide).len(), 300);
}

#[test]
fn plan_checks() {
    assert!(check_plan_summary("Rename", 1).is_ok());
    assert_eq!(
        check_plan_summary("   ", 0),
        Err("Agent edit-plan summary is empty or too long")
    );
    assert_eq!(
        check_plan_summary("ok", 1001),
        Err("Agent edit plan contains too many operations")
    );
    assert!(check_plan_not_mixed(1, 0, false).is_ok());
    assert!(check_plan_not_mixed(0, 3, true).is_ok());
    assert!(check_plan_not_mixed(1, 1, false).is_err());
    assert!(check_plan_not_mixed(2, 0, true).is_err());
    assert!(encoded_member_is_blank("  \n"));
    assert!(!encoded_member_is_blank("[]"));
}

#[test]
fn externally_tagged_operations_are_flattened() {
    let ops = JsonValue::Array(vec![
        obj(vec![("setProjectName", obj(vec![("name", s("New name"))]))]),
        obj(vec![("type", s("removeAsset")), ("assetId", s("a"))]),
    ]);
    let out = normalize_operations(ops).unwrap();
    match out {
        JsonValue::Array(items) => {
            assert_eq!(items[0].get_str("type"), Some("setProjectName"));
            assert_eq!(items[0].get_str("name"), Some("New name"));
            assert_eq!(items[1].get_str("type"), Some("removeAsset"));
        }
        _ => panic!("an array stays an array"),
    }
    assert!(normalize_operations(obj(vec![])).is_err());
}

#[test]
fn planning_visual_checks() {
    let visual = CodexPlanningVisual {
        asset_id: "asset:1".to_string(),
        role: "thumbnail",
        path: "/work/cwd/thumb.png".to_string(),
    };
    assert!(check_planning_visual(&visual, "/work/cwd", "/real/cwd").is_ok());
    let outside = CodexPlanningVisual {
        path: "/work/cwd/../etc/passwd".to_string(),
        ..visual.clone()
    };
    assert_eq!(
        check_planning_visual(&outside, "/work/cwd", "/real/cwd"),
        Err("Codex planning visual path is outside the isolated directory")
    );
    let bad_role = CodexPlanningVisual {
        role: "poster",
        ..visual.clone()
    };
    assert_eq!(
        check_planning_visual(&bad_role, "/work/cwd", "/real/cwd"),
        Err("Codex planning visual metadata is invalid")
    );
    assert!(check_planning_visual_count(8).is_ok());
    assert!(check_planning_visual_count(9).is_err());
    assert!(check_planning_visual_file(false, true, 10).is_ok());
    assert!(check_planning_visual_file(true, true, 10).is_err());
    assert!(check_planning_visual_file(false, true, 0).is_err());
    assert!(check_planning_visual_raster(b"\x89PNG\r\n\x1a\n....").is_ok());
    assert!(check_planning_visual_raster(b"RIFF\0\0\0\0WEBP").is_ok());
    assert!(check_planning_visual_raster(b"GIF89a").is_err());
}

#[test]
fn generated_image_checks() {
    assert!(check_generated_image_location("/w/img.png", "/w", "/real").is_ok());
    assert_eq!(
        check_generated_image_location("img.png", "/w", "/real"),
        Err("Codex generated image path must be absolute and normalized")
    );
    assert_eq!(
        check_generated_image_location("/other/img.png", "/w", "/real"),
        Err("Codex generated image path is outside the isolated directory")
    );
    assert!(check_generated_image_file(false, true, 5, "/real/a.png", "/real").is_ok());
    assert!(check_generated_image_file(false, true, 0, "/real/a.png", "/real").is_err());
    assert!(check_generated_image_file(false, true, 5, "/elsewhere/a.png", "/real").is_err());
}

#[test]
fn planner_session_follows_the_protocol() {
    let mut session = PlannerSession::new();
    let init = obj(vec![("id", num(1)), ("result", obj(vec![]))]);
    assert!(matches!(session.step(10, &init), ProtocolStep::StartThread));
    let thread = obj(vec![
        ("id", num(2)),
        ("result", obj(vec![("thread", obj(vec![("id", s("t1"))]))])),
    ]);
    match session.step(10, &thread) {
        ProtocolStep::StartTurn(id) => assert_eq!(id, "t1"),
        other => panic!("unexpected {other:?}"),
    }
    let accepted = obj(vec![("id", num(3)), ("result", obj(vec![]))]);
    assert!(matches!(session.step(10, &accepted), ProtocolStep::TurnQueued));
    let request = obj(vec![("id", num(9)), ("method", s("exec/approve"))]);
    assert!(matches!(session.step(10, &request), ProtocolStep::Decline));
    let delta = obj(vec![
        ("method", s("item/agentMessage/delta")),
        (
            "params",
            obj(vec![("threadId", s("t1")), ("delta", s(r#"{"summary":"Cut"#))]),
        ),
    ]);
    match session.step(10, &delta) {
        ProtocolStep::Streaming(text) => assert_eq!(text, "Cut"),
        other => panic!("unexpected {other:?}"),
    }
    let done = obj(vec![
        ("method", s("turn/completed")),
        (
            "params",
            obj(vec![
                ("threadId", s("t1")),
                (
                    "turn",
                    obj(vec![
                        ("status", s("completed")),
                        (
                            "items",
                            JsonValue::Array(vec![obj(vec![
                                ("type", s("agentMessage")),
                                ("text", s("{}")),
                            ])]),
                        ),
                    ]),
                ),
            ]),
        ),
    ]);
    assert!(matches!(session.step(10, &done), ProtocolStep::Finished));
    assert_eq!(session.final_message.as_deref(), Some("{}"));
    assert!(matches!(
        session.step(9_000_000, &init),
        ProtocolStep::Fail(_)
    ));
}

#[test]
fn planner_reports_failed_turns_and_errors() {
    let mut session = PlannerSession::new();
    let failed = obj(vec![
        ("method", s("turn/completed")),
        (
            "params",
            obj(vec![(
                "turn",
                obj(vec![
                    ("status", s("failed")),
                    ("error", obj(vec![("message", s("quota"))])),
                ]),
            )]),
        ),
    ]);
    match session.step(1, &failed) {
        ProtocolStep::Fail(m) => assert_eq!(m, "Codex planning turn ended with status failed: quota"),
        other => panic!("unexpected {other:?}"),
    }
    let error = obj(vec![("error", obj(vec![("message", s("boom"))]))]);
    match session.step(1, &error) {
        ProtocolStep::Fail(m) => assert_eq!(m, "Codex app-server request failed: boom"),
        other => panic!("unexpected {other:?}"),
    }
}

#[test]
fn image_session_accepts_one_saved_image() {
    let mut session = ImageSession::new();
    let thread = obj(vec![
        ("id", num(2)),
        ("result", obj(vec![("thread", obj(vec![("id", s("t"))]))])),
    ]);
    assert!(matches!(session.step(1, &thread), ProtocolStep::StartTurn(_)));
    let item = obj(vec![
        ("method", s("item/completed")),
        (
            "params",
            obj(vec![
                ("threadId", s("t")),
                (
                    "item",
                    obj(vec![
                        ("type", s("imageGeneration")),
                        ("status", s("completed")),
                        ("savedPath", s("/w/out.png")),
                    ]),
                ),
            ]),
        ),
    ]);
    assert!(matches!(session.step(1, &item), ProtocolStep::Continue));
    assert_eq!(session.generated.as_ref().unwrap().path, "/w/out.png");
    match session.step(1, &item) {
        ProtocolStep::Fail(m) => {
            assert_eq!(m, "Codex image turn returned more than one generated image")
        }
        other => panic!("unexpected {other:?}"),
    }
    let done = obj(vec![
        ("method", s("turn/completed")),
        (
            "params",
            obj(vec![("threadId", s("t")), ("turn", obj(vec![("status", s("completed"))]))]),
        ),
    ]);
    assert!(matches!(session.step(1, &done), ProtocolStep::Finished));
}

#[test]
fn complete_summary_ignores_what_follows() {
    let output = r#"{"summary":"Cut the \"intro\"","operations":[{"type":"#;
    assert_eq!(partial_summary_from_structured_output(output).as_deref(), Some("Cut the \"intro\""));
    let cut = r#"{"summary":"Cut the \"in"#;
    assert_eq!(partial_summary_from_structured_output(cut).as_deref(), Some("Cut the \"in"));
}

#[test]
fn planning_steps_report_their_progress() {
    assert!(matches!(plan_event(&ProtocolStep::StartThread), Some(CodexPlanEvent::InitializeCompleted)));
    assert!(matches!(
        plan_event(&ProtocolStep::StartTurn("t1".to_string())),
        Some(CodexPlanEvent::ThreadStarted { thread_id }) if thread_id == "t1"
    ));
    assert!(matches!(plan_event(&ProtocolStep::TurnQueued), Some(CodexPlanEvent::TurnQueued)));
    assert!(matches!(
        plan_event(&ProtocolStep::Streaming("Cut".to_string())),
        Some(CodexPlanEvent::MessageStreaming { text }) if text == "Cut"
    ));
    assert!(plan_event(&ProtocolStep::Decline).is_none());
    assert!(plan_event(&ProtocolStep::Finished).is_none());
}
