use openchatcut_daemon::agent::AssetFacts;
use openchatcut_daemon::broll::{BrollAsset, BrollProvenance, BrollRecommendation};
use openchatcut_daemon::conversation::{ActorKind, OperationKind, TransactionBinding};
use openchatcut_daemon::dispatch::{tool_step, ProposalFacts, ProposalPurpose, ToolAction, ToolEvent, ToolState};
use openchatcut_daemon::error::ApiError;
use openchatcut_daemon::json::{JsonNumber, JsonValue};
use openchatcut_daemon::media::AssetKind;
use openchatcut_daemon::tools::Tool;

fn s(v: &str) -> JsonValue {
    JsonValue::Str(v.to_string())
}

fn n(v: u64) -> JsonValue {
    JsonValue::Number(JsonNumber::PosInt(v))
}

fn obj(entries: Vec<(&str, JsonValue)>) -> JsonValue {
    JsonValue::Object(entries.into_iter().map(|(k, v)| (k.to_string(), v)).collect())
}

fn call(arguments: Vec<(&str, JsonValue)>, key: Option<&str>) -> JsonValue {
    let mut entries = vec![("arguments", obj(arguments))];
    if let Some(k) = key {
        entries.push(("idempotencyKey", s(k)));
    }
    obj(entries)
}

fn refusal(action: &ToolAction) -> (u16, String, String) {
    match action {
        ToolAction::Refuse(e) => (e.status, e.code.clone(), e.message.clone()),
        _ => panic!("expected a refusal"),
    }
}

fn image(id: &str, name: &str) -> BrollAsset {
    BrollAsset {
        id: id.to_string(),
        name: name.to_string(),
        kind: AssetKind::Image,
        content_hash: Some(format!("{:064}", 7)),
        provenance: BrollProvenance::Imported { source_name: None },
        web_capture: None,
    }
}

#[test]
fn unknown_tool_is_not_implemented() {
    let (next, action) = tool_step("fly", &call(vec![], None), &ToolState::Start, None);
    assert_eq!(next, ToolState::Done);
    let (status, code, _) = refusal(&action);
    assert_eq!(status, 501);
    assert_eq!(code, "capability_not_implemented");
}

#[test]
fn status_tool_goes_straight_to_its_work() {
    let (next, action) = tool_step("status", &call(vec![], None), &ToolState::Start, None);
    assert_eq!(next, ToolState::Running { tool: Tool::GetStatus });
    assert!(matches!(action, ToolAction::Perform(Tool::GetStatus)));
    let (next, action) = tool_step("status", &call(vec![], None), &next, Some(ToolEvent::Finished(s("ok"))));
    assert_eq!(next, ToolState::Done);
    assert!(matches!(action, ToolAction::Respond(JsonValue::Str(ref t)) if t == "ok"));
}

#[test]
fn missing_project_id_is_refused_first() {
    let (next, action) = tool_step("read_project", &call(vec![], None), &ToolState::Start, None);
    assert_eq!(next, ToolState::Done);
    assert_eq!(refusal(&action), (400, "missing_field".to_string(), "projectId is required".to_string()));
}

#[test]
fn remote_import_needs_confirmation_then_the_expected_revision() {
    let unconfirmed = call(vec![("projectId", s("p1")), ("url", s("https://example.com/a.png"))], Some("k1"));
    let (_, action) = tool_step("import_remote_media", &unconfirmed, &ToolState::Start, None);
    let (status, code, _) = refusal(&action);
    assert_eq!((status, code.as_str()), (428, "confirmation_required"));

    let wire = call(
        vec![
            ("confirm", JsonValue::Bool(true)),
            ("expectedRevision", n(4)),
            ("projectId", s("p1")),
            ("url", s("https://example.com/a.png")),
        ],
        Some("k1"),
    );
    let (next, action) = tool_step("import_remote_media", &wire, &ToolState::Start, None);
    assert_eq!(next, ToolState::AwaitingRevision { tool: Tool::ImportRemoteMedia, expected: 4 });
    assert!(matches!(action, ToolAction::ReadProject));

    let moved = ToolEvent::Project { revision: 5, document_hash: "h5".to_string() };
    let (done, action) = tool_step("import_remote_media", &wire, &next, Some(moved));
    assert_eq!(done, ToolState::Done);
    match action {
        ToolAction::Refuse(ApiError { status, code, message, details: Some(JsonValue::Object(d)) }) => {
            assert_eq!(status, 409);
            assert_eq!(code, "revisionConflict");
            assert_eq!(message, "the project changed before remote media import started");
            assert_eq!(d.len(), 3);
            assert!(matches!(d[0].1, JsonValue::Number(JsonNumber::PosInt(4))));
            assert!(matches!(d[1].1, JsonValue::Number(JsonNumber::PosInt(5))));
            assert!(matches!(d[2].1, JsonValue::Str(ref h) if h == "h5"));
        },
        _ => panic!("expected a revision conflict"),
    }

    let current = ToolEvent::Project { revision: 4, document_hash: "h4".to_string() };
    let (next, action) = tool_step("import_remote_media", &wire, &next, Some(current));
    assert_eq!(next, ToolState::Running { tool: Tool::ImportRemoteMedia });
    assert!(matches!(action, ToolAction::Perform(Tool::ImportRemoteMedia)));
}

#[test]
fn applying_a_timeline_edit_refuses_privileged_operations() {
    let no_proposal = call(
        vec![("expectedRevision", n(2)), ("projectId", s("p1")), ("confirm", JsonValue::Bool(true))],
        Some("k2"),
    );
    let (_, action) = tool_step("apply", &no_proposal, &ToolState::Start, None);
    assert_eq!(refusal(&action), (400, "missing_field".to_string(), "proposalId is required".to_string()));

    let wire = call(
        vec![
            ("expectedRevision", n(2)),
            ("projectId", s("p1")),
            ("confirm", JsonValue::Bool(true)),
            ("proposalId", s("prop-1")),
        ],
        Some("k2"),
    );
    let (next, action) = tool_step("apply", &wire, &ToolState::Start, None);
    assert_eq!(next, ToolState::AwaitingProposal { tool: Tool::ApplyTimelineEdit });
    assert!(matches!(action, ToolAction::ReadProposal));

    let (_, action) = tool_step("apply", &wire, &next, Some(ToolEvent::Proposal(None)));
    assert_eq!(
        refusal(&action).2,
        "the validated proposal is unavailable or expired; plan the edit again"
    );
    let workflow = ProposalFacts { purpose: ProposalPurpose::AgentWorkflow, project_id: "p1".to_string(), base_revision: 2 };
    let (_, action) = tool_step("apply", &wire, &next, Some(ToolEvent::Proposal(Some(workflow))));
    assert_eq!(
        refusal(&action).2,
        "proposal project, purpose, or base revision does not match this request"
    );
    let own = ProposalFacts { purpose: ProposalPurpose::Timeline, project_id: "p1".to_string(), base_revision: 2 };
    let (next, action) = tool_step("apply", &wire, &next, Some(ToolEvent::Proposal(Some(own))));
    assert_eq!(next, ToolState::AwaitingOperations { tool: Tool::ApplyTimelineEdit });
    assert!(matches!(action, ToolAction::BuildOperations));

    let ops = ToolEvent::Operations { transaction: None, kinds: vec![OperationKind::Other, OperationKind::ReplaceSceneGraph] };
    let (done, action) = tool_step("apply", &wire, &next, Some(ops));
    assert_eq!(done, ToolState::Done);
    let (status, code, _) = refusal(&action);
    assert_eq!((status, code.as_str()), (403, "privileged_operation_forbidden"));

    let ops = ToolEvent::Operations { transaction: None, kinds: vec![OperationKind::Other] };
    let (next, action) = tool_step("apply", &wire, &next, Some(ops));
    assert_eq!(next, ToolState::Running { tool: Tool::ApplyTimelineEdit });
    assert!(matches!(action, ToolAction::Perform(Tool::ApplyTimelineEdit)));
}

#[test]
fn applying_without_confirmation_is_precondition_required() {
    let wire = call(vec![("expectedRevision", n(2)), ("projectId", s("p1"))], Some("k2"));
    let (_, action) = tool_step("apply_timeline_edit", &wire, &ToolState::Start, None);
    assert_eq!(
        refusal(&action),
        (428, "confirmation_required".to_string(), "applying an agent proposal requires confirm=true".to_string())
    );
}

#[test]
fn workflow_calls_cannot_be_supplied_at_apply_time() {
    let wire = call(
        vec![
            ("expectedRevision", n(2)),
            ("projectId", s("p1")),
            ("proposalId", s("prop-1")),
            ("calls", JsonValue::Array(vec![])),
            ("confirm", JsonValue::Bool(true)),
        ],
        Some("k3"),
    );
    let (_, action) = tool_step("apply_agent_workflow", &wire, &ToolState::Start, None);
    let (status, code, _) = refusal(&action);
    assert_eq!((status, code.as_str()), (409, "proposal_payload_mismatch"));
}

#[test]
fn half_a_history_binding_is_refused() {
    let wire = call(
        vec![
            ("expectedRevision", n(2)),
            ("projectId", s("p1")),
            ("agentSessionId", s("s1")),
            ("confirm", JsonValue::Bool(true)),
        ],
        Some("k2"),
    );
    let (_, action) = tool_step("apply", &wire, &ToolState::Start, None);
    let (status, code, _) = refusal(&action);
    assert_eq!((status, code.as_str()), (400, "incomplete_agent_history_binding"));
}

#[test]
fn script_dry_run_goes_through_the_revision_gate() {
    let wire = call(
        vec![("expectedRevision", n(7)), ("projectId", s("p1")), ("dryRun", JsonValue::Bool(true))],
        Some("k4"),
    );
    let (next, action) = tool_step("apply_script_edit", &wire, &ToolState::Start, None);
    assert_eq!(next, ToolState::AwaitingRevision { tool: Tool::ApplyScriptEdit, expected: 7 });
    assert!(matches!(action, ToolAction::ReadProject));
    let (next, action) = tool_step(
        "apply_script_edit",
        &wire,
        &next,
        Some(ToolEvent::Project { revision: 7, document_hash: "h".to_string() }),
    );
    assert_eq!(next, ToolState::AwaitingOperations { tool: Tool::ApplyScriptEdit });
    assert!(matches!(action, ToolAction::BuildOperations));

    let apply = call(vec![("expectedRevision", n(7)), ("projectId", s("p1")), ("confirm", JsonValue::Bool(true))], Some("k4"));
    let (_, action) = tool_step("apply_script_edit", &apply, &ToolState::Start, None);
    assert_eq!(refusal(&action), (400, "missing_field".to_string(), "proposalId is required".to_string()));
}

#[test]
fn broll_search_recommends_generating_when_nothing_matches() {
    let wire = call(vec![("projectId", s("p1")), ("query", s("sunset beach"))], None);
    let (next, action) = tool_step("search_broll", &wire, &ToolState::Start, None);
    assert_eq!(next, ToolState::AwaitingAssets);
    assert!(matches!(action, ToolAction::ReadAssets));

    let none = ToolEvent::Assets { revision: 3, assets: vec![image("a1", "city skyline")] };
    let (done, action) = tool_step("search_broll", &wire, &next, Some(none));
    assert_eq!(done, ToolState::Done);
    match action {
        ToolAction::AnswerBroll(a) => {
            assert_eq!(a.revision, 3);
            assert!(a.matches.is_empty());
            assert_eq!(a.recommendation, BrollRecommendation::Generate);
        },
        _ => panic!("expected an answer"),
    }

    let some = ToolEvent::Assets { revision: 3, assets: vec![image("a2", "sunset beach waves")] };
    let (_, action) = tool_step("search_broll", &wire, &next, Some(some));
    match action {
        ToolAction::AnswerBroll(a) => {
            assert_eq!(a.matches.len(), 1);
            assert_eq!(a.matches[0].asset_id, "a2");
            assert_eq!(a.recommendation, BrollRecommendation::UseLocal);
        },
        _ => panic!("expected an answer"),
    }
}

#[test]
fn broll_limit_is_checked_before_the_project_is_read() {
    let wire = call(vec![("projectId", s("p1")), ("query", s("beach")), ("limit", n(51))], None);
    let (_, action) = tool_step("search_broll", &wire, &ToolState::Start, None);
    assert_eq!(
        refusal(&action),
        (400, "invalid_broll_limit".to_string(), "limit must be between 1 and 50".to_string())
    );
}

#[test]
fn outside_failure_and_stray_events_end_the_call() {
    let wire = call(vec![], None);
    let failed = ToolEvent::Failed(ApiError {
        status: 404,
        code: "project_not_found".to_string(),
        message: "no such project".to_string(),
        details: None,
    });
    let (next, action) = tool_step("status", &wire, &ToolState::Running { tool: Tool::GetStatus }, Some(failed));
    assert_eq!(next, ToolState::Done);
    assert_eq!(refusal(&action).1, "project_not_found");

    let (next, action) = tool_step("status", &wire, &ToolState::Done, Some(ToolEvent::Finished(JsonValue::Null)));
    assert_eq!(next, ToolState::Done);
    assert_eq!(refusal(&action), (500, "internal_error".to_string(), "the tool call received an event out of order".to_string()));
}

#[test]
fn agent_plan_with_an_external_provider_needs_confirmation() {
    let wire = call(
        vec![("projectId", s("p1")), ("instruction", s("tighten the intro")), ("provider", s("ollama"))],
        None,
    );
    let (next, action) = tool_step("agent_plan", &wire, &ToolState::Start, None);
    assert_eq!(next, ToolState::Done);
    let (status, code, _) = refusal(&action);
    assert_eq!((status, code.as_str()), (428, "external_agent_confirmation_required"));

    let codex = call(vec![("projectId", s("p1")), ("instruction", s("tighten the intro"))], None);
    let (next, action) = tool_step("agent_plan", &codex, &ToolState::Start, None);
    assert_eq!(next, ToolState::Running { tool: Tool::AgentPlan });
    assert!(matches!(action, ToolAction::Perform(Tool::AgentPlan)));
}

#[test]
fn agent_plan_bound_to_a_session_checks_it_belongs_to_the_project() {
    let wire = call(
        vec![
            ("projectId", s("p1")),
            ("instruction", s("tighten the intro")),
            ("sessionId", s("s1")),
            ("userMessageId", s("u1")),
            ("assistantMessageId", s("a1")),
            ("expectedRevision", n(9)),
        ],
        None,
    );
    let (next, action) = tool_step("agent_plan", &wire, &ToolState::Start, None);
    assert_eq!(next, ToolState::AwaitingSession);
    assert!(matches!(action, ToolAction::ReadSession));

    let other = ToolEvent::Session { project_id: "p2".to_string() };
    let (done, action) = tool_step("agent_plan", &wire, &next, Some(other));
    assert_eq!(done, ToolState::Done);
    let (status, code, _) = refusal(&action);
    assert_eq!((status, code.as_str()), (409, "agent_session_project_mismatch"));

    let same = ToolEvent::Session { project_id: "p1".to_string() };
    let (next, action) = tool_step("agent_plan", &wire, &next, Some(same));
    assert_eq!(next, ToolState::AwaitingRevision { tool: Tool::AgentPlan, expected: 9 });
    assert!(matches!(action, ToolAction::ReadProject));

    let moved = ToolEvent::Project { revision: 10, document_hash: "h".to_string() };
    let (_, action) = tool_step("agent_plan", &wire, &next, Some(moved));
    assert_eq!(refusal(&action).2, "the project changed before Codex planning started");
}

#[test]
fn agent_plan_session_needs_both_message_ids() {
    let wire = call(
        vec![("projectId", s("p1")), ("instruction", s("cut")), ("sessionId", s("s1")), ("userMessageId", s("u1"))],
        None,
    );
    let (_, action) = tool_step("agent_plan", &wire, &ToolState::Start, None);
    assert_eq!(refusal(&action), (400, "missing_field".to_string(), "assistantMessageId is required".to_string()));

    let long = "x".repeat(201);
    let wire = call(
        vec![
            ("projectId", s("p1")),
            ("instruction", s("cut")),
            ("sessionId", s("s1")),
            ("userMessageId", s(&long)),
            ("assistantMessageId", s("a1")),
        ],
        None,
    );
    let (_, action) = tool_step("agent_plan", &wire, &ToolState::Start, None);
    assert_eq!(
        refusal(&action),
        (
            400,
            "invalid_agent_session_identifier".to_string(),
            "userMessageId must contain 1 to 200 printable characters".to_string()
        )
    );
}

fn workflow_call() -> JsonValue {
    call(
        vec![
            ("expectedRevision", n(3)),
            ("projectId", s("p1")),
            ("proposalId", s("prop-9")),
            ("confirm", JsonValue::Bool(true)),
        ],
        Some("k5"),
    )
}

#[test]
fn a_workflow_applies_only_its_own_live_proposal() {
    let wire = workflow_call();
    let (next, action) = tool_step("apply_agent_workflow", &wire, &ToolState::Start, None);
    assert_eq!(next, ToolState::AwaitingProposal { tool: Tool::ApplyAgentWorkflow });
    assert!(matches!(action, ToolAction::ReadProposal));

    let (_, action) = tool_step("apply_agent_workflow", &wire, &next, Some(ToolEvent::Proposal(None)));
    assert_eq!(
        refusal(&action),
        (
            410,
            "proposal_expired_or_unknown".to_string(),
            "the Agent workflow proposal is unavailable or expired; plan it again".to_string()
        )
    );

    let stale = ProposalFacts { purpose: ProposalPurpose::AgentWorkflow, project_id: "p1".to_string(), base_revision: 2 };
    let (_, action) = tool_step("apply_agent_workflow", &wire, &next, Some(ToolEvent::Proposal(Some(stale))));
    match action {
        ToolAction::Refuse(ApiError { status, code, details: Some(JsonValue::Object(d)), .. }) => {
            assert_eq!((status, code.as_str()), (409, "proposal_binding_mismatch"));
            assert_eq!(d.len(), 3);
            assert!(matches!(&d[0].1, JsonValue::Str(p) if p == "prop-9"));
        },
        _ => panic!("expected a binding mismatch"),
    }

    let script = ProposalFacts { purpose: ProposalPurpose::Script, project_id: "p1".to_string(), base_revision: 3 };
    let (_, action) = tool_step("apply_agent_workflow", &wire, &next, Some(ToolEvent::Proposal(Some(script))));
    assert_eq!(refusal(&action).1, "proposal_binding_mismatch");

    let own = ProposalFacts { purpose: ProposalPurpose::AgentWorkflow, project_id: "p1".to_string(), base_revision: 3 };
    let (next, action) = tool_step("apply_agent_workflow", &wire, &next, Some(ToolEvent::Proposal(Some(own))));
    assert_eq!(next, ToolState::AwaitingRevision { tool: Tool::ApplyAgentWorkflow, expected: 3 });
    assert!(matches!(action, ToolAction::ReadProject));

    let moved = ToolEvent::Project { revision: 4, document_hash: "h".to_string() };
    let (_, action) = tool_step("apply_agent_workflow", &wire, &next, Some(moved));
    assert_eq!(refusal(&action).2, "the project changed after the Agent workflow was reviewed");
}

#[test]
fn a_script_proposal_is_committed_only_when_bound_to_the_request() {
    let wire = call(
        vec![
            ("expectedRevision", n(7)),
            ("projectId", s("p1")),
            ("proposalId", s("prop-2")),
            ("confirm", JsonValue::Bool(true)),
        ],
        Some("k6"),
    );
    let (next, action) = tool_step("apply_script_edit", &wire, &ToolState::Start, None);
    assert_eq!(next, ToolState::AwaitingProposal { tool: Tool::ApplyScriptEdit });
    assert!(matches!(action, ToolAction::ReadProposal));
    let elsewhere = ProposalFacts { purpose: ProposalPurpose::Script, project_id: "p2".to_string(), base_revision: 7 };
    let (_, action) = tool_step("apply_script_edit", &wire, &next, Some(ToolEvent::Proposal(Some(elsewhere))));
    assert_eq!(
        refusal(&action).2,
        "script proposal project or base revision does not match this request"
    );
    let own = ProposalFacts { purpose: ProposalPurpose::Script, project_id: "p1".to_string(), base_revision: 7 };
    let (next, action) = tool_step("apply_script_edit", &wire, &next, Some(ToolEvent::Proposal(Some(own))));
    assert_eq!(next, ToolState::Running { tool: Tool::ApplyScriptEdit });
    assert!(matches!(action, ToolAction::Perform(Tool::ApplyScriptEdit)));
}

fn binding(kind: ActorKind, actor: &str, project: &str, revision: u64, key: &str) -> TransactionBinding {
    TransactionBinding {
        project_id: project.to_string(),
        base_revision: revision,
        idempotency_key: key.to_string(),
        actor_kind: kind,
        actor_id: Some(actor.to_string()),
    }
}

#[test]
fn a_carried_transaction_must_come_from_codex_and_match_the_call() {
    let wire = call(vec![("expectedRevision", n(2)), ("projectId", s("p1"))], Some("k7"));
    let (next, action) = tool_step("validate", &wire, &ToolState::Start, None);
    assert_eq!(next, ToolState::AwaitingOperations { tool: Tool::ValidateTimelineEdit });
    assert!(matches!(action, ToolAction::BuildOperations));

    let spoofed = ToolEvent::Operations {
        transaction: Some(binding(ActorKind::User, "codex", "p1", 2, "k7")),
        kinds: vec![OperationKind::Other],
    };
    let (done, action) = tool_step("validate", &wire, &next, Some(spoofed));
    assert_eq!(done, ToolState::Done);
    let (status, code, _) = refusal(&action);
    assert_eq!((status, code.as_str()), (403, "agent_actor_spoofing"));

    let other_project = ToolEvent::Operations {
        transaction: Some(binding(ActorKind::Agent, "codex", "p9", 2, "k7")),
        kinds: vec![OperationKind::Other],
    };
    let (_, action) = tool_step("validate", &wire, &next, Some(other_project));
    assert_eq!(refusal(&action).1, "project_id_mismatch");

    let bound = ToolEvent::Operations {
        transaction: Some(binding(ActorKind::Agent, "codex", "p1", 2, "k7")),
        kinds: vec![OperationKind::Other],
    };
    let (next, action) = tool_step("validate", &wire, &next, Some(bound));
    assert_eq!(next, ToolState::Running { tool: Tool::ValidateTimelineEdit });
    assert!(matches!(action, ToolAction::Perform(Tool::ValidateTimelineEdit)));
}

#[test]
fn audio_processing_needs_the_worker_then_checks_its_operation() {
    let wire = call(
        vec![
            ("projectId", s("p1")),
            ("expectedRevision", n(4)),
            ("assetId", s("a1")),
            ("operation", s("denoise")),
            ("options", obj(vec![("engine", s("ffmpeg"))])),
        ],
        Some("k8"),
    );
    let (next, action) = tool_step("process_audio", &wire, &ToolState::Start, None);
    assert_eq!(next, ToolState::AwaitingWorker { tool: Tool::ProcessAudio });
    assert!(matches!(action, ToolAction::CheckWorker));

    let (_, action) = tool_step("process_audio", &wire, &next, Some(ToolEvent::Worker(false)));
    assert_eq!(
        refusal(&action),
        (
            501,
            "capability_not_available".to_string(),
            "local audio processing requires OPENCHATCUT_MEDIA_WORKER and FFmpeg".to_string()
        )
    );

    let (running, action) = tool_step("process_audio", &wire, &next, Some(ToolEvent::Worker(true)));
    assert_eq!(running, ToolState::Running { tool: Tool::ProcessAudio });
    assert!(matches!(action, ToolAction::Perform(Tool::ProcessAudio)));

    let no_key = call(vec![("projectId", s("p1")), ("operation", s("loop"))], None);
    let (_, action) = tool_step("process_audio", &no_key, &next, Some(ToolEvent::Worker(true)));
    assert_eq!(refusal(&action).1, "missing_idempotency_key");

    let odd = call(
        vec![("projectId", s("p1")), ("expectedRevision", n(4)), ("assetId", s("a1")), ("operation", s("reverse"))],
        Some("k8"),
    );
    let (_, action) = tool_step("process_audio", &odd, &next, Some(ToolEvent::Worker(true)));
    assert_eq!(refusal(&action).1, "unsupported_audio_operation");
}

#[test]
fn a_transcription_picks_its_asset_and_engine_after_the_revision_gate() {
    let facts = |revision: u64, remote: bool| ToolEvent::TranscriptionFacts {
        revision,
        document_hash: "h".to_string(),
        assets: vec![
            AssetFacts { id: "img".to_string(), kind: AssetKind::Image, has_audio: false, managed: true },
            AssetFacts { id: "voice".to_string(), kind: AssetKind::Audio, has_audio: false, managed: true },
        ],
        remote_available: remote,
    };
    let wire = call(vec![("projectId", s("p1")), ("expectedRevision", n(6))], Some("k9"));
    let (next, action) = tool_step("start_transcription", &wire, &ToolState::Start, None);
    assert_eq!(next, ToolState::AwaitingWorker { tool: Tool::StartTranscription });
    assert!(matches!(action, ToolAction::CheckWorker));
    let (_, action) = tool_step("start_transcription", &wire, &next, Some(ToolEvent::Worker(false)));
    assert_eq!(refusal(&action).2, "local transcription requires OPENCHATCUT_MEDIA_WORKER");

    let no_key = call(vec![("projectId", s("p1"))], None);
    let (_, action) = tool_step("start_transcription", &no_key, &next, Some(ToolEvent::Worker(true)));
    assert_eq!(refusal(&action).2, "start_transcription requires a top-level idempotencyKey");

    let (reading, action) = tool_step("start_transcription", &wire, &next, Some(ToolEvent::Worker(true)));
    assert_eq!(reading, ToolState::AwaitingTranscriptionFacts);
    assert!(matches!(action, ToolAction::ReadTranscriptionFacts));

    let (_, action) = tool_step("start_transcription", &wire, &reading, Some(facts(7, false)));
    assert_eq!(refusal(&action).2, "the project changed before transcription was queued");

    let (running, action) = tool_step("start_transcription", &wire, &reading, Some(facts(6, true)));
    assert_eq!(running, ToolState::Running { tool: Tool::StartTranscription });
    match action {
        ToolAction::Transcribe { asset, options } => {
            assert_eq!(asset, 1);
            assert_eq!(options.engine, "new-api-asr");
        }
        _ => panic!("expected a transcription"),
    }

    let named = call(vec![("projectId", s("p1")), ("assetId", s("ghost"))], Some("k9"));
    let (_, action) = tool_step("start_transcription", &named, &reading, Some(facts(6, false)));
    assert!(matches!(action, ToolAction::NotFound { what: "asset", ref id } if id == "ghost"));
}
