//! One agent tool call as a sequence of steps. The library makes every
//! decision of the call: which tool the name calls, the argument checks and
//! confirmation gates, the media worker gate, the agent session and stored
//! proposal bindings, the revision gate, the refusal of privileged
//! operations and of transactions from other actors, the choices of audio
//! and transcription jobs, and the answer of a b-roll search. The caller does the outside work each step asks for
//! (reading the project, a session or a proposal, building an edit's
//! operations, committing, running Codex) and reports back what happened.
use vstd::prelude::*;
use crate::broll::{
    broll_limit, broll_query_fits, broll_query_valid, broll_recommendation, search_broll_answer,
    try_search_broll, BrollAsset, BrollRecommendation, BrollSearchMatch,
};
use crate::conversation::{
    codex_actor, enforce_agent_transaction_binding, privileged, reject_privileged_agent_operations, OperationKind,
    TransactionBinding,
};
use crate::error::{ApiError, STATUS_BAD_REQUEST, STATUS_CONFLICT, STATUS_FORBIDDEN, STATUS_INTERNAL};
use crate::json::{JsonNumber, JsonValue};
use crate::requests::{history_binding_spec, history_id_ok, history_id_valid, optional_agent_history_binding};
use crate::text::{any_control, chars_of, copy_string, trim};
use crate::agent::AssetFacts;
use crate::audio::{audio_plan, audio_plan_spec};
use crate::transcription::{
    transcription_asset, transcription_asset_spec, transcription_options, transcription_options_spec, AssetFailure,
    TranscriptionAssetError, TranscriptionOptions,
};
use crate::tools::{
    run_checks, ToolCheck, agent_plan_accepted, agent_plan_checked, check_agent_plan_request, check_tool_call, first_refusal,
    tool_arguments, tool_checks_spec, tool_named, tool_spec, unknown_tool_error, CheckView, Tool,
    STATUS_NOT_IMPLEMENTED, STATUS_PRECONDITION_REQUIRED,
};

verus! {

pub const STATUS_GONE: u16 = 410;

/// What a stored proposal was validated for.
#[derive(Debug, Clone, Copy, PartialEq, Eq, Structural)]
pub enum ProposalPurpose {
    Timeline,
    Script,
    AgentWorkflow,
}

/// What a stored proposal is bound to.
pub struct ProposalFacts {
    pub purpose: ProposalPurpose,
    pub project_id: String,
    pub base_revision: u64,
}

/// Where a tool call stands between two steps.
#[derive(Debug, Clone, Copy, PartialEq, Eq, Structural)]
pub enum ToolState {
    /// Nothing has happened yet.
    Start,
    /// Waiting to learn whether the media worker is configured.
    AwaitingWorker { tool: Tool },
    /// Waiting for what a transcription reads of the project.
    AwaitingTranscriptionFacts,
    /// Waiting for the agent session a planning turn is bound to.
    AwaitingSession,
    /// Waiting for the stored proposal named by `proposalId`.
    AwaitingProposal { tool: Tool },
    /// Waiting for the project's current revision, to hold against the
    /// expected one.
    AwaitingRevision { tool: Tool, expected: u64 },
    /// Waiting for the project's managed media (b-roll search).
    AwaitingAssets,
    /// Waiting for the operations the edit would commit.
    AwaitingOperations { tool: Tool },
    /// The tool's remaining outside work is running.
    Running { tool: Tool },
    /// The call has been answered.
    Done,
}

/// What the caller reports after doing the work a step asked for.
pub enum ToolEvent {
    /// Whether the media worker is configured.
    Worker(bool),
    /// What a transcription reads: the project's revision, document hash
    /// and assets, and whether a remote transcription engine is registered.
    TranscriptionFacts { revision: u64, document_hash: String, assets: Vec<AssetFacts>, remote_available: bool },
    /// The stored proposal named by `proposalId`, if it is still there.
    Proposal(Option<ProposalFacts>),
    /// The agent session as read: the project it belongs to.
    Session { project_id: String },
    /// The project as read: its revision and document hash.
    Project { revision: u64, document_hash: String },
    /// The project's revision and its managed images and videos.
    Assets { revision: u64, assets: Vec<BrollAsset> },
    /// The edit as built: the binding of the transaction the arguments
    /// carry, if they carry one, and the kinds of the operations it would
    /// commit, in order.
    Operations { transaction: Option<TransactionBinding>, kinds: Vec<OperationKind> },
    /// The outside work finished with this response.
    Finished(JsonValue),
    /// The outside work failed with this error.
    Failed(ApiError),
}

/// The answer of a b-roll search.
pub struct BrollAnswer {
    pub revision: u64,
    pub matches: Vec<BrollSearchMatch>,
    pub recommendation: BrollRecommendation,
}

/// What the caller must do next.
pub enum ToolAction {
    /// Answer the call with this error; the call is over.
    Refuse(ApiError),
    /// Report `Worker`: whether the media worker is configured.
    CheckWorker,
    /// Read the project and report `TranscriptionFacts`.
    ReadTranscriptionFacts,
    /// Answer that no `what` has this id; the call is over.
    NotFound { what: &'static str, id: String },
    /// Queue the transcription of asset `asset` (a position in the assets
    /// reported) with these settings, after checking any `sourcePath`
    /// against its stored file, and report `Finished` or `Failed`.
    Transcribe { asset: usize, options: TranscriptionOptions },
    /// Look up the stored proposal named by `proposalId` and report `Proposal`.
    ReadProposal,
    /// Read the agent session named by `sessionId` and report `Session`.
    ReadSession,
    /// Read the project named by `projectId` and report `Project`.
    ReadProject,
    /// Read the project's managed media and report `Assets`.
    ReadAssets,
    /// Build the edit's operations from the arguments and report `Operations`.
    BuildOperations,
    /// Do the tool's remaining outside work and report `Finished` or `Failed`.
    Perform(Tool),
    /// Answer the b-roll search with these matches; the call is over.
    AnswerBroll(BrollAnswer),
    /// Answer the call with this response; the call is over.
    Respond(JsonValue),
}

/// The arguments of a tool call: its `arguments` object, else the call itself.
pub open spec fn arguments_of(wire: JsonValue) -> JsonValue {
    if wire.field("arguments"@) matches Some(JsonValue::Object(_)) {
        wire.field("arguments"@).unwrap()
    } else {
        wire
    }
}

pub open spec fn refused(a: ToolAction, status: u16, code: Seq<char>, message: Seq<char>) -> bool {
    a matches ToolAction::Refuse(e) && e.status == status && e.code@ == code && e.message@ == message
}

/// The code of a malformed agent history binding, if the arguments carry one.
pub open spec fn binding_refusal(input: JsonValue) -> Option<Seq<char>> {
    match history_binding_spec(
        input.field_str("agentSessionId"@),
        input.field_str("agentMessageId"@),
        input.field("agentSessionId"@) is Some,
        input.field("agentMessageId"@) is Some,
    ) {
        Err(code) => Some(code),
        Ok(_) => None,
    }
}

/// The refusal of a b-roll query or limit, checked before the project is read.
pub open spec fn broll_query_refusal(input: JsonValue) -> Option<(u16, Seq<char>, Seq<char>)> {
    match input.field_str("query"@) {
        None => None,
        Some(q) => if !broll_query_valid(q) {
            Some((STATUS_BAD_REQUEST, "invalid_broll_query"@, "query must contain 1 to 500 printable bytes"@))
        } else if !(1 <= broll_limit(input) <= 50) {
            Some((STATUS_BAD_REQUEST, "invalid_broll_limit"@, "limit must be between 1 and 50"@))
        } else {
            None
        },
    }
}

/// The message of the confirmation an apply tool needs.
pub open spec fn apply_confirm_message(t: Tool) -> Seq<char> {
    if t == Tool::ApplyTimelineEdit {
        "applying an agent proposal requires confirm=true"@
    } else {
        "running an Agent creative workflow requires confirm=true"@
    }
}

/// A planning turn goes through the revision gate when it names the
/// revision it expects; otherwise straight to its work.
pub open spec fn plan_gate_spec(input: JsonValue, next: ToolState, action: ToolAction) -> bool {
    match input.field_u64("expectedRevision"@) {
        Some(n) => next == (ToolState::AwaitingRevision { tool: Tool::AgentPlan, expected: n })
            && action is ReadProject,
        None => next == (ToolState::Running { tool: Tool::AgentPlan }) && action == ToolAction::Perform(
            Tool::AgentPlan,
        ),
    }
}

/// An accepted planning request bound to an agent session needs both
/// message ids, and all three ids must hold 1 to 200 printable bytes; the
/// session is then read. Without a session the turn goes to its gate.
pub open spec fn plan_session_spec(input: JsonValue, next: ToolState, action: ToolAction) -> bool {
    match input.field_str("sessionId"@) {
        None => plan_gate_spec(input, next, action),
        Some(session) => match input.field_str("userMessageId"@) {
            None => next == ToolState::Done && refused(
                action,
                STATUS_BAD_REQUEST,
                "missing_field"@,
                "userMessageId is required"@,
            ),
            Some(user) => match input.field_str("assistantMessageId"@) {
                None => next == ToolState::Done && refused(
                    action,
                    STATUS_BAD_REQUEST,
                    "missing_field"@,
                    "assistantMessageId is required"@,
                ),
                Some(assistant) => if !history_id_valid(session) {
                    next == ToolState::Done && refused(
                        action,
                        STATUS_BAD_REQUEST,
                        "invalid_agent_session_identifier"@,
                        "sessionId must contain 1 to 200 printable characters"@,
                    )
                } else if !history_id_valid(user) {
                    next == ToolState::Done && refused(
                        action,
                        STATUS_BAD_REQUEST,
                        "invalid_agent_session_identifier"@,
                        "userMessageId must contain 1 to 200 printable characters"@,
                    )
                } else if !history_id_valid(assistant) {
                    next == ToolState::Done && refused(
                        action,
                        STATUS_BAD_REQUEST,
                        "invalid_agent_session_identifier"@,
                        "assistantMessageId must contain 1 to 200 printable characters"@,
                    )
                } else {
                    next == ToolState::AwaitingSession && action is ReadSession
                },
            },
        },
    }
}

/// The session of a planning turn must belong to the turn's project (409
/// `agent_session_project_mismatch`, naming both); then the turn goes to
/// its gate.
pub open spec fn session_spec(input: JsonValue, project: Seq<char>, next: ToolState, action: ToolAction) -> bool {
    if Some(project) != input.field_str("projectId"@) {
        next == ToolState::Done && refused(
            action,
            STATUS_CONFLICT,
            "agent_session_project_mismatch"@,
            "the Agent session belongs to a different project"@,
        ) && (action matches ToolAction::Refuse(e) && e.details matches Some(JsonValue::Object(d)) && d@.len()
            == 2 && d@[0].0@ == "sessionId"@ && d@[0].1.str_view() == input.field_str("sessionId"@) && d@[1].0@
            == "projectId"@ && d@[1].1.str_view() == input.field_str("projectId"@))
    } else {
        plan_gate_spec(input, next, action)
    }
}

/// The step after a known tool's argument checks passed.
pub open spec fn checked_spec(t: Tool, input: JsonValue, next: ToolState, action: ToolAction) -> bool {
    match t {
        Tool::AgentPlan => if agent_plan_accepted(input) {
            plan_session_spec(input, next, action)
        } else {
            next == ToolState::Done && (action matches ToolAction::Refuse(e) && agent_plan_checked(input, Err(e)))
        },
        Tool::SearchBroll => match broll_query_refusal(input) {
            Some(f) => next == ToolState::Done && refused(action, f.0, f.1, f.2),
            None => next == ToolState::AwaitingAssets && action is ReadAssets,
        },
        Tool::ApplyTimelineEdit | Tool::ApplyAgentWorkflow => if binding_refusal(input) is Some {
            next == ToolState::Done && (action matches ToolAction::Refuse(e) && e.status == STATUS_BAD_REQUEST
                && Some(e.code@) == binding_refusal(input))
        } else if t == Tool::ApplyAgentWorkflow && (input.field("calls"@) is Some || input.field(
            "capabilityCalls"@,
        ) is Some) {
            next == ToolState::Done && refused(
                action,
                STATUS_CONFLICT,
                "proposal_payload_mismatch"@,
                "workflow calls are server-side proposal data and cannot be supplied at apply time"@,
            ) && (action matches ToolAction::Refuse(e) && e.details matches Some(JsonValue::Object(d))
                && d@.len() == 1 && d@[0].0@ == "proposalId"@ && d@[0].1.str_view() == input.field_str(
                "proposalId"@,
            ))
        } else if input.field_bool("confirm"@) != Some(true) {
            next == ToolState::Done && refused(
                action,
                STATUS_PRECONDITION_REQUIRED,
                "confirmation_required"@,
                apply_confirm_message(t),
            )
        } else if input.field_str("proposalId"@) is None {
            next == ToolState::Done && refused(action, STATUS_BAD_REQUEST, "missing_field"@, "proposalId is required"@)
        } else {
            next == (ToolState::AwaitingProposal { tool: t }) && action is ReadProposal
        },
        Tool::ApplyScriptEdit => if input.field_bool("dryRun"@) == Some(true) {
            next == (ToolState::AwaitingRevision {
                tool: t,
                expected: input.field_u64("expectedRevision"@).unwrap(),
            }) && action is ReadProject
        } else if input.field_bool("confirm"@) != Some(true) {
            next == ToolState::Done && refused(
                action,
                STATUS_PRECONDITION_REQUIRED,
                "confirmation_required"@,
                "applying a script proposal requires confirm=true"@,
            )
        } else if input.field_str("proposalId"@) is None {
            next == ToolState::Done && refused(action, STATUS_BAD_REQUEST, "missing_field"@, "proposalId is required"@)
        } else {
            next == (ToolState::AwaitingProposal { tool: t }) && action is ReadProposal
        },
        Tool::ImportRemoteMedia => next == (ToolState::AwaitingRevision {
            tool: t,
            expected: input.field_u64("expectedRevision"@).unwrap(),
        }) && action is ReadProject,
        Tool::ValidateTimelineEdit => next == (ToolState::AwaitingOperations { tool: t })
            && action is BuildOperations,
        Tool::ProcessAudio | Tool::StartTranscription => next == (ToolState::AwaitingWorker { tool: t })
            && action is CheckWorker,
        _ => next == (ToolState::Running { tool: t }) && action == ToolAction::Perform(t),
    }
}

/// The first step: an unknown name is 501; then the tool's argument checks
/// in order (`first_refusal`); then the tool's own gates.
pub open spec fn start_spec(name: Seq<char>, wire: JsonValue, next: ToolState, action: ToolAction) -> bool {
    match tool_spec(name) {
        None => next == ToolState::Done && refused(
            action,
            STATUS_NOT_IMPLEMENTED,
            "capability_not_implemented"@,
            "this daemon build does not implement the requested capability"@,
        ),
        Some(t) => match first_refusal(tool_checks_spec(t), arguments_of(wire), wire) {
            Some(f) => next == ToolState::Done && refused(action, f.0, f.1, f.2),
            None => checked_spec(t, arguments_of(wire), next, action),
        },
    }
}

/// The details of a revision conflict: the expected and current revisions
/// and the current document hash.
pub open spec fn conflict_details(details: Option<JsonValue>, expected: u64, current: u64, hash: Seq<char>) -> bool {
    details matches Some(JsonValue::Object(d)) && d@.len() == 3 && d@[0].0@ == "expectedRevision"@ && d@[0].1
        == JsonValue::Number(JsonNumber::PosInt(expected)) && d@[1].0@ == "currentRevision"@ && d@[1].1
        == JsonValue::Number(JsonNumber::PosInt(current)) && d@[2].0@ == "currentDocumentHash"@
        && d@[2].1.str_view() == Some(hash)
}

pub open spec fn revision_message(t: Tool) -> Seq<char> {
    if t == Tool::ImportRemoteMedia {
        "the project changed before remote media import started"@
    } else if t == Tool::AgentPlan {
        "the project changed before Codex planning started"@
    } else if t == Tool::ApplyAgentWorkflow {
        "the project changed after the Agent workflow was reviewed"@
    } else {
        "the project changed before this script edit was validated"@
    }
}

/// The revision gate: a project that moved on from the expected revision is
/// a 409 `revisionConflict`; otherwise the call goes on.
pub open spec fn revision_spec(
    t: Tool,
    expected: u64,
    revision: u64,
    hash: Seq<char>,
    next: ToolState,
    action: ToolAction,
) -> bool {
    if revision != expected {
        next == ToolState::Done && refused(action, STATUS_CONFLICT, "revisionConflict"@, revision_message(t)) && (
        action matches ToolAction::Refuse(e) && conflict_details(e.details, expected, revision, hash))
    } else if t == Tool::ApplyScriptEdit {
        next == (ToolState::AwaitingOperations { tool: t }) && action is BuildOperations
    } else {
        next == (ToolState::Running { tool: t }) && action == ToolAction::Perform(t)
    }
}

/// The purpose a tool's proposal must have.
pub open spec fn proposal_purpose_of(t: Tool) -> ProposalPurpose {
    if t == Tool::ApplyAgentWorkflow {
        ProposalPurpose::AgentWorkflow
    } else if t == Tool::ApplyTimelineEdit {
        ProposalPurpose::Timeline
    } else {
        ProposalPurpose::Script
    }
}

pub open spec fn proposal_gone_message(t: Tool) -> Seq<char> {
    if t == Tool::ApplyAgentWorkflow {
        "the Agent workflow proposal is unavailable or expired; plan it again"@
    } else if t == Tool::ApplyTimelineEdit {
        "the validated proposal is unavailable or expired; plan the edit again"@
    } else {
        "the validated script proposal is unavailable; validate it again"@
    }
}

pub open spec fn proposal_mismatch_message(t: Tool) -> Seq<char> {
    if t == Tool::ApplyAgentWorkflow {
        "workflow proposal project, purpose, or base revision does not match this request"@
    } else if t == Tool::ApplyTimelineEdit {
        "proposal project, purpose, or base revision does not match this request"@
    } else {
        "script proposal project or base revision does not match this request"@
    }
}

/// A stored proposal is applied only when it is still there (else 410
/// `proposal_expired_or_unknown`) and bound to this request's purpose,
/// project and expected revision (else 409 `proposal_binding_mismatch`,
/// naming the proposal, and for agent and workflow proposals the project
/// and expected revision too). A workflow then goes through the revision
/// gate, a timeline edit builds its operations, and a script proposal goes
/// to its commit.
pub open spec fn proposal_spec(
    t: Tool,
    input: JsonValue,
    proposal: Option<ProposalFacts>,
    next: ToolState,
    action: ToolAction,
) -> bool {
    match proposal {
        None => next == ToolState::Done && refused(
            action,
            STATUS_GONE,
            "proposal_expired_or_unknown"@,
            proposal_gone_message(t),
        ),
        Some(p) => if p.purpose != proposal_purpose_of(t) || Some(p.project_id@) != input.field_str("projectId"@)
            || Some(p.base_revision) != input.field_u64("expectedRevision"@) {
            next == ToolState::Done && refused(
                action,
                STATUS_CONFLICT,
                "proposal_binding_mismatch"@,
                proposal_mismatch_message(t),
            ) && (action matches ToolAction::Refuse(e) && e.details matches Some(JsonValue::Object(d)) && d@[0].0@
                == "proposalId"@ && d@[0].1.str_view() == input.field_str("proposalId"@) && if t
                == Tool::ApplyScriptEdit {
                d@.len() == 1
            } else {
                d@.len() == 3 && d@[1].0@ == "projectId"@ && d@[1].1.str_view() == input.field_str("projectId"@)
                    && d@[2].0@ == "expectedRevision"@ && d@[2].1.u64_view() == input.field_u64(
                    "expectedRevision"@,
                )
            })
        } else if t == Tool::ApplyAgentWorkflow {
            next == (ToolState::AwaitingRevision { tool: t, expected: p.base_revision }) && action is ReadProject
        } else if t == Tool::ApplyTimelineEdit {
            next == (ToolState::AwaitingOperations { tool: t }) && action is BuildOperations
        } else {
            next == (ToolState::Running { tool: t }) && action == ToolAction::Perform(t)
        },
    }
}

/// The arguments an audio job checks once the worker is known, in order.
pub open spec fn audio_checks() -> Seq<CheckView> {
    seq![CheckView::IdempotencyKey, CheckView::Text("projectId"@), CheckView::ExpectedRevision, CheckView::Text("assetId"@)]
}

/// Audio processing needs the media worker (501 `capability_not_available`,
/// naming `audioCleanup`); then its arguments are checked in order
/// (`audio_checks`), then the operation and its named options
/// (`audio_plan_spec`); then the job's work goes on.
pub open spec fn audio_worker_spec(t: Tool, wire: JsonValue, available: bool, next: ToolState, action: ToolAction) -> bool {
    let input = arguments_of(wire);
    if !available {
        next == ToolState::Done && refused(
            action,
            STATUS_NOT_IMPLEMENTED,
            "capability_not_available"@,
            "local audio processing requires OPENCHATCUT_MEDIA_WORKER and FFmpeg"@,
        ) && (action matches ToolAction::Refuse(e) && e.details matches Some(JsonValue::Object(d)) && d@.len() == 1
            && d@[0].0@ == "capability"@ && d@[0].1.str_view() == Some("audioCleanup"@))
    } else {
        match first_refusal(audio_checks(), input, wire) {
            Some(f) => next == ToolState::Done && refused(action, f.0, f.1, f.2),
            None => match audio_plan_spec(input) {
                Err(f) => next == ToolState::Done && refused(action, f.0, f.1, f.2),
                Ok(_) => next == (ToolState::Running { tool: t }) && action == ToolAction::Perform(t),
            },
        }
    }
}

/// Transcription needs the media worker (501 `capability_not_available`,
/// naming `transcription`), a top-level idempotency key and `projectId`;
/// then the project is read.
pub open spec fn transcription_worker_spec(wire: JsonValue, available: bool, next: ToolState, action: ToolAction) -> bool {
    if !available {
        next == ToolState::Done && refused(
            action,
            STATUS_NOT_IMPLEMENTED,
            "capability_not_available"@,
            "local transcription requires OPENCHATCUT_MEDIA_WORKER"@,
        ) && (action matches ToolAction::Refuse(e) && e.details matches Some(JsonValue::Object(d)) && d@.len() == 2
            && d@[0].0@ == "capability"@ && d@[0].1.str_view() == Some("transcription"@) && d@[1].0@ == "installHint"@)
    } else if wire.field_str("idempotencyKey"@) is None {
        next == ToolState::Done && refused(
            action,
            STATUS_BAD_REQUEST,
            "missing_idempotency_key"@,
            "start_transcription requires a top-level idempotencyKey"@,
        )
    } else if arguments_of(wire).field_str("projectId"@) is None {
        next == ToolState::Done && refused(action, STATUS_BAD_REQUEST, "missing_field"@, "projectId is required"@)
    } else {
        next == ToolState::AwaitingTranscriptionFacts && action is ReadTranscriptionFacts
    }
}

/// The step once the media worker is known.
pub open spec fn worker_spec(t: Tool, wire: JsonValue, available: bool, next: ToolState, action: ToolAction) -> bool {
    if t == Tool::StartTranscription {
        transcription_worker_spec(wire, available, next, action)
    } else {
        audio_worker_spec(t, wire, available, next, action)
    }
}

/// The transcription once the project is read: the expected revision
/// (the current one when none is given) must be current (409
/// `revisionConflict`); then the asset (`transcription_asset_spec`, an
/// unknown one answered as not found) and the settings
/// (`transcription_options_spec`) are chosen, and the job is queued with
/// them.
pub open spec fn transcription_facts_spec(
    wire: JsonValue,
    revision: u64,
    hash: Seq<char>,
    assets: Seq<AssetFacts>,
    remote_available: bool,
    next: ToolState,
    action: ToolAction,
) -> bool {
    let input = arguments_of(wire);
    let expected = match input.field_u64("expectedRevision"@) {
        Some(n) => n,
        None => revision,
    };
    if expected != revision {
        next == ToolState::Done && refused(
            action,
            STATUS_CONFLICT,
            "revisionConflict"@,
            "the project changed before transcription was queued"@,
        ) && (action matches ToolAction::Refuse(e) && conflict_details(e.details, expected, revision, hash))
    } else {
        match transcription_asset_spec(assets, input.field_str("assetId"@)) {
            Err(AssetFailure::NotFound(id)) => next == ToolState::Done && (action matches ToolAction::NotFound {
                what,
                id: x,
            } && what@ == "asset"@ && x@ == id),
            Err(AssetFailure::Refused(code, _)) => next == ToolState::Done && (action matches ToolAction::Refuse(e)
                && e.status == STATUS_BAD_REQUEST && e.code@ == code),
            Ok(i) => match transcription_options_spec(input, remote_available) {
                Err(f) => next == ToolState::Done && refused(action, f.0, f.1, f.2),
                Ok(v) => next == (ToolState::Running { tool: Tool::StartTranscription }) && (
                action matches ToolAction::Transcribe { asset, options } && asset == i && options.engine@ == v.0
                    && options.diarization == v.1 && options.language@ == v.4),
            },
        }
    }
}

/// The answer of a b-roll search over the project's media: the ranked
/// matches, and `generate` exactly when nothing local matched.
pub open spec fn assets_spec(
    input: JsonValue,
    revision: u64,
    assets: Seq<BrollAsset>,
    next: ToolState,
    action: ToolAction,
) -> bool {
    next == ToolState::Done && if !broll_query_fits(input) {
        refused(action, STATUS_BAD_REQUEST, "invalid_broll_query"@, "query must contain 1 to 500 printable bytes"@)
    } else {
        match action {
            ToolAction::Refuse(e) => search_broll_answer(input, assets, Err((e.status, e.code@))),
            ToolAction::AnswerBroll(a) => a.revision == revision && search_broll_answer(
                input,
                assets,
                Ok(a.matches@.map_values(|m: BrollSearchMatch| m@)),
            ) && (a.recommendation == BrollRecommendation::Generate <==> a.matches.len() == 0),
            _ => false,
        }
    }
}

/// The refusal of a transaction the arguments carry, as status and code:
/// it must come from the agent `codex` (403 `agent_actor_spoofing`) and name
/// the call's project, expected revision and idempotency key (400).
pub open spec fn transaction_refusal(t: TransactionBinding, project: Seq<char>, expected: u64, key: Seq<char>) -> Option<
    (u16, Seq<char>),
> {
    if !codex_actor(t) {
        Some((STATUS_FORBIDDEN, "agent_actor_spoofing"@))
    } else if t.project_id@ != project {
        Some((STATUS_BAD_REQUEST, "project_id_mismatch"@))
    } else if t.base_revision != expected {
        Some((STATUS_BAD_REQUEST, "expected_revision_mismatch"@))
    } else if t.idempotency_key@ != key {
        Some((STATUS_BAD_REQUEST, "idempotency_key_mismatch"@))
    } else {
        None
    }
}

pub open spec fn str_or_empty(s: Option<Seq<char>>) -> Seq<char> {
    match s {
        Some(x) => x,
        None => Seq::empty(),
    }
}

/// The built edit: a carried transaction must be bound to the call (see
/// `transaction_refusal`), then an edit holding a privileged operation is
/// refused; otherwise it goes on.
pub open spec fn edit_spec(
    t: Tool,
    wire: JsonValue,
    transaction: Option<TransactionBinding>,
    kinds: Seq<OperationKind>,
    next: ToolState,
    action: ToolAction,
) -> bool {
    let input = arguments_of(wire);
    let refusal = match transaction {
        Some(b) => transaction_refusal(
            b,
            str_or_empty(input.field_str("projectId"@)),
            match input.field_u64("expectedRevision"@) {
                Some(n) => n,
                None => 0,
            },
            str_or_empty(wire.field_str("idempotencyKey"@)),
        ),
        None => None,
    };
    match refusal {
        Some(f) => next == ToolState::Done && (action matches ToolAction::Refuse(e) && e.status == f.0 && e.code@
            == f.1),
        None => operations_spec(t, kinds, next, action),
    }
}

/// An edit holding a privileged operation is refused; otherwise it goes on.
pub open spec fn operations_spec(t: Tool, kinds: Seq<OperationKind>, next: ToolState, action: ToolAction) -> bool {
    if exists|i: int| 0 <= i < kinds.len() && privileged(#[trigger] kinds[i]) {
        next == ToolState::Done && refused(
            action,
            STATUS_FORBIDDEN,
            "privileged_operation_forbidden"@,
            "agent tools cannot replace project structure or forge managed asset records"@,
        )
    } else {
        next == (ToolState::Running { tool: t }) && action == ToolAction::Perform(t)
    }
}

/// One step of a tool call. A failure of the outside work ends the call
/// with its error; an event that does not answer the state's question ends
/// it with a 500.
pub open spec fn tool_step_spec(
    name: Seq<char>,
    wire: JsonValue,
    state: ToolState,
    event: Option<ToolEvent>,
    next: ToolState,
    action: ToolAction,
) -> bool {
    match event {
        Some(ToolEvent::Failed(e)) => next == ToolState::Done && action == ToolAction::Refuse(e),
        _ => match (state, event) {
            (ToolState::Start, None) => start_spec(name, wire, next, action),
            (ToolState::AwaitingWorker { tool }, Some(ToolEvent::Worker(available))) => worker_spec(
                tool,
                wire,
                available,
                next,
                action,
            ),
            (
                ToolState::AwaitingTranscriptionFacts,
                Some(ToolEvent::TranscriptionFacts { revision, document_hash, assets, remote_available }),
            ) => transcription_facts_spec(wire, revision, document_hash@, assets@, remote_available, next, action),
            (ToolState::AwaitingProposal { tool }, Some(ToolEvent::Proposal(p))) => proposal_spec(
                tool,
                arguments_of(wire),
                p,
                next,
                action,
            ),
            (ToolState::AwaitingSession, Some(ToolEvent::Session { project_id })) => session_spec(
                arguments_of(wire),
                project_id@,
                next,
                action,
            ),
            (
                ToolState::AwaitingRevision { tool, expected },
                Some(ToolEvent::Project { revision, document_hash }),
            ) => revision_spec(tool, expected, revision, document_hash@, next, action),
            (ToolState::AwaitingAssets, Some(ToolEvent::Assets { revision, assets })) => assets_spec(
                arguments_of(wire),
                revision,
                assets@,
                next,
                action,
            ),
            (ToolState::AwaitingOperations { tool }, Some(ToolEvent::Operations { transaction, kinds })) => edit_spec(
                tool,
                wire,
                transaction,
                kinds@,
                next,
                action,
            ),
            (ToolState::Running { .. }, Some(ToolEvent::Finished(v))) => next == ToolState::Done && action
                == ToolAction::Respond(v),
            _ => next == ToolState::Done && refused(
                action,
                STATUS_INTERNAL,
                "internal_error"@,
                "the tool call received an event out of order"@,
            ),
        },
    }
}

fn broll_query_check(input: &JsonValue) -> (r: Option<ApiError>)
    ensures
        match broll_query_refusal(*input) {
            Some(f) => r matches Some(e) && e.status == f.0 && e.code@ == f.1 && e.message@ == f.2,
            None => r is None,
        },
{
    match input.get_str("query") {
        None => None,
        Some(query) => {
            let qc = chars_of(query);
            let t = trim(qc.as_slice());
            if t.len() == 0 || query.as_bytes().len() > 500 || any_control(qc.as_slice()) {
                return Some(
                    ApiError::bad_request("invalid_broll_query", "query must contain 1 to 500 printable bytes"),
                );
            }
            let limit: u64 = match input.get_u64("limit") {
                Some(n) => n,
                None => 12,
            };
            if limit < 1 || limit > 50 {
                return Some(ApiError::bad_request("invalid_broll_limit", "limit must be between 1 and 50"));
            }
            None
        },
    }
}

fn plan_gate_step(input: &JsonValue) -> (r: (ToolState, ToolAction))
    ensures
        plan_gate_spec(*input, r.0, r.1),
{
    match input.get_u64("expectedRevision") {
        Some(n) => (ToolState::AwaitingRevision { tool: Tool::AgentPlan, expected: n }, ToolAction::ReadProject),
        None => (ToolState::Running { tool: Tool::AgentPlan }, ToolAction::Perform(Tool::AgentPlan)),
    }
}

fn plan_session_step(input: &JsonValue) -> (r: (ToolState, ToolAction))
    ensures
        plan_session_spec(*input, r.0, r.1),
{
    let session = match input.get_str("sessionId") {
        None => return plan_gate_step(input),
        Some(s) => s,
    };
    if input.get_str("userMessageId").is_none() {
        return (
            ToolState::Done,
            ToolAction::Refuse(ApiError::bad_request("missing_field", "userMessageId is required")),
        );
    }
    let user = input.get_str("userMessageId").unwrap();
    if input.get_str("assistantMessageId").is_none() {
        return (
            ToolState::Done,
            ToolAction::Refuse(ApiError::bad_request("missing_field", "assistantMessageId is required")),
        );
    }
    let assistant = input.get_str("assistantMessageId").unwrap();
    let code = "invalid_agent_session_identifier";
    if !history_id_ok(session) {
        return (
            ToolState::Done,
            ToolAction::Refuse(ApiError::bad_request(code, "sessionId must contain 1 to 200 printable characters")),
        );
    }
    if !history_id_ok(user) {
        return (
            ToolState::Done,
            ToolAction::Refuse(
                ApiError::bad_request(code, "userMessageId must contain 1 to 200 printable characters"),
            ),
        );
    }
    if !history_id_ok(assistant) {
        return (
            ToolState::Done,
            ToolAction::Refuse(
                ApiError::bad_request(code, "assistantMessageId must contain 1 to 200 printable characters"),
            ),
        );
    }
    (ToolState::AwaitingSession, ToolAction::ReadSession)
}

fn session_step(input: &JsonValue, project_id: String) -> (r: (ToolState, ToolAction))
    ensures
        session_spec(*input, project_id@, r.0, r.1),
{
    let same = match input.get_str("projectId") {
        Some(p) => crate::text::str_eq(p, project_id.as_str()),
        None => false,
    };
    if !same {
        let session = match input.get_str("sessionId") {
            Some(s) => JsonValue::Str(copy_string(s)),
            None => JsonValue::Null,
        };
        let project = match input.get_str("projectId") {
            Some(p) => JsonValue::Str(copy_string(p)),
            None => JsonValue::Null,
        };
        let details = JsonValue::Object(vec![(copy_string("sessionId"), session), (copy_string("projectId"), project)]);
        let e = ApiError::conflict(
            "agent_session_project_mismatch",
            "the Agent session belongs to a different project",
        ).with_details(details);
        return (ToolState::Done, ToolAction::Refuse(e));
    }
    plan_gate_step(input)
}

fn audio_worker_step(t: Tool, wire_input: &JsonValue, available: bool) -> (r: (ToolState, ToolAction))
    ensures
        audio_worker_spec(t, *wire_input, available, r.0, r.1),
{
    if !available {
        let details = JsonValue::Object(vec![(copy_string("capability"), JsonValue::Str(copy_string("audioCleanup")))]);
        let e = ApiError::new(
            STATUS_NOT_IMPLEMENTED,
            "capability_not_available",
            "local audio processing requires OPENCHATCUT_MEDIA_WORKER and FFmpeg",
        ).with_details(details);
        return (ToolState::Done, ToolAction::Refuse(e));
    }
    let checks = vec![ToolCheck::IdempotencyKey, ToolCheck::Text("projectId"), ToolCheck::ExpectedRevision, ToolCheck::Text("assetId")];
    assert(checks@.map_values(|c: ToolCheck| c@) =~= audio_checks());
    match run_checks(&checks, wire_input) {
        Err(e) => return (ToolState::Done, ToolAction::Refuse(e)),
        Ok(_) => {},
    }
    let input = tool_arguments(wire_input);
    match audio_plan(input) {
        Err(e) => (ToolState::Done, ToolAction::Refuse(e)),
        Ok(_) => (ToolState::Running { tool: t }, ToolAction::Perform(t)),
    }
}

fn transcription_worker_step(wire_input: &JsonValue, available: bool) -> (r: (ToolState, ToolAction))
    ensures
        transcription_worker_spec(*wire_input, available, r.0, r.1),
{
    if !available {
        let details = JsonValue::Object(
            vec![
                (copy_string("capability"), JsonValue::Str(copy_string("transcription"))),
                (
                    copy_string("installHint"),
                    JsonValue::Str(
                        copy_string(
                            "Install services/media-worker[transcription] and set OPENCHATCUT_MEDIA_WORKER",
                        ),
                    ),
                ),
            ],
        );
        let e = ApiError::new(
            STATUS_NOT_IMPLEMENTED,
            "capability_not_available",
            "local transcription requires OPENCHATCUT_MEDIA_WORKER",
        ).with_details(details);
        return (ToolState::Done, ToolAction::Refuse(e));
    }
    if wire_input.get_str("idempotencyKey").is_none() {
        let e = ApiError::bad_request("missing_idempotency_key", "start_transcription requires a top-level idempotencyKey");
        return (ToolState::Done, ToolAction::Refuse(e));
    }
    let input = tool_arguments(wire_input);
    match crate::requests::required_string(input, "projectId") {
        Err(e) => {
            proof {
                reveal_strlit("projectId");
                reveal_strlit(" is required");
                reveal_strlit("projectId is required");
                assert("projectId"@ + " is required"@ =~= "projectId is required"@);
            }
            (ToolState::Done, ToolAction::Refuse(e))
        },
        Ok(_) => (ToolState::AwaitingTranscriptionFacts, ToolAction::ReadTranscriptionFacts),
    }
}

fn worker_step(t: Tool, wire_input: &JsonValue, available: bool) -> (r: (ToolState, ToolAction))
    ensures
        worker_spec(t, *wire_input, available, r.0, r.1),
{
    if t == Tool::StartTranscription {
        transcription_worker_step(wire_input, available)
    } else {
        audio_worker_step(t, wire_input, available)
    }
}

fn transcription_facts_step(
    wire_input: &JsonValue,
    revision: u64,
    document_hash: String,
    assets: Vec<AssetFacts>,
    remote_available: bool,
) -> (r: (ToolState, ToolAction))
    ensures
        transcription_facts_spec(*wire_input, revision, document_hash@, assets@, remote_available, r.0, r.1),
{
    let input = tool_arguments(wire_input);
    let expected = match input.get_u64("expectedRevision") {
        Some(n) => n,
        None => revision,
    };
    if expected != revision {
        let details = JsonValue::Object(
            vec![
                (copy_string("expectedRevision"), JsonValue::Number(JsonNumber::PosInt(expected))),
                (copy_string("currentRevision"), JsonValue::Number(JsonNumber::PosInt(revision))),
                (copy_string("currentDocumentHash"), JsonValue::Str(document_hash)),
            ],
        );
        let e = ApiError::conflict("revisionConflict", "the project changed before transcription was queued").with_details(
            details,
        );
        return (ToolState::Done, ToolAction::Refuse(e));
    }
    let asset = match transcription_asset(&assets, input.get_str("assetId")) {
        Err(TranscriptionAssetError::NotFound(id)) => {
            return (ToolState::Done, ToolAction::NotFound { what: "asset", id });
        },
        Err(TranscriptionAssetError::Refused(e)) => {
            return (ToolState::Done, ToolAction::Refuse(e));
        },
        Ok(i) => i,
    };
    match transcription_options(input, remote_available) {
        Err(e) => (ToolState::Done, ToolAction::Refuse(e)),
        Ok(options) => (ToolState::Running { tool: Tool::StartTranscription }, ToolAction::Transcribe { asset, options }),
    }
}

fn proposal_step(t: Tool, input: &JsonValue, proposal: Option<ProposalFacts>) -> (r: (ToolState, ToolAction))
    ensures
        proposal_spec(t, *input, proposal, r.0, r.1),
{
    let p = match proposal {
        None => {
            let message = if t == Tool::ApplyAgentWorkflow {
                "the Agent workflow proposal is unavailable or expired; plan it again"
            } else if t == Tool::ApplyTimelineEdit {
                "the validated proposal is unavailable or expired; plan the edit again"
            } else {
                "the validated script proposal is unavailable; validate it again"
            };
            return (
                ToolState::Done,
                ToolAction::Refuse(ApiError::new(STATUS_GONE, "proposal_expired_or_unknown", message)),
            );
        },
        Some(p) => p,
    };
    let purpose = if t == Tool::ApplyAgentWorkflow {
        ProposalPurpose::AgentWorkflow
    } else if t == Tool::ApplyTimelineEdit {
        ProposalPurpose::Timeline
    } else {
        ProposalPurpose::Script
    };
    let same_project = match input.get_str("projectId") {
        Some(id) => crate::text::str_eq(id, p.project_id.as_str()),
        None => false,
    };
    let same_revision = match input.get_u64("expectedRevision") {
        Some(n) => n == p.base_revision,
        None => false,
    };
    if p.purpose != purpose || !same_project || !same_revision {
        let proposal_id = match input.get_str("proposalId") {
            Some(id) => JsonValue::Str(copy_string(id)),
            None => JsonValue::Null,
        };
        let message = if t == Tool::ApplyAgentWorkflow {
            "workflow proposal project, purpose, or base revision does not match this request"
        } else if t == Tool::ApplyTimelineEdit {
            "proposal project, purpose, or base revision does not match this request"
        } else {
            "script proposal project or base revision does not match this request"
        };
        let mut entries = vec![(copy_string("proposalId"), proposal_id)];
        if t != Tool::ApplyScriptEdit {
            let project = match input.get_str("projectId") {
                Some(id) => JsonValue::Str(copy_string(id)),
                None => JsonValue::Null,
            };
            let expected = match input.get_u64("expectedRevision") {
                Some(n) => JsonValue::Number(JsonNumber::PosInt(n)),
                None => JsonValue::Null,
            };
            entries.push((copy_string("projectId"), project));
            entries.push((copy_string("expectedRevision"), expected));
        }
        let e = ApiError::conflict("proposal_binding_mismatch", message).with_details(JsonValue::Object(entries));
        return (ToolState::Done, ToolAction::Refuse(e));
    }
    if t == Tool::ApplyAgentWorkflow {
        (ToolState::AwaitingRevision { tool: t, expected: p.base_revision }, ToolAction::ReadProject)
    } else if t == Tool::ApplyTimelineEdit {
        (ToolState::AwaitingOperations { tool: t }, ToolAction::BuildOperations)
    } else {
        (ToolState::Running { tool: t }, ToolAction::Perform(t))
    }
}

fn checked_step(t: Tool, input: &JsonValue, expected: Option<u64>) -> (r: (ToolState, ToolAction))
    requires
        t == Tool::ApplyScriptEdit || t == Tool::ImportRemoteMedia ==> expected is Some
            && input.field_u64("expectedRevision"@) == expected,
    ensures
        checked_spec(t, *input, r.0, r.1),
{
    match t {
        Tool::AgentPlan => match check_agent_plan_request(input) {
            Err(e) => (ToolState::Done, ToolAction::Refuse(e)),
            Ok(_) => plan_session_step(input),
        },
        Tool::SearchBroll => match broll_query_check(input) {
            Some(e) => (ToolState::Done, ToolAction::Refuse(e)),
            None => (ToolState::AwaitingAssets, ToolAction::ReadAssets),
        },
        Tool::ApplyTimelineEdit | Tool::ApplyAgentWorkflow => {
            match optional_agent_history_binding(input) {
                Err(e) => return (ToolState::Done, ToolAction::Refuse(e)),
                Ok(_) => {},
            }
            if t == Tool::ApplyAgentWorkflow && (input.get("calls").is_some() || input.get(
                "capabilityCalls",
            ).is_some()) {
                let proposal = match input.get_str("proposalId") {
                    Some(p) => JsonValue::Str(copy_string(p)),
                    None => JsonValue::Null,
                };
                let details = JsonValue::Object(vec![(copy_string("proposalId"), proposal)]);
                let e = ApiError::conflict(
                    "proposal_payload_mismatch",
                    "workflow calls are server-side proposal data and cannot be supplied at apply time",
                ).with_details(details);
                return (ToolState::Done, ToolAction::Refuse(e));
            }
            if input.get_bool("confirm") != Some(true) {
                let message = if t == Tool::ApplyTimelineEdit {
                    "applying an agent proposal requires confirm=true"
                } else {
                    "running an Agent creative workflow requires confirm=true"
                };
                return (
                    ToolState::Done,
                    ToolAction::Refuse(ApiError::new(STATUS_PRECONDITION_REQUIRED, "confirmation_required", message)),
                );
            }
            match crate::requests::required_string(input, "proposalId") {
                Err(e) => {
                    proof {
                        reveal_strlit("proposalId");
                        reveal_strlit(" is required");
                        reveal_strlit("proposalId is required");
                        assert("proposalId"@ + " is required"@ =~= "proposalId is required"@);
                    }
                    (ToolState::Done, ToolAction::Refuse(e))
                },
                Ok(_) => (ToolState::AwaitingProposal { tool: t }, ToolAction::ReadProposal),
            }
        },
        Tool::ApplyScriptEdit => {
            if input.get_bool("dryRun") == Some(true) {
                return (ToolState::AwaitingRevision { tool: t, expected: expected.unwrap() }, ToolAction::ReadProject);
            }
            if input.get_bool("confirm") != Some(true) {
                return (
                    ToolState::Done,
                    ToolAction::Refuse(
                        ApiError::new(
                            STATUS_PRECONDITION_REQUIRED,
                            "confirmation_required",
                            "applying a script proposal requires confirm=true",
                        ),
                    ),
                );
            }
            match crate::requests::required_string(input, "proposalId") {
                Err(e) => {
                    proof {
                        reveal_strlit("proposalId");
                        reveal_strlit(" is required");
                        reveal_strlit("proposalId is required");
                        assert("proposalId"@ + " is required"@ =~= "proposalId is required"@);
                    }
                    (ToolState::Done, ToolAction::Refuse(e))
                },
                Ok(_) => (ToolState::AwaitingProposal { tool: t }, ToolAction::ReadProposal),
            }
        },
        Tool::ImportRemoteMedia => (
            ToolState::AwaitingRevision { tool: t, expected: expected.unwrap() },
            ToolAction::ReadProject,
        ),
        Tool::ValidateTimelineEdit => (ToolState::AwaitingOperations { tool: t }, ToolAction::BuildOperations),
        Tool::ProcessAudio | Tool::StartTranscription => (ToolState::AwaitingWorker { tool: t }, ToolAction::CheckWorker),
        _ => (ToolState::Running { tool: t }, ToolAction::Perform(t)),
    }
}

fn start_step(name: &str, wire_input: &JsonValue) -> (r: (ToolState, ToolAction))
    ensures
        start_spec(name@, *wire_input, r.0, r.1),
{
    let t = match tool_named(name) {
        None => return (ToolState::Done, ToolAction::Refuse(unknown_tool_error(name))),
        Some(t) => t,
    };
    let args = match check_tool_call(t, wire_input) {
        Err(e) => return (ToolState::Done, ToolAction::Refuse(e)),
        Ok(a) => a,
    };
    let input = tool_arguments(wire_input);
    proof {
        assert(*input == arguments_of(*wire_input));
        let cs = tool_checks_spec(t);
        if t == Tool::ImportRemoteMedia {
            assert(cs[2] == CheckView::ExpectedRevision);
        }
        if t == Tool::ApplyScriptEdit {
            assert(cs[1] == CheckView::ExpectedRevision);
        }
    }
    checked_step(t, input, args.expected_revision)
}

fn revision_conflict(t: Tool, expected: u64, revision: u64, document_hash: String) -> (e: ApiError)
    ensures
        e.status == STATUS_CONFLICT,
        e.code@ == "revisionConflict"@,
        e.message@ == revision_message(t),
        conflict_details(e.details, expected, revision, document_hash@),
{
    let message = if t == Tool::ImportRemoteMedia {
        "the project changed before remote media import started"
    } else if t == Tool::AgentPlan {
        "the project changed before Codex planning started"
    } else if t == Tool::ApplyAgentWorkflow {
        "the project changed after the Agent workflow was reviewed"
    } else {
        "the project changed before this script edit was validated"
    };
    let details = JsonValue::Object(
        vec![
            (copy_string("expectedRevision"), JsonValue::Number(JsonNumber::PosInt(expected))),
            (copy_string("currentRevision"), JsonValue::Number(JsonNumber::PosInt(revision))),
            (copy_string("currentDocumentHash"), JsonValue::Str(document_hash)),
        ],
    );
    ApiError::conflict("revisionConflict", message).with_details(details)
}

/// One step of an agent tool call (see `tool_step_spec`): `name` and
/// `wire_input` are the call as received, `state` where it stands, and
/// `event` what the outside work of the last step reported (`None` at the
/// start). Returns where the call stands next and what the caller must do.
pub fn tool_step(name: &str, wire_input: &JsonValue, state: &ToolState, event: Option<ToolEvent>) -> (r: (
    ToolState,
    ToolAction,
))
    ensures
        tool_step_spec(name@, *wire_input, *state, event, r.0, r.1),
{
    let out_of_order = "the tool call received an event out of order";
    match event {
        Some(ToolEvent::Failed(e)) => (ToolState::Done, ToolAction::Refuse(e)),
        None => match *state {
            ToolState::Start => start_step(name, wire_input),
            _ => (ToolState::Done, ToolAction::Refuse(ApiError::internal(out_of_order))),
        },
        Some(ToolEvent::Worker(available)) => match *state {
            ToolState::AwaitingWorker { tool } => worker_step(tool, wire_input, available),
            _ => (ToolState::Done, ToolAction::Refuse(ApiError::internal(out_of_order))),
        },
        Some(ToolEvent::TranscriptionFacts { revision, document_hash, assets, remote_available }) => match *state {
            ToolState::AwaitingTranscriptionFacts => transcription_facts_step(
                wire_input,
                revision,
                document_hash,
                assets,
                remote_available,
            ),
            _ => (ToolState::Done, ToolAction::Refuse(ApiError::internal(out_of_order))),
        },
        Some(ToolEvent::Proposal(p)) => match *state {
            ToolState::AwaitingProposal { tool } => proposal_step(tool, tool_arguments(wire_input), p),
            _ => (ToolState::Done, ToolAction::Refuse(ApiError::internal(out_of_order))),
        },
        Some(ToolEvent::Session { project_id }) => match *state {
            ToolState::AwaitingSession => session_step(tool_arguments(wire_input), project_id),
            _ => (ToolState::Done, ToolAction::Refuse(ApiError::internal(out_of_order))),
        },
        Some(ToolEvent::Project { revision, document_hash }) => match *state {
            ToolState::AwaitingRevision { tool, expected } => {
                if revision != expected {
                    (ToolState::Done, ToolAction::Refuse(revision_conflict(tool, expected, revision, document_hash)))
                } else if tool == Tool::ApplyScriptEdit {
                    (ToolState::AwaitingOperations { tool }, ToolAction::BuildOperations)
                } else {
                    (ToolState::Running { tool }, ToolAction::Perform(tool))
                }
            },
            _ => (ToolState::Done, ToolAction::Refuse(ApiError::internal(out_of_order))),
        },
        Some(ToolEvent::Assets { revision, assets }) => match *state {
            ToolState::AwaitingAssets => {
                let input = tool_arguments(wire_input);
                match try_search_broll(input, &assets) {
                    None => (
                        ToolState::Done,
                        ToolAction::Refuse(
                            ApiError::bad_request(
                                "invalid_broll_query",
                                "query must contain 1 to 500 printable bytes",
                            ),
                        ),
                    ),
                    Some(Err(e)) => (ToolState::Done, ToolAction::Refuse(e)),
                    Some(Ok(matches)) => {
                        let recommendation = broll_recommendation(&matches);
                        (
                            ToolState::Done,
                            ToolAction::AnswerBroll(BrollAnswer { revision, matches, recommendation }),
                        )
                    },
                }
            },
            _ => (ToolState::Done, ToolAction::Refuse(ApiError::internal(out_of_order))),
        },
        Some(ToolEvent::Operations { transaction, kinds }) => match *state {
            ToolState::AwaitingOperations { tool } => {
                if let Some(b) = &transaction {
                    let input = tool_arguments(wire_input);
                    let project = match input.get_str("projectId") {
                        Some(p) => p,
                        None => "",
                    };
                    let expected = match input.get_u64("expectedRevision") {
                        Some(n) => n,
                        None => 0,
                    };
                    let key = match wire_input.get_str("idempotencyKey") {
                        Some(k) => k,
                        None => "",
                    };
                    proof {
                        reveal_strlit("");
                        assert(str_or_empty(input.field_str("projectId"@)) == project@);
                        assert(str_or_empty(wire_input.field_str("idempotencyKey"@)) == key@);
                    }
                    match enforce_agent_transaction_binding(b, project, expected, key) {
                        Err(e) => return (ToolState::Done, ToolAction::Refuse(e)),
                        Ok(()) => {},
                    }
                }
                match reject_privileged_agent_operations(&kinds) {
                    Err(e) => (ToolState::Done, ToolAction::Refuse(e)),
                    Ok(()) => (ToolState::Running { tool }, ToolAction::Perform(tool)),
                }
            },
            _ => (ToolState::Done, ToolAction::Refuse(ApiError::internal(out_of_order))),
        },
        Some(ToolEvent::Finished(v)) => match *state {
            ToolState::Running { .. } => (ToolState::Done, ToolAction::Respond(v)),
            _ => (ToolState::Done, ToolAction::Refuse(ApiError::internal(out_of_order))),
        },
    }
}


/// Whether an action answers the call (rather than asking for outside work).
pub open spec fn answers(a: ToolAction) -> bool {
    a is Refuse || a is AnswerBroll || a is Respond || a is NotFound
}

/// A call is over exactly when it has been answered: every step that
/// answers (refusal, not found, b-roll answer, response) leaves the call `Done`, and
/// every step that asks for outside work leaves it waiting.
pub proof fn lemma_answer_ends_call(
    name: Seq<char>,
    wire: JsonValue,
    state: ToolState,
    event: Option<ToolEvent>,
    next: ToolState,
    action: ToolAction,
)
    requires
        tool_step_spec(name, wire, state, event, next, action),
    ensures
        answers(action) <==> next == ToolState::Done,
{
}

/// An answered call stays answered: whatever is reported afterwards, the
/// call stays `Done` and nothing more is asked of the caller.
pub proof fn lemma_done_is_final(
    name: Seq<char>,
    wire: JsonValue,
    event: Option<ToolEvent>,
    next: ToolState,
    action: ToolAction,
)
    requires
        tool_step_spec(name, wire, ToolState::Done, event, next, action),
    ensures
        next == ToolState::Done,
        action is Refuse,
{
}

/// The revision gate holds: after the project is read, the call goes on
/// only when the project is still at the expected revision.
pub proof fn lemma_goes_on_only_at_expected_revision(
    name: Seq<char>,
    wire: JsonValue,
    tool: Tool,
    expected: u64,
    revision: u64,
    document_hash: String,
    next: ToolState,
    action: ToolAction,
)
    requires
        tool_step_spec(
            name,
            wire,
            ToolState::AwaitingRevision { tool, expected },
            Some(ToolEvent::Project { revision, document_hash }),
            next,
            action,
        ),
    ensures
        !answers(action) ==> revision == expected,
{
}

/// No privileged operation is ever committed, nor a transaction from
/// another actor than the agent `codex`: after the edit is reported, the
/// call goes on only when none of its operations is privileged and the
/// transaction it carries, if any, comes from `codex`.
pub proof fn lemma_goes_on_only_unprivileged(
    name: Seq<char>,
    wire: JsonValue,
    tool: Tool,
    transaction: Option<TransactionBinding>,
    kinds: Vec<OperationKind>,
    next: ToolState,
    action: ToolAction,
)
    requires
        tool_step_spec(
            name,
            wire,
            ToolState::AwaitingOperations { tool },
            Some(ToolEvent::Operations { transaction, kinds }),
            next,
            action,
        ),
    ensures
        action is Perform ==> forall|i: int| 0 <= i < kinds@.len() ==> !privileged(#[trigger] kinds@[i]),
        action is Perform ==> (transaction matches Some(b) ==> codex_actor(b)),
{
}


/// A stored proposal is acted on only when it is bound to the request:
/// after it is looked up, the call goes on only when the proposal exists and
/// has the tool's purpose, the request's project and the request's expected
/// revision as its base.
pub proof fn lemma_goes_on_only_with_bound_proposal(
    name: Seq<char>,
    wire: JsonValue,
    tool: Tool,
    proposal: Option<ProposalFacts>,
    next: ToolState,
    action: ToolAction,
)
    requires
        tool_step_spec(
            name,
            wire,
            ToolState::AwaitingProposal { tool },
            Some(ToolEvent::Proposal(proposal)),
            next,
            action,
        ),
    ensures
        !answers(action) ==> (proposal matches Some(p) && p.purpose == proposal_purpose_of(tool) && arguments_of(
            wire,
        ).field_str("projectId"@) == Some(p.project_id@) && arguments_of(wire).field_u64("expectedRevision"@)
            == Some(p.base_revision)),
{
}

} // verus!
