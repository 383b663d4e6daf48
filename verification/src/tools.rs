//! The agent tool surface: which tool a call names, where its arguments are,
//! and the argument rules shared by several tools.
use vstd::prelude::*;
use crate::agent::{CapabilityKind, ProviderFacts};
use crate::error::{ApiError, STATUS_BAD_REQUEST};
use crate::json::JsonValue;
use crate::text::{copy_string, str_eq};
use crate::requests::{required_expected_revision, required_string, required_tool_idempotency_key};

verus! {

pub const STATUS_NOT_IMPLEMENTED: u16 = 501;

/// The tools an agent can call.
#[derive(Debug, Clone, Copy, PartialEq, Eq, Structural)]
pub enum Tool {
    GetStatus,
    ReadProject,
    GetEditorUrl,
    AgentPlan,
    ApplyAgentWorkflow,
    ValidateTimelineEdit,
    ApplyTimelineEdit,
    ImportLocalMedia,
    ImportProjectPackage,
    ImportRemoteMedia,
    InspectMedia,
    ReadScript,
    ApplyScriptEdit,
    EditCaptions,
    ProcessAudio,
    ListGenerators,
    SearchBroll,
    GenerateAsset,
    CreateMotionGraphic,
    RenderPreviewFrames,
    ValidateProject,
    StartTranscription,
    StartExport,
    ChangeHistory,
    TrackJobs,
}

/// The tool a name calls; several tools also answer to a short name.
pub open spec fn tool_spec(n: Seq<char>) -> Option<Tool> {
    if n == "status"@ || n == "get_status"@ {
        Some(Tool::GetStatus)
    } else if n == "read_project"@ {
        Some(Tool::ReadProject)
    } else if n == "get_editor_url"@ {
        Some(Tool::GetEditorUrl)
    } else if n == "agent_plan"@ {
        Some(Tool::AgentPlan)
    } else if n == "apply_agent_workflow"@ {
        Some(Tool::ApplyAgentWorkflow)
    } else if n == "validate"@ || n == "validate_timeline_edit"@ {
        Some(Tool::ValidateTimelineEdit)
    } else if n == "apply"@ || n == "apply_timeline_edit"@ {
        Some(Tool::ApplyTimelineEdit)
    } else if n == "import_local_media"@ {
        Some(Tool::ImportLocalMedia)
    } else if n == "import_project_package"@ {
        Some(Tool::ImportProjectPackage)
    } else if n == "import_remote_media"@ {
        Some(Tool::ImportRemoteMedia)
    } else if n == "inspect_media"@ {
        Some(Tool::InspectMedia)
    } else if n == "read_script"@ {
        Some(Tool::ReadScript)
    } else if n == "apply_script_edit"@ {
        Some(Tool::ApplyScriptEdit)
    } else if n == "edit_captions"@ {
        Some(Tool::EditCaptions)
    } else if n == "process_audio"@ {
        Some(Tool::ProcessAudio)
    } else if n == "list_generators"@ {
        Some(Tool::ListGenerators)
    } else if n == "search_broll"@ {
        Some(Tool::SearchBroll)
    } else if n == "generate_asset"@ {
        Some(Tool::GenerateAsset)
    } else if n == "create_motion_graphic"@ {
        Some(Tool::CreateMotionGraphic)
    } else if n == "render_preview_frames"@ {
        Some(Tool::RenderPreviewFrames)
    } else if n == "validate_project"@ {
        Some(Tool::ValidateProject)
    } else if n == "start_transcription"@ {
        Some(Tool::StartTranscription)
    } else if n == "start_export"@ {
        Some(Tool::StartExport)
    } else if n == "history"@ || n == "change_history"@ {
        Some(Tool::ChangeHistory)
    } else if n == "jobs"@ || n == "track_jobs"@ {
        Some(Tool::TrackJobs)
    } else {
        None
    }
}

/// The tool a call names (see `tool_spec`).
pub fn tool_named(name: &str) -> (r: Option<Tool>)
    ensures
        r == tool_spec(name@),
{
    if str_eq(name, "status") || str_eq(name, "get_status") {
        Some(Tool::GetStatus)
    } else if str_eq(name, "read_project") {
        Some(Tool::ReadProject)
    } else if str_eq(name, "get_editor_url") {
        Some(Tool::GetEditorUrl)
    } else if str_eq(name, "agent_plan") {
        Some(Tool::AgentPlan)
    } else if str_eq(name, "apply_agent_workflow") {
        Some(Tool::ApplyAgentWorkflow)
    } else if str_eq(name, "validate") || str_eq(name, "validate_timeline_edit") {
        Some(Tool::ValidateTimelineEdit)
    } else if str_eq(name, "apply") || str_eq(name, "apply_timeline_edit") {
        Some(Tool::ApplyTimelineEdit)
    } else if str_eq(name, "import_local_media") {
        Some(Tool::ImportLocalMedia)
    } else if str_eq(name, "import_project_package") {
        Some(Tool::ImportProjectPackage)
    } else if str_eq(name, "import_remote_media") {
        Some(Tool::ImportRemoteMedia)
    } else if str_eq(name, "inspect_media") {
        Some(Tool::InspectMedia)
    } else if str_eq(name, "read_script") {
        Some(Tool::ReadScript)
    } else if str_eq(name, "apply_script_edit") {
        Some(Tool::ApplyScriptEdit)
    } else if str_eq(name, "edit_captions") {
        Some(Tool::EditCaptions)
    } else if str_eq(name, "process_audio") {
        Some(Tool::ProcessAudio)
    } else if str_eq(name, "list_generators") {
        Some(Tool::ListGenerators)
    } else if str_eq(name, "search_broll") {
        Some(Tool::SearchBroll)
    } else if str_eq(name, "generate_asset") {
        Some(Tool::GenerateAsset)
    } else if str_eq(name, "create_motion_graphic") {
        Some(Tool::CreateMotionGraphic)
    } else if str_eq(name, "render_preview_frames") {
        Some(Tool::RenderPreviewFrames)
    } else if str_eq(name, "validate_project") {
        Some(Tool::ValidateProject)
    } else if str_eq(name, "start_transcription") {
        Some(Tool::StartTranscription)
    } else if str_eq(name, "start_export") {
        Some(Tool::StartExport)
    } else if str_eq(name, "history") || str_eq(name, "change_history") {
        Some(Tool::ChangeHistory)
    } else if str_eq(name, "jobs") || str_eq(name, "track_jobs") {
        Some(Tool::TrackJobs)
    } else {
        None
    }
}

/// The tools a client is told about when it names an unknown one.
pub open spec fn available_tool_names() -> Seq<Seq<char>> {
    seq![
        "get_status"@, "read_project"@, "agent_plan"@, "validate_timeline_edit"@, "get_editor_url"@,
        "import_local_media"@, "import_remote_media"@, "import_project_package"@, "inspect_media"@,
        "apply_timeline_edit"@, "read_script"@, "apply_script_edit"@, "edit_captions"@,
        "process_audio"@, "list_generators"@, "generate_asset"@, "start_transcription"@,
        "start_export"@, "search_broll"@, "create_motion_graphic"@, "render_preview_frames"@,
        "validate_project"@, "change_history"@, "track_jobs"@,
    ]
}

/// The answer to a call of an unknown tool: not implemented, with the tool's
/// name and the available tools in the details.
pub fn unknown_tool_error(name: &str) -> (e: ApiError)
    ensures
        e.status == STATUS_NOT_IMPLEMENTED,
        e.code@ == "capability_not_implemented"@,
        e.message@ == "this daemon build does not implement the requested capability"@,
        e.details matches Some(JsonValue::Object(d)) && d@.len() == 2 && d@[0].0@ == "toolName"@
            && d@[0].1.str_view() == Some(name@) && d@[1].0@ == "availableTools"@ && (d@[1].1 matches JsonValue::Array(a)
            && a@.len() == available_tool_names().len() && forall|i: int|
            0 <= i < a@.len() ==> (#[trigger] a@[i]).str_view() == Some(available_tool_names()[i])),
{
    let mut names: Vec<JsonValue> = Vec::new();
    names.push(JsonValue::Str(copy_string("get_status")));
    names.push(JsonValue::Str(copy_string("read_project")));
    names.push(JsonValue::Str(copy_string("agent_plan")));
    names.push(JsonValue::Str(copy_string("validate_timeline_edit")));
    names.push(JsonValue::Str(copy_string("get_editor_url")));
    names.push(JsonValue::Str(copy_string("import_local_media")));
    names.push(JsonValue::Str(copy_string("import_remote_media")));
    names.push(JsonValue::Str(copy_string("import_project_package")));
    names.push(JsonValue::Str(copy_string("inspect_media")));
    names.push(JsonValue::Str(copy_string("apply_timeline_edit")));
    names.push(JsonValue::Str(copy_string("read_script")));
    names.push(JsonValue::Str(copy_string("apply_script_edit")));
    names.push(JsonValue::Str(copy_string("edit_captions")));
    names.push(JsonValue::Str(copy_string("process_audio")));
    names.push(JsonValue::Str(copy_string("list_generators")));
    names.push(JsonValue::Str(copy_string("generate_asset")));
    names.push(JsonValue::Str(copy_string("start_transcription")));
    names.push(JsonValue::Str(copy_string("start_export")));
    names.push(JsonValue::Str(copy_string("search_broll")));
    names.push(JsonValue::Str(copy_string("create_motion_graphic")));
    names.push(JsonValue::Str(copy_string("render_preview_frames")));
    names.push(JsonValue::Str(copy_string("validate_project")));
    names.push(JsonValue::Str(copy_string("change_history")));
    names.push(JsonValue::Str(copy_string("track_jobs")));
    let details = JsonValue::Object(
        vec![
            (copy_string("toolName"), JsonValue::Str(copy_string(name))),
            (copy_string("availableTools"), JsonValue::Array(names)),
        ],
    );
    ApiError::new(
        STATUS_NOT_IMPLEMENTED,
        "capability_not_implemented",
        "this daemon build does not implement the requested capability",
    ).with_details(details)
}

/// The arguments of a tool call: its `arguments` object, else the call
/// itself.
pub fn tool_arguments(wire_input: &JsonValue) -> (r: &JsonValue)
    ensures
        match wire_input.field("arguments"@) {
            Some(JsonValue::Object(entries)) => *r == JsonValue::Object(entries),
            _ => *r == *wire_input,
        },
{
    match wire_input.get("arguments") {
        Some(a) => match a {
            JsonValue::Object(_) => a,
            _ => wire_input,
        },
        None => wire_input,
    }
}

/// The page size a listing tool uses: `limit`, else 100, cut to 32 bits.
pub fn tool_page_limit(input: &JsonValue) -> (r: u32)
    ensures
        r == match input.field_u64("limit"@) {
            Some(n) => n as u32,
            None => 100u32,
        },
{
    match input.get_u64("limit") {
        Some(n) => n as u32,
        None => 100,
    }
}

/// The generator kind a generator listing asks for, as a capability.
pub open spec fn generator_kind_spec(input: JsonValue) -> Option<Option<CapabilityKind>> {
    match input.field("kind"@) {
        Some(v) => match v.str_view() {
            None => Some(None),
            Some(k) => if k == "image"@ {
                Some(Some(CapabilityKind::ImageGeneration))
            } else if k == "video"@ {
                Some(Some(CapabilityKind::VideoGeneration))
            } else if k == "voice"@ {
                Some(Some(CapabilityKind::SpeechSynthesis))
            } else if k == "music"@ {
                Some(Some(CapabilityKind::MusicGeneration))
            } else if k == "sfx"@ {
                Some(Some(CapabilityKind::SoundEffectGeneration))
            } else if k == "webCapture"@ {
                Some(Some(CapabilityKind::WebCapture))
            } else {
                None
            },
        },
        None => Some(None),
    }
}

/// The capability a generator listing filters by: `kind` (image, video,
/// voice, music, sfx or webCapture); no filter when `kind` is missing or not
/// a string.
pub fn generator_capability(input: &JsonValue) -> (r: Result<Option<CapabilityKind>, ApiError>)
    ensures
        match generator_kind_spec(*input) {
            Some(c) => r == Ok::<Option<CapabilityKind>, ApiError>(c),
            None => r matches Err(e) && e.status == STATUS_BAD_REQUEST && e.code@ == "invalid_generator_kind"@
                && e.message@ == "kind must be image, video, voice, music, sfx, or webCapture"@,
        },
{
    let k = match input.get("kind") {
        None => return Ok(None),
        Some(v) => match v.as_str() {
            None => return Ok(None),
            Some(k) => k,
        },
    };
    if str_eq(k, "image") {
        Ok(Some(CapabilityKind::ImageGeneration))
    } else if str_eq(k, "video") {
        Ok(Some(CapabilityKind::VideoGeneration))
    } else if str_eq(k, "voice") {
        Ok(Some(CapabilityKind::SpeechSynthesis))
    } else if str_eq(k, "music") {
        Ok(Some(CapabilityKind::MusicGeneration))
    } else if str_eq(k, "sfx") {
        Ok(Some(CapabilityKind::SoundEffectGeneration))
    } else if str_eq(k, "webCapture") {
        Ok(Some(CapabilityKind::WebCapture))
    } else {
        Err(
            ApiError::bad_request(
                "invalid_generator_kind",
                "kind must be image, video, voice, music, sfx, or webCapture",
            ),
        )
    }
}

/// A generator listing shows the provider: it has an adapter for the
/// capability, or no capability is asked for.
pub open spec fn shows_provider(p: ProviderFacts, capability: Option<CapabilityKind>) -> bool {
    match capability {
        None => true,
        Some(c) => p.capabilities@.contains(c),
    }
}

/// The positions of the providers a generator listing shows: those with an
/// adapter for the capability, or all of them without one.
pub fn generators_for(providers: &Vec<ProviderFacts>, capability: Option<CapabilityKind>) -> (r: Vec<usize>)
    ensures
        forall|i: int, j: int| 0 <= i < j < r.len() ==> r@[i] < r@[j],
        forall|k: int|
            0 <= k < providers.len() ==> (r@.contains(k as usize) <==> #[trigger] shows_provider(
                providers@[k],
                capability,
            )),
        forall|i: int| 0 <= i < r.len() ==> #[trigger] r@[i] < providers.len(),
{
    let mut out: Vec<usize> = Vec::new();
    let mut k: usize = 0;
    while k < providers.len()
        invariant
            k <= providers.len(),
            forall|i: int, j: int| 0 <= i < j < out.len() ==> out@[i] < out@[j],
            forall|i: int| 0 <= i < out.len() ==> #[trigger] out@[i] < k,
            forall|q: int|
                0 <= q < k ==> (out@.contains(q as usize) <==> #[trigger] shows_provider(
                    providers@[q],
                    capability,
                )),
        decreases providers.len() - k,
    {
        let keep = match capability {
            None => true,
            Some(c) => {
                let caps = &providers[k].capabilities;
                let mut found = false;
                let mut j: usize = 0;
                while j < caps.len()
                    invariant
                        j <= caps.len(),
                        found <==> exists|x: int| 0 <= x < j && caps@[x] == c,
                    decreases caps.len() - j,
                {
                    if caps[j] == c {
                        found = true;
                    }
                    j += 1;
                }
                found
            },
        };
        let ghost before = out@;
        if keep {
            out.push(k);
        }
        assert forall|q: int|
            0 <= q < k + 1 implies (out@.contains(q as usize) <==> #[trigger] shows_provider(
                providers@[q],
                capability,
            )) by {
            if q < k {
                if out@.contains(q as usize) {
                    let i = choose|i: int| 0 <= i < out.len() && out@[i] == q as usize;
                    if i < before.len() {
                        assert(before[i] == q as usize);
                    }
                }
                if before.contains(q as usize) {
                    let i = choose|i: int| 0 <= i < before.len() && before[i] == q as usize;
                    assert(out@[i] == q as usize);
                }
            } else {
                if keep {
                    assert(out@[out.len() - 1] == k);
                }
                if out@.contains(q as usize) {
                    let i = choose|i: int| 0 <= i < out.len() && out@[i] == q as usize;
                    if i < before.len() {
                        assert(before[i] < k);
                    }
                }
            }
        }
        k += 1;
    }
    out
}

pub const STATUS_PRECONDITION_REQUIRED: u16 = 428;

/// A check a tool makes on its call before it reads anything.
#[derive(Debug, Clone, Copy)]
pub enum ToolCheck {
    /// `confirm: true` is required; the refusal carries this message.
    Confirm(&'static str),
    /// The top-level `idempotencyKey` is required.
    IdempotencyKey,
    /// `expectedRevision` is required.
    ExpectedRevision,
    /// The string argument is required.
    Text(&'static str),
}

pub enum CheckView {
    Confirm(Seq<char>),
    IdempotencyKey,
    ExpectedRevision,
    Text(Seq<char>),
}

impl View for ToolCheck {
    type V = CheckView;

    open spec fn view(&self) -> CheckView {
        match self {
            ToolCheck::Confirm(m) => CheckView::Confirm(m@),
            ToolCheck::IdempotencyKey => CheckView::IdempotencyKey,
            ToolCheck::ExpectedRevision => CheckView::ExpectedRevision,
            ToolCheck::Text(f) => CheckView::Text(f@),
        }
    }
}

/// The checks a tool makes before it reads anything, in order. Tools that
/// first need the media worker make theirs after that test, outside this
/// list.
pub open spec fn tool_checks_spec(t: Tool) -> Seq<CheckView> {
    match t {
        Tool::GetStatus | Tool::ListGenerators | Tool::TrackJobs | Tool::ProcessAudio
        | Tool::RenderPreviewFrames | Tool::StartTranscription => Seq::empty(),
        Tool::ReadProject | Tool::GetEditorUrl | Tool::ReadScript | Tool::ValidateProject
        | Tool::ChangeHistory => seq![CheckView::Text("projectId"@)],
        Tool::AgentPlan => seq![CheckView::Text("projectId"@), CheckView::Text("instruction"@)],
        Tool::ApplyAgentWorkflow => seq![
            CheckView::IdempotencyKey,
            CheckView::ExpectedRevision,
            CheckView::Text("projectId"@),
            CheckView::Text("proposalId"@),
        ],
        Tool::ValidateTimelineEdit | Tool::ApplyTimelineEdit | Tool::ApplyScriptEdit => seq![
            CheckView::IdempotencyKey,
            CheckView::ExpectedRevision,
            CheckView::Text("projectId"@),
        ],
        Tool::ImportLocalMedia => seq![
            CheckView::IdempotencyKey,
            CheckView::ExpectedRevision,
            CheckView::Text("projectId"@),
            CheckView::Text("path"@),
        ],
        Tool::ImportProjectPackage => seq![
            CheckView::Confirm("project package import creates a complete local project and requires confirm=true"@),
            CheckView::IdempotencyKey,
            CheckView::Text("path"@),
        ],
        Tool::ImportRemoteMedia => seq![
            CheckView::Confirm("remote media import contacts an external host and requires confirm=true"@),
            CheckView::IdempotencyKey,
            CheckView::ExpectedRevision,
            CheckView::Text("projectId"@),
            CheckView::Text("url"@),
        ],
        Tool::InspectMedia => seq![CheckView::Text("projectId"@), CheckView::Text("assetId"@)],
        Tool::EditCaptions => seq![
            CheckView::IdempotencyKey,
            CheckView::Text("projectId"@),
            CheckView::ExpectedRevision,
        ],
        Tool::SearchBroll => seq![CheckView::Text("projectId"@), CheckView::Text("query"@)],
        Tool::GenerateAsset => seq![
            CheckView::IdempotencyKey,
            CheckView::Text("projectId"@),
            CheckView::ExpectedRevision,
            CheckView::Text("kind"@),
        ],
        Tool::CreateMotionGraphic => seq![
            CheckView::IdempotencyKey,
            CheckView::Text("projectId"@),
            CheckView::ExpectedRevision,
            CheckView::Text("mode"@),
        ],
        Tool::StartExport => seq![
            CheckView::IdempotencyKey,
            CheckView::Text("projectId"@),
            CheckView::ExpectedRevision,
            CheckView::Text("format"@),
        ],
    }
}

/// The checks a tool makes before it reads anything (see `tool_checks_spec`).
pub fn tool_checks(t: Tool) -> (r: Vec<ToolCheck>)
    ensures
        r@.map_values(|c: ToolCheck| c@) == tool_checks_spec(t),
{
    let v: Vec<ToolCheck> = match t {
        Tool::GetStatus | Tool::ListGenerators | Tool::TrackJobs | Tool::ProcessAudio
        | Tool::RenderPreviewFrames | Tool::StartTranscription => Vec::new(),
        Tool::ReadProject | Tool::GetEditorUrl | Tool::ReadScript | Tool::ValidateProject
        | Tool::ChangeHistory => vec![ToolCheck::Text("projectId")],
        Tool::AgentPlan => vec![ToolCheck::Text("projectId"), ToolCheck::Text("instruction")],
        Tool::ApplyAgentWorkflow => vec![
            ToolCheck::IdempotencyKey,
            ToolCheck::ExpectedRevision,
            ToolCheck::Text("projectId"),
            ToolCheck::Text("proposalId"),
        ],
        Tool::ValidateTimelineEdit | Tool::ApplyTimelineEdit | Tool::ApplyScriptEdit => vec![
            ToolCheck::IdempotencyKey,
            ToolCheck::ExpectedRevision,
            ToolCheck::Text("projectId"),
        ],
        Tool::ImportLocalMedia => vec![
            ToolCheck::IdempotencyKey,
            ToolCheck::ExpectedRevision,
            ToolCheck::Text("projectId"),
            ToolCheck::Text("path"),
        ],
        Tool::ImportProjectPackage => vec![
            ToolCheck::Confirm("project package import creates a complete local project and requires confirm=true"),
            ToolCheck::IdempotencyKey,
            ToolCheck::Text("path"),
        ],
        Tool::ImportRemoteMedia => vec![
            ToolCheck::Confirm("remote media import contacts an external host and requires confirm=true"),
            ToolCheck::IdempotencyKey,
            ToolCheck::ExpectedRevision,
            ToolCheck::Text("projectId"),
            ToolCheck::Text("url"),
        ],
        Tool::InspectMedia => vec![ToolCheck::Text("projectId"), ToolCheck::Text("assetId")],
        Tool::EditCaptions => vec![
            ToolCheck::IdempotencyKey,
            ToolCheck::Text("projectId"),
            ToolCheck::ExpectedRevision,
        ],
        Tool::SearchBroll => vec![ToolCheck::Text("projectId"), ToolCheck::Text("query")],
        Tool::GenerateAsset => vec![
            ToolCheck::IdempotencyKey,
            ToolCheck::Text("projectId"),
            ToolCheck::ExpectedRevision,
            ToolCheck::Text("kind"),
        ],
        Tool::CreateMotionGraphic => vec![
            ToolCheck::IdempotencyKey,
            ToolCheck::Text("projectId"),
            ToolCheck::ExpectedRevision,
            ToolCheck::Text("mode"),
        ],
        Tool::StartExport => vec![
            ToolCheck::IdempotencyKey,
            ToolCheck::Text("projectId"),
            ToolCheck::ExpectedRevision,
            ToolCheck::Text("format"),
        ],
    };
    assert(v@.map_values(|c: ToolCheck| c@) =~= tool_checks_spec(t));
    v
}

/// The refusal of one check, as status, code and message.
pub open spec fn check_refusal(c: CheckView, input: JsonValue, wire: JsonValue) -> Option<(u16, Seq<char>, Seq<char>)> {
    match c {
        CheckView::Confirm(m) => if input.field_bool("confirm"@) != Some(true) {
            Some((428, "confirmation_required"@, m))
        } else {
            None
        },
        CheckView::IdempotencyKey => match wire.field_str("idempotencyKey"@) {
            None => Some((400, "missing_idempotency_key"@, "mutating tool calls require a top-level idempotencyKey"@)),
            Some(k) => if !(0 < vstd::utf8::encode_utf8(k).len() <= 200) {
                Some((400, "invalid_idempotency_key"@, "idempotencyKey must contain 1 to 200 bytes"@))
            } else {
                None
            },
        },
        CheckView::ExpectedRevision => if input.field_u64("expectedRevision"@) is None {
            Some((400, "missing_expected_revision"@, "mutating tool calls require arguments.expectedRevision"@))
        } else {
            None
        },
        CheckView::Text(f) => if input.field_str(f) is None {
            Some((400, "missing_field"@, f + " is required"@))
        } else {
            None
        },
    }
}

/// The refusal of the first failing check.
pub open spec fn first_refusal(cs: Seq<CheckView>, input: JsonValue, wire: JsonValue) -> Option<(u16, Seq<char>, Seq<char>)>
    decreases cs.len(),
{
    if cs.len() == 0 {
        None
    } else {
        match check_refusal(cs[0], input, wire) {
            Some(f) => Some(f),
            None => first_refusal(cs.drop_first(), input, wire),
        }
    }
}

/// The string arguments the checks read, in order.
pub open spec fn checked_texts(cs: Seq<CheckView>, input: JsonValue) -> Seq<Seq<char>>
    decreases cs.len(),
{
    if cs.len() == 0 {
        Seq::empty()
    } else {
        (match cs[0] {
            CheckView::Text(f) => seq![input.field_str(f).unwrap()],
            _ => Seq::empty(),
        }) + checked_texts(cs.drop_first(), input)
    }
}

/// The arguments a tool call passed its checks with.
#[derive(Debug)]
pub struct CheckedArguments {
    pub idempotency_key: Option<String>,
    pub expected_revision: Option<u64>,
    /// The required string arguments, in the order checked.
    pub texts: Vec<String>,
}

/// Runs checks on a tool call in order: the first refusal, else the
/// idempotency key, expected revision and string arguments that were
/// checked.
pub fn run_checks(checks: &Vec<ToolCheck>, wire_input: &JsonValue) -> (r: Result<CheckedArguments, ApiError>)
    ensures
        ({
            let input = if wire_input.field("arguments"@) matches Some(JsonValue::Object(_)) {
                wire_input.field("arguments"@).unwrap()
            } else {
                *wire_input
            };
            let cs = checks@.map_values(|c: ToolCheck| c@);
            match first_refusal(cs, input, *wire_input) {
                Some((status, code, message)) => r matches Err(e) && e.status == status && e.code@ == code
                    && e.message@ == message,
                None => r matches Ok(a) && a.texts@.map_values(|t: String| t@) == checked_texts(cs, input)
                    && (a.idempotency_key matches Some(k) ==> wire_input.field_str("idempotencyKey"@) == Some(k@))
                    && (a.idempotency_key is Some <==> cs.contains(CheckView::IdempotencyKey))
                    && (a.expected_revision matches Some(n) ==> input.field_u64("expectedRevision"@) == Some(n))
                    && (a.expected_revision is Some <==> cs.contains(CheckView::ExpectedRevision)),
            }
        }),
{
    let input = tool_arguments(wire_input);
    let ghost cs = checks@.map_values(|c: ToolCheck| c@);
    let mut key: Option<String> = None;
    let mut revision: Option<u64> = None;
    let mut texts: Vec<String> = Vec::new();
    let mut i: usize = 0;
    assert(cs.subrange(0, 0) =~= Seq::<CheckView>::empty());
    assert(cs.subrange(0, cs.len() as int) =~= cs);
    while i < checks.len()
        invariant
            i <= checks.len(),
            *input == (if wire_input.field("arguments"@) matches Some(JsonValue::Object(_)) {
                wire_input.field("arguments"@).unwrap()
            } else {
                *wire_input
            }),
            checks@.map_values(|c: ToolCheck| c@) == cs,
            first_refusal(cs, *input, *wire_input) == first_refusal(cs.subrange(i as int, cs.len() as int), *input, *wire_input),
            checked_texts(cs, *input) == texts@.map_values(|t: String| t@) + checked_texts(
                cs.subrange(i as int, cs.len() as int),
                *input,
            ),
            key matches Some(k) ==> wire_input.field_str("idempotencyKey"@) == Some(k@),
            key is Some <==> cs.subrange(0, i as int).contains(CheckView::IdempotencyKey),
            revision matches Some(n) ==> input.field_u64("expectedRevision"@) == Some(n),
            revision is Some <==> cs.subrange(0, i as int).contains(CheckView::ExpectedRevision),
        decreases checks.len() - i,
    {
        let ghost rest = cs.subrange(i as int, cs.len() as int);
        assert(rest.drop_first() =~= cs.subrange(i + 1, cs.len() as int));
        assert(rest[0] == checks@[i as int]@);
        let ghost pre = cs.subrange(0, i as int);
        assert(cs.subrange(0, i + 1) =~= pre.push(checks@[i as int]@));
        let ghost before = texts@.map_values(|t: String| t@);
        match checks[i] {
            ToolCheck::Confirm(m) => {
                if input.get_bool("confirm") != Some(true) {
                    return Err(ApiError::new(STATUS_PRECONDITION_REQUIRED, "confirmation_required", m));
                }
            },
            ToolCheck::IdempotencyKey => match required_tool_idempotency_key(wire_input) {
                Err(e) => return Err(e),
                Ok(k) => {
                    key = Some(k);
                },
            },
            ToolCheck::ExpectedRevision => match required_expected_revision(input) {
                Err(e) => return Err(e),
                Ok(n) => {
                    revision = Some(n);
                },
            },
            ToolCheck::Text(f) => match required_string(input, f) {
                Err(e) => return Err(e),
                Ok(t) => {
                    texts.push(copy_string(t));
                    assert(texts@.map_values(|t: String| t@) =~= before.push(t@));
                },
            },
        }
        proof {
            assert forall|c: CheckView| c != checks@[i as int]@ implies (cs.subrange(0, i + 1).contains(c)
                <==> pre.contains(c)) by {
                let q = cs.subrange(0, i + 1);
                if q.contains(c) {
                    let j = choose|j: int| 0 <= j < q.len() && #[trigger] q[j] == c;
                    assert(pre[j] == c);
                }
                if pre.contains(c) {
                    let j = choose|j: int| 0 <= j < pre.len() && #[trigger] pre[j] == c;
                    assert(q[j] == c);
                }
            }
            assert(cs.subrange(0, i + 1).contains(checks@[i as int]@)) by {
                assert(cs.subrange(0, i + 1)[i as int] == checks@[i as int]@);
            }
            assert((texts@.map_values(|t: String| t@) + checked_texts(cs.subrange(i + 1, cs.len() as int), *input))
                =~= (before + checked_texts(rest, *input)));
        }
        i += 1;
    }
    Ok(CheckedArguments { idempotency_key: key, expected_revision: revision, texts })
}

/// The checks a tool call must pass before the tool reads anything (see
/// `tool_checks_spec`): the first refusal, else the idempotency key,
/// expected revision and string arguments that were checked.
pub fn check_tool_call(tool: Tool, wire_input: &JsonValue) -> (r: Result<CheckedArguments, ApiError>)
    ensures
        ({
            let input = if wire_input.field("arguments"@) matches Some(JsonValue::Object(_)) {
                wire_input.field("arguments"@).unwrap()
            } else {
                *wire_input
            };
            let cs = tool_checks_spec(tool);
            match first_refusal(cs, input, *wire_input) {
                Some((status, code, message)) => r matches Err(e) && e.status == status && e.code@ == code
                    && e.message@ == message,
                None => r matches Ok(a) && a.texts@.map_values(|t: String| t@) == checked_texts(cs, input)
                    && (a.idempotency_key matches Some(k) ==> wire_input.field_str("idempotencyKey"@) == Some(k@))
                    && (a.idempotency_key is Some <==> cs.contains(CheckView::IdempotencyKey))
                    && (a.expected_revision matches Some(n) ==> input.field_u64("expectedRevision"@) == Some(n))
                    && (a.expected_revision is Some <==> cs.contains(CheckView::ExpectedRevision)),
            }
        }),
{
    let checks = tool_checks(tool);
    run_checks(&checks, wire_input)
}

/// A planning request that passed its checks.
#[derive(Debug)]
pub struct AgentPlanRequest {
    pub project_id: String,
    pub instruction: String,
    pub provider: String,
}

/// An acceptable planning instruction: something besides whitespace, at
/// most 20000 bytes, no NUL.
pub open spec fn instruction_ok(i: Seq<char>) -> bool {
    crate::text::trim_spec(i).len() > 0 && vstd::utf8::encode_utf8(i).len() <= 20000 && !i.contains('\0')
}

/// The provider a planning request names: `provider`, else `codex`.
pub open spec fn plan_provider(input: JsonValue) -> Seq<char> {
    match input.field_str("provider"@) {
        Some(p) => p,
        None => "codex"@,
    }
}

/// What the checks of an agent planning request answer, in order:
/// `projectId` and `instruction` are required, the provider must be
/// supported, the instruction acceptable, and a provider other than `codex`
/// needs `confirmExternal: true` (428, naming the provider and the data
/// sent).
pub open spec fn agent_plan_checked(input: JsonValue, r: Result<AgentPlanRequest, ApiError>) -> bool {
    match input.field_str("projectId"@) {
        None => r matches Err(e) && e.code@ == "missing_field"@,
        Some(project) => match input.field_str("instruction"@) {
            None => r matches Err(e) && e.code@ == "missing_field"@,
            Some(instruction) => if !crate::requests::supported_agent_provider(plan_provider(input)) {
                r matches Err(e) && e.status == STATUS_BAD_REQUEST && e.code@ == "unsupported_agent_provider"@
            } else if !instruction_ok(instruction) {
                r matches Err(e) && e.status == STATUS_BAD_REQUEST && e.code@ == "invalid_agent_instruction"@
                    && e.message@ == "instruction must contain 1 to 20000 bytes and no NUL characters"@
            } else if plan_provider(input) != "codex"@ && input.field_bool("confirmExternal"@) != Some(true) {
                r matches Err(e) && e.status == STATUS_PRECONDITION_REQUIRED && e.code@
                    == "external_agent_confirmation_required"@ && (e.details matches Some(JsonValue::Object(d))
                    && d@.len() == 2 && d@[0].0@ == "provider"@ && d@[0].1.str_view() == Some(plan_provider(input)))
            } else {
                r matches Ok(a) && a.project_id@ == project && a.instruction@ == instruction && a.provider@
                    == plan_provider(input)
            },
        },
    }
}

/// Whether an agent planning request passes all of its checks.
pub open spec fn agent_plan_accepted(input: JsonValue) -> bool {
    &&& input.field_str("projectId"@) is Some
    &&& input.field_str("instruction"@) matches Some(instruction) && instruction_ok(instruction)
    &&& crate::requests::supported_agent_provider(plan_provider(input))
    &&& (plan_provider(input) == "codex"@ || input.field_bool("confirmExternal"@) == Some(true))
}

/// The checks of an agent planning request (see `agent_plan_checked`).
pub fn check_agent_plan_request(input: &JsonValue) -> (r: Result<AgentPlanRequest, ApiError>)
    ensures
        agent_plan_checked(*input, r),
        r is Ok <==> agent_plan_accepted(*input),
{
    let project = match required_string(input, "projectId") {
        Err(e) => return Err(e),
        Ok(p) => p,
    };
    let instruction = match required_string(input, "instruction") {
        Err(e) => return Err(e),
        Ok(i) => i,
    };
    let provider = match input.get_str("provider") {
        Some(p) => p,
        None => "codex",
    };
    match crate::requests::validate_agent_provider_id(provider) {
        Err(e) => return Err(e),
        Ok(()) => {},
    }
    let cs = crate::text::chars_of(instruction);
    let t = crate::text::trim(cs.as_slice());
    let mut has_nul = false;
    let mut k: usize = 0;
    while k < cs.len()
        invariant
            k <= cs.len(),
            has_nul <==> exists|j: int| 0 <= j < k && cs@[j] == '\0',
        decreases cs.len() - k,
    {
        if cs[k] == '\0' {
            has_nul = true;
        }
        k += 1;
    }
    assert(has_nul <==> cs@.contains('\0'));
    if t.len() == 0 || instruction.as_bytes().len() > 20000 || has_nul {
        return Err(
            ApiError::bad_request(
                "invalid_agent_instruction",
                "instruction must contain 1 to 20000 bytes and no NUL characters",
            ),
        );
    }
    if !str_eq(provider, "codex") && input.get_bool("confirmExternal") != Some(true) {
        let data = JsonValue::Array(
            vec![
                JsonValue::Str(copy_string("project document")),
                JsonValue::Str(copy_string("timeline")),
                JsonValue::Str(copy_string("transcripts")),
                JsonValue::Str(copy_string("captions")),
                JsonValue::Str(copy_string("asset metadata")),
            ],
        );
        let details = JsonValue::Object(
            vec![(copy_string("provider"), JsonValue::Str(copy_string(provider))), (copy_string("data"), data)],
        );
        return Err(
            ApiError::new(
                STATUS_PRECONDITION_REQUIRED,
                "external_agent_confirmation_required",
                "sending the pinned project context to a configured Agent provider requires confirmExternal=true",
            ).with_details(details),
        );
    }
    Ok(
        AgentPlanRequest {
            project_id: copy_string(project),
            instruction: copy_string(instruction),
            provider: copy_string(provider),
        },
    )
}

} // verus!


