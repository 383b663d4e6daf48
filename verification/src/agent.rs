//! The daemon-side checks on the capability calls that an agent workflow
//! plans: which calls the local runtime can honour, on which assets and with
//! which generation providers, before any of them is queued for review.
use vstd::prelude::*;
use crate::error::{ApiError, STATUS_BAD_REQUEST};
use crate::json::JsonValue;
use crate::media::AssetKind;
use crate::requests::join_words;
use crate::text::{
    char_views, chars_of, copy_string, decimal, push_decimal, push_str, str_eq, string_of, trim,
    trim_spec,
};

verus! {

/// What the checks read of one asset of the project document.
#[derive(Debug)]
pub struct AssetFacts {
    pub id: String,
    pub kind: AssetKind,
    /// A video asset carries an audio stream.
    pub has_audio: bool,
    /// The asset's bytes live in the managed content store (it has a content hash).
    pub managed: bool,
}

/// A kind of work that a generation provider's adapter performs.
#[derive(Debug, Clone, Copy, PartialEq, Eq, Structural)]
pub enum CapabilityKind {
    ImageGeneration,
    VideoGeneration,
    SpeechSynthesis,
    MusicGeneration,
    SoundEffectGeneration,
    WebCapture,
    Other,
}

/// What the checks read of one configured generation provider.
#[derive(Debug)]
pub struct ProviderFacts {
    pub id: String,
    /// The capabilities of the provider's adapters.
    pub capabilities: Vec<CapabilityKind>,
    /// The provider can take work now.
    pub available: bool,
    /// The provider's availability as reported to clients.
    pub availability: JsonValue,
}

/// The kinds of asset an agent may ask to generate.
#[derive(Debug, Clone, Copy, PartialEq, Eq, Structural)]
pub enum GenerationKind {
    Image,
    Video,
    Voice,
    Music,
    Sfx,
    WebCapture,
}

/// The transcription engines an agent may name.
#[derive(Debug, Clone, Copy, PartialEq, Eq, Structural)]
pub enum TranscriptionEngine {
    Auto,
    FasterWhisper,
    NewApiAsr,
}

/// The export formats an agent may request; the named ones are rendered by
/// the media worker, `Other` stands for the formats the daemon writes itself.
#[derive(Debug, Clone, Copy, PartialEq, Eq, Structural)]
pub enum ExportFormat {
    Mp4,
    Webm,
    Wav,
    Mp3,
    Png,
    PngSequence,
    Prores4444,
    Other,
}

/// One capability call of an agent workflow, with the arguments the checks read.
#[derive(Debug)]
pub enum CapabilityCall {
    SearchBroll,
    StartTranscription { asset_id: String, engine: Option<TranscriptionEngine> },
    GenerateAsset { kind: GenerationKind, provider: String },
    ProcessAudio { asset_id: String },
    StartExport { format: ExportFormat },
}

/// Why a planned capability call cannot be honoured.
#[derive(Debug, Clone, Copy, PartialEq, Eq, Structural)]
pub enum RefusalReason {
    /// The calls break the workflow's own structural rules.
    InvalidWorkflow,
    TranscriptionUnavailable,
    AssetNotFound,
    AssetNotTranscribable,
    RemoteTranscriptionUnavailable,
    ProviderNotFound,
    ProviderCapabilityMismatch,
    ProviderUnavailable,
    AudioProcessingUnavailable,
    AssetNotProcessable,
    ExportUnavailable,
}

/// A refused workflow: the reason, and the index of the call it concerns
/// (0 for a structural refusal).
#[derive(Debug, Clone, Copy, PartialEq, Eq, Structural)]
pub struct CapabilityRefusal {
    pub call_index: usize,
    pub reason: RefusalReason,
}

/// The capability that a generation kind asks of a provider.
pub open spec fn required_capability(kind: GenerationKind) -> CapabilityKind {
    match kind {
        GenerationKind::Image => CapabilityKind::ImageGeneration,
        GenerationKind::Video => CapabilityKind::VideoGeneration,
        GenerationKind::Voice => CapabilityKind::SpeechSynthesis,
        GenerationKind::Music => CapabilityKind::MusicGeneration,
        GenerationKind::Sfx => CapabilityKind::SoundEffectGeneration,
        GenerationKind::WebCapture => CapabilityKind::WebCapture,
    }
}

/// The first asset with the given id.
pub open spec fn asset_with_id(assets: Seq<AssetFacts>, id: Seq<char>) -> Option<AssetFacts>
    decreases assets.len(),
{
    if assets.len() == 0 {
        None
    } else if assets[0].id@ == id {
        Some(assets[0])
    } else {
        asset_with_id(assets.drop_first(), id)
    }
}

/// The first provider with the given id.
pub open spec fn provider_with_id(providers: Seq<ProviderFacts>, id: Seq<char>) -> Option<
    ProviderFacts,
>
    decreases providers.len(),
{
    if providers.len() == 0 {
        None
    } else if providers[0].id@ == id {
        Some(providers[0])
    } else {
        provider_with_id(providers.drop_first(), id)
    }
}

pub open spec fn transcribable(a: AssetFacts) -> bool {
    a.kind == AssetKind::Audio || (a.kind == AssetKind::Video && a.has_audio)
}

pub open spec fn worker_rendered(f: ExportFormat) -> bool {
    f != ExportFormat::Other
}

/// Why one call is refused, if it is.
pub open spec fn call_refusal(
    call: CapabilityCall,
    worker: bool,
    remote_transcription: bool,
    assets: Seq<AssetFacts>,
    providers: Seq<ProviderFacts>,
) -> Option<RefusalReason> {
    match call {
        CapabilityCall::SearchBroll => None,
        CapabilityCall::StartTranscription { asset_id, engine } => {
            if !worker {
                Some(RefusalReason::TranscriptionUnavailable)
            } else {
                match asset_with_id(assets, asset_id@) {
                    None => Some(RefusalReason::AssetNotFound),
                    Some(a) => if !a.managed || !transcribable(a) {
                        Some(RefusalReason::AssetNotTranscribable)
                    } else if engine == Some(TranscriptionEngine::NewApiAsr) && !remote_transcription {
                        Some(RefusalReason::RemoteTranscriptionUnavailable)
                    } else {
                        None
                    },
                }
            }
        },
        CapabilityCall::GenerateAsset { kind, provider } => {
            match provider_with_id(providers, provider@) {
                None => Some(RefusalReason::ProviderNotFound),
                Some(p) => if !p.capabilities@.contains(required_capability(kind)) {
                    Some(RefusalReason::ProviderCapabilityMismatch)
                } else if !p.available {
                    Some(RefusalReason::ProviderUnavailable)
                } else {
                    None
                },
            }
        },
        CapabilityCall::ProcessAudio { asset_id } => {
            if !worker {
                Some(RefusalReason::AudioProcessingUnavailable)
            } else {
                match asset_with_id(assets, asset_id@) {
                    None => Some(RefusalReason::AssetNotFound),
                    Some(a) => if !a.managed || !(a.kind == AssetKind::Audio || a.kind
                        == AssetKind::Video) {
                        Some(RefusalReason::AssetNotProcessable)
                    } else {
                        None
                    },
                }
            }
        },
        CapabilityCall::StartExport { format } => if worker_rendered(format) && !worker {
            Some(RefusalReason::ExportUnavailable)
        } else {
            None
        },
    }
}

/// The calls before index `k` are all honoured.
pub open spec fn calls_accepted_before(
    calls: Seq<CapabilityCall>,
    k: int,
    worker: bool,
    remote_transcription: bool,
    assets: Seq<AssetFacts>,
    providers: Seq<ProviderFacts>,
) -> bool {
    forall|j: int|
        0 <= j < k ==> #[trigger] call_refusal(calls[j], worker, remote_transcription, assets, providers)
            is None
}

fn find_asset<'a>(assets: &'a Vec<AssetFacts>, id: &str) -> (r: Option<&'a AssetFacts>)
    ensures
        match r {
            Some(a) => asset_with_id(assets@, id@) == Some(*a),
            None => asset_with_id(assets@, id@) is None,
        },
{
    let mut i: usize = 0;
    assert(assets@.subrange(0, assets.len() as int) =~= assets@);
    while i < assets.len()
        invariant
            i <= assets.len(),
            asset_with_id(assets@, id@) == asset_with_id(
                assets@.subrange(i as int, assets.len() as int),
                id@,
            ),
        decreases assets.len() - i,
    {
        let ghost rest = assets@.subrange(i as int, assets.len() as int);
        assert(rest.drop_first() =~= assets@.subrange(i + 1, assets.len() as int));
        assert(rest[0] == assets@[i as int]);
        if str_eq(assets[i].id.as_str(), id) {
            return Some(&assets[i]);
        }
        i += 1;
    }
    None
}

fn find_provider<'a>(providers: &'a Vec<ProviderFacts>, id: &str) -> (r: Option<&'a ProviderFacts>)
    ensures
        match r {
            Some(p) => provider_with_id(providers@, id@) == Some(*p),
            None => provider_with_id(providers@, id@) is None,
        },
{
    let mut i: usize = 0;
    assert(providers@.subrange(0, providers.len() as int) =~= providers@);
    while i < providers.len()
        invariant
            i <= providers.len(),
            provider_with_id(providers@, id@) == provider_with_id(
                providers@.subrange(i as int, providers.len() as int),
                id@,
            ),
        decreases providers.len() - i,
    {
        let ghost rest = providers@.subrange(i as int, providers.len() as int);
        assert(rest.drop_first() =~= providers@.subrange(i + 1, providers.len() as int));
        assert(rest[0] == providers@[i as int]);
        if str_eq(providers[i].id.as_str(), id) {
            return Some(&providers[i]);
        }
        i += 1;
    }
    None
}

fn has_capability(capabilities: &Vec<CapabilityKind>, wanted: CapabilityKind) -> (r: bool)
    ensures
        r == capabilities@.contains(wanted),
{
    let mut i: usize = 0;
    while i < capabilities.len()
        invariant
            i <= capabilities.len(),
            forall|j: int| 0 <= j < i ==> capabilities@[j] != wanted,
        decreases capabilities.len() - i,
    {
        if capabilities[i] == wanted {
            return true;
        }
        i += 1;
    }
    false
}

/// The capability a generation kind asks of a provider.
pub fn capability_for(kind: GenerationKind) -> (r: CapabilityKind)
    ensures
        r == required_capability(kind),
{
    match kind {
        GenerationKind::Image => CapabilityKind::ImageGeneration,
        GenerationKind::Video => CapabilityKind::VideoGeneration,
        GenerationKind::Voice => CapabilityKind::SpeechSynthesis,
        GenerationKind::Music => CapabilityKind::MusicGeneration,
        GenerationKind::Sfx => CapabilityKind::SoundEffectGeneration,
        GenerationKind::WebCapture => CapabilityKind::WebCapture,
    }
}

/// Why one planned call cannot be honoured, if it cannot.
pub fn check_capability_call(
    call: &CapabilityCall,
    worker: bool,
    remote_transcription: bool,
    assets: &Vec<AssetFacts>,
    providers: &Vec<ProviderFacts>,
) -> (r: Option<RefusalReason>)
    ensures
        r == call_refusal(*call, worker, remote_transcription, assets@, providers@),
{
    match call {
        CapabilityCall::SearchBroll => None,
        CapabilityCall::StartTranscription { asset_id, engine } => {
            if !worker {
                return Some(RefusalReason::TranscriptionUnavailable);
            }
            match find_asset(assets, asset_id.as_str()) {
                None => Some(RefusalReason::AssetNotFound),
                Some(a) => {
                    let can_transcribe = match a.kind {
                        AssetKind::Audio => true,
                        AssetKind::Video => a.has_audio,
                        _ => false,
                    };
                    if !a.managed || !can_transcribe {
                        Some(RefusalReason::AssetNotTranscribable)
                    } else if matches!(engine, Some(TranscriptionEngine::NewApiAsr))
                        && !remote_transcription {
                        Some(RefusalReason::RemoteTranscriptionUnavailable)
                    } else {
                        None
                    }
                },
            }
        },
        CapabilityCall::GenerateAsset { kind, provider } => {
            match find_provider(providers, provider.as_str()) {
                None => Some(RefusalReason::ProviderNotFound),
                Some(p) => {
                    if !has_capability(&p.capabilities, capability_for(*kind)) {
                        Some(RefusalReason::ProviderCapabilityMismatch)
                    } else if !p.available {
                        Some(RefusalReason::ProviderUnavailable)
                    } else {
                        None
                    }
                },
            }
        },
        CapabilityCall::ProcessAudio { asset_id } => {
            if !worker {
                return Some(RefusalReason::AudioProcessingUnavailable);
            }
            match find_asset(assets, asset_id.as_str()) {
                None => Some(RefusalReason::AssetNotFound),
                Some(a) => {
                    let media = match a.kind {
                        AssetKind::Audio | AssetKind::Video => true,
                        _ => false,
                    };
                    if !a.managed || !media {
                        Some(RefusalReason::AssetNotProcessable)
                    } else {
                        None
                    }
                },
            }
        },
        CapabilityCall::StartExport { format } => {
            let rendered = match format {
                ExportFormat::Other => false,
                _ => true,
            };
            if rendered && !worker {
                Some(RefusalReason::ExportUnavailable)
            } else {
                None
            }
        },
    }
}

/// Checks every planned capability call against the local runtime, the
/// project's assets and the configured generation providers.
///
/// `structure` is the outcome of the workflow's own structural validation of
/// the calls; when it failed the workflow is refused as a whole. Otherwise the
/// calls are checked in order and the first refused one decides the result.
pub fn validate_agent_capability_references(
    structure: Result<(), String>,
    worker: bool,
    remote_transcription: bool,
    assets: &Vec<AssetFacts>,
    providers: &Vec<ProviderFacts>,
    calls: &Vec<CapabilityCall>,
) -> (r: Result<(), CapabilityRefusal>)
    ensures
        structure is Err ==> r == Err::<(), CapabilityRefusal>(
            CapabilityRefusal { call_index: 0, reason: RefusalReason::InvalidWorkflow },
        ),
        structure is Ok ==> match r {
            Ok(()) => calls_accepted_before(
                calls@,
                calls.len() as int,
                worker,
                remote_transcription,
                assets@,
                providers@,
            ),
            Err(refusal) => {
                &&& refusal.call_index < calls.len()
                &&& calls_accepted_before(
                    calls@,
                    refusal.call_index as int,
                    worker,
                    remote_transcription,
                    assets@,
                    providers@,
                )
                &&& call_refusal(
                    calls@[refusal.call_index as int],
                    worker,
                    remote_transcription,
                    assets@,
                    providers@,
                ) == Some(refusal.reason)
            },
        },
{
    if structure.is_err() {
        return Err(CapabilityRefusal { call_index: 0, reason: RefusalReason::InvalidWorkflow });
    }
    let mut i: usize = 0;
    while i < calls.len()
        invariant
            i <= calls.len(),
            structure is Ok,
            calls_accepted_before(calls@, i as int, worker, remote_transcription, assets@, providers@),
        decreases calls.len() - i,
    {
        match check_capability_call(&calls[i], worker, remote_transcription, assets, providers) {
            Some(reason) => {
                return Err(CapabilityRefusal { call_index: i, reason });
            },
            None => {},
        }
        i += 1;
    }
    Ok(())
}

/// The status, code and message that the API answers for a refusal; `None`
/// for a missing asset or provider, which the API answers with its not-found
/// error for that resource.
pub open spec fn refusal_answer(reason: RefusalReason) -> Option<(u16, Seq<char>, Seq<char>)> {
    match reason {
        RefusalReason::InvalidWorkflow => None,
        RefusalReason::AssetNotFound => None,
        RefusalReason::ProviderNotFound => None,
        RefusalReason::TranscriptionUnavailable => Some((501u16, "capability_not_available"@, "local transcription requires the configured media worker"@)),
        RefusalReason::AssetNotTranscribable => Some((400u16, "asset_not_transcribable"@, "Agent transcription requires a managed audio asset or video with audio"@)),
        RefusalReason::RemoteTranscriptionUnavailable => Some((501u16, "capability_not_available"@, "New API ASR is not configured"@)),
        RefusalReason::ProviderCapabilityMismatch => Some((400u16, "provider_capability_mismatch"@, "the planned provider does not support the requested asset kind"@)),
        RefusalReason::ProviderUnavailable => Some((501u16, "capability_not_available"@, "the planned generation provider is not currently available"@)),
        RefusalReason::AudioProcessingUnavailable => Some((501u16, "capability_not_available"@, "audio processing requires the configured media worker"@)),
        RefusalReason::AssetNotProcessable => Some((400u16, "asset_not_processable"@, "Agent audio processing requires a managed audio or video asset"@)),
        RefusalReason::ExportUnavailable => Some((501u16, "capability_not_available"@, "media export requires the configured media worker"@)),
    }
}

/// The capability named in the details of an unavailable-runtime refusal.
pub open spec fn refused_capability(reason: RefusalReason) -> Option<Seq<char>> {
    match reason {
        RefusalReason::TranscriptionUnavailable => Some("transcription"@),
        RefusalReason::RemoteTranscriptionUnavailable => Some("remoteTranscription"@),
        RefusalReason::AudioProcessingUnavailable => Some("audioCleanup"@),
        RefusalReason::ExportUnavailable => Some("ffmpegExport"@),
        _ => None,
    }
}

fn single_entry(key: &str, value: JsonValue) -> (r: JsonValue)
    ensures
        r.field(key@) == Some(value),
{
    let entries = vec![(copy_string(key), value)];
    assert(crate::json::object_lookup(entries@, key@) == Some(value));
    JsonValue::Object(entries)
}

/// The API error for a workflow refusal. `workflow_message` is the message of
/// the failed structural validation; the details of a refusal that names an
/// unavailable runtime capability carry that capability, and those of an
/// unavailable provider carry the provider and its reported availability.
pub fn refusal_error(
    refusal: CapabilityRefusal,
    workflow_message: &str,
    calls: &Vec<CapabilityCall>,
    providers: &Vec<ProviderFacts>,
) -> (r: Option<ApiError>)
    ensures
        refusal.reason == RefusalReason::InvalidWorkflow ==> match r {
            Some(e) => e.status == STATUS_BAD_REQUEST && e.code@ == "invalid_agent_workflow"@
                && e.message@ == workflow_message@,
            None => false,
        },
        refusal.reason != RefusalReason::InvalidWorkflow ==> match refusal_answer(refusal.reason) {
            None => r is None,
            Some((status, code, message)) => match r {
                Some(e) => {
                    &&& e.status == status
                    &&& e.code@ == code
                    &&& e.message@ == message
                    &&& (refused_capability(refusal.reason) matches Some(cap) ==> (e.details
                        matches Some(d) && d.field_str("capability"@) == Some(cap)))
                },
                None => false,
            },
        },
{
    let reason = refusal.reason;
    proof {
        reveal_strlit("capability_not_available");
        reveal_strlit("capability");
    }
    match reason {
        RefusalReason::InvalidWorkflow => Some(
            ApiError::bad_request("invalid_agent_workflow", workflow_message),
        ),
        RefusalReason::AssetNotFound => None,
        RefusalReason::ProviderNotFound => None,
        RefusalReason::TranscriptionUnavailable => Some(
            ApiError::new(
                501,
                "capability_not_available",
                "local transcription requires the configured media worker",
            ).with_details(single_entry("capability", JsonValue::Str(copy_string("transcription")))),
        ),
        RefusalReason::AssetNotTranscribable => Some(
            ApiError::bad_request(
                "asset_not_transcribable",
                "Agent transcription requires a managed audio asset or video with audio",
            ),
        ),
        RefusalReason::RemoteTranscriptionUnavailable => Some(
            ApiError::new(
                501,
                "capability_not_available",
                "New API ASR is not configured",
            ).with_details(
                single_entry("capability", JsonValue::Str(copy_string("remoteTranscription"))),
            ),
        ),
        RefusalReason::ProviderCapabilityMismatch => Some(
            ApiError::bad_request(
                "provider_capability_mismatch",
                "the planned provider does not support the requested asset kind",
            ),
        ),
        RefusalReason::ProviderUnavailable => {
            let e = ApiError::new(
                501,
                "capability_not_available",
                "the planned generation provider is not currently available",
            );
            let mut details: Vec<(String, JsonValue)> = Vec::new();
            if refusal.call_index < calls.len() {
                match &calls[refusal.call_index] {
                    CapabilityCall::GenerateAsset { provider, .. } => {
                        details.push(
                            (copy_string("provider"), JsonValue::Str(copy_string(provider.as_str()))),
                        );
                        match find_provider(providers, provider.as_str()) {
                            Some(p) => {
                                details.push(
                                    (copy_string("availability"), crate::json::json_clone(&p.availability)),
                                );
                            },
                            None => {},
                        }
                    },
                    _ => {},
                }
            }
            Some(e.with_details(JsonValue::Object(details)))
        },
        RefusalReason::AudioProcessingUnavailable => Some(
            ApiError::new(
                501,
                "capability_not_available",
                "audio processing requires the configured media worker",
            ).with_details(single_entry("capability", JsonValue::Str(copy_string("audioCleanup")))),
        ),
        RefusalReason::AssetNotProcessable => Some(
            ApiError::bad_request(
                "asset_not_processable",
                "Agent audio processing requires a managed audio or video asset",
            ),
        ),
        RefusalReason::ExportUnavailable => Some(
            ApiError::new(
                501,
                "capability_not_available",
                "media export requires the configured media worker",
            ).with_details(single_entry("capability", JsonValue::Str(copy_string("ffmpegExport")))),
        ),
    }
}


/// The number of local B-roll matches a read-only capability result reports
/// under `/result/localMatches`.
pub open spec fn reported_matches(v: JsonValue) -> nat {
    match v.field("result"@) {
        Some(r) => match r.field("localMatches"@) {
            Some(JsonValue::Array(items)) => items.len() as nat,
            _ => 0,
        },
        None => 0,
    }
}

pub open spec fn total_matches(results: Seq<JsonValue>) -> nat
    decreases results.len(),
{
    if results.len() == 0 {
        0
    } else {
        total_matches(results.drop_last()) + reported_matches(results.last())
    }
}

pub open spec fn plural(n: nat, suffix: Seq<char>) -> Seq<char> {
    if n == 1 {
        Seq::empty()
    } else {
        suffix
    }
}

/// The sentence about automatically completed read-only checks.
pub open spec fn checks_sentence(n: nat, matches: nat) -> Seq<char> {
    "Automatically completed "@ + decimal(n) + " read-only check"@ + plural(n, "s"@) + "; found "@
        + decimal(matches) + " managed local B-roll match"@ + plural(matches, "es"@) + "."@
}

/// The sentence about actions prepared for review.
pub open spec fn pending_sentence(n: nat) -> Seq<char> {
    "Prepared "@ + decimal(n) + " durable creative action"@ + plural(n, "s"@)
        + " for review; no job has started yet."@
}

/// The agent's reply: the summary alone, or the trimmed summary, a blank
/// line and the sentences about completed checks and prepared actions.
pub open spec fn response_text_spec(summary: Seq<char>, results: Seq<JsonValue>, pending: nat) -> Seq<
    char,
> {
    let details = (if results.len() > 0 {
        seq![checks_sentence(results.len(), total_matches(results))]
    } else {
        Seq::empty()
    }) + (if pending > 0 {
        seq![pending_sentence(pending)]
    } else {
        Seq::empty()
    });
    if details.len() == 0 {
        summary
    } else {
        trim_spec(summary) + "\n\n"@ + join_words(details)
    }
}

fn push_plural(v: &mut Vec<char>, n: usize, suffix: &str)
    ensures
        final(v)@ == old(v)@ + plural(n as nat, suffix@),
{
    if n != 1 {
        push_str(v, suffix);
    } else {
        assert(old(v)@ + plural(n as nat, suffix@) =~= old(v)@);
    }
}

/// The reply text after an agent workflow ran its read-only checks and
/// prepared `pending_approval_count` actions for review.
pub fn agent_capability_response_text(
    summary: &str,
    read_results: &Vec<JsonValue>,
    pending_approval_count: usize,
) -> (r: String)
    requires
        total_matches(read_results@) <= usize::MAX,
    ensures
        r@ == response_text_spec(summary@, read_results@, pending_approval_count as nat),
{
    let mut local_matches: usize = 0;
    let mut i: usize = 0;
    while i < read_results.len()
        invariant
            i <= read_results.len(),
            total_matches(read_results@) <= usize::MAX,
            local_matches == total_matches(read_results@.subrange(0, i as int)),
        decreases read_results.len() - i,
    {
        assert(read_results@.subrange(0, i + 1).drop_last() =~= read_results@.subrange(0, i as int));
        proof {
            lemma_total_matches_prefix(read_results@, i + 1);
        }
        let n: usize = match read_results[i].get("result") {
            Some(r) => match r.get("localMatches") {
                Some(JsonValue::Array(items)) => items.len(),
                _ => 0,
            },
            None => 0,
        };
        local_matches = local_matches + n;
        i += 1;
    }
    assert(read_results@.subrange(0, read_results.len() as int) =~= read_results@);
    let mut details: Vec<Vec<char>> = Vec::new();
    if read_results.len() > 0 {
        let mut d: Vec<char> = Vec::new();
        push_str(&mut d, "Automatically completed ");
        push_decimal(&mut d, read_results.len() as u64);
        push_str(&mut d, " read-only check");
        push_plural(&mut d, read_results.len(), "s");
        push_str(&mut d, "; found ");
        push_decimal(&mut d, local_matches as u64);
        push_str(&mut d, " managed local B-roll match");
        push_plural(&mut d, local_matches, "es");
        push_str(&mut d, ".");
        details.push(d);
    }
    if pending_approval_count > 0 {
        let mut d: Vec<char> = Vec::new();
        push_str(&mut d, "Prepared ");
        push_decimal(&mut d, pending_approval_count as u64);
        push_str(&mut d, " durable creative action");
        push_plural(&mut d, pending_approval_count, "s");
        push_str(&mut d, " for review; no job has started yet.");
        details.push(d);
    }
    let ghost expected = (if read_results.len() > 0 {
        seq![checks_sentence(read_results.len() as nat, total_matches(read_results@))]
    } else {
        Seq::empty()
    }) + (if pending_approval_count > 0 {
        seq![pending_sentence(pending_approval_count as nat)]
    } else {
        Seq::empty()
    });
    assert(char_views(details@) =~= expected);
    if details.len() == 0 {
        return copy_string(summary);
    }
    let sc = chars_of(summary);
    let mut out = trim(sc.as_slice());
    push_str(&mut out, "\n\n");
    let mut joined = Vec::new();
    let mut k: usize = 0;
    while k < details.len()
        invariant
            k <= details.len(),
            joined@ == join_words(char_views(details@).subrange(0, k as int)),
        decreases details.len() - k,
    {
        let ghost vs = char_views(details@);
        assert(vs.subrange(0, k + 1).drop_last() =~= vs.subrange(0, k as int));
        assert(vs.subrange(0, k + 1).last() == details@[k as int]@);
        if k > 0 {
            joined.push(' ');
        }
        let mut w = details[k].clone();
        joined.append(&mut w);
        k += 1;
    }
    assert(char_views(details@).subrange(0, details.len() as int) =~= char_views(details@));
    out.append(&mut joined);
    string_of(out.as_slice())
}

proof fn lemma_total_matches_prefix(results: Seq<JsonValue>, k: int)
    requires
        0 <= k <= results.len(),
    ensures
        total_matches(results.subrange(0, k)) <= total_matches(results),
    decreases results.len() - k,
{
    if k < results.len() {
        assert(results.drop_last().subrange(0, k) =~= results.subrange(0, k));
        lemma_total_matches_prefix(results.drop_last(), k);
    } else {
        assert(results.subrange(0, k) =~= results);
    }
}

} // verus!
