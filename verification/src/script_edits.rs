//! Editing a project by its script: a request that deletes, splits,
//! re-attributes, corrects, cleans up, captions or reorders transcript
//! content becomes the list of project operations that carry it out.
use vstd::prelude::*;
use crate::error::{ApiError, STATUS_BAD_REQUEST, STATUS_CONFLICT};
use crate::json::{JsonNumber, JsonValue, json_clone, json_same};
use crate::script::{
    cleanup_spec, i64_view, milliseconds_to_ticks, script_suffix_input, stable_script_suffix,
    transcript_cleanup_options, CleanupOverrides,
};
use crate::story::{
    build_script_reorder_operations, copy_ids, find_sequence, id_list, ids_of, list_contains,
    ops_view, parse_ids, reorder_answer, reorder_error_answer, reorder_spec, sequence_for, ReorderError,
    ReorderFailure, ReorderOpView, ReorderOperation, StorySequence, TranscriptDocument,
    TranscriptSegment, STATUS_UNPROCESSABLE,
};
use crate::text::{chars_of, copy_string, push_str, str_eq, string_of};

verus! {

/// What a script edit reads of the project: its id, its transcripts and its
/// story sequences.
#[derive(Debug)]
pub struct ScriptProject {
    pub project_id: String,
    pub transcripts: Vec<TranscriptDocument>,
    pub story_sequences: Vec<StorySequence>,
}

/// A project operation that a script edit asks for.
#[derive(Debug)]
pub enum ScriptOperation {
    SetWordsDeleted { transcript_id: String, word_ids: Vec<String> },
    DeleteSegment { transcript_id: String, segment_id: String },
    SplitSegment {
        transcript_id: String,
        segment_id: String,
        at_word_id: String,
        new_segment_id: String,
    },
    CloseStoryGaps { sequence_id: String, threshold_ticks: i64, target_gap_ticks: i64 },
    SetSpeaker { transcript_id: String, word_ids: Vec<String>, speaker_id: String },
    SetDisplayText { transcript_id: String, word_id: String, display_text: String },
    /// Apply the recommended edits of the transcript cleanup analysis, as the
    /// edit plan `plan_id`, with these settings overridden.
    AutoCleanup { transcript_id: String, plan_id: String, options: CleanupOverrides },
    /// Create captions (the caption request `create`) with these options,
    /// on the named caption track if one is given; the objects it creates are
    /// named with `suffix`.
    AddCaptions {
        options: Vec<(String, JsonValue)>,
        caption_track_id: Option<JsonValue>,
        suffix: String,
    },
    Reorder(ReorderOperation),
}

/// The data of a script operation.
pub enum ScriptOpView {
    SetWordsDeleted(Seq<char>, Seq<Seq<char>>),
    DeleteSegment(Seq<char>, Seq<char>),
    SplitSegment(Seq<char>, Seq<char>, Seq<char>, Seq<char>),
    CloseStoryGaps(Seq<char>, i64, i64),
    SetSpeaker(Seq<char>, Seq<Seq<char>>, Seq<char>),
    SetDisplayText(Seq<char>, Seq<char>, Seq<char>),
    AutoCleanup(Seq<char>, Seq<char>, CleanupOverrides),
    AddCaptions(Seq<(Seq<char>, JsonValue)>, Option<JsonValue>, Seq<char>),
    Reorder(ReorderOpView),
}

/// Object entries with their keys as character sequences.
pub open spec fn entry_views(e: Seq<(String, JsonValue)>) -> Seq<(Seq<char>, JsonValue)> {
    e.map_values(|x: (String, JsonValue)| (x.0@, x.1))
}

impl View for ScriptOperation {
    type V = ScriptOpView;

    open spec fn view(&self) -> ScriptOpView {
        match self {
            ScriptOperation::SetWordsDeleted { transcript_id, word_ids } =>
                ScriptOpView::SetWordsDeleted(transcript_id@, ids_of(word_ids@)),
            ScriptOperation::DeleteSegment { transcript_id, segment_id } =>
                ScriptOpView::DeleteSegment(transcript_id@, segment_id@),
            ScriptOperation::SplitSegment { transcript_id, segment_id, at_word_id, new_segment_id } =>
                ScriptOpView::SplitSegment(
                transcript_id@,
                segment_id@,
                at_word_id@,
                new_segment_id@,
            ),
            ScriptOperation::CloseStoryGaps { sequence_id, threshold_ticks, target_gap_ticks } =>
                ScriptOpView::CloseStoryGaps(sequence_id@, *threshold_ticks, *target_gap_ticks),
            ScriptOperation::SetSpeaker { transcript_id, word_ids, speaker_id } =>
                ScriptOpView::SetSpeaker(transcript_id@, ids_of(word_ids@), speaker_id@),
            ScriptOperation::SetDisplayText { transcript_id, word_id, display_text } =>
                ScriptOpView::SetDisplayText(transcript_id@, word_id@, display_text@),
            ScriptOperation::AutoCleanup { transcript_id, plan_id, options } =>
                ScriptOpView::AutoCleanup(transcript_id@, plan_id@, *options),
            ScriptOperation::AddCaptions { options, caption_track_id, suffix } =>
                ScriptOpView::AddCaptions(entry_views(options@), *caption_track_id, suffix@),
            ScriptOperation::Reorder(o) => ScriptOpView::Reorder(o@),
        }
    }
}

pub open spec fn op_views(v: Seq<ScriptOperation>) -> Seq<ScriptOpView> {
    v.map_values(|o: ScriptOperation| o@)
}

/// Entries with the same keys in the same order and values that hold the
/// same JSON data.
pub open spec fn entries_match(a: Seq<(Seq<char>, JsonValue)>, b: Seq<(Seq<char>, JsonValue)>) -> bool {
    &&& a.len() == b.len()
    &&& forall|i: int| 0 <= i < a.len() ==> (#[trigger] a[i]).0 == b[i].0 && json_same(a[i].1, b[i].1)
}

pub open spec fn opt_json_same(a: Option<JsonValue>, b: Option<JsonValue>) -> bool {
    match (a, b) {
        (Some(x), Some(y)) => json_same(x, y),
        (None, None) => true,
        _ => false,
    }
}

/// Two operations carry the same data (JSON values compared by `json_same`).
pub open spec fn op_same(a: ScriptOpView, b: ScriptOpView) -> bool {
    match (a, b) {
        (ScriptOpView::AddCaptions(o1, t1, s1), ScriptOpView::AddCaptions(o2, t2, s2)) =>
            entries_match(o1, o2) && opt_json_same(t1, t2) && s1 == s2,
        _ => a == b,
    }
}

pub open spec fn ops_same(a: Seq<ScriptOpView>, b: Seq<ScriptOpView>) -> bool {
    &&& a.len() == b.len()
    &&& forall|i: int| 0 <= i < a.len() ==> op_same(#[trigger] a[i], b[i])
}

/// Why a script edit is refused.
#[derive(Debug)]
pub enum ScriptEditError {
    /// Refused with this API error.
    Refused(ApiError),
    /// A reorder request, or a list of ids, is refused (see `reorder_error_answer`).
    Reorder(ReorderError),
    /// No transcript has the requested id.
    TranscriptNotFound(String),
    /// No segment of the transcript holds the word.
    SegmentForWordNotFound(String),
    /// A required string argument is missing: 400 `missing_field`, with the
    /// field named in the details.
    MissingField(String),
    /// The project has several transcripts and the request names none: 409
    /// `transcript_selection_required`, with their ids in the details.
    TranscriptSelectionRequired(Vec<String>),
}

pub enum ScriptFailure {
    /// Refused with this status, code and message, and no details.
    Refused(u16, Seq<char>, Seq<char>),
    /// Refused with details.
    RefusedWithDetails(u16, Seq<char>, Seq<char>),
    Reorder(ReorderFailure),
    TranscriptNotFound(Seq<char>),
    SegmentForWordNotFound(Seq<char>),
    MissingField(Seq<char>),
    TranscriptSelectionRequired(Seq<Seq<char>>),
}

impl View for ScriptEditError {
    type V = ScriptFailure;

    open spec fn view(&self) -> ScriptFailure {
        match self {
            ScriptEditError::Refused(e) => if e.details is None {
                ScriptFailure::Refused(e.status, e.code@, e.message@)
            } else {
                ScriptFailure::RefusedWithDetails(e.status, e.code@, e.message@)
            },
            ScriptEditError::MissingField(f) => ScriptFailure::MissingField(f@),
            ScriptEditError::TranscriptSelectionRequired(ids) => ScriptFailure::TranscriptSelectionRequired(
                ids_of(ids@),
            ),
            ScriptEditError::Reorder(e) => ScriptFailure::Reorder(e@),
            ScriptEditError::TranscriptNotFound(id) => ScriptFailure::TranscriptNotFound(id@),
            ScriptEditError::SegmentForWordNotFound(id) => ScriptFailure::SegmentForWordNotFound(
                id@,
            ),
        }
    }
}

impl ScriptEditError {
    /// The API error that answers the refusal; `None` where the API answers
    /// with its not-found error: for a transcript, for the segment of a word,
    /// or for a word that no story clip plays.
    pub fn api_error(self) -> (r: Option<ApiError>)
        ensures
            match self@ {
                ScriptFailure::Refused(status, code, message) => r matches Some(a) && a.status
                    == status && a.code@ == code && a.message@ == message && a.details is None,
                ScriptFailure::RefusedWithDetails(status, code, message) => r matches Some(a)
                    && a.status == status && a.code@ == code && a.message@ == message,
                ScriptFailure::MissingField(f) => r matches Some(a) && a.status == STATUS_BAD_REQUEST
                    && a.code@ == "missing_field"@ && a.message@ == f + " is required"@ && (a.details matches Some(
                    JsonValue::Object(d),
                ) && d@.len() == 1 && d@[0].0@ == "field"@ && d@[0].1.str_view() == Some(f)),
                ScriptFailure::TranscriptSelectionRequired(ids) => r matches Some(a) && a.status
                    == STATUS_CONFLICT && a.code@ == "transcript_selection_required"@ && a.message@
                    == "the project has multiple transcripts; provide transcriptId"@ && (a.details matches Some(
                    JsonValue::Object(d),
                ) && d@.len() == 1 && d@[0].0@ == "transcriptIds"@ && (d@[0].1 matches JsonValue::Array(items)
                    && items@.len() == ids.len() && forall|k: int|
                    0 <= k < ids.len() ==> (#[trigger] items@[k]).str_view() == Some(ids[k]))),
                ScriptFailure::Reorder(f) => match reorder_answer(f) {
                    None => r is None,
                    Some((status, code, message)) => r matches Some(a) && a.status == status
                        && a.code@ == code && a.message@ == message,
                },
                _ => r is None,
            },
    {
        match self {
            ScriptEditError::Refused(a) => Some(a),
            ScriptEditError::Reorder(e) => reorder_error_answer(&e),
            ScriptEditError::TranscriptNotFound(_) => None,
            ScriptEditError::SegmentForWordNotFound(_) => None,
            ScriptEditError::MissingField(f) => {
                let mut m = chars_of(f.as_str());
                push_str(&mut m, " is required");
                let details = JsonValue::Object(vec![(copy_string("field"), JsonValue::Str(f))]);
                Some(ApiError::bad_request("missing_field", string_of(m.as_slice()).as_str()).with_details(details))
            },
            ScriptEditError::TranscriptSelectionRequired(ids) => {
                let mut items: Vec<JsonValue> = Vec::new();
                let mut i: usize = 0;
                while i < ids.len()
                    invariant
                        i <= ids.len(),
                        items.len() == i,
                        forall|k: int| 0 <= k < i ==> (#[trigger] items@[k]).str_view() == Some(ids@[k]@),
                    decreases ids.len() - i,
                {
                    items.push(JsonValue::Str(copy_string(ids[i].as_str())));
                    i += 1;
                }
                let details = JsonValue::Object(vec![(copy_string("transcriptIds"), JsonValue::Array(items))]);
                Some(
                    ApiError::conflict(
                        "transcript_selection_required",
                        "the project has multiple transcripts; provide transcriptId",
                    ).with_details(details),
                )
            },
        }
    }
}

pub open spec fn refused(status: u16, code: Seq<char>, message: Seq<char>) -> ScriptFailure {
    ScriptFailure::Refused(status, code, message)
}

pub open spec fn missing_field(f: Seq<char>) -> ScriptFailure {
    ScriptFailure::MissingField(f)
}

/// A computed list of operations agrees with the specified one.
pub open spec fn ops_result(
    r: Result<Vec<ScriptOperation>, ScriptEditError>,
    s: Result<Seq<ScriptOpView>, ScriptFailure>,
) -> bool {
    match (r, s) {
        (Ok(v), Ok(o)) => ops_same(op_views(v@), o),
        (Err(e), Err(f)) => e@ == f,
        _ => false,
    }
}

/// The ids listed under `field` (a non-empty array of strings).
pub open spec fn ids_or(edit: JsonValue, field: Seq<char>) -> Result<Seq<Seq<char>>, ScriptFailure> {
    match id_list(edit, field) {
        Ok(l) => Ok(l),
        Err(e) => Err(ScriptFailure::Reorder(e)),
    }
}

fn ids_of_field(edit: &JsonValue, field: &str) -> (r: Result<Vec<String>, ScriptEditError>)
    ensures
        match (r, ids_or(*edit, field@)) {
            (Ok(v), Ok(l)) => ids_of(v@) == l,
            (Err(e), Err(f)) => e@ == f,
            _ => false,
        },
{
    match parse_ids(edit, field) {
        Ok(v) => Ok(v),
        Err(e) => Err(ScriptEditError::Reorder(e)),
    }
}

fn missing(field: &str) -> (e: ScriptEditError)
    ensures
        e@ == missing_field(field@),
{
    ScriptEditError::MissingField(copy_string(field))
}

/// The suffix of the ids a script edit creates (see `stable_script_suffix`).
pub open spec fn edit_suffix(pid: Seq<char>, key: Seq<char>, word: Seq<char>, index: nat) -> Seq<char> {
    crate::encoding::hex_lower(crate::encoding::sha256(script_suffix_input(pid, key, word, index))).subrange(
        0,
        24,
    )
}

/// The first segment that holds the word.
pub open spec fn segment_holding(segs: Seq<TranscriptSegment>, w: Seq<char>) -> Option<TranscriptSegment>
    decreases segs.len(),
{
    if segs.len() == 0 {
        None
    } else if ids_of(segs[0].word_ids@).contains(w) {
        Some(segs[0])
    } else {
        segment_holding(segs.drop_first(), w)
    }
}

/// A duration in milliseconds as ticks (see `milliseconds_to_ticks`).
pub open spec fn ms_ticks(ms: i64, tpm: i64) -> Result<i64, ScriptFailure> {
    if ms < 0 {
        Err(refused(400, "negative_duration"@, "millisecond durations must not be negative"@))
    } else if !(i64::MIN <= ms * tpm <= i64::MAX) {
        Err(refused(400, "duration_overflow"@, "duration is too large"@))
    } else {
        Ok((ms * tpm) as i64)
    }
}

/// The integer under `f`, or `default` where it is missing or not an integer.
pub open spec fn int_or(edit: JsonValue, f: Seq<char>, default: i64) -> i64 {
    match edit.field(f) {
        Some(v) => match i64_view(v) {
            Some(n) => n,
            None => default,
        },
        None => default,
    }
}

/// The entry `f` of the edit, if it has one.
pub open spec fn caption_entry(edit: JsonValue, f: Seq<char>) -> Seq<(Seq<char>, JsonValue)> {
    match edit.field(f) {
        Some(v) => seq![(f, v)],
        None => Seq::empty(),
    }
}

/// The caption settings given on the edit itself, in this order.
pub open spec fn caption_fields_of(edit: JsonValue) -> Seq<(Seq<char>, JsonValue)> {
    caption_entry(edit, "transcriptId"@) + caption_entry(edit, "wordIds"@) + caption_entry(
        edit,
        "language"@,
    ) + caption_entry(edit, "presetId"@) + caption_entry(edit, "style"@) + caption_entry(
        edit,
        "maxLines"@,
    ) + caption_entry(edit, "maxCharactersPerLine"@) + caption_entry(edit, "wordHighlight"@)
        + caption_entry(edit, "name"@)
}

/// The options of an `add_captions` edit: its `options` object, else the
/// caption settings given on the edit itself.
pub open spec fn caption_options_spec(edit: JsonValue) -> Result<Seq<(Seq<char>, JsonValue)>, ScriptFailure> {
    match edit.field("options"@) {
        Some(JsonValue::Object(entries)) => Ok(entry_views(entries@)),
        Some(_) => Err(refused(400, "invalid_caption_options"@, "add_captions options must be an object"@)),
        None => Ok(caption_fields_of(edit)),
    }
}

pub open spec fn delete_words_spec(edit: JsonValue, t: TranscriptDocument) -> Result<Seq<ScriptOpView>, ScriptFailure> {
    match ids_or(edit, "wordIds"@) {
        Err(f) => Err(f),
        Ok(w) => Ok(seq![ScriptOpView::SetWordsDeleted(t.id@, w)]),
    }
}

pub open spec fn delete_segments_spec(edit: JsonValue, t: TranscriptDocument) -> Result<Seq<ScriptOpView>, ScriptFailure> {
    match ids_or(edit, "utteranceIds"@) {
        Err(f) => Err(f),
        Ok(s) => Ok(s.map_values(|sid: Seq<char>| ScriptOpView::DeleteSegment(t.id@, sid))),
    }
}

pub open spec fn split_spec(
    edit: JsonValue,
    index: nat,
    t: TranscriptDocument,
    pid: Seq<char>,
    key: Seq<char>,
) -> Result<Seq<ScriptOpView>, ScriptFailure> {
    match ids_or(edit, "wordIds"@) {
        Err(f) => Err(f),
        Ok(w) => match segment_holding(t.segments@, w[0]) {
            None => Err(ScriptFailure::SegmentForWordNotFound(w[0])),
            Some(seg) => Ok(
                seq![ScriptOpView::SplitSegment(t.id@, seg.id@, w[0], "segment:split:"@ + edit_suffix(pid, key, w[0], index))],
            ),
        },
    }
}

pub open spec fn close_gaps_spec(
    edit: JsonValue,
    t: TranscriptDocument,
    seqs: Seq<StorySequence>,
    tpm: i64,
) -> Result<Seq<ScriptOpView>, ScriptFailure> {
    match sequence_for(seqs, t.id@) {
        None => Err(
            refused(422, "story_sequence_required"@, "closing gaps requires a materialized StorySequence"@),
        ),
        Some(s) => match ms_ticks(int_or(edit, "thresholdMs"@, 1500), tpm) {
            Err(f) => Err(f),
            Ok(threshold) => match ms_ticks(int_or(edit, "targetGapMs"@, 180), tpm) {
                Err(f) => Err(f),
                Ok(target) => Ok(seq![ScriptOpView::CloseStoryGaps(s.id@, threshold, target)]),
            },
        },
    }
}

pub open spec fn speaker_spec(edit: JsonValue, t: TranscriptDocument) -> Result<Seq<ScriptOpView>, ScriptFailure> {
    match edit.field_str("speakerId"@) {
        None => Err(missing_field("speakerId"@)),
        Some(sp) => match ids_or(edit, "wordIds"@) {
            Err(f) => Err(f),
            Ok(w) => Ok(seq![ScriptOpView::SetSpeaker(t.id@, w, sp)]),
        },
    }
}

pub open spec fn display_text_spec(edit: JsonValue, t: TranscriptDocument) -> Result<Seq<ScriptOpView>, ScriptFailure> {
    match ids_or(edit, "wordIds"@) {
        Err(f) => Err(f),
        Ok(w) => if w.len() != 1 {
            Err(
                refused(400, "single_word_required"@, "display-text correction requires exactly one selected word"@),
            )
        } else {
            match edit.field_str("displayText"@) {
                None => Err(missing_field("displayText"@)),
                Some(d) => Ok(seq![ScriptOpView::SetDisplayText(t.id@, w[0], d)]),
            }
        },
    }
}

pub open spec fn cleanup_edit_spec(
    edit: JsonValue,
    index: nat,
    t: TranscriptDocument,
    pid: Seq<char>,
    key: Seq<char>,
    tpm: i64,
) -> Result<Seq<ScriptOpView>, ScriptFailure> {
    match cleanup_spec(edit, tpm) {
        Err((code, message)) => Err(refused(400, code, message)),
        Ok(o) => Ok(
            seq![ScriptOpView::AutoCleanup(t.id@, "plan:cleanup:"@ + edit_suffix(pid, key, "auto-cleanup"@, index), o)],
        ),
    }
}

pub open spec fn captions_spec(edit: JsonValue, index: nat, pid: Seq<char>, key: Seq<char>) -> Result<
    Seq<ScriptOpView>,
    ScriptFailure,
> {
    match caption_options_spec(edit) {
        Err(f) => Err(f),
        Ok(o) => Ok(
            seq![ScriptOpView::AddCaptions(o, edit.field("captionTrackId"@), edit_suffix(pid, key, "captions"@, index))],
        ),
    }
}

pub open spec fn reorder_edit_spec(edit: JsonValue, t: TranscriptDocument, seqs: Seq<StorySequence>) -> Result<
    Seq<ScriptOpView>,
    ScriptFailure,
> {
    match reorder_spec(edit, t, seqs) {
        Err(f) => Err(ScriptFailure::Reorder(f)),
        Ok(ops) => Ok(ops.map_values(|o: ReorderOpView| ScriptOpView::Reorder(o))),
    }
}

/// The name for what Rust's `Debug` formatting writes for a string: the
/// string in double quotes, with quotes, backslashes and non-printable
/// characters escaped.
pub uninterp spec fn debug_quoted(s: Seq<char>) -> Seq<char>;

/// The operations of the edit at position `index`, by its `kind`.
#[verifier::opaque]
pub open spec fn edit_ops_spec(
    edit: JsonValue,
    index: nat,
    t: TranscriptDocument,
    seqs: Seq<StorySequence>,
    pid: Seq<char>,
    key: Seq<char>,
    tpm: i64,
) -> Result<Seq<ScriptOpView>, ScriptFailure> {
    match edit.field_str("kind"@) {
        None => Err(missing_field("kind"@)),
        Some(kind) => if kind == "delete_words"@ || kind == "deleteWords"@ {
            delete_words_spec(edit, t)
        } else if kind == "delete_utterances"@ || kind == "deleteUtterances"@ || kind
            == "delete_segments"@ {
            delete_segments_spec(edit, t)
        } else if kind == "split_at_word"@ || kind == "splitAtWord"@ {
            split_spec(edit, index, t, pid, key)
        } else if kind == "close_gaps"@ || kind == "closeGaps"@ {
            close_gaps_spec(edit, t, seqs, tpm)
        } else if kind == "change_speaker"@ || kind == "changeSpeaker"@ {
            speaker_spec(edit, t)
        } else if kind == "correct_display_text"@ || kind == "correctDisplayText"@ {
            display_text_spec(edit, t)
        } else if kind == "auto_cleanup"@ || kind == "autoCleanup"@ {
            cleanup_edit_spec(edit, index, t, pid, key, tpm)
        } else if kind == "add_captions"@ || kind == "addCaptions"@ {
            captions_spec(edit, index, pid, key)
        } else if kind == "reorder_words"@ || kind == "reorderWords"@ {
            reorder_edit_spec(edit, t, seqs)
        } else {
            Err(refused(400, "unknown_script_edit"@, "unsupported script edit kind "@ + debug_quoted(kind)))
        },
    }
}

/// `format!("{:?}", s)`: the `Debug` form of a string.
#[verifier::external_body]
pub(crate) fn debug_string(s: &str) -> (r: String)
    ensures
        r@ == debug_quoted(s@),
{
    format!("{:?}", s)
}

fn refuse(status: u16, code: &str, message: &str) -> (e: ScriptEditError)
    ensures
        e@ == refused(status, code@, message@),
{
    ScriptEditError::Refused(ApiError::new(status, code, message))
}

fn prefixed(prefix: &str, s: &str) -> (r: String)
    ensures
        r@ == prefix@ + s@,
{
    let mut v = chars_of(prefix);
    push_str(&mut v, s);
    string_of(v.as_slice())
}

fn segment_holding_word<'a>(segs: &'a Vec<TranscriptSegment>, w: &str) -> (r: Option<&'a TranscriptSegment>)
    ensures
        match r {
            Some(s) => segment_holding(segs@, w@) == Some(*s),
            None => segment_holding(segs@, w@) is None,
        },
{
    let mut i: usize = 0;
    assert(segs@.subrange(0, segs.len() as int) =~= segs@);
    while i < segs.len()
        invariant
            i <= segs.len(),
            segment_holding(segs@, w@) == segment_holding(segs@.subrange(i as int, segs.len() as int), w@),
        decreases segs.len() - i,
    {
        let ghost rest = segs@.subrange(i as int, segs.len() as int);
        assert(rest.drop_first() =~= segs@.subrange(i + 1, segs.len() as int));
        assert(rest[0] == segs@[i as int]);
        if list_contains(&segs[i].word_ids, w) {
            return Some(&segs[i]);
        }
        i += 1;
    }
    None
}

fn ticks_of(ms: i64, tpm: i64) -> (r: Result<i64, ScriptEditError>)
    ensures
        match (r, ms_ticks(ms, tpm)) {
            (Ok(a), Ok(b)) => a == b,
            (Err(e), Err(f)) => e@ == f,
            _ => false,
        },
{
    match milliseconds_to_ticks(ms, tpm) {
        Ok(t) => Ok(t),
        Err(e) => Err(ScriptEditError::Refused(e)),
    }
}

fn json_i64(v: &JsonValue) -> (r: Option<i64>)
    ensures
        r == i64_view(*v),
{
    match v {
        JsonValue::Number(JsonNumber::PosInt(n)) => if *n <= 9223372036854775807u64 {
            Some(*n as i64)
        } else {
            None
        },
        JsonValue::Number(JsonNumber::NegInt(n)) => Some(*n),
        _ => None,
    }
}

fn int_field_or(edit: &JsonValue, f: &str, default: i64) -> (r: i64)
    ensures
        r == int_or(*edit, f@, default),
{
    match edit.get(f) {
        Some(v) => match json_i64(v) {
            Some(n) => n,
            None => default,
        },
        None => default,
    }
}

fn delete_words_ops(edit: &JsonValue, t: &TranscriptDocument) -> (r: Result<Vec<ScriptOperation>, ScriptEditError>)
    ensures
        ops_result(r, delete_words_spec(*edit, *t)),
{
    let word_ids = match ids_of_field(edit, "wordIds") {
        Err(e) => return Err(e),
        Ok(w) => w,
    };
    let ops = vec![ScriptOperation::SetWordsDeleted { transcript_id: copy_string(t.id.as_str()), word_ids }];
    assert(op_views(ops@) =~= delete_words_spec(*edit, *t)->Ok_0);
    Ok(ops)
}

fn delete_segments_ops(edit: &JsonValue, t: &TranscriptDocument) -> (r: Result<Vec<ScriptOperation>, ScriptEditError>)
    ensures
        ops_result(r, delete_segments_spec(*edit, *t)),
{
    let segment_ids = match ids_of_field(edit, "utteranceIds") {
        Err(e) => return Err(e),
        Ok(s) => s,
    };
    let ghost expected = delete_segments_spec(*edit, *t)->Ok_0;
    let mut ops: Vec<ScriptOperation> = Vec::new();
    let mut i: usize = 0;
    while i < segment_ids.len()
        invariant
            i <= segment_ids.len(),
            expected == ids_of(segment_ids@).map_values(
                |sid: Seq<char>| ScriptOpView::DeleteSegment(t.id@, sid),
            ),
            op_views(ops@) =~= expected.subrange(0, i as int),
        decreases segment_ids.len() - i,
    {
        let op = ScriptOperation::DeleteSegment {
            transcript_id: copy_string(t.id.as_str()),
            segment_id: copy_string(segment_ids[i].as_str()),
        };
        assert(op@ == expected[i as int]);
        let ghost before = ops@;
        ops.push(op);
        assert(op_views(ops@) =~= op_views(before).push(expected[i as int]));
        i += 1;
        assert(op_views(ops@) =~= expected.subrange(0, i as int));
    }
    assert(expected.subrange(0, segment_ids.len() as int) =~= expected);
    Ok(ops)
}

fn split_ops(
    edit: &JsonValue,
    index: usize,
    t: &TranscriptDocument,
    project_id: &str,
    key: &str,
) -> (r: Result<Vec<ScriptOperation>, ScriptEditError>)
    ensures
        ops_result(r, split_spec(*edit, index as nat, *t, project_id@, key@)),
{
    let word_ids = match ids_of_field(edit, "wordIds") {
        Err(e) => return Err(e),
        Ok(w) => w,
    };
    let word = word_ids[0].as_str();
    assert(word@ == ids_of(word_ids@)[0]);
    let segment = match segment_holding_word(&t.segments, word) {
        None => return Err(ScriptEditError::SegmentForWordNotFound(copy_string(word))),
        Some(s) => s,
    };
    let suffix = stable_script_suffix(project_id, key, word, index);
    let ops = vec![
        ScriptOperation::SplitSegment {
            transcript_id: copy_string(t.id.as_str()),
            segment_id: copy_string(segment.id.as_str()),
            at_word_id: copy_string(word),
            new_segment_id: prefixed("segment:split:", suffix.as_str()),
        },
    ];
    assert(op_views(ops@) =~= split_spec(*edit, index as nat, *t, project_id@, key@)->Ok_0);
    Ok(ops)
}

fn close_gaps_ops(edit: &JsonValue, t: &TranscriptDocument, seqs: &Vec<StorySequence>, tpm: i64) -> (r: Result<
    Vec<ScriptOperation>,
    ScriptEditError,
>)
    ensures
        ops_result(r, close_gaps_spec(*edit, *t, seqs@, tpm)),
{
    let sequence = match find_sequence(seqs, t.id.as_str()) {
        None => {
            return Err(
                refuse(
                    STATUS_UNPROCESSABLE,
                    "story_sequence_required",
                    "closing gaps requires a materialized StorySequence",
                ),
            )
        },
        Some(s) => s,
    };
    let threshold = match ticks_of(int_field_or(edit, "thresholdMs", 1500), tpm) {
        Err(e) => return Err(e),
        Ok(v) => v,
    };
    let target = match ticks_of(int_field_or(edit, "targetGapMs", 180), tpm) {
        Err(e) => return Err(e),
        Ok(v) => v,
    };
    let ops = vec![
        ScriptOperation::CloseStoryGaps {
            sequence_id: copy_string(sequence.id.as_str()),
            threshold_ticks: threshold,
            target_gap_ticks: target,
        },
    ];
    assert(op_views(ops@) =~= close_gaps_spec(*edit, *t, seqs@, tpm)->Ok_0);
    Ok(ops)
}

fn speaker_ops(edit: &JsonValue, t: &TranscriptDocument) -> (r: Result<Vec<ScriptOperation>, ScriptEditError>)
    ensures
        ops_result(r, speaker_spec(*edit, *t)),
{
    let speaker = match edit.get_str("speakerId") {
        None => return Err(missing("speakerId")),
        Some(s) => s,
    };
    let word_ids = match ids_of_field(edit, "wordIds") {
        Err(e) => return Err(e),
        Ok(w) => w,
    };
    let ops = vec![
        ScriptOperation::SetSpeaker {
            transcript_id: copy_string(t.id.as_str()),
            word_ids,
            speaker_id: copy_string(speaker),
        },
    ];
    assert(op_views(ops@) =~= speaker_spec(*edit, *t)->Ok_0);
    Ok(ops)
}

fn display_text_ops(edit: &JsonValue, t: &TranscriptDocument) -> (r: Result<Vec<ScriptOperation>, ScriptEditError>)
    ensures
        ops_result(r, display_text_spec(*edit, *t)),
{
    let word_ids = match ids_of_field(edit, "wordIds") {
        Err(e) => return Err(e),
        Ok(w) => w,
    };
    if word_ids.len() != 1 {
        return Err(
            refuse(
                STATUS_BAD_REQUEST,
                "single_word_required",
                "display-text correction requires exactly one selected word",
            ),
        );
    }
    let text = match edit.get_str("displayText") {
        None => return Err(missing("displayText")),
        Some(s) => s,
    };
    let ops = vec![
        ScriptOperation::SetDisplayText {
            transcript_id: copy_string(t.id.as_str()),
            word_id: copy_string(word_ids[0].as_str()),
            display_text: copy_string(text),
        },
    ];
    assert(op_views(ops@) =~= display_text_spec(*edit, *t)->Ok_0);
    Ok(ops)
}

fn cleanup_ops(
    edit: &JsonValue,
    index: usize,
    t: &TranscriptDocument,
    project_id: &str,
    key: &str,
    tpm: i64,
) -> (r: Result<Vec<ScriptOperation>, ScriptEditError>)
    ensures
        ops_result(r, cleanup_edit_spec(*edit, index as nat, *t, project_id@, key@, tpm)),
{
    let options = match transcript_cleanup_options(edit, tpm) {
        Err(e) => return Err(ScriptEditError::Refused(e)),
        Ok(o) => o,
    };
    let suffix = stable_script_suffix(project_id, key, "auto-cleanup", index);
    let ops = vec![
        ScriptOperation::AutoCleanup {
            transcript_id: copy_string(t.id.as_str()),
            plan_id: prefixed("plan:cleanup:", suffix.as_str()),
            options,
        },
    ];
    assert(op_views(ops@) =~= cleanup_edit_spec(*edit, index as nat, *t, project_id@, key@, tpm)->Ok_0);
    Ok(ops)
}

fn push_present(out: &mut Vec<(String, JsonValue)>, edit: &JsonValue, field: &str, Ghost(expected): Ghost<Seq<(Seq<char>, JsonValue)>>)
    requires
        entries_match(entry_views(old(out)@), expected),
    ensures
        entries_match(entry_views(final(out)@), expected + caption_entry(*edit, field@)),
{
    match edit.get(field) {
        Some(v) => {
            let c = json_clone(v);
            out.push((copy_string(field), c));
            assert(entries_match(entry_views(out@), expected + caption_entry(*edit, field@))) by {
                assert(caption_entry(*edit, field@) == seq![(field@, *v)]);
                let a = entry_views(out@);
                let b = expected + caption_entry(*edit, field@);
                assert forall|i: int| 0 <= i < a.len() implies (#[trigger] a[i]).0 == b[i].0 && json_same(
                    a[i].1,
                    b[i].1,
                ) by {
                    if i < expected.len() {
                        assert(a[i] == entry_views(old(out)@)[i]);
                    }
                }
            }
        },
        None => {
            assert(expected + caption_entry(*edit, field@) =~= expected);
        },
    }
}

fn caption_entries(edit: &JsonValue) -> (r: Result<Vec<(String, JsonValue)>, ScriptEditError>)
    ensures
        match (r, caption_options_spec(*edit)) {
            (Ok(v), Ok(o)) => entries_match(entry_views(v@), o),
            (Err(e), Err(f)) => e@ == f,
            _ => false,
        },
{
    match edit.get("options") {
        Some(JsonValue::Object(entries)) => {
            let mut out: Vec<(String, JsonValue)> = Vec::new();
            let mut i: usize = 0;
            while i < entries.len()
                invariant
                    i <= entries.len(),
                    out.len() == i,
                    forall|j: int|
                        0 <= j < i ==> (#[trigger] out@[j]).0@ == entries@[j].0@ && json_same(
                            out@[j].1,
                            entries@[j].1,
                        ),
                decreases entries.len() - i,
            {
                let c = json_clone(&entries[i].1);
                out.push((copy_string(entries[i].0.as_str()), c));
                i += 1;
            }
            assert(entries_match(entry_views(out@), entry_views(entries@))) by {
                let a = entry_views(out@);
                let b = entry_views(entries@);
                assert forall|j: int| 0 <= j < a.len() implies (#[trigger] a[j]).0 == b[j].0 && json_same(
                    a[j].1,
                    b[j].1,
                ) by {
                    assert(out@[j].0@ == entries@[j].0@);
                }
            }
            Ok(out)
        },
        Some(_) => Err(
            refuse(STATUS_BAD_REQUEST, "invalid_caption_options", "add_captions options must be an object"),
        ),
        None => {
            let mut out: Vec<(String, JsonValue)> = Vec::new();
            let ghost e = *edit;
            assert(entries_match(entry_views(out@), Seq::empty()));
            push_present(&mut out, edit, "transcriptId", Ghost(Seq::empty()));
            let ghost acc = Seq::empty() + caption_entry(e, "transcriptId"@);
            push_present(&mut out, edit, "wordIds", Ghost(acc));
            let ghost acc = acc + caption_entry(e, "wordIds"@);
            push_present(&mut out, edit, "language", Ghost(acc));
            let ghost acc = acc + caption_entry(e, "language"@);
            push_present(&mut out, edit, "presetId", Ghost(acc));
            let ghost acc = acc + caption_entry(e, "presetId"@);
            push_present(&mut out, edit, "style", Ghost(acc));
            let ghost acc = acc + caption_entry(e, "style"@);
            push_present(&mut out, edit, "maxLines", Ghost(acc));
            let ghost acc = acc + caption_entry(e, "maxLines"@);
            push_present(&mut out, edit, "maxCharactersPerLine", Ghost(acc));
            let ghost acc = acc + caption_entry(e, "maxCharactersPerLine"@);
            push_present(&mut out, edit, "wordHighlight", Ghost(acc));
            let ghost acc = acc + caption_entry(e, "wordHighlight"@);
            push_present(&mut out, edit, "name", Ghost(acc));
            assert(acc + caption_entry(e, "name"@) =~= caption_fields_of(e));
            Ok(out)
        },
    }
}

fn caption_ops(edit: &JsonValue, index: usize, project_id: &str, key: &str) -> (r: Result<
    Vec<ScriptOperation>,
    ScriptEditError,
>)
    ensures
        ops_result(r, captions_spec(*edit, index as nat, project_id@, key@)),
{
    let options = match caption_entries(edit) {
        Err(e) => return Err(e),
        Ok(o) => o,
    };
    let track = match edit.get("captionTrackId") {
        Some(v) => Some(json_clone(v)),
        None => None,
    };
    let suffix = stable_script_suffix(project_id, key, "captions", index);
    let ops = vec![ScriptOperation::AddCaptions { options, caption_track_id: track, suffix }];
    proof {
        let a = op_views(ops@);
        let b = captions_spec(*edit, index as nat, project_id@, key@)->Ok_0;
        assert(op_same(a[0], b[0]));
    }
    Ok(ops)
}

fn reorder_ops(edit: &JsonValue, t: &TranscriptDocument, seqs: &Vec<StorySequence>) -> (r: Result<
    Vec<ScriptOperation>,
    ScriptEditError,
>)
    ensures
        ops_result(r, reorder_edit_spec(*edit, *t, seqs@)),
{
    let mut reorder = match build_script_reorder_operations(edit, t, seqs) {
        Err(e) => return Err(ScriptEditError::Reorder(e)),
        Ok(v) => v,
    };
    let ghost expected = reorder_edit_spec(*edit, *t, seqs@)->Ok_0;
    let ghost src = reorder@;
    let mut ops: Vec<ScriptOperation> = Vec::new();
    while reorder.len() > 0
        invariant
            expected == src.map_values(|o: ReorderOperation| o@).map_values(
                |o: ReorderOpView| ScriptOpView::Reorder(o),
            ),
            ops.len() + reorder.len() == src.len(),
            reorder@ =~= src.subrange(src.len() - reorder.len(), src.len() as int),
            op_views(ops@) =~= expected.subrange(0, ops.len() as int),
        decreases reorder.len(),
    {
        let o = reorder.remove(0);
        ops.push(ScriptOperation::Reorder(o));
        assert(op_views(ops@) =~= expected.subrange(0, ops.len() as int));
    }
    assert(expected.subrange(0, src.len() as int) =~= expected);
    Ok(ops)
}

/// The operations of one edit, by its `kind` (see `edit_ops_spec`).
fn edit_operations(
    edit: &JsonValue,
    index: usize,
    t: &TranscriptDocument,
    seqs: &Vec<StorySequence>,
    project_id: &str,
    key: &str,
    tpm: i64,
) -> (r: Result<Vec<ScriptOperation>, ScriptEditError>)
    ensures
        ops_result(r, edit_ops_spec(*edit, index as nat, *t, seqs@, project_id@, key@, tpm)),
{
    proof {
        reveal(edit_ops_spec);
    }
    let kind = match edit.get_str("kind") {
        None => return Err(missing("kind")),
        Some(k) => k,
    };
    if str_eq(kind, "delete_words") || str_eq(kind, "deleteWords") {
        delete_words_ops(edit, t)
    } else if str_eq(kind, "delete_utterances") || str_eq(kind, "deleteUtterances") || str_eq(
        kind,
        "delete_segments",
    ) {
        delete_segments_ops(edit, t)
    } else if str_eq(kind, "split_at_word") || str_eq(kind, "splitAtWord") {
        split_ops(edit, index, t, project_id, key)
    } else if str_eq(kind, "close_gaps") || str_eq(kind, "closeGaps") {
        close_gaps_ops(edit, t, seqs, tpm)
    } else if str_eq(kind, "change_speaker") || str_eq(kind, "changeSpeaker") {
        speaker_ops(edit, t)
    } else if str_eq(kind, "correct_display_text") || str_eq(kind, "correctDisplayText") {
        display_text_ops(edit, t)
    } else if str_eq(kind, "auto_cleanup") || str_eq(kind, "autoCleanup") {
        cleanup_ops(edit, index, t, project_id, key, tpm)
    } else if str_eq(kind, "add_captions") || str_eq(kind, "addCaptions") {
        caption_ops(edit, index, project_id, key)
    } else if str_eq(kind, "reorder_words") || str_eq(kind, "reorderWords") {
        reorder_ops(edit, t, seqs)
    } else {
        let quoted = debug_string(kind);
        let message = prefixed("unsupported script edit kind ", quoted.as_str());
        Err(refuse(STATUS_BAD_REQUEST, "unknown_script_edit", message.as_str()))
    }
}

/// The operations of the first `n` edits, in order; the first refused edit
/// refuses them all.
pub open spec fn all_edit_ops(
    edits: Seq<JsonValue>,
    n: nat,
    t: TranscriptDocument,
    seqs: Seq<StorySequence>,
    pid: Seq<char>,
    key: Seq<char>,
    tpm: i64,
) -> Result<Seq<ScriptOpView>, ScriptFailure>
    decreases n,
{
    if n == 0 {
        Ok(Seq::empty())
    } else {
        match all_edit_ops(edits, (n - 1) as nat, t, seqs, pid, key, tpm) {
            Err(f) => Err(f),
            Ok(ops) => match edit_ops_spec(edits[n - 1], (n - 1) as nat, t, seqs, pid, key, tpm) {
                Err(f) => Err(f),
                Ok(o) => Ok(ops + o),
            },
        }
    }
}

proof fn lemma_refusal_stays(
    edits: Seq<JsonValue>,
    k: nat,
    m: nat,
    t: TranscriptDocument,
    seqs: Seq<StorySequence>,
    pid: Seq<char>,
    key: Seq<char>,
    tpm: i64,
)
    requires
        k <= m,
        all_edit_ops(edits, k, t, seqs, pid, key, tpm) is Err,
    ensures
        all_edit_ops(edits, m, t, seqs, pid, key, tpm) == all_edit_ops(edits, k, t, seqs, pid, key, tpm),
    decreases m - k,
{
    if k < m {
        lemma_refusal_stays(edits, k, (m - 1) as nat, t, seqs, pid, key, tpm);
    }
}

proof fn lemma_ops_same_append(a1: Seq<ScriptOpView>, a2: Seq<ScriptOpView>, b1: Seq<ScriptOpView>, b2: Seq<ScriptOpView>)
    requires
        ops_same(a1, b1),
        ops_same(a2, b2),
    ensures
        ops_same(a1 + a2, b1 + b2),
{
    assert forall|i: int| 0 <= i < (a1 + a2).len() implies op_same(#[trigger] (a1 + a2)[i], (b1 + b2)[i]) by {
        if i < a1.len() {
            assert(op_same(a1[i], b1[i]));
        } else {
            assert(op_same(a2[i - a1.len()], b2[i - a1.len()]));
        }
    }
}

/// The edits of a request: `edit`, or the non-empty array `edits`.
pub open spec fn edit_list(input: JsonValue) -> Result<Seq<JsonValue>, ScriptFailure> {
    match (input.field("edit"@), input.field("edits"@)) {
        (Some(_), Some(_)) => Err(refused(400, "ambiguous_script_edit"@, "provide edit or edits, not both"@)),
        (Some(e), None) => Ok(seq![e]),
        (None, Some(JsonValue::Array(items))) => if items.len() == 0 {
            Err(refused(400, "invalid_script_edits"@, "edits must not be empty"@))
        } else {
            Ok(items@)
        },
        (None, Some(_)) => Err(refused(400, "invalid_script_edits"@, "edits must be an array"@)),
        (None, None) => Err(
            refused(400, "missing_script_edit"@, "dry-run validation requires edit, edits, or operations"@),
        ),
    }
}

/// The first transcript with the given id.
pub open spec fn transcript_with_id(ts: Seq<TranscriptDocument>, id: Seq<char>) -> Option<TranscriptDocument>
    decreases ts.len(),
{
    if ts.len() == 0 {
        None
    } else if ts[0].id@ == id {
        Some(ts[0])
    } else {
        transcript_with_id(ts.drop_first(), id)
    }
}

/// The transcript a request edits: the one named by `transcriptId`, else the
/// project's only transcript; `None` for a project without transcripts.
pub open spec fn transcript_choice(ts: Seq<TranscriptDocument>, input: JsonValue) -> Result<
    Option<TranscriptDocument>,
    ScriptFailure,
> {
    match input.field_str("transcriptId"@) {
        Some(id) => match transcript_with_id(ts, id) {
            Some(t) => Ok(Some(t)),
            None => Err(ScriptFailure::TranscriptNotFound(id)),
        },
        None => if ts.len() == 0 {
            Ok(None)
        } else if ts.len() == 1 {
            Ok(Some(ts[0]))
        } else {
            Err(ScriptFailure::TranscriptSelectionRequired(ts.map_values(|t: TranscriptDocument| t.id@)))
        },
    }
}

fn find_transcript<'a>(ts: &'a Vec<TranscriptDocument>, id: &str) -> (r: Option<&'a TranscriptDocument>)
    ensures
        match r {
            Some(t) => transcript_with_id(ts@, id@) == Some(*t),
            None => transcript_with_id(ts@, id@) is None,
        },
{
    let mut i: usize = 0;
    assert(ts@.subrange(0, ts.len() as int) =~= ts@);
    while i < ts.len()
        invariant
            i <= ts.len(),
            transcript_with_id(ts@, id@) == transcript_with_id(ts@.subrange(i as int, ts.len() as int), id@),
        decreases ts.len() - i,
    {
        let ghost rest = ts@.subrange(i as int, ts.len() as int);
        assert(rest.drop_first() =~= ts@.subrange(i + 1, ts.len() as int));
        assert(rest[0] == ts@[i as int]);
        if str_eq(ts[i].id.as_str(), id) {
            return Some(&ts[i]);
        }
        i += 1;
    }
    None
}

/// The transcript a request edits (see `transcript_choice`).
pub fn select_transcript<'a>(transcripts: &'a Vec<TranscriptDocument>, input: &JsonValue) -> (r: Result<
    Option<&'a TranscriptDocument>,
    ScriptEditError,
>)
    ensures
        match (r, transcript_choice(transcripts@, *input)) {
            (Ok(Some(t)), Ok(Some(s))) => *t == s,
            (Ok(None), Ok(None)) => true,
            (Err(e), Err(f)) => e@ == f,
            _ => false,
        },
{
    match input.get_str("transcriptId") {
        Some(id) => match find_transcript(transcripts, id) {
            Some(t) => Ok(Some(t)),
            None => Err(ScriptEditError::TranscriptNotFound(copy_string(id))),
        },
        None => {
            if transcripts.len() == 0 {
                Ok(None)
            } else if transcripts.len() == 1 {
                Ok(Some(&transcripts[0]))
            } else {
                let mut ids: Vec<String> = Vec::new();
                let mut i: usize = 0;
                while i < transcripts.len()
                    invariant
                        i <= transcripts.len(),
                        ids.len() == i,
                        forall|k: int| 0 <= k < i ==> (#[trigger] ids@[k])@ == transcripts@[k].id@,
                    decreases transcripts.len() - i,
                {
                    ids.push(copy_string(transcripts[i].id.as_str()));
                    i += 1;
                }
                assert(ids_of(ids@) =~= transcripts@.map_values(|t: TranscriptDocument| t.id@));
                Err(ScriptEditError::TranscriptSelectionRequired(ids))
            }
        },
    }
}

/// Operations that a request supplies itself.
#[derive(Debug, Clone, Copy, PartialEq, Eq, Structural)]
pub enum SuppliedOperations {
    /// A list of operations under `operations`.
    Operations,
    /// An edit transaction under `transaction`.
    Transaction,
}

/// What a script edit request amounts to.
#[derive(Debug)]
pub enum ScriptEdits {
    /// The request supplies its operations itself.
    Supplied(SuppliedOperations),
    /// The operations built from the request's edits.
    Built(Vec<ScriptOperation>),
}

pub enum ScriptEditsView {
    Supplied(SuppliedOperations),
    Built(Seq<ScriptOpView>),
}

/// A script edit request: supplied operations (`operations` or
/// `transaction`, not both), else the operations of its edits on the
/// transcript it selects, edit by edit.
pub open spec fn script_edits_spec(input: JsonValue, p: ScriptProject, key: Seq<char>, tpm: i64) -> Result<
    ScriptEditsView,
    ScriptFailure,
> {
    let ops = input.field("operations"@) is Some;
    let tx = input.field("transaction"@) is Some;
    if ops && tx {
        Err(refused(400, "ambiguous_operations"@, "provide operations or transaction, not both"@))
    } else if ops {
        Ok(ScriptEditsView::Supplied(SuppliedOperations::Operations))
    } else if tx {
        Ok(ScriptEditsView::Supplied(SuppliedOperations::Transaction))
    } else {
        match transcript_choice(p.transcripts@, input) {
            Err(f) => Err(f),
            Ok(None) => Err(refused(400, "transcript_required"@, "the project has no transcript to edit"@)),
            Ok(Some(t)) => match edit_list(input) {
                Err(f) => Err(f),
                Ok(edits) => match all_edit_ops(
                    edits,
                    edits.len(),
                    t,
                    p.story_sequences@,
                    p.project_id@,
                    key,
                    tpm,
                ) {
                    Err(f) => Err(f),
                    Ok(o) => Ok(ScriptEditsView::Built(o)),
                },
            },
        }
    }
}

pub open spec fn edits_result(r: Result<ScriptEdits, ScriptEditError>, s: Result<ScriptEditsView, ScriptFailure>) -> bool {
    match (r, s) {
        (Ok(ScriptEdits::Supplied(a)), Ok(ScriptEditsView::Supplied(b))) => a == b,
        (Ok(ScriptEdits::Built(v)), Ok(ScriptEditsView::Built(o))) => ops_same(op_views(v@), o),
        (Err(e), Err(f)) => e@ == f,
        _ => false,
    }
}

/// The project operations of a script edit request (see
/// `script_edits_spec`); durations in milliseconds become ticks at
/// `ticks_per_millisecond`, and the ids of new objects derive from the
/// project id, the idempotency key and the edit's position.
pub fn build_script_operations(
    input: &JsonValue,
    project: &ScriptProject,
    idempotency_key: &str,
    ticks_per_millisecond: i64,
) -> (r: Result<ScriptEdits, ScriptEditError>)
    ensures
        edits_result(r, script_edits_spec(*input, *project, idempotency_key@, ticks_per_millisecond)),
{
    let has_ops = input.get("operations").is_some();
    let has_tx = input.get("transaction").is_some();
    if has_ops && has_tx {
        return Err(
            refuse(STATUS_BAD_REQUEST, "ambiguous_operations", "provide operations or transaction, not both"),
        );
    }
    if has_ops {
        return Ok(ScriptEdits::Supplied(SuppliedOperations::Operations));
    }
    if has_tx {
        return Ok(ScriptEdits::Supplied(SuppliedOperations::Transaction));
    }
    let transcript = match select_transcript(&project.transcripts, input) {
        Err(e) => return Err(e),
        Ok(None) => {
            return Err(
                refuse(STATUS_BAD_REQUEST, "transcript_required", "the project has no transcript to edit"),
            )
        },
        Ok(Some(t)) => t,
    };
    let pid = project.project_id.as_str();
    let seqs = &project.story_sequences;
    let ghost t = *transcript;
    match (input.get("edit"), input.get("edits")) {
        (Some(_), Some(_)) => Err(
            refuse(STATUS_BAD_REQUEST, "ambiguous_script_edit", "provide edit or edits, not both"),
        ),
        (Some(edit), None) => {
            let r = edit_operations(edit, 0, transcript, seqs, pid, idempotency_key, ticks_per_millisecond);
            proof {
                let edits = seq![*edit];
                assert(edit_list(*input) == Ok::<Seq<JsonValue>, ScriptFailure>(edits));
                assert(edits[0] == *edit);
                let z = all_edit_ops(edits, 0, t, seqs@, pid@, idempotency_key@, ticks_per_millisecond);
                assert(z == Ok::<Seq<ScriptOpView>, ScriptFailure>(Seq::empty()));
                match edit_ops_spec(*edit, 0, t, seqs@, pid@, idempotency_key@, ticks_per_millisecond) {
                    Ok(o) => {
                        assert(Seq::<ScriptOpView>::empty() + o =~= o);
                    },
                    Err(f) => {},
                }
            }
            match r {
                Err(e) => Err(e),
                Ok(v) => Ok(ScriptEdits::Built(v)),
            }
        },
        (None, Some(JsonValue::Array(items))) => {
            if items.len() == 0 {
                return Err(refuse(STATUS_BAD_REQUEST, "invalid_script_edits", "edits must not be empty"));
            }
            let mut ops: Vec<ScriptOperation> = Vec::new();
            let mut i: usize = 0;
            while i < items.len()
                invariant
                    i <= items.len(),
                    items.len() > 0,
                    input.field("edits"@) == Some(JsonValue::Array(*items)),
                    input.field("edit"@) is None,
                    input.field("operations"@) is None,
                    input.field("transaction"@) is None,
                    t == *transcript,
                    pid@ == project.project_id@,
                    *seqs == project.story_sequences,
                    transcript_choice(project.transcripts@, *input) == Ok::<
                        Option<TranscriptDocument>,
                        ScriptFailure,
                    >(Some(t)),
                    all_edit_ops(items@, i as nat, t, seqs@, pid@, idempotency_key@, ticks_per_millisecond) is Ok,
                    ops_same(
                        op_views(ops@),
                        all_edit_ops(items@, i as nat, t, seqs@, pid@, idempotency_key@, ticks_per_millisecond)->Ok_0,
                    ),
                decreases items.len() - i,
            {
                let r = edit_operations(&items[i], i, transcript, seqs, pid, idempotency_key, ticks_per_millisecond);
                match r {
                    Err(e) => {
                        proof {
                            assert(edit_ops_spec(items@[i as int], i as nat, t, seqs@, pid@, idempotency_key@, ticks_per_millisecond)
                                == Err::<Seq<ScriptOpView>, ScriptFailure>(e@));
                            assert(all_edit_ops(items@, (i + 1) as nat, t, seqs@, pid@, idempotency_key@, ticks_per_millisecond)
                                == Err::<Seq<ScriptOpView>, ScriptFailure>(e@));
                            lemma_refusal_stays(
                                items@,
                                (i + 1) as nat,
                                items.len() as nat,
                                t,
                                seqs@,
                                pid@,
                                idempotency_key@,
                                ticks_per_millisecond,
                            );
                        }
                        return Err(e);
                    },
                    Ok(mut more) => {
                        let ghost before = op_views(ops@);
                        let ghost added = op_views(more@);
                        proof {
                            lemma_ops_same_append(
                                before,
                                added,
                                all_edit_ops(items@, i as nat, t, seqs@, pid@, idempotency_key@, ticks_per_millisecond)->Ok_0,
                                edit_ops_spec(items@[i as int], i as nat, t, seqs@, pid@, idempotency_key@, ticks_per_millisecond)->Ok_0,
                            );
                        }
                        ops.append(&mut more);
                        assert(op_views(ops@) =~= before + added);
                    },
                }
                i += 1;
            }
            Ok(ScriptEdits::Built(ops))
        },
        (None, Some(_)) => Err(refuse(STATUS_BAD_REQUEST, "invalid_script_edits", "edits must be an array")),
        (None, None) => Err(
            refuse(
                STATUS_BAD_REQUEST,
                "missing_script_edit",
                "dry-run validation requires edit, edits, or operations",
            ),
        ),
    }
}


/// The strings of a list of JSON values that are all strings, in order.
proof fn lemma_all_strings_listed(items: Seq<JsonValue>)
    requires
        forall|i: int| 0 <= i < items.len() ==> (#[trigger] items[i]).str_view() is Some,
    ensures
        crate::story::string_list(items) matches Some(l) && l.len() == items.len() && forall|i: int|
            0 <= i < items.len() ==> l[i] == (#[trigger] items[i]).str_view().unwrap(),
    decreases items.len(),
{
    if items.len() > 0 {
        let rest = items.drop_last();
        assert forall|i: int| 0 <= i < rest.len() implies (#[trigger] rest[i]).str_view() is Some by {
            assert(rest[i] == items[i]);
        }
        lemma_all_strings_listed(rest);
        let l = crate::story::string_list(rest)->Some_0;
        assert(items.last().str_view() is Some);
        assert forall|i: int| 0 <= i < items.len() implies l.push(items.last().str_view().unwrap())[i] == (
        #[trigger] items[i]).str_view().unwrap() by {
            if i < rest.len() {
                assert(rest[i] == items[i]);
            }
        }
    }
}

/// A speaker change reassigns exactly the words it lists: an edit of kind
/// `change_speaker` (or `changeSpeaker`) with a `speakerId` and a non-empty `wordIds` array of
/// strings gives one operation, which sets that speaker on the edited
/// transcript for every listed word, in the order listed, and on no other.
pub proof fn lemma_speaker_change_covers_listed_words(
    edit: JsonValue,
    index: nat,
    t: TranscriptDocument,
    seqs: Seq<StorySequence>,
    pid: Seq<char>,
    key: Seq<char>,
    tpm: i64,
    items: Seq<JsonValue>,
    speaker: Seq<char>,
)
    requires
        edit.field_str("kind"@) == Some("change_speaker"@) || edit.field_str("kind"@) == Some("changeSpeaker"@),
        edit.field_str("speakerId"@) == Some(speaker),
        edit.field("wordIds"@) matches Some(JsonValue::Array(a)) && a@ == items,
        items.len() > 0,
        forall|i: int| 0 <= i < items.len() ==> (#[trigger] items[i]).str_view() is Some,
    ensures
        edit_ops_spec(edit, index, t, seqs, pid, key, tpm) matches Ok(ops) && ops.len() == 1 && (
        ops[0] matches ScriptOpView::SetSpeaker(tid, words, sp) && tid == t.id@ && sp == speaker && words.len()
            == items.len() && forall|i: int| 0 <= i < items.len() ==> words[i] == (#[trigger] items[i]).str_view().unwrap()),
{
    lemma_all_strings_listed(items);
    let l = crate::story::string_list(items)->Some_0;
    assert(id_list(edit, "wordIds"@) == Ok::<Seq<Seq<char>>, ReorderFailure>(l));
    assert(speaker_spec(edit, t) == Ok::<Seq<ScriptOpView>, ScriptFailure>(seq![ScriptOpView::SetSpeaker(t.id@, l, speaker)]));
    assert(edit_ops_spec(edit, index, t, seqs, pid, key, tpm) == speaker_spec(edit, t)) by {
        reveal(edit_ops_spec);
        reveal_strlit("change_speaker");
        reveal_strlit("delete_words");
        reveal_strlit("deleteWords");
        reveal_strlit("delete_utterances");
        reveal_strlit("deleteUtterances");
        reveal_strlit("delete_segments");
        reveal_strlit("split_at_word");
        reveal_strlit("splitAtWord");
        reveal_strlit("close_gaps");
        reveal_strlit("closeGaps");
        assert("change_speaker"@.len() != "delete_words"@.len());
        assert("change_speaker"@.len() != "deleteWords"@.len());
        assert("change_speaker"@.len() != "delete_utterances"@.len());
        assert("change_speaker"@.len() != "deleteUtterances"@.len());
        assert("change_speaker"@.len() != "delete_segments"@.len());
        assert("change_speaker"@.len() != "split_at_word"@.len());
        assert("change_speaker"@.len() != "splitAtWord"@.len());
        assert("change_speaker"@.len() != "close_gaps"@.len());
        assert("change_speaker"@.len() != "closeGaps"@.len());
        reveal_strlit("changeSpeaker");
        reveal_strlit("delete_words");
        reveal_strlit("deleteWords");
        reveal_strlit("delete_utterances");
        reveal_strlit("deleteUtterances");
        reveal_strlit("delete_segments");
        reveal_strlit("split_at_word");
        reveal_strlit("splitAtWord");
        reveal_strlit("close_gaps");
        reveal_strlit("closeGaps");
        reveal_strlit("change_speaker");
        assert("changeSpeaker"@.len() != "delete_words"@.len());
        assert("changeSpeaker"@.len() != "deleteWords"@.len());
        assert("changeSpeaker"@.len() != "delete_utterances"@.len());
        assert("changeSpeaker"@.len() != "deleteUtterances"@.len());
        assert("changeSpeaker"@.len() != "delete_segments"@.len());
        assert("changeSpeaker"@[0] != "split_at_word"@[0]);
        assert("changeSpeaker"@.len() != "splitAtWord"@.len());
        assert("changeSpeaker"@.len() != "close_gaps"@.len());
        assert("changeSpeaker"@.len() != "closeGaps"@.len());
        assert("changeSpeaker"@.len() != "change_speaker"@.len());
    }
}


/// A word deletion marks exactly the words it lists: an edit of kind
/// `delete_words` (or `deleteWords`) with a non-empty `wordIds` array of strings gives one
/// operation, which marks deleted, on the edited transcript, every listed
/// word in the order listed and no other.
pub proof fn lemma_word_deletion_covers_listed_words(
    edit: JsonValue,
    index: nat,
    t: TranscriptDocument,
    seqs: Seq<StorySequence>,
    pid: Seq<char>,
    key: Seq<char>,
    tpm: i64,
    items: Seq<JsonValue>,
)
    requires
        edit.field_str("kind"@) == Some("delete_words"@) || edit.field_str("kind"@) == Some("deleteWords"@),
        edit.field("wordIds"@) matches Some(JsonValue::Array(a)) && a@ == items,
        items.len() > 0,
        forall|i: int| 0 <= i < items.len() ==> (#[trigger] items[i]).str_view() is Some,
    ensures
        edit_ops_spec(edit, index, t, seqs, pid, key, tpm) matches Ok(ops) && ops.len() == 1 && (
        ops[0] matches ScriptOpView::SetWordsDeleted(tid, words) && tid == t.id@ && words.len() == items.len()
            && forall|i: int| 0 <= i < items.len() ==> words[i] == (#[trigger] items[i]).str_view().unwrap()),
{
    lemma_all_strings_listed(items);
    let l = crate::story::string_list(items)->Some_0;
    assert(id_list(edit, "wordIds"@) == Ok::<Seq<Seq<char>>, ReorderFailure>(l));
    assert(edit_ops_spec(edit, index, t, seqs, pid, key, tpm) == delete_words_spec(edit, t)) by {
        reveal(edit_ops_spec);
        reveal_strlit("deleteWords");
        reveal_strlit("delete_words");
        assert("deleteWords"@.len() != "delete_words"@.len());
    }
}

/// An utterance deletion deletes exactly the utterances it lists: an edit
/// of kind `delete_utterances` with a non-empty `utteranceIds` array of
/// strings gives one deletion per listed utterance of the edited
/// transcript, in the order listed.
pub proof fn lemma_utterance_deletion_covers_listed_utterances(
    edit: JsonValue,
    index: nat,
    t: TranscriptDocument,
    seqs: Seq<StorySequence>,
    pid: Seq<char>,
    key: Seq<char>,
    tpm: i64,
    items: Seq<JsonValue>,
)
    requires
        edit.field_str("kind"@) == Some("delete_utterances"@),
        edit.field("utteranceIds"@) matches Some(JsonValue::Array(a)) && a@ == items,
        items.len() > 0,
        forall|i: int| 0 <= i < items.len() ==> (#[trigger] items[i]).str_view() is Some,
    ensures
        edit_ops_spec(edit, index, t, seqs, pid, key, tpm) matches Ok(ops) && ops.len() == items.len() && forall|i: int|
            0 <= i < items.len() ==> (#[trigger] ops[i]) == ScriptOpView::DeleteSegment(t.id@, items[i].str_view().unwrap()),
{
    lemma_all_strings_listed(items);
    let l = crate::story::string_list(items)->Some_0;
    assert(id_list(edit, "utteranceIds"@) == Ok::<Seq<Seq<char>>, ReorderFailure>(l));
    assert(edit_ops_spec(edit, index, t, seqs, pid, key, tpm) == delete_segments_spec(edit, t)) by {
        reveal(edit_ops_spec);
        reveal_strlit("delete_utterances");
        reveal_strlit("delete_words");
        reveal_strlit("deleteWords");
        let k = "delete_utterances"@;
        assert(k.len() != "delete_words"@.len() && k.len() != "deleteWords"@.len());
    }
}

/// A display-text correction corrects the one word it names: an edit of
/// kind `correct_display_text` whose `wordIds` lists exactly one word and
/// which gives a `displayText` sets that text on that word of the edited
/// transcript, and nothing else.
pub proof fn lemma_display_text_sets_the_named_word(
    edit: JsonValue,
    index: nat,
    t: TranscriptDocument,
    seqs: Seq<StorySequence>,
    pid: Seq<char>,
    key: Seq<char>,
    tpm: i64,
    word: Seq<char>,
    text: Seq<char>,
)
    requires
        edit.field_str("kind"@) == Some("correct_display_text"@),
        edit.field("wordIds"@) matches Some(JsonValue::Array(a)) && a@.len() == 1 && a@[0].str_view() == Some(word),
        edit.field_str("displayText"@) == Some(text),
    ensures
        edit_ops_spec(edit, index, t, seqs, pid, key, tpm) == Ok::<Seq<ScriptOpView>, ScriptFailure>(
            seq![ScriptOpView::SetDisplayText(t.id@, word, text)],
        ),
{
    let items = edit.field("wordIds"@)->Some_0->Array_0@;
    lemma_all_strings_listed(items);
    let l = crate::story::string_list(items)->Some_0;
    assert(id_list(edit, "wordIds"@) == Ok::<Seq<Seq<char>>, ReorderFailure>(l));
    assert(edit_ops_spec(edit, index, t, seqs, pid, key, tpm) == display_text_spec(edit, t)) by {
        reveal(edit_ops_spec);
        reveal_strlit("correct_display_text");
        reveal_strlit("change_speaker");
        reveal_strlit("changeSpeaker");
        reveal_strlit("delete_words");
        reveal_strlit("deleteWords");
        reveal_strlit("delete_utterances");
        reveal_strlit("deleteUtterances");
        reveal_strlit("delete_segments");
        reveal_strlit("split_at_word");
        reveal_strlit("splitAtWord");
        reveal_strlit("close_gaps");
        reveal_strlit("closeGaps");
        let k = "correct_display_text"@;
        assert(k[0] != "delete_words"@[0] && k[0] != "deleteWords"@[0] && k[0] != "delete_utterances"@[0]);
        assert(k[0] != "deleteUtterances"@[0] && k[0] != "delete_segments"@[0] && k[0] != "split_at_word"@[0]);
        assert(k[0] != "splitAtWord"@[0] && k[1] != "close_gaps"@[1] && k[1] != "closeGaps"@[1]);
        assert(k[1] != "change_speaker"@[1] && k[1] != "changeSpeaker"@[1]);
    }
}

} // verus!
