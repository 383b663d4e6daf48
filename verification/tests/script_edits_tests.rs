use openchatcut_daemon::json::{JsonNumber, JsonValue};
use openchatcut_daemon::script_edits::{
    build_script_operations, select_transcript, ScriptEditError, ScriptEdits, ScriptOperation,
    ScriptProject, SuppliedOperations,
};
use openchatcut_daemon::story::{
    ReorderError, ReorderOperation, StoryClip, StorySequence, TranscriptDocument,
    TranscriptSegment, TranscriptWord,
};
use sha2::{Digest, Sha256};

const TICKS_PER_MS: i64 = 1_000;

fn s(v: &str) -> JsonValue {
    JsonValue::Str(v.to_string())
}

fn n(v: u64) -> JsonValue {
    JsonValue::Number(JsonNumber::PosInt(v))
}

fn obj(entries: Vec<(&str, JsonValue)>) -> JsonValue {
    JsonValue::Object(entries.into_iter().map(|(k, v)| (k.to_string(), v)).collect())
}

fn ids(v: &[&str]) -> Vec<String> {
    v.iter().map(|x| x.to_string()).collect()
}

fn arr(v: &[&str]) -> JsonValue {
    JsonValue::Array(v.iter().map(|x| s(x)).collect())
}

fn transcript(id: &str) -> TranscriptDocument {
    TranscriptDocument {
        id: id.to_string(),
        words: ["w1", "w2", "w3"]
            .iter()
            .map(|w| TranscriptWord { id: w.to_string(), deleted: false })
            .collect(),
        segments: vec![
            TranscriptSegment { id: "s1".to_string(), word_ids: ids(&["w1", "w2"]) },
            TranscriptSegment { id: "s2".to_string(), word_ids: ids(&["w3"]) },
        ],
    }
}

fn project() -> ScriptProject {
    ScriptProject {
        project_id: "p1".to_string(),
        transcripts: vec![transcript("t1")],
        story_sequences: vec![StorySequence {
            id: "seq1".to_string(),
            transcript_id: "t1".to_string(),
            clips: vec![
                StoryClip { id: "c1".to_string(), word_ids: ids(&["w1", "w2"]) },
                StoryClip { id: "c2".to_string(), word_ids: ids(&["w3"]) },
            ],
        }],
    }
}

fn suffix(word: &str, index: usize) -> String {
    let mut hasher = Sha256::new();
    for value in ["p1", "key-1", word, &index.to_string()] {
        hasher.update(value.as_bytes());
        hasher.update([0]);
    }
    hex::encode(hasher.finalize())[..24].to_owned()
}

fn built(input: JsonValue) -> Vec<ScriptOperation> {
    match build_script_operations(&input, &project(), "key-1", TICKS_PER_MS).unwrap() {
        ScriptEdits::Built(ops) => ops,
        ScriptEdits::Supplied(_) => panic!("expected built operations"),
    }
}

fn refusal(input: JsonValue, p: &ScriptProject) -> (u16, String, String) {
    let e = build_script_operations(&input, p, "key-1", TICKS_PER_MS).unwrap_err().api_error().unwrap();
    (e.status, e.code, e.message)
}

fn edit(entries: Vec<(&str, JsonValue)>) -> JsonValue {
    obj(vec![("edit", obj(entries))])
}

#[test]
fn delete_words_marks_the_words_deleted() {
    let ops = built(edit(vec![("kind", s("delete_words")), ("wordIds", arr(&["w1", "w2"]))]));
    assert_eq!(ops.len(), 1);
    match &ops[0] {
        ScriptOperation::SetWordsDeleted { transcript_id, word_ids } => {
            assert_eq!(transcript_id, "t1");
            assert_eq!(word_ids, &ids(&["w1", "w2"]));
        }
        other => panic!("unexpected {other:?}"),
    }
}

#[test]
fn deleting_utterances_gives_one_operation_each() {
    let ops = built(edit(vec![("kind", s("deleteUtterances")), ("utteranceIds", arr(&["s2", "s1"]))]));
    let got: Vec<&str> = ops
        .iter()
        .map(|o| match o {
            ScriptOperation::DeleteSegment { transcript_id, segment_id } => {
                assert_eq!(transcript_id, "t1");
                segment_id.as_str()
            }
            other => panic!("unexpected {other:?}"),
        })
        .collect();
    assert_eq!(got, vec!["s2", "s1"]);
}

#[test]
fn split_names_the_new_segment_from_the_request() {
    let ops = built(edit(vec![("kind", s("split_at_word")), ("wordIds", arr(&["w3"]))]));
    match &ops[0] {
        ScriptOperation::SplitSegment { transcript_id, segment_id, at_word_id, new_segment_id } => {
            assert_eq!((transcript_id.as_str(), segment_id.as_str(), at_word_id.as_str()), ("t1", "s2", "w3"));
            assert_eq!(new_segment_id, &format!("segment:split:{}", suffix("w3", 0)));
        }
        other => panic!("unexpected {other:?}"),
    }
    let e = build_script_operations(
        &edit(vec![("kind", s("split_at_word")), ("wordIds", arr(&["w9"]))]),
        &project(),
        "key-1",
        TICKS_PER_MS,
    )
    .unwrap_err();
    assert!(matches!(e, ScriptEditError::SegmentForWordNotFound(w) if w == "w9"));
}

#[test]
fn close_gaps_uses_the_default_thresholds() {
    let ops = built(edit(vec![("kind", s("close_gaps"))]));
    match &ops[0] {
        ScriptOperation::CloseStoryGaps { sequence_id, threshold_ticks, target_gap_ticks } => {
            assert_eq!((sequence_id.as_str(), *threshold_ticks, *target_gap_ticks), ("seq1", 1_500_000, 180_000));
        }
        other => panic!("unexpected {other:?}"),
    }
    let ops = built(edit(vec![("kind", s("closeGaps")), ("thresholdMs", n(900)), ("targetGapMs", n(50))]));
    assert!(matches!(
        &ops[0],
        ScriptOperation::CloseStoryGaps { threshold_ticks: 900_000, target_gap_ticks: 50_000, .. }
    ));
    let negative = edit(vec![("kind", s("close_gaps")), ("thresholdMs", JsonValue::Number(JsonNumber::NegInt(-5)))]);
    assert_eq!(refusal(negative, &project()).1, "negative_duration");
    let mut no_story = project();
    no_story.story_sequences.clear();
    let (status, code, _) = refusal(edit(vec![("kind", s("close_gaps"))]), &no_story);
    assert_eq!((status, code.as_str()), (422, "story_sequence_required"));
}

#[test]
fn speaker_and_display_text_edits() {
    let ops = built(edit(vec![("kind", s("change_speaker")), ("speakerId", s("spk-2")), ("wordIds", arr(&["w1"]))]));
    assert!(matches!(&ops[0], ScriptOperation::SetSpeaker { speaker_id, .. } if speaker_id == "spk-2"));
    let ops = built(edit(vec![("kind", s("correctDisplayText")), ("wordIds", arr(&["w2"])), ("displayText", s("Hello"))]));
    assert!(matches!(
        &ops[0],
        ScriptOperation::SetDisplayText { word_id, display_text, .. } if word_id == "w2" && display_text == "Hello"
    ));
    let two = edit(vec![("kind", s("correct_display_text")), ("wordIds", arr(&["w1", "w2"])), ("displayText", s("x"))]);
    assert_eq!(refusal(two, &project()).1, "single_word_required");
    let no_speaker = edit(vec![("kind", s("change_speaker")), ("wordIds", arr(&["w1"]))]);
    let (status, code, message) = refusal(no_speaker, &project());
    assert_eq!((status, code.as_str(), message.as_str()), (400, "missing_field", "speakerId is required"));
}

#[test]
fn cleanup_and_captions_carry_their_settings() {
    let ops = built(edit(vec![("kind", s("auto_cleanup")), ("pauseThresholdMs", n(700))]));
    match &ops[0] {
        ScriptOperation::AutoCleanup { transcript_id, plan_id, options } => {
            assert_eq!(transcript_id, "t1");
            assert_eq!(plan_id, &format!("plan:cleanup:{}", suffix("auto-cleanup", 0)));
            assert_eq!(options.pause_threshold_ticks, Some(700_000));
        }
        other => panic!("unexpected {other:?}"),
    }
    let ops = built(edit(vec![
        ("kind", s("add_captions")),
        ("name", s("Subs")),
        ("language", s("en")),
        ("captionTrackId", s("track-9")),
    ]));
    match &ops[0] {
        ScriptOperation::AddCaptions { options, caption_track_id, suffix: got } => {
            let keys: Vec<&str> = options.iter().map(|(k, _)| k.as_str()).collect();
            assert_eq!(keys, vec!["language", "name"]);
            assert!(matches!(caption_track_id, Some(JsonValue::Str(t)) if t == "track-9"));
            assert_eq!(got, &suffix("captions", 0));
        }
        other => panic!("unexpected {other:?}"),
    }
    let bad = edit(vec![("kind", s("add_captions")), ("options", s("big"))]);
    assert_eq!(refusal(bad, &project()).1, "invalid_caption_options");
}

#[test]
fn reorder_edits_reuse_the_reorder_rules() {
    let ops = built(edit(vec![("kind", s("reorder_words")), ("clipIds", arr(&["c2", "c1"]))]));
    assert!(ops.iter().all(|o| matches!(o, ScriptOperation::Reorder(_))));
    assert!(matches!(
        &ops[0],
        ScriptOperation::Reorder(ReorderOperation::ReorderTranscriptSegments { segment_ids, .. }) if segment_ids == &ids(&["s2", "s1"])
    ));
    let e = build_script_operations(
        &edit(vec![("kind", s("reorder_words")), ("clipIds", arr(&["c1", "c2"]))]),
        &project(),
        "key-1",
        TICKS_PER_MS,
    )
    .unwrap_err();
    assert!(matches!(e, ScriptEditError::Reorder(ReorderError::NoEffect)));
}

#[test]
fn several_edits_apply_in_order_and_name_by_position() {
    let input = obj(vec![(
        "edits",
        JsonValue::Array(vec![
            obj(vec![("kind", s("delete_words")), ("wordIds", arr(&["w1"]))]),
            obj(vec![("kind", s("split_at_word")), ("wordIds", arr(&["w2"]))]),
        ]),
    )]);
    let ops = built(input);
    assert_eq!(ops.len(), 2);
    assert!(matches!(&ops[0], ScriptOperation::SetWordsDeleted { .. }));
    assert!(matches!(
        &ops[1],
        ScriptOperation::SplitSegment { segment_id, new_segment_id, .. }
            if segment_id == "s1" && new_segment_id == &format!("segment:split:{}", suffix("w2", 1))
    ));
}

#[test]
fn request_shape_refusals() {
    let p = project();
    let both = obj(vec![("operations", JsonValue::Array(vec![])), ("transaction", obj(vec![]))]);
    assert_eq!(refusal(both, &p).1, "ambiguous_operations");
    let supplied = build_script_operations(&obj(vec![("transaction", obj(vec![]))]), &p, "k", TICKS_PER_MS).unwrap();
    assert!(matches!(supplied, ScriptEdits::Supplied(SuppliedOperations::Transaction)));
    assert_eq!(refusal(obj(vec![]), &p).1, "missing_script_edit");
    let two = obj(vec![("edit", obj(vec![])), ("edits", JsonValue::Array(vec![]))]);
    assert_eq!(refusal(two, &p).1, "ambiguous_script_edit");
    let (_, code, message) = refusal(obj(vec![("edits", JsonValue::Array(vec![]))]), &p);
    assert_eq!((code.as_str(), message.as_str()), ("invalid_script_edits", "edits must not be empty"));
    let (_, code, message) = refusal(obj(vec![("edits", s("x"))]), &p);
    assert_eq!((code.as_str(), message.as_str()), ("invalid_script_edits", "edits must be an array"));
    let (status, code, message) = refusal(edit(vec![("kind", s("zap"))]), &p);
    assert_eq!((status, code.as_str(), message.as_str()), (400, "unknown_script_edit", "unsupported script edit kind \"zap\""));
    let (_, code, message) = refusal(edit(vec![("wordIds", arr(&["w1"]))]), &p);
    assert_eq!((code.as_str(), message.as_str()), ("missing_field", "kind is required"));
    let e = build_script_operations(&edit(vec![("wordIds", arr(&["w1"]))]), &p, "k", TICKS_PER_MS).unwrap_err();
    assert!(matches!(&e, ScriptEditError::MissingField(f) if f == "kind"));
    let details = e.api_error().unwrap().details;
    assert!(matches!(details, Some(JsonValue::Object(d)) if d[0].0 == "field" && matches!(&d[0].1, JsonValue::Str(f) if f == "kind")));
    let empty = ScriptProject { project_id: "p1".to_string(), transcripts: vec![], story_sequences: vec![] };
    assert_eq!(refusal(edit(vec![("kind", s("delete_words"))]), &empty).1, "transcript_required");
}

#[test]
fn transcript_selection() {
    let ts = vec![transcript("t1"), transcript("t2")];
    let chosen = select_transcript(&ts, &obj(vec![("transcriptId", s("t2"))])).unwrap().unwrap();
    assert_eq!(chosen.id, "t2");
    let err = select_transcript(&ts, &obj(vec![])).unwrap_err();
    assert!(matches!(&err, ScriptEditError::TranscriptSelectionRequired(ids) if ids == &vec!["t1".to_string(), "t2".to_string()]));
    let e = err.api_error().unwrap();
    assert_eq!((e.status, e.code.as_str()), (409, "transcript_selection_required"));
    match e.details {
        Some(JsonValue::Object(d)) => {
            assert_eq!(d[0].0, "transcriptIds");
            assert!(matches!(&d[0].1, JsonValue::Array(a) if a.len() == 2));
        }
        other => panic!("unexpected {other:?}"),
    }
    assert!(matches!(
        select_transcript(&ts, &obj(vec![("transcriptId", s("t9"))])).unwrap_err(),
        ScriptEditError::TranscriptNotFound(id) if id == "t9"
    ));
    assert!(select_transcript(&vec![], &obj(vec![])).unwrap().is_none());
}

#[test]
fn refusals_answer_as_api_errors() {
    let e = build_script_operations(&edit(vec![("kind", s("delete_words"))]), &project(), "k", 1).unwrap_err();
    let a = e.api_error().unwrap();
    assert_eq!((a.status, a.code.as_str(), a.message.as_str()), (400, "missing_field", "wordIds is required"));
    let e = build_script_operations(&edit(vec![("kind", s("close_gaps")), ("thresholdMs", n(1))]), &project(), "k", i64::MAX)
        .unwrap_err();
    let a = e.api_error().unwrap();
    assert_eq!((a.code.as_str(), a.message.as_str()), ("duration_overflow", "duration is too large"));
    assert!(ScriptEditError::TranscriptNotFound("t".to_string()).api_error().is_none());
}
