use openchatcut_daemon::json::{JsonNumber, JsonValue};
use openchatcut_daemon::story::{
    build_script_reorder_operations, is_permutation, reorder_error_answer,
    segment_order_for_story_clips, story_clip_order_from_words, ReorderError, ReorderOperation,
    StoryClip, StorySequence, TranscriptDocument, TranscriptSegment, TranscriptWord,
};

fn s(v: &str) -> JsonValue {
    JsonValue::Str(v.to_string())
}

fn obj(entries: Vec<(&str, JsonValue)>) -> JsonValue {
    JsonValue::Object(entries.into_iter().map(|(k, v)| (k.to_string(), v)).collect())
}

fn ids(v: &[&str]) -> Vec<String> {
    v.iter().map(|x| x.to_string()).collect()
}

fn arr(v: &[&str]) -> JsonValue {
    JsonValue::Array(v.iter().map(|x| s(x)).collect())
}

fn transcript(deleted: &[&str]) -> TranscriptDocument {
    TranscriptDocument {
        id: "t1".to_string(),
        words: ["w1", "w2", "w3", "w4", "w5"]
            .iter()
            .map(|w| TranscriptWord { id: w.to_string(), deleted: deleted.contains(w) })
            .collect(),
        segments: vec![
            TranscriptSegment { id: "s1".to_string(), word_ids: ids(&["w1", "w2"]) },
            TranscriptSegment { id: "s2".to_string(), word_ids: ids(&["w3"]) },
            TranscriptSegment { id: "s3".to_string(), word_ids: ids(&["w4", "w5"]) },
        ],
    }
}

fn sequence() -> StorySequence {
    StorySequence {
        id: "seq1".to_string(),
        transcript_id: "t1".to_string(),
        clips: vec![
            StoryClip { id: "c1".to_string(), word_ids: ids(&["w1", "w2"]) },
            StoryClip { id: "c2".to_string(), word_ids: ids(&["w3"]) },
            StoryClip { id: "c3".to_string(), word_ids: ids(&["w4", "w5"]) },
        ],
    }
}

fn ops(edit: JsonValue) -> Result<Vec<ReorderOperation>, ReorderError> {
    build_script_reorder_operations(&edit, &transcript(&[]), &vec![sequence()])
}

fn expect_full_reorder(r: Result<Vec<ReorderOperation>, ReorderError>) {
    let ops = r.unwrap();
    assert_eq!(ops.len(), 2);
    match &ops[0] {
        ReorderOperation::ReorderTranscriptSegments { transcript_id, segment_ids } => {
            assert_eq!(transcript_id, "t1");
            assert_eq!(segment_ids, &ids(&["s3", "s1", "s2"]));
        }
        other => panic!("unexpected {other:?}"),
    }
    match &ops[1] {
        ReorderOperation::ReorderStoryClips { sequence_id, clip_ids } => {
            assert_eq!(sequence_id, "seq1");
            assert_eq!(clip_ids, &ids(&["c3", "c1", "c2"]));
        }
        other => panic!("unexpected {other:?}"),
    }
}

#[test]
fn clip_order_moves_segments_with_it() {
    expect_full_reorder(ops(obj(vec![("clipIds", arr(&["c3", "c1", "c2"]))])));
}

#[test]
fn word_order_names_clip_order() {
    expect_full_reorder(ops(obj(vec![("wordIds", arr(&["w4", "w5", "w1", "w3"]))])));
    let order = story_clip_order_from_words(&sequence(), &transcript(&[]), &ids(&["w4", "w5", "w1", "w3"])).unwrap();
    assert_eq!(order, ids(&["c3", "c1", "c2"]));
}

#[test]
fn utterance_order_names_clip_order() {
    expect_full_reorder(ops(obj(vec![("utteranceIds", arr(&["s3", "s1", "s2"]))])));
}

#[test]
fn current_order_has_no_effect() {
    assert!(matches!(ops(obj(vec![("clipIds", arr(&["c1", "c2", "c3"]))])), Err(ReorderError::NoEffect)));
}

#[test]
fn word_order_may_not_reenter_a_clip() {
    assert!(matches!(ops(obj(vec![("wordIds", arr(&["w1", "w3", "w2"]))])), Err(ReorderError::ClipReentered)));
}

#[test]
fn deleted_and_unknown_words_are_refused() {
    let r = build_script_reorder_operations(&obj(vec![("wordIds", arr(&["w3"]))]), &transcript(&["w3"]), &vec![sequence()]);
    match r {
        Err(ReorderError::DeletedAnchor(w)) => assert_eq!(w, "w3"),
        other => panic!("unexpected {other:?}"),
    }
    match ops(obj(vec![("wordIds", arr(&["w9"]))])) {
        Err(ReorderError::WordNotInStory(w)) => assert_eq!(w, "w9"),
        other => panic!("unexpected {other:?}"),
    }
}

#[test]
fn targets_must_be_single_permutations() {
    assert!(matches!(ops(obj(vec![("clipIds", arr(&["c1"])), ("wordIds", arr(&["w1"]))])), Err(ReorderError::AmbiguousTarget)));
    assert!(matches!(ops(obj(vec![])), Err(ReorderError::AmbiguousTarget)));
    assert!(matches!(ops(obj(vec![("clipIds", arr(&["c1", "c2"]))])), Err(ReorderError::InvalidClipPermutation)));
    assert!(matches!(ops(obj(vec![("clipIds", arr(&["c1", "c1", "c2", "c3"]))])), Err(ReorderError::InvalidClipPermutation)));
    assert!(matches!(ops(obj(vec![("utteranceIds", arr(&["s1", "s1", "s2"]))])), Err(ReorderError::InvalidSegmentPermutation)));
    match ops(obj(vec![("clipIds", arr(&[]))])) {
        Err(ReorderError::EmptyIds(f)) => assert_eq!(f, "clipIds"),
        other => panic!("unexpected {other:?}"),
    }
    match ops(obj(vec![("clipIds", JsonValue::Array(vec![JsonValue::Number(JsonNumber::PosInt(1))]))])) {
        Err(ReorderError::NonStringIds(f)) => assert_eq!(f, "clipIds"),
        other => panic!("unexpected {other:?}"),
    }
    match ops(obj(vec![("wordIds", s("w1"))])) {
        Err(ReorderError::MissingIds(f)) => assert_eq!(f, "wordIds"),
        other => panic!("unexpected {other:?}"),
    }
}

#[test]
fn story_sequence_and_clips_are_required() {
    let other = StorySequence { id: "seq9".to_string(), transcript_id: "t9".to_string(), clips: vec![] };
    assert!(matches!(
        build_script_reorder_operations(&obj(vec![("clipIds", arr(&["c1"]))]), &transcript(&[]), &vec![other]),
        Err(ReorderError::StorySequenceRequired)
    ));
    let empty = StorySequence { id: "seq1".to_string(), transcript_id: "t1".to_string(), clips: vec![] };
    assert!(matches!(
        build_script_reorder_operations(&obj(vec![("clipIds", arr(&["c1"]))]), &transcript(&[]), &vec![empty]),
        Err(ReorderError::StoryClipsRequired)
    ));
}

#[test]
fn interleaved_segments_are_refused() {
    let t = TranscriptDocument {
        id: "t1".to_string(),
        words: vec![
            TranscriptWord { id: "w1".to_string(), deleted: false },
            TranscriptWord { id: "w2".to_string(), deleted: false },
            TranscriptWord { id: "w3".to_string(), deleted: false },
        ],
        segments: vec![TranscriptSegment { id: "s1".to_string(), word_ids: ids(&["w1", "w2"]) }],
    };
    let seq = StorySequence {
        id: "seq1".to_string(),
        transcript_id: "t1".to_string(),
        clips: vec![
            StoryClip { id: "c1".to_string(), word_ids: ids(&["w1"]) },
            StoryClip { id: "c2".to_string(), word_ids: ids(&["w3"]) },
            StoryClip { id: "c3".to_string(), word_ids: ids(&["w2"]) },
        ],
    };
    match segment_order_for_story_clips(&t, &seq, &ids(&["c1", "c2", "c3"])) {
        Err(ReorderError::InterleavedSegment(id)) => assert_eq!(id, "s1"),
        other => panic!("unexpected {other:?}"),
    }
    let adjacent = segment_order_for_story_clips(&t, &seq, &ids(&["c2", "c1", "c3"])).unwrap();
    assert_eq!(adjacent, ids(&["s1"]));
}

#[test]
fn deleted_words_do_not_rank_segments() {
    let t = transcript(&["w1", "w2"]);
    let order = segment_order_for_story_clips(&t, &sequence(), &ids(&["c3", "c2", "c1"])).unwrap();
    assert_eq!(order, ids(&["s3", "s2", "s1"]));
    let unranked = segment_order_for_story_clips(&t, &sequence(), &ids(&["c3", "c2"])).unwrap();
    assert_eq!(unranked, ids(&["s3", "s2", "s1"]));
}

#[test]
fn permutation_check() {
    assert!(is_permutation(&ids(&["a", "b"]), &ids(&["b", "a"])));
    assert!(!is_permutation(&ids(&["a", "b"]), &ids(&["a", "a", "b"])));
    assert!(!is_permutation(&ids(&["a", "b"]), &ids(&["a"])));
    assert!(is_permutation(&ids(&["a", "a"]), &ids(&["a"])));
}

#[test]
fn refusals_answer_with_api_errors() {
    let e = reorder_error_answer(&ReorderError::InterleavedSegment("s1".to_string())).unwrap();
    assert_eq!(e.status, 422);
    assert_eq!(e.code, "interleaved_story_segment");
    assert_eq!(e.message, "utterance s1 is interleaved across non-adjacent story clips");
    let e = reorder_error_answer(&ReorderError::MissingIds("wordIds".to_string())).unwrap();
    assert_eq!((e.status, e.code.as_str(), e.message.as_str()), (400, "missing_field", "wordIds is required"));
    let e = reorder_error_answer(&ReorderError::DeletedAnchor("w3".to_string())).unwrap();
    assert_eq!(e.message, "deleted transcript word w3 cannot anchor a reorder");
    let e = reorder_error_answer(&ReorderError::NoEffect).unwrap();
    assert_eq!(e.code, "reorder_has_no_effect");
    assert!(reorder_error_answer(&ReorderError::WordNotInStory("w9".to_string())).is_none());
}
