use openchatcut_daemon::captions::{
    caption_options, caption_word_ids, selected_caption_transcript, transcript_selection_error,
    TranscriptSelection, WordRange,
};
use openchatcut_daemon::json::{JsonNumber, JsonValue};

fn s(v: &str) -> JsonValue {
    JsonValue::Str(v.to_string())
}

fn obj(entries: Vec<(&str, JsonValue)>) -> JsonValue {
    JsonValue::Object(entries.into_iter().map(|(k, v)| (k.to_string(), v)).collect())
}

fn ids(v: &[&str]) -> Vec<String> {
    v.iter().map(|x| x.to_string()).collect()
}

fn ranges() -> Vec<WordRange> {
    [("w1", 0, 10), ("w2", 10, 20), ("w3", 5, 8), ("w4", 0, 10)]
        .iter()
        .map(|(id, start, end)| WordRange { word_id: id.to_string(), start_ticks: *start, end_ticks: *end })
        .collect()
}

#[test]
fn caption_options_must_be_an_object() {
    assert!(caption_options(&obj(vec![])).unwrap().is_none());
    assert!(caption_options(&obj(vec![("options", obj(vec![]))])).unwrap().is_some());
    let e = caption_options(&obj(vec![("options", s("x"))])).unwrap_err();
    assert_eq!((e.status, e.code.as_str()), (400, "invalid_caption_options"));
}

#[test]
fn transcript_is_named_or_the_only_one() {
    let two = ids(&["t1", "t2"]);
    let named = obj(vec![("transcriptId", s("t2"))]);
    assert_eq!(selected_caption_transcript(&two, Some(&named)), TranscriptSelection::Selected(1));
    let unknown = obj(vec![("transcriptId", s("t9"))]);
    assert_eq!(selected_caption_transcript(&two, Some(&unknown)), TranscriptSelection::Unknown);
    assert_eq!(selected_caption_transcript(&two, None), TranscriptSelection::Ambiguous);
    assert_eq!(selected_caption_transcript(&ids(&["t1"]), None), TranscriptSelection::Selected(0));
    assert_eq!(selected_caption_transcript(&vec![], None), TranscriptSelection::NoneExists);
    let not_a_string = obj(vec![("transcriptId", JsonValue::Number(JsonNumber::PosInt(1)))]);
    assert_eq!(selected_caption_transcript(&ids(&["t1"]), Some(&not_a_string)), TranscriptSelection::Selected(0));
}

#[test]
fn transcript_selection_errors() {
    let e = transcript_selection_error(TranscriptSelection::NoneExists, &vec![]).unwrap();
    assert_eq!((e.status, e.code.as_str()), (422, "transcript_required"));
    let e = transcript_selection_error(TranscriptSelection::Ambiguous, &ids(&["t1", "t2"])).unwrap();
    assert_eq!((e.status, e.code.as_str()), (400, "transcript_selection_required"));
    match e.details.unwrap().get("transcriptIds") {
        Some(JsonValue::Array(items)) => assert_eq!(items.len(), 2),
        other => panic!("unexpected {other:?}"),
    }
    assert!(transcript_selection_error(TranscriptSelection::Selected(0), &vec![]).is_none());
    assert!(transcript_selection_error(TranscriptSelection::Unknown, &vec![]).is_none());
}

#[test]
fn caption_words_follow_the_timeline() {
    assert_eq!(caption_word_ids(&ranges(), None).unwrap(), ids(&["w1", "w4", "w3", "w2"]));
    let picked = obj(vec![("wordIds", JsonValue::Array(vec![s("w2"), s("w1")]))]);
    assert_eq!(caption_word_ids(&ranges(), Some(&picked)).unwrap(), ids(&["w1", "w2"]));
    let tie = obj(vec![("wordIds", JsonValue::Array(vec![s("w4"), s("w1")]))]);
    assert_eq!(caption_word_ids(&ranges(), Some(&tie)).unwrap(), ids(&["w4", "w1"]));
}

#[test]
fn caption_words_refusals() {
    let code = |options: JsonValue| caption_word_ids(&ranges(), Some(&options)).unwrap_err();
    let e = code(obj(vec![("wordIds", JsonValue::Array(vec![s("w1"), s("w1")]))]));
    assert_eq!((e.status, e.code.as_str()), (400, "duplicate_caption_word"));
    let e = code(obj(vec![("wordIds", JsonValue::Array(vec![s("w9"), s("w1"), s("w1")]))]));
    assert_eq!((e.status, e.code.as_str()), (422, "inactive_caption_word"));
    assert_eq!(e.details.unwrap().get_str("wordId"), Some("w9"));
    let e = code(obj(vec![("wordIds", s("w1"))]));
    assert_eq!((e.code.as_str(), e.message.as_str()), ("invalid_caption_word_ids", "options.wordIds must be an array"));
    let e = code(obj(vec![("wordIds", JsonValue::Array(vec![JsonValue::Number(JsonNumber::PosInt(1))]))]));
    assert_eq!(e.message, "options.wordIds must contain stable string IDs");
    let e = code(obj(vec![("wordIds", JsonValue::Array(vec![]))]));
    assert_eq!((e.status, e.code.as_str()), (422, "caption_words_required"));
    let e = caption_word_ids(&vec![], None).unwrap_err();
    assert_eq!(e.code, "caption_words_required");
}
