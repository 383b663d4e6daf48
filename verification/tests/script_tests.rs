use openchatcut_daemon::json::{JsonNumber, JsonValue};
use openchatcut_daemon::script::{
    milliseconds_to_ticks, stable_script_suffix, transcript_cleanup_options, CleanupOverrides,
};
use sha2::{Digest, Sha256};

fn s(v: &str) -> JsonValue {
    JsonValue::Str(v.to_string())
}

fn n(v: u64) -> JsonValue {
    JsonValue::Number(JsonNumber::PosInt(v))
}

fn obj(entries: Vec<(&str, JsonValue)>) -> JsonValue {
    JsonValue::Object(entries.into_iter().map(|(k, v)| (k.to_string(), v)).collect())
}

#[test]
fn milliseconds_become_ticks() {
    assert_eq!(milliseconds_to_ticks(1500, 100).unwrap(), 150_000);
    assert_eq!(milliseconds_to_ticks(0, 100).unwrap(), 0);
    let e = milliseconds_to_ticks(-1, 100).unwrap_err();
    assert_eq!((e.status, e.code.as_str()), (400, "negative_duration"));
    let e = milliseconds_to_ticks(i64::MAX, 2).unwrap_err();
    assert_eq!((e.code.as_str(), e.message.as_str()), ("duration_overflow", "duration is too large"));
}

#[test]
fn cleanup_overrides_are_read_from_options() {
    let input = obj(vec![(
        "cleanupOptions",
        obj(vec![
            ("pauseThresholdMs", n(800)),
            ("minimumApplyConfidenceBps", n(9000)),
            ("highlightLimit", n(5)),
        ]),
    )]);
    let o = transcript_cleanup_options(&input, 10).unwrap();
    assert_eq!(
        o,
        CleanupOverrides {
            pause_threshold_ticks: Some(8000),
            target_pause_ticks: None,
            minimum_apply_confidence_bps: Some(9000),
            minimum_repeated_take_words: None,
            repeated_take_similarity_bps: None,
            highlight_limit: Some(5),
        }
    );
    let direct = transcript_cleanup_options(&obj(vec![("targetGapMs", n(180))]), 10).unwrap();
    assert_eq!(direct.target_pause_ticks, Some(1800));
    let via_options = transcript_cleanup_options(&obj(vec![("options", obj(vec![("repeatedTakeSimilarityBps", n(8000))]))]), 10).unwrap();
    assert_eq!(via_options.repeated_take_similarity_bps, Some(8000));
}

#[test]
fn cleanup_settings_are_checked_in_order() {
    let msg = |input: JsonValue| {
        let e = transcript_cleanup_options(&input, 10).unwrap_err();
        (e.code, e.message)
    };
    assert_eq!(msg(obj(vec![("options", n(3))])), ("invalid_cleanup_options".to_string(), "cleanupOptions/options must be an object".to_string()));
    assert_eq!(msg(s("x")), ("invalid_cleanup_options".to_string(), "cleanup input must be an object".to_string()));
    assert_eq!(msg(obj(vec![("pauseThresholdMs", s("x"))])), ("invalid_cleanup_options".to_string(), "pauseThresholdMs must be an integer".to_string()));
    assert_eq!(msg(obj(vec![("minimumApplyConfidenceBps", n(70000))])), ("invalid_cleanup_options".to_string(), "minimumApplyConfidenceBps is too large".to_string()));
    assert_eq!(msg(obj(vec![("highlightLimit", JsonValue::Number(JsonNumber::NegInt(-1)))])), ("invalid_cleanup_options".to_string(), "highlightLimit must be a non-negative integer".to_string()));
    assert_eq!(msg(obj(vec![("targetGapMs", JsonValue::Number(JsonNumber::NegInt(-5)))])).0, "negative_duration");
    assert_eq!(msg(obj(vec![("pauseThresholdMs", s("x")), ("targetGapMs", JsonValue::Number(JsonNumber::NegInt(-5)))])).1, "pauseThresholdMs must be an integer");
}

#[test]
fn script_suffix_is_a_sha256_prefix() {
    let mut hasher = Sha256::new();
    for value in ["project:1", "key-1", "word:9", "3"] {
        hasher.update(value.as_bytes());
        hasher.update([0]);
    }
    let expected = hex::encode(hasher.finalize())[..24].to_owned();
    let got = stable_script_suffix("project:1", "key-1", "word:9", 3);
    assert_eq!(got, expected);
    assert_eq!(got.len(), 24);
    assert_ne!(got, stable_script_suffix("project:1", "key-1", "word:9", 4));
}
