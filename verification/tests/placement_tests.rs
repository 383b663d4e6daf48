use openchatcut_daemon::json::{JsonNumber, JsonValue};
use openchatcut_daemon::placement::{generated_asset_placement, SecondsReading};

fn s(v: &str) -> JsonValue {
    JsonValue::Str(v.to_string())
}

fn n(v: u64) -> JsonValue {
    JsonValue::Number(JsonNumber::PosInt(v))
}

fn obj(entries: Vec<(&str, JsonValue)>) -> JsonValue {
    JsonValue::Object(entries.into_iter().map(|(k, v)| (k.to_string(), v)).collect())
}

const TPS: i64 = 1_000;

fn place(p: JsonValue, start: SecondsReading, dur: SecondsReading) -> Result<Option<openchatcut_daemon::placement::Placement>, String> {
    generated_asset_placement(&obj(vec![("placement", p)]), TPS, start, dur).map_err(|e| {
        assert_eq!((e.status, e.code.as_str()), (400, "invalid_generation_placement"));
        e.message
    })
}

const NF: SecondsReading = SecondsReading::NotFinite;

#[test]
fn placement_in_ticks_is_normalized() {
    assert!(generated_asset_placement(&obj(vec![]), TPS, NF, NF).unwrap().is_none());
    let p = place(
        obj(vec![("startTicks", n(0)), ("durationTicks", n(5_000)), ("sceneId", s("scene-1")), ("name", s("Intro")), ("timelineAnchor", obj(vec![("wordId", s("w1"))]))]),
        NF,
        NF,
    )
    .unwrap()
    .unwrap();
    assert_eq!((p.start_ticks, p.duration_ticks), (0, 5_000));
    assert_eq!(p.scene_id.as_deref(), Some("scene-1"));
    assert_eq!(p.track_id, None);
    assert_eq!(p.name.as_deref(), Some("Intro"));
    assert!(matches!(p.timeline_anchor, Some(JsonValue::Object(_))));
}

#[test]
fn placement_in_seconds_uses_the_reading() {
    let p = place(obj(vec![("startSeconds", n(1)), ("durationSeconds", n(2))]), SecondsReading::Ticks(1_000), SecondsReading::Ticks(2_000))
        .unwrap()
        .unwrap();
    assert_eq!((p.start_ticks, p.duration_ticks), (1_000, 2_000));
    let zero = place(obj(vec![("startSeconds", n(0)), ("durationTicks", n(1))]), SecondsReading::Zero, NF).unwrap().unwrap();
    assert_eq!(zero.start_ticks, 0);
    assert_eq!(
        place(obj(vec![("startTicks", n(0)), ("durationSeconds", n(0))]), NF, SecondsReading::Zero).unwrap_err(),
        "placement durationSeconds must be positive"
    );
    assert_eq!(
        place(obj(vec![("startSeconds", s("x")), ("durationTicks", n(1))]), NF, NF).unwrap_err(),
        "placement startSeconds must be a finite number"
    );
    assert_eq!(
        place(obj(vec![("startTicks", n(0)), ("durationSeconds", n(1))]), NF, SecondsReading::Ticks(0)).unwrap_err(),
        "placement duration must be greater than zero"
    );
}

#[test]
fn placement_refusals() {
    assert_eq!(
        generated_asset_placement(&obj(vec![("placement", s("x"))]), TPS, NF, NF).unwrap_err().message,
        "options.placement must be an object"
    );
    assert_eq!(
        place(obj(vec![("startTicks", n(0)), ("durationTicks", n(1)), ("color", s("red"))]), NF, NF).unwrap_err(),
        "options.placement contains unsupported field \"color\""
    );
    assert_eq!(place(obj(vec![("durationTicks", n(1))]), NF, NF).unwrap_err(), "placement requires startTicks or startSeconds");
    assert_eq!(place(obj(vec![("startTicks", s("1")), ("durationTicks", n(1))]), NF, NF).unwrap_err(), "placement startTicks must be an integer");
    assert_eq!(
        place(obj(vec![("startTicks", JsonValue::Number(JsonNumber::NegInt(-1))), ("durationTicks", n(1))]), NF, NF).unwrap_err(),
        "placement startTicks must be non-negative"
    );
    assert_eq!(place(obj(vec![("startTicks", n(0)), ("durationTicks", n(0))]), NF, NF).unwrap_err(), "placement durationTicks must be positive");
    assert_eq!(
        place(obj(vec![("startTicks", n(86_400_001)), ("durationTicks", n(1))]), NF, NF).unwrap_err(),
        "placement start and duration must be no more than 24 hours"
    );
    assert_eq!(
        place(obj(vec![("startTicks", n(0)), ("durationTicks", n(1)), ("trackId", s(""))]), NF, NF).unwrap_err(),
        "placement trackId must contain 1 to 200 printable characters"
    );
    assert_eq!(
        place(obj(vec![("startTicks", n(0)), ("durationTicks", n(1)), ("name", s(&"n".repeat(201)))]), NF, NF).unwrap_err(),
        "placement name must contain 1 to 200 printable characters"
    );
    assert_eq!(
        place(obj(vec![("startTicks", n(0)), ("durationSeconds", n(1))]), NF, SecondsReading::TooLarge).unwrap_err(),
        "placement durationSeconds is too large"
    );
}
