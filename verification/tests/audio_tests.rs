use openchatcut_daemon::audio::{audio_plan, check_audio_asset};
use openchatcut_daemon::json::JsonValue;
use openchatcut_daemon::media::AssetKind;

fn s(v: &str) -> JsonValue {
    JsonValue::Str(v.to_string())
}

fn obj(entries: Vec<(&str, JsonValue)>) -> JsonValue {
    JsonValue::Object(entries.into_iter().map(|(k, v)| (k.to_string(), v)).collect())
}

fn input(op: &str, options: Vec<(&str, JsonValue)>) -> JsonValue {
    obj(vec![("operation", s(op)), ("options", obj(options))])
}

#[test]
fn denoise_defaults_to_auto_and_checks_its_engine() {
    let plan = audio_plan(&input("denoise", vec![])).unwrap();
    assert_eq!(plan.worker_kind, "denoise");
    assert_eq!(plan.engine.as_deref(), Some("auto"));
    let plan = audio_plan(&input("denoise", vec![("engine", s("rnnoise"))])).unwrap();
    assert_eq!(plan.engine.as_deref(), Some("rnnoise"));
    let e = audio_plan(&input("denoise", vec![("engine", s("magic"))])).unwrap_err();
    assert_eq!((e.status, e.code.as_str()), (400, "invalid_audio_options"));
    assert_eq!(e.message, "denoise engine must be auto, deepfilternet, rnnoise, or ffmpeg");
}

#[test]
fn each_operation_runs_its_worker_job() {
    assert_eq!(audio_plan(&input("normalize", vec![])).unwrap().worker_kind, "normalize_loudness");
    assert_eq!(audio_plan(&input("compress-dialogue", vec![])).unwrap().worker_kind, "compress_dialogue");
    assert_eq!(audio_plan(&input("loop", vec![])).unwrap().worker_kind, "loop_audio");
    let duck = audio_plan(&input("duck-music", vec![("sidechainAssetId", s("a2"))])).unwrap();
    assert_eq!((duck.worker_kind, duck.secondary_asset_id.as_deref()), ("duck_music", Some("a2")));
    let e = audio_plan(&input("duck-music", vec![])).unwrap_err();
    assert_eq!(e.code, "secondary_audio_required");
    let e = audio_plan(&input("reverse", vec![])).unwrap_err();
    assert_eq!((e.code.as_str(), e.message.as_str()), ("unsupported_audio_operation", "unsupported audio operation"));
    let e = audio_plan(&obj(vec![])).unwrap_err();
    assert_eq!(e.code, "missing_field");
}

#[test]
fn crossfade_needs_a_second_asset_and_a_known_curve() {
    let plan = audio_plan(&input("crossfade", vec![("secondAssetId", s("b"))])).unwrap();
    assert_eq!(plan.worker_kind, "crossfade_audio");
    assert_eq!(plan.curve.as_deref(), Some("tri"));
    let e = audio_plan(&input("crossfade", vec![("secondAssetId", s("b")), ("curve", s("wobble"))])).unwrap_err();
    assert_eq!(e.message, "crossfade duration/curve settings are invalid");
    let e = audio_plan(&input("crossfade", vec![("curve", s("log"))])).unwrap_err();
    assert_eq!(e.message, "crossfade requires options.secondAssetId");
}

#[test]
fn only_assets_with_audio_are_processed() {
    assert!(check_audio_asset(AssetKind::Audio, false).is_ok());
    assert!(check_audio_asset(AssetKind::Video, true).is_ok());
    let e = check_audio_asset(AssetKind::Video, false).unwrap_err();
    assert_eq!((e.status, e.code.as_str()), (422, "asset_has_no_audio"));
    assert!(check_audio_asset(AssetKind::Image, true).is_err());
}
