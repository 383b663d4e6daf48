use openchatcut_daemon::agent::AssetFacts;
use openchatcut_daemon::json::{JsonNumber, JsonValue};
use openchatcut_daemon::media::AssetKind;
use openchatcut_daemon::transcription::{transcription_asset, transcription_options, TranscriptionAssetError};

fn asset(id: &str, kind: AssetKind, has_audio: bool, managed: bool) -> AssetFacts {
    AssetFacts { id: id.to_string(), kind, has_audio, managed }
}

fn obj(entries: Vec<(&str, JsonValue)>) -> JsonValue {
    JsonValue::Object(entries.into_iter().map(|(k, v)| (k.to_string(), v)).collect())
}

fn code(e: TranscriptionAssetError) -> String {
    match e {
        TranscriptionAssetError::Refused(a) => a.code,
        TranscriptionAssetError::NotFound(id) => format!("not found {id}"),
    }
}

#[test]
fn the_only_managed_asset_with_audio_is_chosen() {
    let assets = vec![
        asset("img", AssetKind::Image, false, true),
        asset("silent", AssetKind::Video, false, true),
        asset("voice", AssetKind::Audio, false, true),
        asset("linked", AssetKind::Audio, false, false),
    ];
    assert_eq!(transcription_asset(&assets, None).unwrap(), 2);
    assert_eq!(code(transcription_asset(&assets, Some("silent")).unwrap_err()), "asset_has_no_audio");
    assert_eq!(code(transcription_asset(&assets, Some("img")).unwrap_err()), "asset_not_transcribable");
    assert_eq!(code(transcription_asset(&assets, Some("linked")).unwrap_err()), "asset_not_managed");
    assert_eq!(code(transcription_asset(&assets, Some("zz")).unwrap_err()), "not found zz");
}

#[test]
fn no_or_several_candidates_need_an_explicit_asset() {
    let none = vec![asset("img", AssetKind::Image, false, true)];
    assert_eq!(code(transcription_asset(&none, None).unwrap_err()), "asset_required");
    let two = vec![asset("a", AssetKind::Audio, false, true), asset("v", AssetKind::Video, true, true)];
    match transcription_asset(&two, None).unwrap_err() {
        TranscriptionAssetError::Refused(e) => {
            assert_eq!(e.code, "asset_selection_required");
            match e.details {
                Some(JsonValue::Object(d)) => match &d[0].1 {
                    JsonValue::Array(ids) => {
                        assert_eq!(ids.len(), 2);
                        assert!(matches!(&ids[1], JsonValue::Str(id) if id == "v"));
                    }
                    other => panic!("unexpected {other:?}"),
                },
                other => panic!("unexpected {other:?}"),
            }
        }
        other => panic!("unexpected {other:?}"),
    }
    assert_eq!(transcription_asset(&two, Some("v")).unwrap(), 1);
}

#[test]
fn options_pick_the_engine_and_check_speakers_and_language() {
    let o = transcription_options(&obj(vec![]), false).unwrap();
    assert_eq!((o.engine, o.diarization, o.language.as_str()), ("faster-whisper", false, "auto"));
    assert_eq!(transcription_options(&obj(vec![]), true).unwrap().engine, "new-api-asr");

    let n = |v: u64| JsonValue::Number(JsonNumber::PosInt(v));
    let o = transcription_options(&obj(vec![("minSpeakers", n(2)), ("maxSpeakers", n(4))]), false).unwrap();
    assert_eq!((o.min_speakers, o.max_speakers), (Some(2), Some(4)));
    let e = transcription_options(&obj(vec![("minSpeakers", n(5)), ("maxSpeakers", n(4))]), false).unwrap_err();
    assert_eq!(e.code, "invalid_speaker_count");
    let e = transcription_options(&obj(vec![("minSpeakers", n(1 << 40))]), false).unwrap_err();
    assert_eq!(e.message, "minSpeakers is too large");

    let remote = obj(vec![("engine", JsonValue::Str("new-api-asr".into()))]);
    let e = transcription_options(&remote, false).unwrap_err();
    assert_eq!((e.status, e.message.as_str()), (501, "New API ASR is not configured"));
    let diarized = obj(vec![("diarization", JsonValue::Bool(true))]);
    let e = transcription_options(&diarized, true).unwrap_err();
    assert_eq!(e.status, 501);
    assert_eq!(transcription_options(&diarized, false).unwrap().engine, "faster-whisper");

    let e = transcription_options(&obj(vec![("engine", JsonValue::Str("whisper.cpp".into()))]), true).unwrap_err();
    assert_eq!(e.message, "the requested transcription engine is not supported");
    let e = transcription_options(&obj(vec![("language", JsonValue::Str("x".repeat(65)))]), false).unwrap_err();
    assert_eq!(e.code, "invalid_language");
}
