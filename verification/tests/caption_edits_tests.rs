use openchatcut_daemon::caption_edits::{
    caption_action, plan_caption_create, selected_scene, CaptionAction, SceneInfo,
    caption_language, caption_layout, caption_preset_choice, caption_style_patch,
    check_caption_style_strings, remap_caption_words, starts_from_preset_style, CaptionLayout,
    import_transcript, remove_captions, subtitle_cue_words, subtitle_file,
    subtitle_span, subtitle_transcript, target_caption_track, translate_captions,
    CaptionEditError, CaptionOperation, SubtitleCue, SubtitleFormat, TimelineItem, Track,
    TrackKind, TranscriptInfo,
};
use openchatcut_daemon::captions::WordRange;
use openchatcut_daemon::json::JsonValue;

fn s(v: &str) -> JsonValue {
    JsonValue::Str(v.to_string())
}

fn obj(entries: Vec<(&str, JsonValue)>) -> JsonValue {
    JsonValue::Object(entries.into_iter().map(|(k, v)| (k.to_string(), v)).collect())
}

fn item(id: &str, name: &str, start: i64, duration: i64, language: Option<&str>) -> TimelineItem {
    TimelineItem {
        id: id.to_string(),
        name: name.to_string(),
        start_ticks: start,
        duration_ticks: duration,
        caption_language: language.map(|l| l.to_string()),
    }
}

fn track(id: &str, kind: TrackKind, items: Vec<TimelineItem>) -> Track {
    Track { scene_id: "sc1".to_string(), id: id.to_string(), kind, items }
}

fn mixed_track() -> Track {
    track(
        "tr1",
        TrackKind::Caption,
        vec![
            item("i0", "Intro", 0, 100, Some("en")),
            item("i1", "Clip", 100, 100, None),
            item("i2", "Outro", 200, 50, Some("en")),
        ],
    )
}

fn refused(e: CaptionEditError) -> (u16, String, String) {
    match e {
        CaptionEditError::Refused(a) => (a.status, a.code, a.message),
        other => panic!("unexpected {other:?}"),
    }
}

#[test]
fn caption_track_targeting() {
    let video = track("v1", TrackKind::Other, vec![item("x", "X", 0, 10, None)]);
    let tracks = vec![video, mixed_track()];
    assert_eq!(target_caption_track(&tracks, &obj(vec![])).unwrap().id, "tr1");
    assert_eq!(target_caption_track(&tracks, &obj(vec![("captionTrackId", s("v1"))])).unwrap().id, "v1");
    assert!(matches!(
        target_caption_track(&tracks, &obj(vec![("captionTrackId", s("zz"))])).unwrap_err(),
        CaptionEditError::TrackNotFound(id) if id == "zz"
    ));
    let text_with_caption = track("t2", TrackKind::Text, vec![item("c", "C", 0, 5, Some("de"))]);
    let two = vec![mixed_track(), text_with_caption];
    match target_caption_track(&two, &obj(vec![])).unwrap_err() {
        CaptionEditError::Refused(a) => {
            assert_eq!((a.status, a.code.as_str()), (400, "caption_track_selection_required"));
            match a.details {
                Some(JsonValue::Object(d)) => {
                    assert_eq!(d[0].0, "captionTrackIds");
                    match &d[0].1 {
                        JsonValue::Array(ids) => {
                            assert_eq!(ids.len(), 2);
                            assert!(matches!(&ids[0], JsonValue::Str(t) if t == "tr1"));
                            assert!(matches!(&ids[1], JsonValue::Str(t) if t == "t2"));
                        }
                        other => panic!("unexpected {other:?}"),
                    }
                }
                other => panic!("unexpected {other:?}"),
            }
        }
        other => panic!("unexpected {other:?}"),
    }
    let none = vec![track("v1", TrackKind::Other, vec![])];
    assert_eq!(refused(target_caption_track(&none, &obj(vec![])).unwrap_err()).0, 422);
}

#[test]
fn removing_captions() {
    let tracks = vec![mixed_track()];
    let (status, code, _) = refused(remove_captions(&obj(vec![]), &tracks).unwrap_err());
    assert_eq!((status, code.as_str()), (428, "confirmation_required"));
    let r = remove_captions(&obj(vec![("confirm", JsonValue::Bool(true))]), &tracks).unwrap();
    assert_eq!(r.track_id, "tr1");
    assert_eq!(r.item_ids, vec!["i0".to_string(), "i2".to_string()]);
    assert!(matches!(&r.operations[..], [
        CaptionOperation::RemoveItem { item_id: a },
        CaptionOperation::RemoveItem { item_id: b },
    ] if a == "i0" && b == "i2"));
    let only = vec![track("tr9", TrackKind::Caption, vec![item("c1", "C", 0, 5, Some("en"))])];
    let r = remove_captions(&obj(vec![("confirm", JsonValue::Bool(true))]), &only).unwrap();
    assert!(matches!(&r.operations[..], [CaptionOperation::RemoveTrack { track_id }] if track_id == "tr9"));
    let empty = vec![track("tr8", TrackKind::Caption, vec![])];
    let (status, code, _) = refused(remove_captions(&obj(vec![("confirm", JsonValue::Bool(true))]), &empty).unwrap_err());
    assert_eq!((status, code.as_str()), (422, "caption_items_required"));
}

#[test]
fn translating_a_caption_track() {
    let tracks = vec![mixed_track()];
    let options = obj(vec![("targetLanguage", s("fr")), ("translations", obj(vec![("w1", s("bonjour"))]))]);
    let t = translate_captions(&obj(vec![]), Some(&options), &tracks, "S").unwrap();
    assert_eq!((t.source_track_id.as_str(), t.track_id.as_str()), ("tr1", "track:caption-translation:S"));
    assert_eq!(t.translations, vec![("w1".to_string(), "bonjour".to_string())]);
    assert_eq!(t.item_ids, vec!["item:caption-translation:S:0".to_string(), "item:caption-translation:S:2".to_string()]);
    assert_eq!(t.operations.len(), 3);
    assert!(matches!(&t.operations[0],
        CaptionOperation::AddCaptionTrack { scene_id, track_id, name }
            if scene_id == "sc1" && track_id == "track:caption-translation:S" && name == "Captions (fr)"));
    match &t.operations[2] {
        CaptionOperation::InsertTranslatedCaption { item_id, name, start_ticks, duration_ticks, source_item_id, language, translation_of, .. } => {
            assert_eq!(item_id, "item:caption-translation:S:2");
            assert_eq!(name, "Outro (fr)");
            assert_eq!((*start_ticks, *duration_ticks), (200, 50));
            assert_eq!((source_item_id.as_str(), language.as_str(), translation_of.as_str()), ("i2", "fr", "en"));
        }
        other => panic!("unexpected {other:?}"),
    }
    let code = |options: JsonValue| refused(translate_captions(&obj(vec![]), Some(&options), &tracks, "S").unwrap_err());
    assert_eq!(code(obj(vec![("provider", s("x"))])).0, 501);
    assert_eq!(code(obj(vec![])).1, "target_language_required");
    assert_eq!(code(obj(vec![("targetLanguage", s(&"x".repeat(65)))])).1, "target_language_required");
    assert_eq!(code(obj(vec![("targetLanguage", s("fr"))])).1, "translations_required");
    let (_, c, m) = code(obj(vec![("targetLanguage", s("fr")), ("translations", obj(vec![("w1", JsonValue::Null)]))]));
    assert_eq!((c.as_str(), m.as_str()), ("invalid_translation", "translation values must be strings"));
    let (_, c, m) = code(obj(vec![("targetLanguage", s("fr")), ("translations", obj(vec![("w7", s("a\u{7}b"))]))]));
    assert_eq!((c.as_str(), m.as_str()), ("invalid_translation", "translation for w7 is invalid"));
    assert!(translate_captions(&obj(vec![]), None, &tracks, "S").is_err());
}

fn range(id: &str, start: i64, end: i64) -> WordRange {
    WordRange { word_id: id.to_string(), start_ticks: start, end_ticks: end }
}

fn cue(start: i64, end: i64, text: &str) -> SubtitleCue {
    SubtitleCue { start_ticks: start, end_ticks: end, text: text.to_string() }
}

#[test]
fn cues_land_on_overlapping_words_in_timeline_order() {
    let ranges = vec![range("a", 200, 300), range("b", 0, 100), range("c", 100, 200), range("d", 0, 100)];
    let cues = vec![cue(50, 150, "hello there"), cue(150, 250, "world")];
    let r = subtitle_cue_words(&ranges, &cues).unwrap();
    assert_eq!(r.word_ids, vec!["b", "d", "c", "a"].into_iter().map(String::from).collect::<Vec<_>>());
    let display: Vec<(&str, &str)> = r.display_text.iter().map(|(k, v)| (k.as_str(), v.as_str())).collect();
    assert_eq!(display, vec![("b", "hello there"), ("d", ""), ("c", ""), ("a", "")]);
    let (status, code, _) = refused(subtitle_cue_words(&ranges, &vec![cue(1000, 2000, "late")]).unwrap_err());
    assert_eq!((status, code.as_str()), (422, "subtitle_timing_did_not_match_transcript"));
}

#[test]
fn cue_text_becomes_evenly_timed_words() {
    let cues = vec![cue(0, 10, "one two  three"), cue(10, 11, "a b c"), cue(20, 14, "x y"), cue(30, 40, "")];
    let t = subtitle_transcript(&cues, "en", "S");
    assert_eq!((t.id.as_str(), t.language.as_str()), ("transcript:subtitle:S", "en"));
    let got: Vec<(&str, &str, i64, i64)> =
        t.words.iter().map(|w| (w.id.as_str(), w.text.as_str(), w.start_ticks, w.end_ticks)).collect();
    assert_eq!(
        got,
        vec![
            ("word:subtitle:S:0:0", "one", 0, 3),
            ("word:subtitle:S:0:1", "two", 3, 6),
            ("word:subtitle:S:0:2", "three", 6, 10),
            ("word:subtitle:S:1:0", "a", 10, 11),
            ("word:subtitle:S:1:1", "b", 10, 11),
            ("word:subtitle:S:1:2", "c", 10, 11),
            ("word:subtitle:S:2:0", "x", 20, 21),
            ("word:subtitle:S:2:1", "y", 17, 18),
            ("word:subtitle:S:3:0", "", 30, 40),
        ]
    );
    assert_eq!(t.segments.len(), 4);
    assert_eq!(t.segments[1].id, "segment:subtitle:S:1");
    assert_eq!(t.segments[1].word_ids, vec!["word:subtitle:S:1:0", "word:subtitle:S:1:1", "word:subtitle:S:1:2"]);
    assert_eq!(subtitle_span(&cues).unwrap(), (0, 40));
    assert_eq!(refused(subtitle_span(&vec![]).unwrap_err()).1, "invalid_subtitle");
}

#[test]
fn subtitle_import_settings() {
    let options = obj(vec![("format", s("vtt")), ("content", s("WEBVTT"))]);
    let (format, content) = subtitle_file(Some(&options)).unwrap();
    assert_eq!((format, content), (SubtitleFormat::Vtt, "WEBVTT"));
    assert_eq!(refused(subtitle_file(Some(&obj(vec![("format", s("doc"))]))).unwrap_err()).1, "invalid_subtitle_format");
    assert_eq!(refused(subtitle_file(Some(&obj(vec![("format", s("srt"))]))).unwrap_err()).1, "subtitle_content_required");
    let ts = vec![TranscriptInfo { id: "t1".to_string(), language: "en".to_string() }];
    assert_eq!(import_transcript(None, &ts).unwrap().unwrap().id, "t1");
    assert!(import_transcript(Some(&obj(vec![("createTranscript", JsonValue::Bool(true))])), &ts).unwrap().is_none());
    assert!(matches!(
        import_transcript(Some(&obj(vec![("transcriptId", s("t9"))])), &ts).unwrap_err(),
        CaptionEditError::TranscriptNotFound(id) if id == "t9"
    ));
    assert_eq!(caption_language(Some(&obj(vec![("language", s("de"))])), "en").unwrap(), "de");
    assert_eq!(caption_language(None, "und").unwrap(), "und");
    assert_eq!(refused(caption_language(None, "").unwrap_err()).1, "invalid_caption_language");
    assert_eq!(refused(caption_language(Some(&obj(vec![("language", s("e\nn"))])), "en").unwrap_err()).1, "invalid_caption_language");
}

#[test]
fn caption_presets_and_layout() {
    let options = obj(vec![("presetId", s("bold")), ("maxLines", JsonValue::Number(openchatcut_daemon::json::JsonNumber::PosInt(3)))]);
    assert_eq!(caption_preset_choice(Some(&options), Some("calm")), "bold");
    assert_eq!(caption_preset_choice(None, Some("calm")), "calm");
    assert_eq!(caption_preset_choice(None, None), "studio-clean");
    assert!(starts_from_preset_style(Some(&options), true));
    assert!(!starts_from_preset_style(None, true));
    assert!(starts_from_preset_style(None, false));
    assert_eq!(
        caption_layout(Some(&options), 2, 42, true).unwrap(),
        CaptionLayout { max_lines: 3, max_characters_per_line: 42, word_highlight: true }
    );
    let wide = obj(vec![("maxCharactersPerLine", JsonValue::Number(openchatcut_daemon::json::JsonNumber::PosInt(201)))]);
    let e = caption_layout(Some(&wide), 2, 42, false).unwrap_err();
    assert_eq!((e.status, e.code.as_str()), (400, "invalid_caption_layout"));
    assert!(caption_layout(None, 0, 42, false).is_err());
    assert_eq!(caption_layout(None, 8, 4, false).unwrap().max_lines, 8);
}

#[test]
fn caption_style_patches() {
    assert!(caption_style_patch(None).unwrap().is_none());
    let patch = obj(vec![("textColor", s("#fff")), ("fontSize", JsonValue::Number(openchatcut_daemon::json::JsonNumber::PosInt(40)))]);
    assert_eq!(caption_style_patch(Some(&patch)).unwrap().unwrap().len(), 2);
    let bad = obj(vec![("textColor", s("#fff")), ("blink", JsonValue::Bool(true))]);
    let e = caption_style_patch(Some(&bad)).unwrap_err();
    assert_eq!((e.code.as_str(), e.message.as_str()), ("invalid_caption_style", "unsupported caption style property: blink"));
    let e = caption_style_patch(Some(&s("red"))).unwrap_err();
    assert_eq!(e.message, "options.style must be an object");
    assert!(check_caption_style_strings(&vec!["Inter".to_string(), "#ffffff".to_string()]).is_ok());
    assert!(check_caption_style_strings(&vec!["x".repeat(257)]).is_err());
    assert!(check_caption_style_strings(&vec!["\u{e9}".repeat(256)]).is_ok());
    assert!(check_caption_style_strings(&vec!["red".to_string(), "a\tb".to_string()]).is_err());
}

#[test]
fn remapped_caption_words_follow_the_timeline() {
    let ranges = vec![range("a", 10, 20), range("b", 0, 5), range("c", 10, 20)];
    let words: Vec<String> = ["c", "x", "a", "b", "a"].iter().map(|w| w.to_string()).collect();
    assert_eq!(remap_caption_words(&words, &ranges), vec!["b", "c", "a"]);
    assert!(remap_caption_words(&vec!["x".to_string()], &ranges).is_empty());
}

#[test]
fn caption_actions_and_create_plans() {
    assert_eq!(caption_action(&obj(vec![("action", s("update-style"))])).unwrap(), CaptionAction::UpdateStyle);
    assert_eq!(caption_action(&obj(vec![("action", s("erase"))])).unwrap_err().code, "invalid_caption_action");
    assert_eq!(caption_action(&obj(vec![])).unwrap_err().message, "action is required");
    let scenes = vec![
        SceneInfo { id: "s1".to_string(), is_main: false },
        SceneInfo { id: "s2".to_string(), is_main: true },
    ];
    assert_eq!(selected_scene(&scenes, Some("s1")), Some(0));
    assert_eq!(selected_scene(&scenes, Some("zz")), Some(1));
    assert_eq!(selected_scene(&scenes, None), Some(1));
    assert_eq!(selected_scene(&vec![], None), None);
    let tracks = vec![mixed_track(), track("v1", TrackKind::Other, vec![])];
    let ops = plan_caption_create(&obj(vec![]), None, &tracks, &scenes, None, "S", 100, 400).unwrap();
    assert!(matches!(&ops[..], [
        CaptionOperation::AddCaptionTrack { scene_id, track_id, name },
        CaptionOperation::InsertCaption { track_id: t2, item_id, name: n2, start_ticks: 100, duration_ticks: 300 },
    ] if scene_id == "s2" && track_id == "track:caption:S" && name == "Captions" && t2 == "track:caption:S" && item_id == "item:caption:S" && n2 == "Captions"));
    let options = obj(vec![("name", s("Subs"))]);
    let ops = plan_caption_create(&obj(vec![("captionTrackId", s("tr1"))]), Some(&options), &tracks, &vec![], None, "S", 0, 10).unwrap();
    assert!(matches!(&ops[..], [
        CaptionOperation::AddMainScene { scene_id },
        CaptionOperation::InsertCaption { track_id, name, .. },
    ] if scene_id == "scene:caption:S" && track_id == "tr1" && name == "Subs"));
    assert_eq!(
        refused(plan_caption_create(&obj(vec![("captionTrackId", s("v1"))]), None, &tracks, &scenes, None, "S", 0, 10).unwrap_err()).1,
        "invalid_caption_track"
    );
    assert!(matches!(
        plan_caption_create(&obj(vec![("captionTrackId", s("nope"))]), None, &tracks, &scenes, None, "S", 0, 10).unwrap_err(),
        CaptionEditError::TrackNotFound(id) if id == "nope"
    ));
}
