use openchatcut_daemon::agent::CapabilityKind;
use openchatcut_daemon::broll::{broll_recommendation, fallback_kinds, BrollRecommendation};
use openchatcut_daemon::broll::{
    broll_anchor_from_input, broll_asset_metadata_text, score_broll_asset, search_broll,
    try_search_broll, AnchorBias, AnchorEdge, BrollAsset, BrollProvenance,
};
use openchatcut_daemon::captions::WordRange;
use openchatcut_daemon::json::{JsonNumber, JsonValue};
use openchatcut_daemon::media::AssetKind;

fn s(v: &str) -> JsonValue {
    JsonValue::Str(v.to_string())
}

fn obj(entries: Vec<(&str, JsonValue)>) -> JsonValue {
    JsonValue::Object(entries.into_iter().map(|(k, v)| (k.to_string(), v)).collect())
}

fn asset(id: &str, name: &str, kind: AssetKind, hash: Option<&str>, provenance: BrollProvenance) -> BrollAsset {
    BrollAsset {
        id: id.to_string(),
        name: name.to_string(),
        kind,
        content_hash: hash.map(str::to_string),
        provenance,
        web_capture: None,
    }
}

fn imported(source: Option<&str>) -> BrollProvenance {
    BrollProvenance::Imported { source_name: source.map(str::to_string) }
}

fn library() -> Vec<BrollAsset> {
    vec![
        asset("a1", "Beach Sunset", AssetKind::Image, Some("h1"), imported(Some("drone footage"))),
        asset(
            "a2",
            "City Night",
            AssetKind::Video,
            Some("h2"),
            BrollProvenance::Generated {
                provider: "acme".to_string(),
                model: "m1".to_string(),
                prompt: "Sunset over the city".to_string(),
            },
        ),
        asset("a3", "sunset", AssetKind::Audio, Some("h3"), imported(None)),
        asset("a4", "Sunset Beach", AssetKind::Image, None, imported(None)),
    ]
}

fn tokens(words: &[&str]) -> Vec<Vec<char>> {
    words.iter().map(|w| w.chars().collect()).collect()
}

#[test]
fn metadata_text_joins_provenance_and_extraction() {
    let mut a = asset("a", "x", AssetKind::Image, Some("h"), BrollProvenance::Derived { operation: "Trim".to_string() });
    a.web_capture = Some(obj(vec![(
        "extraction",
        obj(vec![
            ("title", s("Big Sale!")),
            ("description", s("Shoes")),
            ("sellingPoints", JsonValue::Array(vec![s("Fast"), JsonValue::Number(JsonNumber::PosInt(3)), s("Cheap")])),
        ]),
    )]));
    assert_eq!(broll_asset_metadata_text(&a), "trim big sale shoes fast cheap");
    let plain = asset("b", "x", AssetKind::Image, Some("h"), imported(None));
    assert_eq!(broll_asset_metadata_text(&plain), "");
}

#[test]
fn score_counts_phrase_and_tokens() {
    let lib = library();
    let m = score_broll_asset(&lib[0], "sunset", &tokens(&["sunset"])).unwrap();
    assert_eq!(m.score, 120);
    assert_eq!(m.match_reasons, vec!["namePhrase".to_string(), "nameTokens:1".to_string()]);
    assert_eq!(m.kind, "image");
    assert_eq!(m.content_hash, "h1");
    let m = score_broll_asset(&lib[1], "sunset", &tokens(&["sunset"])).unwrap();
    assert_eq!(m.score, 60);
    assert_eq!(m.match_reasons, vec!["metadataPhrase".to_string(), "metadataTokens:1".to_string()]);
    let exact = asset("e", "Sunset", AssetKind::Video, Some("h"), imported(None));
    let m = score_broll_asset(&exact, "sunset", &tokens(&["sunset"])).unwrap();
    assert_eq!(m.score, 190);
    assert_eq!(m.match_reasons, vec!["exactName".to_string(), "nameTokens:1".to_string()]);
    assert_eq!(m.kind, "video");
    let two = score_broll_asset(&lib[0], "beach drone", &tokens(&["beach", "drone"])).unwrap();
    assert_eq!(two.score, 40);
    assert_eq!(two.match_reasons, vec!["nameTokens:1".to_string(), "metadataTokens:1".to_string()]);
    assert!(score_broll_asset(&lib[0], "forest", &tokens(&["forest"])).is_none());
    assert!(score_broll_asset(&lib[2], "sunset", &tokens(&["sunset"])).is_none());
    assert!(score_broll_asset(&lib[3], "sunset", &tokens(&["sunset"])).is_none());
}

#[test]
fn search_ranks_by_score_then_name() {
    let r = search_broll(&obj(vec![("query", s("Sunset"))]), &library()).unwrap();
    let ids: Vec<&str> = r.iter().map(|m| m.asset_id.as_str()).collect();
    assert_eq!(ids, vec!["a1", "a2"]);
    let r = search_broll(&obj(vec![("query", s("sunset")), ("limit", JsonValue::Number(JsonNumber::PosInt(1)))]), &library()).unwrap();
    assert_eq!(r.len(), 1);
    assert_eq!(r[0].asset_id, "a1");
    let ties = vec![
        asset("z", "b clip", AssetKind::Image, Some("h"), imported(None)),
        asset("y", "A clip", AssetKind::Image, Some("h"), imported(None)),
        asset("x", "a clip", AssetKind::Image, Some("h"), imported(None)),
    ];
    let r = search_broll(&obj(vec![("query", s("clip"))]), &ties).unwrap();
    let ids: Vec<&str> = r.iter().map(|m| m.asset_id.as_str()).collect();
    assert_eq!(ids, vec!["x", "y", "z"]);
    let none = search_broll(&obj(vec![("query", s("forest"))]), &library()).unwrap();
    assert!(none.is_empty());
}

#[test]
fn search_refuses_bad_queries_and_limits() {
    let code = |input: JsonValue| search_broll(&input, &library()).unwrap_err().code;
    assert_eq!(code(obj(vec![])), "missing_field");
    assert_eq!(code(obj(vec![("query", s("   "))])), "invalid_broll_query");
    assert_eq!(code(obj(vec![("query", s(&"a".repeat(501)))])), "invalid_broll_query");
    assert_eq!(code(obj(vec![("query", s("sun\u{7}set"))])), "invalid_broll_query");
    assert_eq!(code(obj(vec![("query", s("sunset")), ("limit", JsonValue::Number(JsonNumber::PosInt(0)))])), "invalid_broll_limit");
    assert_eq!(code(obj(vec![("query", s("sunset")), ("limit", JsonValue::Number(JsonNumber::PosInt(51)))])), "invalid_broll_limit");
    let e = search_broll(&obj(vec![("query", s("!!! ???"))]), &library()).unwrap_err();
    assert_eq!(e.code, "invalid_broll_query");
    assert_eq!(e.message, "query must contain at least one letter or number");
    assert!(search_broll(&obj(vec![("query", s(&"a".repeat(500)))]), &library()).is_ok());
    assert!(search_broll(&obj(vec![("query", s("sunset")), ("limit", s("many"))]), &library()).is_ok());
}

#[test]
fn checked_search_runs_for_ordinary_queries() {
    let r = try_search_broll(&obj(vec![("query", s("sunset"))]), &library()).unwrap().unwrap();
    assert_eq!(r.len(), 2);
    let missing = try_search_broll(&obj(vec![]), &library()).unwrap();
    assert!(missing.is_err());
}

#[test]
fn broll_anchor_follows_a_transcript_word() {
    let ranges = vec![WordRange { word_id: "w1".to_string(), start_ticks: 100, end_ticks: 250 }];
    assert!(broll_anchor_from_input(&obj(vec![]), &ranges).unwrap().is_none());
    let a = broll_anchor_from_input(&obj(vec![("transcriptId", s("t1")), ("wordId", s("w1"))]), &ranges).unwrap().unwrap();
    assert_eq!((a.transcript_id.as_str(), a.word_id.as_str()), ("t1", "w1"));
    assert_eq!((a.edge, a.bias, a.fallback_ticks), (AnchorEdge::Start, AnchorBias::Nearest, 100));
    let a = broll_anchor_from_input(
        &obj(vec![("transcriptId", s("t1")), ("wordId", s("w1")), ("edge", s("end")), ("bias", s("after"))]),
        &ranges,
    )
    .unwrap()
    .unwrap();
    assert_eq!((a.edge, a.bias, a.fallback_ticks), (AnchorEdge::End, AnchorBias::After, 250));
    let code = |input: JsonValue| broll_anchor_from_input(&input, &ranges).unwrap_err().code;
    assert_eq!(code(obj(vec![("wordId", s("w1"))])), "incomplete_broll_anchor");
    assert_eq!(code(obj(vec![("transcriptId", s("t1")), ("wordId", s("w9"))])), "inactive_broll_anchor");
    assert_eq!(code(obj(vec![("transcriptId", s("t1")), ("wordId", s("w1")), ("edge", s("middle"))])), "invalid_broll_anchor_edge");
    assert_eq!(code(obj(vec![("transcriptId", s("t1")), ("wordId", s("w1")), ("bias", s("late"))])), "invalid_broll_anchor_bias");
}

#[test]
fn recommendation_is_generate_without_local_matches() {
    let none = broll_recommendation(&Vec::new());
    assert_eq!(none, BrollRecommendation::Generate);
    assert_eq!(none.as_str(), "generate");
    let found = try_search_broll(&obj(vec![("query", s("sunset"))]), &library()).unwrap().unwrap();
    assert_eq!(broll_recommendation(&found).as_str(), "useLocal");
    assert_eq!(
        fallback_kinds(&vec![CapabilityKind::VideoGeneration, CapabilityKind::MusicGeneration, CapabilityKind::ImageGeneration]),
        vec!["video", "image"]
    );
    assert!(fallback_kinds(&vec![CapabilityKind::SpeechSynthesis]).is_empty());
}
