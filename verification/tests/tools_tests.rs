use openchatcut_daemon::agent::{CapabilityKind, ProviderFacts};
use openchatcut_daemon::json::{JsonNumber, JsonValue};
use openchatcut_daemon::tools::{
    generator_capability, generators_for, tool_arguments, tool_named, tool_page_limit,
    unknown_tool_error, Tool,
};

fn s(v: &str) -> JsonValue {
    JsonValue::Str(v.to_string())
}

fn obj(entries: Vec<(&str, JsonValue)>) -> JsonValue {
    JsonValue::Object(entries.into_iter().map(|(k, v)| (k.to_string(), v)).collect())
}

#[test]
fn tool_names_and_aliases() {
    assert_eq!(tool_named("status"), Some(Tool::GetStatus));
    assert_eq!(tool_named("get_status"), Some(Tool::GetStatus));
    assert_eq!(tool_named("validate"), Some(Tool::ValidateTimelineEdit));
    assert_eq!(tool_named("apply_timeline_edit"), Some(Tool::ApplyTimelineEdit));
    assert_eq!(tool_named("jobs"), Some(Tool::TrackJobs));
    assert_eq!(tool_named("change_history"), Some(Tool::ChangeHistory));
    assert_eq!(tool_named("edit_captions"), Some(Tool::EditCaptions));
    assert_eq!(tool_named("make_coffee"), None);
    assert_eq!(tool_named("Status"), None);
}

#[test]
fn unknown_tools_are_not_implemented() {
    let e = unknown_tool_error("make_coffee");
    assert_eq!((e.status, e.code.as_str()), (501, "capability_not_implemented"));
    match e.details {
        Some(JsonValue::Object(d)) => {
            assert_eq!(d[0].0, "toolName");
            assert!(matches!(&d[0].1, JsonValue::Str(n) if n == "make_coffee"));
            match &d[1].1 {
                JsonValue::Array(a) => {
                    assert_eq!(a.len(), 24);
                    assert!(matches!(&a[0], JsonValue::Str(n) if n == "get_status"));
                    assert!(matches!(&a[23], JsonValue::Str(n) if n == "track_jobs"));
                }
                other => panic!("unexpected {other:?}"),
            }
        }
        other => panic!("unexpected {other:?}"),
    }
}

#[test]
fn arguments_and_limits() {
    let wrapped = obj(vec![("arguments", obj(vec![("projectId", s("p1"))])), ("idempotencyKey", s("k"))]);
    assert!(matches!(tool_arguments(&wrapped), JsonValue::Object(e) if e.len() == 1 && e[0].0 == "projectId"));
    let raw = obj(vec![("projectId", s("p1")), ("arguments", s("not an object"))]);
    assert!(matches!(tool_arguments(&raw), JsonValue::Object(e) if e.len() == 2));
    assert_eq!(tool_page_limit(&obj(vec![])), 100);
    assert_eq!(tool_page_limit(&obj(vec![("limit", JsonValue::Number(JsonNumber::PosInt(25)))])), 25);
    assert_eq!(tool_page_limit(&obj(vec![("limit", JsonValue::Number(JsonNumber::PosInt(4_294_967_297)))])), 1);
}

#[test]
fn generator_listing_filters_by_kind() {
    assert_eq!(generator_capability(&obj(vec![])).unwrap(), None);
    assert_eq!(generator_capability(&obj(vec![("kind", s("music"))])).unwrap(), Some(CapabilityKind::MusicGeneration));
    assert_eq!(generator_capability(&obj(vec![("kind", s("webCapture"))])).unwrap(), Some(CapabilityKind::WebCapture));
    assert_eq!(generator_capability(&obj(vec![("kind", JsonValue::Bool(true))])).unwrap(), None);
    let e = generator_capability(&obj(vec![("kind", s("poem"))])).unwrap_err();
    assert_eq!((e.status, e.code.as_str()), (400, "invalid_generator_kind"));
    let providers = vec![
        ProviderFacts {
            id: "pix".to_string(),
            capabilities: vec![CapabilityKind::ImageGeneration],
            available: true,
            availability: s("available"),
        },
        ProviderFacts {
            id: "av".to_string(),
            capabilities: vec![CapabilityKind::MusicGeneration, CapabilityKind::ImageGeneration],
            available: true,
            availability: s("available"),
        },
    ];
    assert_eq!(generators_for(&providers, Some(CapabilityKind::ImageGeneration)), vec![0, 1]);
    assert_eq!(generators_for(&providers, Some(CapabilityKind::MusicGeneration)), vec![1]);
    assert_eq!(generators_for(&providers, Some(CapabilityKind::WebCapture)), Vec::<usize>::new());
    assert_eq!(generators_for(&providers, None), vec![0, 1]);
}
