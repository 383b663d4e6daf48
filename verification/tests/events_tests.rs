use openchatcut_daemon::events::AppEvent;
use openchatcut_daemon::jobs::{nle_export_warnings, NLE_UNREPRESENTED_MESSAGE};
use openchatcut_daemon::json::JsonValue;

fn s(v: &str) -> JsonValue {
    JsonValue::Str(v.to_string())
}

fn obj(entries: Vec<(&str, JsonValue)>) -> JsonValue {
    JsonValue::Object(entries.into_iter().map(|(k, v)| (k.to_string(), v)).collect())
}

#[test]
fn wire_value_sets_event_fields_over_object_data() {
    let event = AppEvent {
        sequence: 7,
        kind: "project.updated".to_string(),
        data: obj(vec![("projectId", s("p1")), ("type", s("stale"))]),
        occurred_at: "2024-01-01T00:00:00+00:00".to_string(),
    };
    let v = event.as_wire_value();
    assert_eq!(v.get_str("type"), Some("project.updated"));
    assert_eq!(v.get_u64("sequence"), Some(7));
    assert_eq!(v.get_str("occurredAt"), Some("2024-01-01T00:00:00+00:00"));
    assert_eq!(v.get_str("projectId"), Some("p1"));
    assert!(v.get("data").is_none());
}

#[test]
fn wire_value_wraps_other_data() {
    let event = AppEvent { sequence: 1, kind: "job".to_string(), data: s("done"), occurred_at: "t".to_string() };
    let v = event.as_wire_value();
    assert_eq!(v.get_str("data"), Some("done"));
    assert_eq!(v.get_str("type"), Some("job"));
}

#[test]
fn nle_warnings_name_unrepresented_items() {
    assert!(nle_export_warnings(&vec![]).is_empty());
    let w = nle_export_warnings(&vec!["cap1".to_string(), "mg2".to_string()]);
    assert_eq!(w.len(), 1);
    assert_eq!(w[0].get_str("code"), Some("nleSemanticItemsNotRepresented"));
    assert_eq!(w[0].get_str("message"), Some(NLE_UNREPRESENTED_MESSAGE));
    match w[0].get("itemIds") {
        Some(JsonValue::Array(items)) => {
            let ids: Vec<&str> = items.iter().map(|v| v.as_str().unwrap()).collect();
            assert_eq!(ids, vec!["cap1", "mg2"]);
        }
        other => panic!("unexpected {other:?}"),
    }
}
