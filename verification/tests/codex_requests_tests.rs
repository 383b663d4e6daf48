use openchatcut_daemon::codex_requests::{
    image_thread_start, image_turn_start, planner_thread_start, planner_turn_start, PLANNER_RULES,
};
use openchatcut_daemon::json::{JsonNumber, JsonValue};

fn get<'a>(v: &'a JsonValue, key: &str) -> &'a JsonValue {
    match v {
        JsonValue::Object(entries) => &entries.iter().find(|(k, _)| k == key).expect("member").1,
        _ => panic!("not an object"),
    }
}

fn text(v: &JsonValue) -> &str {
    match v {
        JsonValue::Str(s) => s,
        _ => panic!("not a string"),
    }
}

#[test]
fn planner_thread_is_read_only_and_never_asks() {
    let r = planner_thread_start("/tmp/work");
    assert_eq!(text(get(&r, "method")), "thread/start");
    assert!(matches!(get(&r, "id"), JsonValue::Number(JsonNumber::PosInt(2))));
    let p = get(&r, "params");
    assert_eq!(text(get(p, "cwd")), "/tmp/work");
    assert_eq!(text(get(p, "sandbox")), "read-only");
    assert_eq!(text(get(p, "approvalPolicy")), "never");
    assert!(matches!(get(p, "ephemeral"), JsonValue::Bool(true)));
    assert!(matches!(get(p, "dynamicTools"), JsonValue::Array(a) if a.is_empty()));
    assert_eq!(text(get(p, "developerInstructions")), PLANNER_RULES);
}

#[test]
fn planner_turn_has_no_network_and_attaches_the_visuals() {
    let visuals = vec!["/tmp/work/a.png".to_string(), "/tmp/work/b.png".to_string()];
    let r = planner_turn_start("t1", "Plan this", &visuals, "{}");
    assert_eq!(text(get(&r, "method")), "turn/start");
    let p = get(&r, "params");
    assert_eq!(text(get(p, "threadId")), "t1");
    match get(p, "input") {
        JsonValue::Array(items) => {
            assert_eq!(items.len(), 3);
            assert_eq!(text(get(&items[0], "text")), "Plan this");
            assert_eq!(text(get(&items[2], "type")), "localImage");
            assert_eq!(text(get(&items[2], "path")), "/tmp/work/b.png");
        }
        _ => panic!("input must be an array"),
    }
    let context = get(get(p, "additionalContext"), "openchatcutProject");
    assert_eq!(text(get(context, "kind")), "untrusted");
    let sandbox = get(p, "sandboxPolicy");
    assert_eq!(text(get(sandbox, "type")), "readOnly");
    assert!(matches!(get(sandbox, "networkAccess"), JsonValue::Bool(false)));
    let schema = get(p, "outputSchema");
    assert!(matches!(get(schema, "additionalProperties"), JsonValue::Bool(false)));
    assert!(matches!(
        get(get(get(schema, "properties"), "summary"), "maxLength"),
        JsonValue::Number(JsonNumber::PosInt(4000))
    ));
}

#[test]
fn image_turn_writes_only_in_its_workspace() {
    let t = image_thread_start("/tmp/img");
    assert_eq!(text(get(get(&t, "params"), "sandbox")), "workspace-write");
    let r = image_turn_start("t2", "$imagegen", "/tmp/img");
    let sandbox = get(get(&r, "params"), "sandboxPolicy");
    assert_eq!(text(get(sandbox, "type")), "workspaceWrite");
    assert!(matches!(get(sandbox, "writableRoots"), JsonValue::Array(roots) if roots.len() == 1 && text(&roots[0]) == "/tmp/img"));
    assert!(matches!(get(sandbox, "networkAccess"), JsonValue::Bool(false)));
}
