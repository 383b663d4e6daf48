use openchatcut_daemon::json::{JsonNumber, JsonValue};
use openchatcut_daemon::motion::{
    bounded_text, check_output_sizes, check_request_size, collect_asset_ids, interpret_response,
    unavailable, validate_bounded_json, verify_compiled_result, MotionGraphicRuntime,
    MotionGraphicRuntimeError, RuntimeResponse, RuntimeValidationError,
};

fn s(v: &str) -> JsonValue {
    JsonValue::Str(v.to_string())
}

fn n(v: u64) -> JsonValue {
    JsonValue::Number(JsonNumber::PosInt(v))
}

fn obj(entries: Vec<(&str, JsonValue)>) -> JsonValue {
    JsonValue::Object(entries.into_iter().map(|(k, v)| (k.to_string(), v)).collect())
}

fn unavailable_message(e: MotionGraphicRuntimeError) -> String {
    match e {
        MotionGraphicRuntimeError::Unavailable(m) => m,
        other => panic!("expected an unavailable error, got {other:?}"),
    }
}

fn good_result(ids: Vec<JsonValue>) -> JsonValue {
    obj(vec![
        (
            "ir",
            obj(vec![
                ("version", n(1)),
                ("kind", s("jsxSafeIr")),
                ("width", n(1920)),
                ("height", n(1080)),
                ("nodes", JsonValue::Array(vec![obj(vec![("text", s("Hi"))])])),
            ]),
        ),
        ("stats", obj(vec![("astNodes", n(12))])),
        ("assetIds", JsonValue::Array(ids)),
        (
            "security",
            obj(vec![
                ("sourceExecuted", JsonValue::Bool(false)),
                ("networkAccess", s("disabled")),
                ("fileAccess", s("disabled")),
                ("sandboxOrigin", s("opaque")),
                ("interpreter", s("deterministic-allowlisted-ir-v1")),
            ]),
        ),
    ])
}

#[test]
fn runtime_holds_its_paths() {
    let r = MotionGraphicRuntime::new("/usr/bin/node".to_string(), "/app/mg.js".to_string());
    assert_eq!(r.node, "/usr/bin/node");
    assert_eq!(r.entrypoint, "/app/mg.js");
}

#[test]
fn bounded_texts() {
    assert_eq!(bounded_text("", 5, "F"), "F");
    assert_eq!(bounded_text("a\nb", 5, "F"), "F");
    assert_eq!(bounded_text("abcdef", 3, "F"), "abc");
    assert_eq!(bounded_text("ab", 3, "F"), "ab");
}

#[test]
fn error_details_and_messages() {
    let v = MotionGraphicRuntimeError::Validation {
        code: "MG_X".to_string(),
        message: "bad".to_string(),
        path: None,
    };
    let d = v.validation_details().unwrap();
    assert_eq!(d.get_str("code"), Some("MG_X"));
    assert!(matches!(d.get("path"), Some(JsonValue::Null)));
    assert_eq!(v.message(), "bad");
    let u = unavailable("compiler timed out");
    assert!(u.validation_details().is_none());
    assert_eq!(u.message(), "advanced motion graphic compiler is unavailable: compiler timed out");
}

#[test]
fn request_and_output_limits() {
    assert!(check_request_size(524_288).is_ok());
    assert!(matches!(
        check_request_size(524_289),
        Err(MotionGraphicRuntimeError::Validation { .. })
    ));
    assert!(check_output_sizes(2_097_152, 65_536).is_ok());
    assert!(check_output_sizes(2_097_153, 0).is_err());
}

#[test]
fn compiler_refusals_are_passed_on_bounded() {
    let response = RuntimeResponse {
        ok: false,
        result: None,
        error: Some(RuntimeValidationError {
            code: "x".repeat(200),
            message: "".to_string(),
            path: Some("$.a".to_string()),
        }),
    };
    match interpret_response(response, true) {
        Err(MotionGraphicRuntimeError::Validation { code, message, path }) => {
            assert_eq!(code.len(), 96);
            assert_eq!(message, "Advanced motion graphic is invalid");
            assert_eq!(path.as_deref(), Some("$.a"));
        }
        other => panic!("unexpected {other:?}"),
    }
    let silent = RuntimeResponse { ok: false, result: None, error: None };
    assert_eq!(
        unavailable_message(interpret_response(silent, true).unwrap_err()),
        "compiler rejected input without an error"
    );
    let crashed = RuntimeResponse { ok: true, result: Some(JsonValue::Null), error: None };
    assert_eq!(
        unavailable_message(interpret_response(crashed, false).unwrap_err()),
        "compiler exited unsuccessfully"
    );
    let fine = RuntimeResponse { ok: true, result: Some(n(1)), error: None };
    assert!(interpret_response(fine, true).is_ok());
}

#[test]
fn bounded_json_limits() {
    let mut visited = 0;
    assert!(validate_bounded_json(&obj(vec![("a", n(1))]), 0, &mut visited).is_ok());
    assert_eq!(visited, 2);
    let mut deep = n(0);
    for _ in 0..101 {
        deep = JsonValue::Array(vec![deep]);
    }
    let mut visited = 0;
    assert_eq!(
        unavailable_message(validate_bounded_json(&deep, 0, &mut visited).unwrap_err()),
        "compiler safe IR exceeds its depth limit"
    );
    let mut visited = 0;
    let polluted = obj(vec![("constructor", n(1))]);
    assert_eq!(
        unavailable_message(validate_bounded_json(&polluted, 0, &mut visited).unwrap_err()),
        "compiler safe IR contains a forbidden key"
    );
    let mut visited = 0;
    let big = s(&"a".repeat(262_145));
    assert_eq!(
        unavailable_message(validate_bounded_json(&big, 0, &mut visited).unwrap_err()),
        "compiler safe IR contains an oversized string"
    );
    let many = JsonValue::Array((0..50_000).map(n).collect());
    let mut visited = 0;
    assert_eq!(
        unavailable_message(validate_bounded_json(&many, 0, &mut visited).unwrap_err()),
        "compiler safe IR exceeds its value limit"
    );
}

#[test]
fn asset_ids_are_sorted_and_deduplicated() {
    let ids = vec![s("asset:b"), s("asset:a"), s("asset:b")];
    assert_eq!(collect_asset_ids(&ids).unwrap(), vec!["asset:a".to_string(), "asset:b".to_string()]);
    assert_eq!(
        unavailable_message(collect_asset_ids(&vec![s("asset:a"), n(3)]).unwrap_err()),
        "compiler returned a non-string asset reference"
    );
    assert_eq!(
        unavailable_message(collect_asset_ids(&vec![s("media:a")]).unwrap_err()),
        "compiler returned an invalid asset reference"
    );
}

#[test]
fn compiled_results_are_verified() {
    let accepted = verify_compiled_result(good_result(vec![s("asset:2"), s("asset:1")]), 1920, 1080, true, true).unwrap();
    assert_eq!(accepted.asset_ids, vec!["asset:1".to_string(), "asset:2".to_string()]);
    assert!(accepted.ir().is_some());
    assert_eq!(accepted.stats().unwrap().get_u64("astNodes"), Some(12));
    assert_eq!(
        unavailable_message(verify_compiled_result(good_result(vec![]), 1280, 1080, true, true).unwrap_err()),
        "compiler safe IR context does not match the request"
    );
    assert_eq!(
        unavailable_message(verify_compiled_result(good_result(vec![]), 1920, 1080, true, false).unwrap_err()),
        "compiler safe IR context does not match the request"
    );
    assert_eq!(
        unavailable_message(verify_compiled_result(n(1), 1, 1, true, true).unwrap_err()),
        "compiler result is not an object"
    );
}
