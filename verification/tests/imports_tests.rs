use openchatcut_daemon::imports::{
    check_import_authorized, check_import_path_absolute, check_import_roots_configured,
    check_import_source, check_linked_file_unchanged, check_opened_same_file,
    linked_file_authorization,
};
use openchatcut_daemon::json::{JsonNumber, JsonValue};

fn s(v: &str) -> JsonValue {
    JsonValue::Str(v.to_string())
}

fn obj(entries: Vec<(&str, JsonValue)>) -> JsonValue {
    JsonValue::Object(entries.into_iter().map(|(k, v)| (k.to_string(), v)).collect())
}

const DIGEST: &str = "0123456789abcdef0123456789abcdef0123456789abcdef0123456789abcdef";

fn linked(entries: Vec<(&str, JsonValue)>) -> JsonValue {
    let mut base = vec![
        ("version", JsonValue::Number(JsonNumber::PosInt(1))),
        ("portable", JsonValue::Bool(false)),
        ("path", s("/media/clip.mov")),
        ("fingerprintSha256", s(DIGEST)),
        ("byteSize", JsonValue::Number(JsonNumber::PosInt(42))),
    ];
    for (k, v) in entries {
        base.retain(|(key, _)| *key != k);
        base.push((k, v));
    }
    obj(base)
}

#[test]
fn roots_must_be_configured() {
    let e = check_import_roots_configured(&vec![]).unwrap_err();
    assert_eq!((e.status, e.code.as_str()), (501, "capability_not_available"));
    assert_eq!(e.details.unwrap().get_str("capability"), Some("localMediaImport"));
    assert!(check_import_roots_configured(&vec!["/media".to_string()]).is_ok());
}

#[test]
fn import_paths_are_absolute_and_authorized() {
    assert!(check_import_path_absolute("/media/a.mov").is_ok());
    assert_eq!(check_import_path_absolute("media/a.mov").unwrap_err().code, "import_path_not_absolute");
    let roots = vec!["/media".to_string(), "/srv/footage".to_string()];
    assert!(check_import_authorized("/srv/footage/day1/a.mov", &roots).is_ok());
    assert!(check_import_authorized("/media", &roots).is_ok());
    let e = check_import_authorized("/mediax/a.mov", &roots).unwrap_err();
    assert_eq!((e.status, e.code.as_str()), (403, "import_path_not_authorized"));
}

#[test]
fn import_sources_are_bounded_regular_files() {
    assert!(check_import_source(true, 2_147_483_648).is_ok());
    let e = check_import_source(true, 2_147_483_649).unwrap_err();
    assert_eq!((e.status, e.code.as_str()), (413, "media_too_large"));
    assert_eq!(e.message, "local media exceeds the 2147483648 byte managed-import limit");
    assert_eq!(check_import_source(false, 1).unwrap_err().code, "import_source_not_file");
    assert!(check_opened_same_file(true).is_ok());
    let e = check_opened_same_file(false).unwrap_err();
    assert_eq!((e.status, e.code.as_str()), (409, "import_source_changed"));
}

#[test]
fn linked_file_metadata_is_read() {
    let f = linked_file_authorization(Some(&linked(vec![]))).unwrap();
    assert_eq!(f.path, "/media/clip.mov");
    assert_eq!(f.sha256, DIGEST);
    assert_eq!(f.byte_size, 42);
    assert_eq!(f.mime_type, "application/octet-stream");
    let f = linked_file_authorization(Some(&linked(vec![("mimeType", s("video/quicktime"))]))).unwrap();
    assert_eq!(f.mime_type, "video/quicktime");
}

#[test]
fn linked_file_metadata_refusals() {
    let message = |v: Option<&JsonValue>| {
        let e = linked_file_authorization(v).unwrap_err();
        assert_eq!((e.status, e.code.as_str()), (422, "invalid_linked_file"));
        e.message
    };
    assert_eq!(message(None), "the linked asset has no valid authorization metadata");
    assert_eq!(message(Some(&s("x"))), "the linked asset has no valid authorization metadata");
    assert_eq!(message(Some(&linked(vec![("version", JsonValue::Number(JsonNumber::PosInt(2)))]))), "the linked asset authorization version is unsupported");
    assert_eq!(message(Some(&linked(vec![("portable", JsonValue::Bool(true))]))), "the linked asset authorization version is unsupported");
    assert_eq!(message(Some(&linked(vec![("path", JsonValue::Null)]))), "the linked asset path is missing");
    assert_eq!(message(Some(&linked(vec![("fingerprintSha256", s(&DIGEST.to_uppercase()))]))), "the linked asset fingerprint is invalid");
    assert_eq!(message(Some(&linked(vec![("fingerprintSha256", s("abc"))]))), "the linked asset fingerprint is invalid");
    assert_eq!(message(Some(&linked(vec![("byteSize", s("42"))]))), "the linked asset size is invalid");
}

#[test]
fn linked_file_must_be_unchanged() {
    let f = linked_file_authorization(Some(&linked(vec![]))).unwrap();
    assert!(check_linked_file_unchanged("asset:1", &f, DIGEST, 42).is_ok());
    let other = "f".repeat(64);
    let e = check_linked_file_unchanged("asset:1", &f, &other, 42).unwrap_err();
    assert_eq!((e.status, e.code.as_str()), (409, "linked_file_changed"));
    let d = e.details.unwrap();
    assert_eq!(d.get_str("assetId"), Some("asset:1"));
    assert_eq!(d.get_str("expectedSha256"), Some(DIGEST));
    assert_eq!(d.get_str("actualSha256"), Some(other.as_str()));
    assert_eq!(d.get_u64("expectedByteSize"), Some(42));
    assert!(check_linked_file_unchanged("asset:1", &f, DIGEST, 43).is_err());
}
