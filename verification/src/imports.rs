//! Local media imports from host paths: the policy checks between the
//! filesystem steps (authorized roots, absolute paths, regular files, size
//! limit, same opened file), and the authorization metadata a linked asset
//! carries.
use vstd::prelude::*;
use crate::error::{ApiError, STATUS_BAD_REQUEST, STATUS_CONFLICT, STATUS_FORBIDDEN, STATUS_PAYLOAD_TOO_LARGE};
use crate::json::{JsonNumber, JsonValue};
use crate::paths::{is_absolute, is_absolute_spec, path_starts_with, starts_with_path};
use crate::requests::MAX_MANAGED_IMPORT_BYTES;
use crate::text::{chars_of, copy_string};

verus! {

pub const STATUS_NOT_IMPLEMENTED: u16 = 501;
pub const STATUS_UNPROCESSABLE_ENTITY: u16 = 422;

/// Local imports need at least one authorized host directory.
pub fn check_import_roots_configured(roots: &Vec<String>) -> (r: Result<(), ApiError>)
    ensures
        r is Ok <==> roots.len() > 0,
        r matches Err(e) ==> (e.status == STATUS_NOT_IMPLEMENTED && e.code@
            == "capability_not_available"@ && (e.details matches Some(d) && d.field_str(
            "capability"@,
        ) == Some("localMediaImport"@))),
{
    if roots.len() > 0 {
        return Ok(());
    }
    let details = JsonValue::Object(
        vec![
            (copy_string("capability"), JsonValue::Str(copy_string("localMediaImport"))),
            (
                copy_string("installHint"),
                JsonValue::Str(
                    copy_string(
                        "Restart openchatcutd with --authorized-import-root /absolute/directory",
                    ),
                ),
            ),
        ],
    );
    proof {
        reveal_strlit("capability");
        assert(crate::json::object_lookup(details->Object_0@, "capability"@) == Some(
            JsonValue::Str(details->Object_0@[0].1->Str_0),
        ));
    }
    Err(
        ApiError::new(
            STATUS_NOT_IMPLEMENTED,
            "capability_not_available",
            "local media import requires an explicitly authorized host directory",
        ).with_details(details),
    )
}

/// The requested host path must be absolute.
pub fn check_import_path_absolute(value: &str) -> (r: Result<(), ApiError>)
    ensures
        r is Ok <==> is_absolute_spec(value@),
        r matches Err(e) ==> e.status == STATUS_BAD_REQUEST && e.code@ == "import_path_not_absolute"@,
{
    if is_absolute(value) {
        Ok(())
    } else {
        Err(
            ApiError::bad_request(
                "import_path_not_absolute",
                "local media imports require an absolute host path",
            ),
        )
    }
}

/// The canonical path lies under (component-wise) one of the roots.
pub open spec fn under_some_root(canonical: Seq<char>, roots: Seq<String>) -> bool {
    exists|i: int| 0 <= i < roots.len() && path_starts_with(canonical, #[trigger] roots[i]@)
}

/// The canonical source must lie under an authorized root.
pub fn check_import_authorized(canonical: &str, roots: &Vec<String>) -> (r: Result<(), ApiError>)
    ensures
        r is Ok <==> under_some_root(canonical@, roots@),
        r matches Err(e) ==> e.status == STATUS_FORBIDDEN && e.code@ == "import_path_not_authorized"@,
{
    let mut i: usize = 0;
    while i < roots.len()
        invariant
            i <= roots.len(),
            forall|j: int| 0 <= j < i ==> !path_starts_with(canonical@, #[trigger] roots@[j]@),
        decreases roots.len() - i,
    {
        if starts_with_path(canonical, roots[i].as_str()) {
            return Ok(());
        }
        i += 1;
    }
    Err(
        ApiError::forbidden(
            "import_path_not_authorized",
            "the selected file is outside every authorized import root",
        ),
    )
}

/// The canonical source must be a regular file within the managed-import limit.
pub fn check_import_source(is_file: bool, len: u64) -> (r: Result<(), ApiError>)
    ensures
        r is Ok <==> is_file && len <= MAX_MANAGED_IMPORT_BYTES,
        r matches Err(e) ==> if !is_file {
            e.status == STATUS_BAD_REQUEST && e.code@ == "import_source_not_file"@
        } else {
            e.status == STATUS_PAYLOAD_TOO_LARGE && e.code@ == "media_too_large"@ && e.message@
                == "local media exceeds the 2147483648 byte managed-import limit"@
        },
{
    if !is_file {
        return Err(
            ApiError::bad_request(
                "import_source_not_file",
                "local media import requires a regular file",
            ),
        );
    }
    if len > MAX_MANAGED_IMPORT_BYTES {
        return Err(
            ApiError::new(
                STATUS_PAYLOAD_TOO_LARGE,
                "media_too_large",
                "local media exceeds the 2147483648 byte managed-import limit",
            ),
        );
    }
    Ok(())
}

/// The file opened without following symbolic links must be the canonical
/// file that was authorized.
pub fn check_opened_same_file(same_file: bool) -> (r: Result<(), ApiError>)
    ensures
        r is Ok <==> same_file,
        r matches Err(e) ==> e.status == STATUS_CONFLICT && e.code@ == "import_source_changed"@,
{
    if same_file {
        Ok(())
    } else {
        Err(
            ApiError::conflict(
                "import_source_changed",
                "the selected file changed while its authorization was being checked",
            ),
        )
    }
}

/// The authorization a linked (not copied) asset carries.
#[derive(Debug)]
pub struct LinkedFile {
    pub path: String,
    pub sha256: String,
    pub byte_size: u64,
    pub mime_type: String,
}

/// 64 lowercase hexadecimal digits.
pub open spec fn is_sha256_hex(s: Seq<char>) -> bool {
    s.len() == 64 && forall|i: int| 0 <= i < s.len() ==> ('0' <= #[trigger] s[i] <= '9' || 'a' <= s[i] <= 'f')
}

/// What the `linkedFile` extension of an asset authorizes: version 1, not
/// portable, a path, a SHA-256 fingerprint and a byte size; the MIME type
/// defaults to `application/octet-stream`. Each refusal is 422
/// `invalid_linked_file` with the message given here.
pub open spec fn linked_file_spec(ext: Option<JsonValue>) -> Result<
    (Seq<char>, Seq<char>, u64, Seq<char>),
    Seq<char>,
> {
    match ext {
        Some(JsonValue::Object(_)) => {
            let l = ext.unwrap();
            if l.field_u64("version"@) != Some(1u64) || l.field_bool("portable"@) != Some(false) {
                Err("the linked asset authorization version is unsupported"@)
            } else {
                match l.field_str("path"@) {
                    None => Err("the linked asset path is missing"@),
                    Some(path) => match l.field_str("fingerprintSha256"@) {
                        Some(fp) if is_sha256_hex(fp) => match l.field_u64("byteSize"@) {
                            None => Err("the linked asset size is invalid"@),
                            Some(size) => Ok(
                                (
                                    path,
                                    fp,
                                    size,
                                    match l.field_str("mimeType"@) {
                                        Some(m) => m,
                                        None => "application/octet-stream"@,
                                    },
                                ),
                            ),
                        },
                        _ => Err("the linked asset fingerprint is invalid"@),
                    },
                }
            }
        },
        _ => Err("the linked asset has no valid authorization metadata"@),
    }
}

fn is_lower_hex_digest(s: &str) -> (r: bool)
    ensures
        r == is_sha256_hex(s@),
{
    let cs = chars_of(s);
    if cs.len() != 64 {
        return false;
    }
    let mut i: usize = 0;
    while i < cs.len()
        invariant
            i <= cs.len(),
            cs@ == s@,
            forall|j: int| 0 <= j < i ==> ('0' <= #[trigger] cs@[j] <= '9' || 'a' <= cs@[j] <= 'f'),
        decreases cs.len() - i,
    {
        let c = cs[i];
        if !(('0' <= c && c <= '9') || ('a' <= c && c <= 'f')) {
            return false;
        }
        i += 1;
    }
    true
}

fn invalid_linked(message: &str) -> (e: ApiError)
    ensures
        e.status == STATUS_UNPROCESSABLE_ENTITY,
        e.code@ == "invalid_linked_file"@,
        e.message@ == message@,
{
    ApiError::new(STATUS_UNPROCESSABLE_ENTITY, "invalid_linked_file", message)
}

/// Reads the authorization of a linked asset from its `linkedFile` extension.
pub fn linked_file_authorization(ext: Option<&JsonValue>) -> (r: Result<LinkedFile, ApiError>)
    ensures
        match (r, linked_file_spec(
            match ext {
                Some(v) => Some(*v),
                None => None,
            },
        )) {
            (Ok(f), Ok((path, fp, size, mime))) => f.path@ == path && f.sha256@ == fp && f.byte_size
                == size && f.mime_type@ == mime,
            (Err(e), Err(message)) => e.status == STATUS_UNPROCESSABLE_ENTITY && e.code@
                == "invalid_linked_file"@ && e.message@ == message,
            _ => false,
        },
{
    proof {
        reveal_strlit("application/octet-stream");
    }
    let l = match ext {
        Some(v) => match v {
            JsonValue::Object(_) => v,
            _ => {
                return Err(invalid_linked("the linked asset has no valid authorization metadata"));
            },
        },
        None => {
            return Err(invalid_linked("the linked asset has no valid authorization metadata"));
        },
    };
    if l.get_u64("version") != Some(1u64) || l.get_bool("portable") != Some(false) {
        return Err(invalid_linked("the linked asset authorization version is unsupported"));
    }
    let path = match l.get_str("path") {
        None => {
            return Err(invalid_linked("the linked asset path is missing"));
        },
        Some(p) => p,
    };
    let fp = match l.get_str("fingerprintSha256") {
        Some(f) => {
            if !is_lower_hex_digest(f) {
                return Err(invalid_linked("the linked asset fingerprint is invalid"));
            }
            f
        },
        None => {
            return Err(invalid_linked("the linked asset fingerprint is invalid"));
        },
    };
    let size = match l.get_u64("byteSize") {
        None => {
            return Err(invalid_linked("the linked asset size is invalid"));
        },
        Some(n) => n,
    };
    let mime = match l.get_str("mimeType") {
        Some(m) => copy_string(m),
        None => copy_string("application/octet-stream"),
    };
    Ok(LinkedFile { path: copy_string(path), sha256: copy_string(fp), byte_size: size, mime_type: mime })
}

/// The linked file as hashed now must be the one approved: a different
/// digest or size is 409 `linked_file_changed`, with both values in the details.
pub fn check_linked_file_unchanged(
    asset_id: &str,
    expected: &LinkedFile,
    actual_sha256: &str,
    actual_size: u64,
) -> (r: Result<(), ApiError>)
    ensures
        r is Ok <==> (actual_sha256@ == expected.sha256@ && actual_size == expected.byte_size),
        r matches Err(e) ==> (e.status == STATUS_CONFLICT && e.code@ == "linked_file_changed"@
            && (e.details matches Some(d) && d.field_str("assetId"@) == Some(asset_id@) && d.field_str(
            "expectedSha256"@,
        ) == Some(expected.sha256@) && d.field_str("actualSha256"@) == Some(actual_sha256@)
            && d.field_u64("expectedByteSize"@) == Some(expected.byte_size) && d.field_u64(
            "actualByteSize"@,
        ) == Some(actual_size))),
{
    if crate::text::str_eq(actual_sha256, expected.sha256.as_str()) && actual_size == expected.byte_size {
        return Ok(());
    }
    let mut entries: Vec<(String, JsonValue)> = Vec::new();
    crate::json::insert_entry(&mut entries, "assetId", JsonValue::Str(copy_string(asset_id)));
    crate::json::insert_entry(
        &mut entries,
        "expectedSha256",
        JsonValue::Str(copy_string(expected.sha256.as_str())),
    );
    crate::json::insert_entry(&mut entries, "actualSha256", JsonValue::Str(copy_string(actual_sha256)));
    crate::json::insert_entry(
        &mut entries,
        "expectedByteSize",
        JsonValue::Number(JsonNumber::PosInt(expected.byte_size)),
    );
    crate::json::insert_entry(
        &mut entries,
        "actualByteSize",
        JsonValue::Number(JsonNumber::PosInt(actual_size)),
    );
    proof {
        reveal_strlit("assetId");
        reveal_strlit("expectedSha256");
        reveal_strlit("actualSha256");
        reveal_strlit("expectedByteSize");
        reveal_strlit("actualByteSize");
        assert("assetId"@.len() != "expectedSha256"@.len());
        assert("assetId"@.len() != "actualSha256"@.len());
        assert("assetId"@.len() != "expectedByteSize"@.len());
        assert("assetId"@.len() != "actualByteSize"@.len());
        assert("actualSha256"@.len() != "expectedByteSize"@.len());
        assert("actualSha256"@.len() != "actualByteSize"@.len());
        assert("expectedSha256"@.len() != "actualSha256"@.len());
        assert("expectedSha256"@.len() != "expectedByteSize"@.len());
        assert("expectedSha256"@[0] != "actualByteSize"@[0]);
        assert("expectedByteSize"@.len() != "actualByteSize"@.len());
    }
    Err(
        ApiError::conflict(
            "linked_file_changed",
            "the linked file changed after it was approved; relink it before continuing",
        ).with_details(JsonValue::Object(entries)),
    )
}

} // verus!
