//! Browser media uploads: the checks made before the body is read, the
//! asset an upload records, and the step after the commit preflight.
use vstd::prelude::*;
use crate::error::{ApiError, STATUS_BAD_REQUEST, STATUS_CONFLICT};
use crate::json::{JsonNumber, JsonValue};
use crate::media::AssetKind;
use crate::requests::{
    declared_length_too_large, media_too_large_error, parse_u64_spec, required_idempotency_header,
    required_revision_header, safe_upload_name, stable_import_suffix, stable_suffix_spec,
    upload_metadata_valid, upload_name_spec, validate_uploaded_dimensions, UploadManagedMediaQuery,
    MAX_MANAGED_IMPORT_BYTES,
};
use crate::text::{chars_of, copy_string, push_str, string_of, trim_spec};

verus! {

/// An upload that passed the checks made before its body is read.
#[derive(Debug)]
pub struct UploadPlan {
    pub expected_revision: u64,
    pub idempotency_key: String,
    pub name: String,
}

/// The refusal an upload gets before its body is read, as status and code,
/// in the order of the checks: the revision header, the idempotency header,
/// a declared length over the limit, the name, the media metadata.
pub open spec fn upload_refusal(
    revision: Option<Seq<char>>,
    key: Option<Seq<char>>,
    length: Option<Seq<char>>,
    query: UploadManagedMediaQuery,
) -> Option<(u16, Seq<char>)> {
    if !(revision matches Some(h) && parse_u64_spec(h) is Some) {
        Some((400, "missing_expected_revision"@))
    } else if !(key matches Some(k) && trim_spec(k).len() > 0) {
        Some((400, "missing_idempotency_key"@))
    } else if length matches Some(l) && parse_u64_spec(l) matches Some(n) && n > MAX_MANAGED_IMPORT_BYTES {
        Some((413, "media_too_large"@))
    } else if upload_name_spec(query.name@) is Err {
        Some((400, "invalid_media_name"@))
    } else if !upload_metadata_valid(query) {
        Some((400, "invalid_media_metadata"@))
    } else {
        None
    }
}

pub open spec fn opt_str_view(o: Option<&str>) -> Option<Seq<char>> {
    match o {
        Some(s) => Some(s@),
        None => None,
    }
}

/// The checks of a browser upload made before its body is read (see
/// `upload_refusal`); on success the expected revision, the idempotency
/// key and the safe file name.
pub fn plan_managed_upload(
    revision_header: Option<&str>,
    idempotency_header: Option<&str>,
    content_length: Option<&str>,
    query: &UploadManagedMediaQuery,
) -> (r: Result<UploadPlan, ApiError>)
    ensures
        match upload_refusal(
            opt_str_view(revision_header),
            opt_str_view(idempotency_header),
            opt_str_view(content_length),
            *query,
        ) {
            Some((status, code)) => r matches Err(e) && e.status == status && e.code@ == code,
            None => r matches Ok(p) && parse_u64_spec(revision_header.unwrap()@) == Some(p.expected_revision)
                && p.idempotency_key@ == idempotency_header.unwrap()@ && upload_name_spec(query.name@)
                == Ok::<Seq<char>, bool>(p.name@),
        },
{
    let expected_revision = match required_revision_header(revision_header) {
        Err(e) => return Err(e),
        Ok(n) => n,
    };
    let idempotency_key = match required_idempotency_header(idempotency_header) {
        Err(e) => return Err(e),
        Ok(k) => k,
    };
    if declared_length_too_large(content_length) {
        return Err(media_too_large_error());
    }
    let name = match safe_upload_name(query.name.as_str()) {
        Err(e) => return Err(e),
        Ok(n) => n,
    };
    match validate_uploaded_dimensions(query) {
        Err(e) => return Err(e),
        Ok(()) => {},
    }
    Ok(UploadPlan { expected_revision, idempotency_key, name })
}

/// The duration an upload records: the declared one when above zero.
pub fn upload_duration(query: &UploadManagedMediaQuery) -> (r: Option<i64>)
    ensures
        r == match query.duration_ticks {
            Some(d) => if d > 0 {
                Some(d)
            } else {
                None
            },
            None => None,
        },
{
    match query.duration_ticks {
        Some(d) => if d > 0 {
            Some(d)
        } else {
            None
        },
        None => None,
    }
}

/// An upload has audio when it is audio or declares audio.
pub fn upload_has_audio(kind: AssetKind, query: &UploadManagedMediaQuery) -> (r: bool)
    ensures
        r == (kind == AssetKind::Audio || query.has_audio == Some(true)),
{
    kind == AssetKind::Audio || match query.has_audio {
        Some(b) => b,
        None => false,
    }
}

/// The id of an upload's transaction: `tx:upload:` and the stable suffix of
/// the project and idempotency key.
pub fn upload_transaction_id(project_id: &str, idempotency_key: &str) -> (r: String)
    ensures
        r@ == "tx:upload:"@ + stable_suffix_spec(
            vstd::utf8::encode_utf8(project_id@) + seq![0u8] + vstd::utf8::encode_utf8(idempotency_key@),
        ),
{
    let suffix = stable_import_suffix(project_id, idempotency_key);
    let mut v = chars_of("tx:upload:");
    push_str(&mut v, suffix.as_str());
    string_of(v.as_slice())
}

/// What an upload does once the commit preflight has answered.
#[derive(Debug)]
pub enum UploadStep {
    /// The upload was committed before: answer with that commit, at this
    /// revision.
    Replay { revision: u64 },
    /// The project moved on since the expected revision: refuse, and install
    /// no content.
    Refuse(ApiError),
    /// Install the content and commit the asset.
    InstallAndCommit,
}

/// The step after the commit preflight: a replayed commit is answered at
/// the revision it reports (else the expected one); otherwise an upload
/// made against an older revision is refused as a revision conflict with
/// the expected and current revisions and the current document hash in the
/// details; otherwise the content is installed and committed.
pub fn after_upload_preflight(
    replayed_revision: Option<Option<u64>>,
    expected_revision: u64,
    current_revision: u64,
    current_document_hash: JsonValue,
) -> (r: UploadStep)
    ensures
        match replayed_revision {
            Some(rev) => r matches UploadStep::Replay { revision } && revision == match rev {
                Some(n) => n,
                None => expected_revision,
            },
            None => if current_revision != expected_revision {
                r matches UploadStep::Refuse(e) && e.status == STATUS_CONFLICT && e.code@ == "revisionConflict"@
                    && e.message@ == "the project changed before the media upload was committed"@ && (
                e.details matches Some(JsonValue::Object(d)) && d@.len() == 3 && d@[0].0@ == "expectedRevision"@
                    && d@[0].1 == JsonValue::Number(JsonNumber::PosInt(expected_revision)) && d@[1].0@
                    == "currentRevision"@ && d@[1].1 == JsonValue::Number(JsonNumber::PosInt(current_revision))
                    && d@[2].0@ == "currentDocumentHash"@ && d@[2].1 == current_document_hash)
            } else {
                r is InstallAndCommit
            },
        },
{
    match replayed_revision {
        Some(rev) => UploadStep::Replay {
            revision: match rev {
                Some(n) => n,
                None => expected_revision,
            },
        },
        None => if current_revision != expected_revision {
            let details = JsonValue::Object(
                vec![
                    (copy_string("expectedRevision"), JsonValue::Number(JsonNumber::PosInt(expected_revision))),
                    (copy_string("currentRevision"), JsonValue::Number(JsonNumber::PosInt(current_revision))),
                    (copy_string("currentDocumentHash"), current_document_hash),
                ],
            );
            UploadStep::Refuse(
                ApiError::conflict(
                    "revisionConflict",
                    "the project changed before the media upload was committed",
                ).with_details(details),
            )
        } else {
            UploadStep::InstallAndCommit
        },
    }
}

} // verus!
