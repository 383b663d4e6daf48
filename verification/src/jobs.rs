//! Daemon-native export jobs (subtitles, NLE hand-off, project packages):
//! which jobs the native runner claims, and the checks that make a
//! recovered export byte-for-byte the one that was planned.
use vstd::prelude::*;
use crate::json::{json_equal, json_same, JsonValue};
use crate::text::{chars_of, copy_string, push_str, str_eq, string_of};

verus! {

/// The job kinds the native runner claims, in the order it claims them.
pub open spec fn native_claim_order() -> Seq<Seq<char>> {
    seq!["subtitle_export"@, "nle_xml_export"@, "project_package_export"@]
}

pub fn native_job_kinds() -> (r: Vec<&'static str>)
    ensures
        r@.map_values(|k: &str| k@) == native_claim_order(),
{
    let r = vec!["subtitle_export", "nle_xml_export", "project_package_export"];
    assert(r@.map_values(|k: &str| k@) =~= native_claim_order());
    r
}

/// The progress label a native job starts with.
pub open spec fn progress_label_spec(kind: Seq<char>) -> Seq<char> {
    if kind == "subtitle_export"@ {
        "Rendering caption delivery from pinned revision"@
    } else if kind == "nle_xml_export"@ {
        "Rendering editable NLE handoff from pinned revision"@
    } else if kind == "project_package_export"@ {
        "Packaging pinned project and managed media"@
    } else {
        "Running daemon-native export"@
    }
}

pub fn progress_label(kind: &str) -> (r: &'static str)
    ensures
        r@ == progress_label_spec(kind@),
{
    if str_eq(kind, "subtitle_export") {
        "Rendering caption delivery from pinned revision"
    } else if str_eq(kind, "nle_xml_export") {
        "Rendering editable NLE handoff from pinned revision"
    } else if str_eq(kind, "project_package_export") {
        "Packaging pinned project and managed media"
    } else {
        "Running daemon-native export"
    }
}

/// The error recorded on a failed native export.
pub fn native_failure(message: &str) -> (r: JsonValue)
    ensures
        r.field_str("code"@) == Some("NATIVE_EXPORT_FAILED"@),
        r.field_str("message"@) == Some(message@),
{
    let entries = vec![
        (copy_string("code"), JsonValue::Str(copy_string("NATIVE_EXPORT_FAILED"))),
        (copy_string("message"), JsonValue::Str(copy_string(message))),
    ];
    proof {
        reveal_strlit("code");
        reveal_strlit("message");
        let e = entries@;
        assert(e[0].0@ == "code"@);
        assert(e[1].0@ == "message"@);
        assert("code"@.len() != "message"@.len());
        assert(e.drop_first()[0] == e[1]);
        assert(crate::json::object_lookup(e.drop_first(), "message"@) == Some(e[1].1));
    }
    JsonValue::Object(entries)
}

/// How a finished native job is recorded.
#[derive(Debug, Clone, Copy, PartialEq, Eq, Structural)]
pub enum NativeOutcome {
    Complete,
    Cancelled,
    Failed,
}

/// A successful export completes; a failed one is recorded as cancelled
/// when cancellation was requested, as failed otherwise.
pub fn native_outcome(succeeded: bool, cancel_requested: bool) -> (r: NativeOutcome)
    ensures
        succeeded ==> r == NativeOutcome::Complete,
        !succeeded && cancel_requested ==> r == NativeOutcome::Cancelled,
        !succeeded && !cancel_requested ==> r == NativeOutcome::Failed,
{
    if succeeded {
        NativeOutcome::Complete
    } else if cancel_requested {
        NativeOutcome::Cancelled
    } else {
        NativeOutcome::Failed
    }
}

/// Stops an export whose cancellation was requested.
pub fn ensure_not_cancelled(cancel_requested: bool) -> (r: Result<(), &'static str>)
    ensures
        r is Ok <==> !cancel_requested,
        r matches Err(m) ==> m@ == "native export was cancelled"@,
{
    if cancel_requested {
        Err("native export was cancelled")
    } else {
        Ok(())
    }
}

/// A native job runs against a pinned revision of a named project.
pub fn pinned_target(project_id: Option<&str>, revision: Option<u64>) -> (r: Result<
    (String, u64),
    &'static str,
>)
    ensures
        match r {
            Ok((p, n)) => project_id matches Some(q) && p@ == q@ && revision == Some(n),
            Err(m) => (project_id is None && m@ == "native job has no projectId"@) || (
            project_id is Some && revision is None && m@ == "native job has no pinned revision"@),
        },
{
    let p = match project_id {
        Some(p) => p,
        None => return Err("native job has no projectId"),
    };
    match revision {
        Some(n) => Ok((copy_string(p), n)),
        None => Err("native job has no pinned revision"),
    }
}

/// The exporter a native job kind runs.
#[derive(Debug, Clone, Copy, PartialEq, Eq, Structural)]
pub enum NativeExport {
    Subtitle,
    Nle,
    Package,
}

/// The exporter for `kind`, or the refusal of an unknown kind.
pub fn native_export_for(kind: &str) -> (r: Result<NativeExport, String>)
    ensures
        kind@ == "subtitle_export"@ ==> r == Ok::<NativeExport, String>(NativeExport::Subtitle),
        kind@ == "nle_xml_export"@ ==> r == Ok::<NativeExport, String>(NativeExport::Nle),
        kind@ == "project_package_export"@ ==> r == Ok::<NativeExport, String>(
            NativeExport::Package,
        ),
        match r {
            Ok(_) => native_claim_order().contains(kind@),
            Err(m) => !native_claim_order().contains(kind@) && m@
                == "unsupported daemon-native job kind "@ + kind@,
        },
{
    proof {
        reveal_strlit("subtitle_export");
        reveal_strlit("nle_xml_export");
        reveal_strlit("project_package_export");
        assert(native_claim_order()[0] == "subtitle_export"@);
        assert(native_claim_order()[1] == "nle_xml_export"@);
        assert(native_claim_order()[2] == "project_package_export"@);
    }
    if str_eq(kind, "subtitle_export") {
        Ok(NativeExport::Subtitle)
    } else if str_eq(kind, "nle_xml_export") {
        Ok(NativeExport::Nle)
    } else if str_eq(kind, "project_package_export") {
        Ok(NativeExport::Package)
    } else {
        let mut v = chars_of("unsupported daemon-native job kind ");
        push_str(&mut v, kind);
        Err(string_of(v.as_slice()))
    }
}

/// The job still targets the document it was planned for: its recorded
/// `documentHash` is the pinned revision's hash.
pub fn verify_pinned_document(input: &JsonValue, document_hash: &JsonValue) -> (r: Result<
    (),
    &'static str,
>)
    ensures
        r is Ok <==> (input.field("documentHash"@) matches Some(h) && json_same(h, *document_hash)),
        r matches Err(m) ==> m@ == "native job document hash does not match its pinned revision"@,
{
    let same = match input.get("documentHash") {
        Some(h) => json_equal(h, document_hash),
        None => false,
    };
    if same {
        Ok(())
    } else {
        Err("native job document hash does not match its pinned revision")
    }
}

/// A package job still sees the assets it was planned with: its recorded
/// `assetHashes` equal the pinned revision's asset list.
pub fn verify_package_asset_snapshot(input: &JsonValue, actual: &JsonValue) -> (r: Result<
    (),
    &'static str,
>)
    ensures
        r is Ok <==> (input.field("assetHashes"@) matches Some(h) && json_same(h, *actual)),
        r matches Err(m) ==> m@
            == "project package asset snapshot does not match its pinned revision"@,
{
    let same = match input.get("assetHashes") {
        Some(h) => json_equal(h, actual),
        None => false,
    };
    if same {
        Ok(())
    } else {
        Err("project package asset snapshot does not match its pinned revision")
    }
}

/// Regenerated bytes match the plan: the recorded `contentSha256` is their
/// SHA-256 in lowercase hex and `contentBytes` their length.
pub open spec fn planned_content_matches(input: JsonValue, bytes: Seq<u8>) -> bool {
    &&& input.field_str("contentSha256"@) == Some(
        crate::encoding::hex_lower(crate::encoding::sha256(bytes)),
    )
    &&& input.field_u64("contentBytes"@) == Some(bytes.len() as u64)
}

pub fn verify_planned_content(input: &JsonValue, bytes: &[u8]) -> (r: Result<(), &'static str>)
    ensures
        r is Ok <==> planned_content_matches(*input, bytes@),
        r matches Err(m) ==> m@ == "regenerated native export does not match its durable plan"@,
{
    let hash = crate::encoding::sha256_hex(bytes);
    let hash_ok = match input.get_str("contentSha256") {
        Some(h) => str_eq(h, hash.as_str()),
        None => false,
    };
    let len_ok = input.get_u64("contentBytes") == Some(bytes.len() as u64);
    if hash_ok && len_ok {
        Ok(())
    } else {
        Err("regenerated native export does not match its durable plan")
    }
}

/// The file name a native job writes under the export directory.
pub fn output_file_name(input: &JsonValue) -> (r: Result<&str, &'static str>)
    ensures
        match r {
            Ok(n) => input.field_str("outputFileName"@) == Some(n@),
            Err(m) => input.field_str("outputFileName"@) is None && m@
                == "native job has no output file name"@,
        },
{
    match input.get_str("outputFileName") {
        Some(n) => Ok(n),
        None => Err("native job has no output file name"),
    }
}

/// Whether the job may replace an existing export file; no by default.
pub fn allow_overwrite(input: &JsonValue) -> (r: bool)
    ensures
        r == (input.field_bool("allowOverwrite"@) == Some(true)),
{
    match input.get_bool("allowOverwrite") {
        Some(b) => b,
        None => false,
    }
}

/// When installing an export fails, an existing file is accepted as the
/// result exactly when overwriting was not allowed and it already holds the
/// same bytes (by SHA-256).
pub fn accept_existing_export(allow_overwrite: bool, existing_sha256: Option<&str>, sha256: &str) -> (r:
    bool)
    ensures
        r == (!allow_overwrite && (existing_sha256 matches Some(h) && h@ == sha256@)),
{
    if allow_overwrite {
        return false;
    }
    match existing_sha256 {
        Some(h) => str_eq(h, sha256),
        None => false,
    }
}


/// The warning attached to an NLE export whose project holds items that the
/// interchange format cannot represent as editable media clips.
pub const NLE_UNREPRESENTED_MESSAGE: &'static str = "Captions, text, effects, and motion graphics remain in the OpenChatCut project but are not emitted as editable NLE media clips. Render them separately when required.";

/// The warnings of an NLE export: none when every item was represented,
/// else one `nleSemanticItemsNotRepresented` warning naming the others.
pub fn nle_export_warnings(unsupported_item_ids: &Vec<String>) -> (r: Vec<JsonValue>)
    ensures
        unsupported_item_ids.len() == 0 ==> r.len() == 0,
        unsupported_item_ids.len() > 0 ==> {
            &&& r.len() == 1
            &&& r@[0].field_str("code"@) == Some("nleSemanticItemsNotRepresented"@)
            &&& r@[0].field_str("message"@) == Some(NLE_UNREPRESENTED_MESSAGE@)
            &&& r@[0].field("itemIds"@) matches Some(JsonValue::Array(items)) && items@.len()
                == unsupported_item_ids.len() && forall|i: int|
                0 <= i < items@.len() ==> (#[trigger] items@[i]).str_view() == Some(
                    unsupported_item_ids@[i]@,
                )
        },
{
    if unsupported_item_ids.len() == 0 {
        return Vec::new();
    }
    let mut items: Vec<JsonValue> = Vec::new();
    let mut i: usize = 0;
    while i < unsupported_item_ids.len()
        invariant
            i <= unsupported_item_ids.len(),
            items.len() == i,
            forall|j: int|
                0 <= j < i ==> (#[trigger] items@[j]).str_view() == Some(unsupported_item_ids@[j]@),
        decreases unsupported_item_ids.len() - i,
    {
        items.push(JsonValue::Str(copy_string(unsupported_item_ids[i].as_str())));
        i += 1;
    }
    let mut entries: Vec<(String, JsonValue)> = Vec::new();
    crate::json::insert_entry(
        &mut entries,
        "code",
        JsonValue::Str(copy_string("nleSemanticItemsNotRepresented")),
    );
    crate::json::insert_entry(
        &mut entries,
        "message",
        JsonValue::Str(copy_string(NLE_UNREPRESENTED_MESSAGE)),
    );
    crate::json::insert_entry(&mut entries, "itemIds", JsonValue::Array(items));
    proof {
        reveal_strlit("code");
        reveal_strlit("message");
        reveal_strlit("itemIds");
        assert("code"@.len() != "message"@.len());
        assert("code"@.len() != "itemIds"@.len());
        assert("message"@[0] != "itemIds"@[0]);
    }
    vec![JsonValue::Object(entries)]
}

} // verus!
