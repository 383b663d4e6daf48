//! The rules of a Codex image-generation job: which jobs are accepted, how
//! its durable directory and checkpoint are named and checked, how the
//! generated file becomes a managed asset, and how the run is recorded.
use vstd::prelude::*;
use crate::json::JsonValue;
use crate::text::{chars_of, copy_string, push_str, str_eq, string_of};

verus! {

/// The only image model Codex image jobs use.
pub const CODEX_IMAGE_MODEL: &'static str = "gpt-image-2";

/// Why a Codex image job did not finish: a stable code, a message, whether
/// running it again may help, and whether it was cancelled.
#[derive(Debug)]
pub struct CodexImageRunError {
    pub code: String,
    pub message: String,
    pub retryable: bool,
    pub cancelled: bool,
}

impl CodexImageRunError {
    pub fn new(code: &str, message: &str, retryable: bool) -> (e: CodexImageRunError)
        ensures
            e.code@ == code@,
            e.message@ == message@,
            e.retryable == retryable,
            !e.cancelled,
    {
        CodexImageRunError {
            code: copy_string(code),
            message: copy_string(message),
            retryable,
            cancelled: false,
        }
    }

    pub fn cancelled() -> (e: CodexImageRunError)
        ensures
            e.code@ == "CODEX_IMAGE_CANCELLED"@,
            e.message@ == "Codex image generation was cancelled"@,
            !e.retryable,
            e.cancelled,
    {
        CodexImageRunError {
            code: copy_string("CODEX_IMAGE_CANCELLED"),
            message: copy_string("Codex image generation was cancelled"),
            retryable: false,
            cancelled: true,
        }
    }

    /// The error as recorded on a failed job: code, message and retryability.
    pub fn json(&self) -> (r: JsonValue)
        ensures
            r.field_str("code"@) == Some(self.code@),
            r.field_str("message"@) == Some(self.message@),
            r.field_bool("retryable"@) == Some(self.retryable),
    {
        let entries = vec![
            (copy_string("code"), JsonValue::Str(copy_string(self.code.as_str()))),
            (copy_string("message"), JsonValue::Str(copy_string(self.message.as_str()))),
            (copy_string("retryable"), JsonValue::Bool(self.retryable)),
        ];
        proof {
            reveal_strlit("code");
            reveal_strlit("message");
            reveal_strlit("retryable");
            let e = entries@;
            assert(e[0].0@ == "code"@);
            assert(e[1].0@ == "message"@);
            assert(e[2].0@ == "retryable"@);
            assert("code"@.len() != "message"@.len());
            assert("code"@.len() != "retryable"@.len());
            assert("message"@.len() != "retryable"@.len());
            assert(e.drop_first()[0] == e[1]);
            assert(e.drop_first().drop_first()[0] == e[2]);
            assert(crate::json::object_lookup(e.drop_first().drop_first(), "retryable"@) == Some(
                e[2].1,
            ));
            assert(crate::json::object_lookup(e.drop_first(), "retryable"@) == Some(e[2].1));
            assert(crate::json::object_lookup(e.drop_first(), "message"@) == Some(e[1].1));
        }
        JsonValue::Object(entries)
    }
}

/// A failure to record the job's result in the project.
pub fn database_error(message: &str) -> (e: CodexImageRunError)
    ensures
        e.code@ == "CODEX_IMAGE_MATERIALIZATION_FAILED"@,
        e.message@ == message@,
        !e.retryable,
        !e.cancelled,
{
    CodexImageRunError::new("CODEX_IMAGE_MATERIALIZATION_FAILED", message, false)
}

/// A domain value the job builds was refused; recorded as a
/// materialization failure.
pub fn domain_error(message: &str) -> (e: CodexImageRunError)
    ensures
        e.code@ == "CODEX_IMAGE_MATERIALIZATION_FAILED"@,
        e.message@ == message@,
        !e.retryable,
        !e.cancelled,
{
    database_error(message)
}

/// A file-system failure, which a later run may not meet again.
pub fn io_error(message: &str) -> (e: CodexImageRunError)
    ensures
        e.code@ == "CODEX_IMAGE_IO_FAILED"@,
        e.message@ == message@,
        e.retryable,
        !e.cancelled,
{
    CodexImageRunError::new("CODEX_IMAGE_IO_FAILED", message, true)
}

/// A checkpoint that cannot be resumed from.
pub fn resume_error(message: &str) -> (e: CodexImageRunError)
    ensures
        e.code@ == "CODEX_IMAGE_RESUME_REJECTED"@,
        e.message@ == message@,
        !e.retryable,
        !e.cancelled,
{
    CodexImageRunError::new("CODEX_IMAGE_RESUME_REJECTED", message, false)
}

/// Stops a job whose cancellation was requested.
pub fn ensure_not_cancelled(cancel_requested: bool) -> (r: Result<(), CodexImageRunError>)
    ensures
        r is Ok <==> !cancel_requested,
        r matches Err(e) ==> e.cancelled && e.code@ == "CODEX_IMAGE_CANCELLED"@,
{
    if cancel_requested {
        Err(CodexImageRunError::cancelled())
    } else {
        Ok(())
    }
}

/// The persisted input of a Codex image job.
#[derive(Debug)]
pub struct CodexImageJobInput {
    pub provider: String,
    pub kind: String,
    pub model: Option<String>,
    pub prompt: String,
    pub seed: Option<String>,
    pub placement: Option<JsonValue>,
    pub options: Vec<(String, JsonValue)>,
}

/// A job asks for one image from the `codex-image` provider, on the
/// supported model when it names one.
pub fn check_job_input(input: &CodexImageJobInput) -> (r: Result<(), CodexImageRunError>)
    ensures
        !(input.provider@ == "codex-image"@ && input.kind@ == "image"@) ==> (r matches Err(e)
            && e.code@ == "CODEX_IMAGE_INVALID_JOB"@),
        input.provider@ == "codex-image"@ && input.kind@ == "image"@ && (input.model matches Some(
            m,
        ) && m@ != CODEX_IMAGE_MODEL@) ==> (r matches Err(e) && e.code@
            == "CODEX_IMAGE_MODEL_UNSUPPORTED"@),
        r is Ok <==> input.provider@ == "codex-image"@ && input.kind@ == "image"@ && !(
        input.model matches Some(m) && m@ != CODEX_IMAGE_MODEL@),
        r matches Err(e) ==> !e.retryable && !e.cancelled,
        match job_input_refusal(*input) {
            Some((code, message)) => r matches Err(e) && e.code@ == code && e.message@ == message,
            None => r is Ok,
        },
{
    if !str_eq(input.provider.as_str(), "codex-image") || !str_eq(input.kind.as_str(), "image") {
        return Err(
            CodexImageRunError::new(
                "CODEX_IMAGE_INVALID_JOB",
                "Codex image job has an invalid provider or kind",
                false,
            ),
        );
    }
    match &input.model {
        Some(m) => {
            if !str_eq(m.as_str(), CODEX_IMAGE_MODEL) {
                return Err(
                    CodexImageRunError::new(
                        "CODEX_IMAGE_MODEL_UNSUPPORTED",
                        "Codex image generation uses gpt-image-2",
                        false,
                    ),
                );
            }
        },
        None => {},
    }
    Ok(())
}

/// The name of a job's private directory: the first 32 hex digits of the
/// SHA-256 of its id.
pub open spec fn job_directory_name(job_id: Seq<char>) -> Seq<char> {
    crate::encoding::hex_lower(crate::encoding::sha256(vstd::utf8::encode_utf8(job_id))).subrange(0, 32)
}

/// Where a job's files live: `codex-image-jobs/<name>` under the daemon's
/// temporary directory.
pub open spec fn job_directory_spec(temporary: Seq<char>, job_id: Seq<char>) -> Seq<char> {
    crate::paths::join_spec(
        crate::paths::join_spec(temporary, "codex-image-jobs"@),
        job_directory_name(job_id),
    )
}

pub fn job_directory(temporary: &str, job_id: &str) -> (r: String)
    ensures
        r@ == job_directory_spec(temporary@, job_id@),
{
    let digest = crate::encoding::sha256_digest(job_id.as_bytes());
    proof {
        crate::encoding::lemma_hex_lower_shape(digest@);
    }
    let hex = crate::encoding::hex_encode(digest.as_slice());
    let hc = chars_of(hex.as_str());
    let name = crate::text::copy_range(hc.as_slice(), 0, 32);
    let name = string_of(name.as_slice());
    let root = crate::paths::join(temporary, "codex-image-jobs");
    crate::paths::join(root.as_str(), name.as_str())
}

} // verus!

verus! {


/// The checkpoint a previous run left after the image was generated.
pub open spec fn generated_checkpoint(output: Option<JsonValue>) -> Option<JsonValue> {
    match output {
        Some(o) => match o.field("checkpoint"@) {
            Some(c) => if c.field_str("phase"@) == Some("generated"@) {
                Some(c)
            } else {
                None
            },
            None => None,
        },
        None => None,
    }
}

/// The generated-image checkpoint in a job's persisted output, if any.
pub fn generated_checkpoint_of(output: Option<&JsonValue>) -> (r: Option<&JsonValue>)
    ensures
        match r {
            Some(c) => generated_checkpoint(match output {
                Some(o) => Some(*o),
                None => None,
            }) == Some(*c),
            None => generated_checkpoint(match output {
                Some(o) => Some(*o),
                None => None,
            }) is None,
        },
{
    match output {
        Some(o) => match o.get("checkpoint") {
            Some(c) => match c.get_str("phase") {
                Some(p) => if str_eq(p, "generated") {
                    Some(c)
                } else {
                    None
                },
                None => None,
            },
            None => None,
        },
        None => None,
    }
}

/// The image's path relative to the job directory, as the checkpoint
/// recorded it; it must be a plain relative path.
pub fn checkpoint_relative_path(checkpoint: &JsonValue) -> (r: Result<String, CodexImageRunError>)
    ensures
        match r {
            Ok(p) => checkpoint.field_str("relativePath"@) == Some(p@)
                && crate::paths::plain_relative(p@),
            Err(e) => e.code@ == "CODEX_IMAGE_RESUME_REJECTED"@ && !e.retryable && match checkpoint.field_str("relativePath"@) {
                None => e.message@ == "Codex image checkpoint has no relativePath"@,
                Some(p) => !crate::paths::plain_relative(p),
            },
        },
{
    let relative = match checkpoint.get_str("relativePath") {
        Some(p) => p,
        None => return Err(resume_error("Codex image checkpoint has no relativePath")),
    };
    if !crate::paths::is_plain_relative(relative) {
        return Err(
            CodexImageRunError::new(
                "CODEX_IMAGE_RESUME_REJECTED",
                "Codex image checkpoint contains an unsafe path",
                false,
            ),
        );
    }
    Ok(copy_string(relative))
}

/// A checkpointed image is used again only when its digest, size and MIME
/// type are still the ones recorded.
pub open spec fn checkpoint_matches(checkpoint: JsonValue, sha256: Seq<char>, size: u64, mime: Seq<char>) -> bool {
    &&& checkpoint.field_str("sha256"@) == Some(sha256)
    &&& checkpoint.field_u64("byteSize"@) == Some(size)
    &&& checkpoint.field_str("mimeType"@) == Some(mime)
}

pub fn check_checkpoint_matches(checkpoint: &JsonValue, sha256: &str, size: u64, mime: &str) -> (r:
    Result<(), CodexImageRunError>)
    ensures
        r is Ok <==> checkpoint_matches(*checkpoint, sha256@, size, mime@),
        r matches Err(e) ==> e.code@ == "CODEX_IMAGE_RESUME_TAMPERED"@ && !e.retryable,
{
    let hash_ok = match checkpoint.get_str("sha256") {
        Some(h) => str_eq(h, sha256),
        None => false,
    };
    let mime_ok = match checkpoint.get_str("mimeType") {
        Some(m) => str_eq(m, mime),
        None => false,
    };
    if !hash_ok || checkpoint.get_u64("byteSize") != Some(size) || !mime_ok {
        return Err(
            CodexImageRunError::new(
                "CODEX_IMAGE_RESUME_TAMPERED",
                "checkpointed Codex image no longer matches its durable digest",
                false,
            ),
        );
    }
    Ok(())
}

/// A checkpointed image that can no longer be inspected.
pub fn resume_missing(error: &CodexImageRunError) -> (e: CodexImageRunError)
    ensures
        e.code@ == "CODEX_IMAGE_RESUME_MISSING"@,
        e.message@ == error.message@,
        !e.retryable,
{
    CodexImageRunError::new("CODEX_IMAGE_RESUME_MISSING", error.message.as_str(), false)
}

/// The generated file resolves beneath its job directory.
pub fn check_candidate_location(canonical_path: &str, canonical_directory: &str) -> (r: Result<
    (),
    CodexImageRunError,
>)
    ensures
        r is Ok <==> crate::paths::path_starts_with(canonical_path@, canonical_directory@),
        r matches Err(e) ==> e.code@ == "CODEX_IMAGE_PATH_REJECTED"@ && !e.retryable,
{
    if crate::paths::starts_with_path(canonical_path, canonical_directory) {
        Ok(())
    } else {
        Err(
            CodexImageRunError::new(
                "CODEX_IMAGE_PATH_REJECTED",
                "generated image resolves outside its isolated directory",
                false,
            ),
        )
    }
}

/// The generated file is a regular file, not a symbolic link.
pub fn check_candidate_file(is_symlink: bool, is_file: bool) -> (r: Result<(), CodexImageRunError>)
    ensures
        r is Ok <==> !is_symlink && is_file,
        r matches Err(e) ==> e.code@ == "CODEX_IMAGE_PATH_REJECTED"@ && !e.retryable,
{
    if is_symlink || !is_file {
        Err(
            CodexImageRunError::new(
                "CODEX_IMAGE_PATH_REJECTED",
                "generated image is not a regular non-symlink file",
                false,
            ),
        )
    } else {
        Ok(())
    }
}

/// The MIME type of a generated file, which must classify as an image.
pub fn classify_candidate(path: &str, prefix: &[u8]) -> (r: Result<String, CodexImageRunError>)
    ensures
        match r {
            Ok(m) => crate::media::classify_spec(path@, prefix@) matches crate::media::Classified::Media(
                k,
                mime,
            ) && k == crate::media::AssetKind::Image && m@ == match mime {
                Some(x) => x,
                None => "application/octet-stream"@,
            },
            Err(e) => e.code@ == "CODEX_IMAGE_MEDIA_REJECTED"@ && !e.retryable && !(
            crate::media::classify_spec(path@, prefix@) matches crate::media::Classified::Media(
                k,
                _,
            ) && k == crate::media::AssetKind::Image),
        },
{
    match crate::media::classify_media(path, prefix) {
        Err(e) => Err(CodexImageRunError::new("CODEX_IMAGE_MEDIA_REJECTED", e.message.as_str(), false)),
        Ok((kind, mime)) => {
            if kind != crate::media::AssetKind::Image {
                return Err(
                    CodexImageRunError::new(
                        "CODEX_IMAGE_MEDIA_REJECTED",
                        "Codex output is not a recognized raster image",
                        false,
                    ),
                );
            }
            match mime {
                Some(m) => Ok(copy_string(m)),
                None => Ok(copy_string("application/octet-stream")),
            }
        },
    }
}

/// The generated file's path relative to the job directory, as the
/// checkpoint records it.
pub fn candidate_relative_path(path: &str, job_directory: &str) -> (r: Result<String, CodexImageRunError>)
    ensures
        match r {
            Ok(p) => crate::paths::relative_within_spec(path@, job_directory@) == Some(p@),
            Err(e) => crate::paths::relative_within_spec(path@, job_directory@) is None && e.code@
                == "CODEX_IMAGE_PATH_REJECTED"@,
        },
{
    match crate::paths::relative_within(path, job_directory) {
        Some(p) => Ok(p),
        None => Err(
            CodexImageRunError::new(
                "CODEX_IMAGE_PATH_REJECTED",
                "generated image is outside its durable job directory",
                false,
            ),
        ),
    }
}

/// The extension a generated image is named with, by its MIME type.
pub open spec fn generated_extension_spec(mime: Seq<char>) -> Seq<char> {
    if mime == "image/jpeg"@ {
        "jpg"@
    } else if mime == "image/webp"@ {
        "webp"@
    } else if mime == "image/gif"@ {
        "gif"@
    } else if mime == "image/avif"@ {
        "avif"@
    } else {
        "png"@
    }
}

pub fn generated_extension(mime: &str) -> (r: &'static str)
    ensures
        r@ == generated_extension_spec(mime@),
{
    if str_eq(mime, "image/jpeg") {
        "jpg"
    } else if str_eq(mime, "image/webp") {
        "webp"
    } else if str_eq(mime, "image/gif") {
        "gif"
    } else if str_eq(mime, "image/avif") {
        "avif"
    } else {
        "png"
    }
}

fn prefixed(prefix: &str, body: &str, suffix: &str) -> (r: String)
    ensures
        r@ == prefix@ + body@ + suffix@,
{
    let mut v = chars_of(prefix);
    push_str(&mut v, body);
    push_str(&mut v, suffix);
    string_of(v.as_slice())
}

/// The id of the asset a job's image becomes.
pub fn generated_asset_id(job_id: &str) -> (r: String)
    ensures
        r@ == "asset:generated:"@ + job_id@,
{
    let r = prefixed("asset:generated:", job_id, "");
    assert(r@ =~= "asset:generated:"@ + job_id@) by {
        reveal_strlit("");
    };
    r
}

/// The display name of a generated image asset.
pub fn generated_asset_name(mime: &str) -> (r: String)
    ensures
        r@ == "Codex generated image."@ + generated_extension_spec(mime@),
{
    let r = prefixed("Codex generated image.", generated_extension(mime), "");
    assert(r@ =~= "Codex generated image."@ + generated_extension_spec(mime@)) by {
        reveal_strlit("");
    };
    r
}

/// The transaction that adds a job's generated asset.
pub fn materialize_transaction_id(job_id: &str) -> (r: String)
    ensures
        r@ == "tx:job:"@ + job_id@ + ":generated-asset"@,
{
    prefixed("tx:job:", job_id, ":generated-asset")
}

/// The idempotency key of that transaction.
pub fn materialize_idempotency_key(job_id: &str) -> (r: String)
    ensures
        r@ == "job:"@ + job_id@ + ":materialize-generation"@,
{
    prefixed("job:", job_id, ":materialize-generation")
}

/// The idempotency key of the derivative job queued for a generated image.
pub fn derivatives_idempotency_key(job_id: &str) -> (r: String)
    ensures
        r@ == "codex-image-derivatives:"@ + job_id@,
{
    let r = prefixed("codex-image-derivatives:", job_id, "");
    assert(r@ =~= "codex-image-derivatives:"@ + job_id@) by {
        reveal_strlit("");
    };
    r
}

/// An asset with the generated id already exists: it is this job's own
/// (recorded by a previous run) and is reused, or it belongs to another
/// operation and the job fails.
pub fn existing_asset_decision(existing_generation: Option<&JsonValue>, job_id: &str) -> (r: Result<
    (),
    CodexImageRunError,
>)
    ensures
        r is Ok <==> (existing_generation matches Some(g) && g.field_str("jobId"@) == Some(job_id@)),
        r matches Err(e) ==> e.code@ == "CODEX_IMAGE_ASSET_CONFLICT"@ && !e.retryable,
{
    let same = match existing_generation {
        Some(g) => match g.get_str("jobId") {
            Some(j) => str_eq(j, job_id),
            None => false,
        },
        None => false,
    };
    if same {
        Ok(())
    } else {
        Err(
            CodexImageRunError::new(
                "CODEX_IMAGE_ASSET_CONFLICT",
                "generated asset ID belongs to another operation",
                false,
            ),
        )
    }
}

/// How many times the asset commit is tried against a changing project.
pub const MATERIALIZE_ATTEMPTS: usize = 4;

/// After a failed commit on attempt `attempt` (counting from 1): `None` to
/// try again on a revision conflict while attempts remain, else the error
/// the job fails with.
pub fn after_commit_failure(code: &str, message: &str, attempt: usize) -> (r: Option<CodexImageRunError>)
    ensures
        code@ == "revisionConflict"@ && attempt < MATERIALIZE_ATTEMPTS ==> r is None,
        code@ == "revisionConflict"@ && attempt >= MATERIALIZE_ATTEMPTS ==> (r matches Some(e)
            && e.code@ == "CODEX_IMAGE_REVISION_CONFLICT"@ && e.retryable),
        code@ != "revisionConflict"@ ==> (r matches Some(e) && e.code@
            == "CODEX_IMAGE_MATERIALIZATION_FAILED"@ && e.message@ == message@ && !e.retryable),
{
    if str_eq(code, "revisionConflict") {
        if attempt < MATERIALIZE_ATTEMPTS {
            None
        } else {
            Some(
                CodexImageRunError::new(
                    "CODEX_IMAGE_REVISION_CONFLICT",
                    "project kept changing while the generated image was imported",
                    true,
                ),
            )
        }
    } else {
        Some(database_error(message))
    }
}

/// A failed generation: a cancellation when one was requested, else a
/// retryable generation failure with the tool's message.
pub fn generation_failure(cancel_requested: bool, message: &str) -> (e: CodexImageRunError)
    ensures
        cancel_requested ==> e.cancelled && e.code@ == "CODEX_IMAGE_CANCELLED"@ && e.message@
            == "Codex image generation was cancelled"@ && !e.retryable,
        !cancel_requested ==> !e.cancelled && e.code@ == "CODEX_IMAGE_GENERATION_FAILED"@
            && e.message@ == message@ && e.retryable,
{
    if cancel_requested {
        CodexImageRunError::cancelled()
    } else {
        CodexImageRunError::new("CODEX_IMAGE_GENERATION_FAILED", message, true)
    }
}

/// A failure to place the generated asset on the timeline.
pub fn placement_failure(message: &str) -> (e: CodexImageRunError)
    ensures
        e.code@ == "CODEX_IMAGE_PLACEMENT_FAILED"@,
        e.message@ == message@,
        e.retryable,
        !e.cancelled,
{
    CodexImageRunError::new("CODEX_IMAGE_PLACEMENT_FAILED", message, true)
}

/// A job that names no project.
pub fn missing_project() -> (e: CodexImageRunError)
    ensures
        e.code@ == "CODEX_IMAGE_INVALID_JOB"@,
        !e.retryable,
{
    CodexImageRunError::new("CODEX_IMAGE_INVALID_JOB", "job has no project", false)
}

/// How a finished run is recorded.
#[derive(Debug, Clone, Copy, PartialEq, Eq, Structural)]
pub enum JobDisposition {
    /// The job succeeded with its output.
    Complete,
    /// A cancellation caused by shutdown: the job goes back to the queue.
    Requeue,
    /// The user cancelled the job.
    MarkCancelled,
    /// The job failed with its error.
    Fail,
}

/// Where a run ends up: completed, requeued when shutdown interrupted it,
/// cancelled when the user stopped it, failed otherwise.
pub fn job_disposition(result: &Result<JsonValue, CodexImageRunError>, shutting_down: bool) -> (d:
    JobDisposition)
    ensures
        result is Ok ==> d == JobDisposition::Complete,
        result matches Err(e) ==> d == (if e.cancelled && shutting_down {
            JobDisposition::Requeue
        } else if e.cancelled {
            JobDisposition::MarkCancelled
        } else {
            JobDisposition::Fail
        }),
{
    match result {
        Ok(_) => JobDisposition::Complete,
        Err(e) => if e.cancelled && shutting_down {
            JobDisposition::Requeue
        } else if e.cancelled {
            JobDisposition::MarkCancelled
        } else {
            JobDisposition::Fail
        },
    }
}

/// The job directory is removed after every run except one that will be
/// resumed.
pub fn removes_job_directory(d: JobDisposition) -> (r: bool)
    ensures
        r == (d != JobDisposition::Requeue),
{
    d != JobDisposition::Requeue
}

/// What the generated-asset import learns between its steps.
#[derive(Debug)]
pub enum MaterializeEvent {
    /// The project was read: whether an asset already has the generated id
    /// (and then its `generation` record, if any), and the revision read.
    ProjectRead { existing: Option<Option<JsonValue>>, revision: u64 },
    /// The asset commit was accepted (or replayed), with the revision the
    /// commit reported, if it reported one.
    Committed { replayed: bool, revision: Option<u64> },
    /// The asset commit was refused with this database error.
    CommitFailed { code: String, message: String },
}

/// What the generated-asset import does next.
#[derive(Debug)]
pub enum MaterializeAction {
    /// Read the project again.
    ReadProject,
    /// Commit the new asset on top of this revision.
    Commit { base_revision: u64 },
    /// The job's own asset is already in the project, at this revision.
    ReuseExisting { revision: u64 },
    /// The asset is in the project at this revision; publish the revision
    /// and asset change events when `publish`.
    Finish { revision: u64, replayed: bool, publish: bool },
    Fail(CodexImageRunError),
}

pub enum MaterializeActionView {
    ReadProject,
    Commit(u64),
    ReuseExisting(u64),
    Finish(u64, bool, bool),
    /// Code, message, whether it may be retried, whether it is a cancellation.
    Fail(Seq<char>, Seq<char>, bool, bool),
}

impl View for MaterializeAction {
    type V = MaterializeActionView;

    open spec fn view(&self) -> MaterializeActionView {
        match self {
            MaterializeAction::ReadProject => MaterializeActionView::ReadProject,
            MaterializeAction::Commit { base_revision } => MaterializeActionView::Commit(*base_revision),
            MaterializeAction::ReuseExisting { revision } => MaterializeActionView::ReuseExisting(*revision),
            MaterializeAction::Finish { revision, replayed, publish } => MaterializeActionView::Finish(
                *revision,
                *replayed,
                *publish,
            ),
            MaterializeAction::Fail(e) => MaterializeActionView::Fail(e.code@, e.message@, e.retryable, e.cancelled),
        }
    }
}

/// The step of the generated-asset import on attempt `attempt` (counting
/// from 1): the attempt it goes on with and what it does.
pub open spec fn materialize_spec(job_id: Seq<char>, attempt: nat, event: MaterializeEvent) -> (nat, MaterializeActionView) {
    match event {
        MaterializeEvent::ProjectRead { existing, revision } => match existing {
            None => (attempt, MaterializeActionView::Commit(revision)),
            Some(g) => if g matches Some(gv) && gv.field_str("jobId"@) == Some(job_id) {
                (attempt, MaterializeActionView::ReuseExisting(revision))
            } else {
                (attempt, MaterializeActionView::Fail("CODEX_IMAGE_ASSET_CONFLICT"@, "generated asset ID belongs to another operation"@, false, false))
            },
        },
        MaterializeEvent::Committed { replayed, revision } => match revision {
            None => (attempt, MaterializeActionView::Fail("CODEX_IMAGE_MATERIALIZATION_FAILED"@, "asset commit returned no revision"@, false, false)),
            Some(r) => (attempt, MaterializeActionView::Finish(r, replayed, !replayed)),
        },
        MaterializeEvent::CommitFailed { code, message } => if code@ == "revisionConflict"@ {
            if attempt < MATERIALIZE_ATTEMPTS {
                ((attempt + 1) as nat, MaterializeActionView::ReadProject)
            } else {
                (attempt, MaterializeActionView::Fail("CODEX_IMAGE_REVISION_CONFLICT"@, "project kept changing while the generated image was imported"@, true, false))
            }
        } else {
            (attempt, MaterializeActionView::Fail("CODEX_IMAGE_MATERIALIZATION_FAILED"@, message@, false, false))
        },
    }
}

/// One step of importing a generated image into its project: the project is
/// read, the asset committed on the revision read, and a revision conflict
/// sends it back to read again, at most `MATERIALIZE_ATTEMPTS` times (see
/// `materialize_spec`).
pub fn materialize_decision(job_id: &str, attempt: usize, event: MaterializeEvent) -> (r: (usize, MaterializeAction))
    requires
        1 <= attempt <= MATERIALIZE_ATTEMPTS,
    ensures
        (r.0 as nat, r.1@) == materialize_spec(job_id@, attempt as nat, event),
        1 <= r.0 <= MATERIALIZE_ATTEMPTS,
{
    match event {
        MaterializeEvent::ProjectRead { existing, revision } => match existing {
            None => (attempt, MaterializeAction::Commit { base_revision: revision }),
            Some(g) => {
                let own = match &g {
                    Some(gv) => match gv.get_str("jobId") {
                        Some(j) => str_eq(j, job_id),
                        None => false,
                    },
                    None => false,
                };
                if own {
                    (attempt, MaterializeAction::ReuseExisting { revision })
                } else {
                    (
                        attempt,
                        MaterializeAction::Fail(
                            CodexImageRunError::new(
                                "CODEX_IMAGE_ASSET_CONFLICT",
                                "generated asset ID belongs to another operation",
                                false,
                            ),
                        ),
                    )
                }
            },
        },
        MaterializeEvent::Committed { replayed, revision } => match revision {
            None => (
                attempt,
                MaterializeAction::Fail(
                    CodexImageRunError::new(
                        "CODEX_IMAGE_MATERIALIZATION_FAILED",
                        "asset commit returned no revision",
                        false,
                    ),
                ),
            ),
            Some(r) => (attempt, MaterializeAction::Finish { revision: r, replayed, publish: !replayed }),
        },
        MaterializeEvent::CommitFailed { code, message } => {
            if str_eq(code.as_str(), "revisionConflict") {
                if attempt < MATERIALIZE_ATTEMPTS {
                    (attempt + 1, MaterializeAction::ReadProject)
                } else {
                    (
                        attempt,
                        MaterializeAction::Fail(
                            CodexImageRunError::new(
                                "CODEX_IMAGE_REVISION_CONFLICT",
                                "project kept changing while the generated image was imported",
                                true,
                            ),
                        ),
                    )
                }
            } else {
                (attempt, MaterializeAction::Fail(database_error(message.as_str())))
            }
        },
    }
}

/// Where a Codex image job run stands.
#[derive(Debug, Clone, Copy, PartialEq, Eq, Structural)]
pub enum ImageJobPhase {
    Start,
    Resetting,
    MarkingRunning,
    Generating,
    Inspecting,
    SavingCheckpoint,
    LoadingCheckpoint,
    Installing,
    Materializing,
    Placing,
    QueueingDerivatives,
    Finished,
    Failed,
}

/// What a Codex image job run learns between its steps.
#[derive(Debug)]
pub enum ImageJobEvent {
    /// The run begins: whether the job's output holds a `generated`
    /// checkpoint, and whether cancellation was requested.
    Begin { checkpoint_generated: bool, cancel_requested: bool },
    /// The step asked for succeeded; whether cancellation was requested by now.
    StepDone { cancel_requested: bool },
    /// The step asked for failed with this error.
    StepFailed(CodexImageRunError),
    /// Codex did not produce an image.
    GenerationFailed { cancel_requested: bool, message: String },
    /// The asset import failed; whether the content was newly installed.
    MaterializeFailed { error: CodexImageRunError, content_created: bool },
    /// Placing the asset on the timeline failed.
    PlacementFailed { message: String },
}

/// What a Codex image job run does next.
#[derive(Debug)]
pub enum ImageJobAction {
    ResetDirectory,
    /// Record progress 0.02, "Generating image with Codex", and publish it.
    MarkRunning,
    Generate,
    InspectCandidate,
    /// Record progress 0.80 and the `generated` checkpoint, and publish it.
    SaveCheckpoint,
    LoadCheckpoint,
    InstallContent,
    Materialize,
    PlaceAsset,
    /// Queue derivatives; a failure is only logged.
    QueueDerivatives,
    Finish,
    /// Remove the installed content unless the project references it, then
    /// fail with the error.
    RemoveContentThenFail(CodexImageRunError),
    Fail(CodexImageRunError),
    /// The event does not belong to this phase; nothing to do.
    Ignore,
}

pub enum ImageJobActionView {
    ResetDirectory,
    MarkRunning,
    Generate,
    InspectCandidate,
    SaveCheckpoint,
    LoadCheckpoint,
    InstallContent,
    Materialize,
    PlaceAsset,
    QueueDerivatives,
    Finish,
    RemoveContentThenFail(Seq<char>, Seq<char>, bool, bool),
    Fail(Seq<char>, Seq<char>, bool, bool),
    Ignore,
}

pub open spec fn run_error_view(e: CodexImageRunError) -> (Seq<char>, Seq<char>, bool, bool) {
    (e.code@, e.message@, e.retryable, e.cancelled)
}

impl View for ImageJobAction {
    type V = ImageJobActionView;

    open spec fn view(&self) -> ImageJobActionView {
        match self {
            ImageJobAction::ResetDirectory => ImageJobActionView::ResetDirectory,
            ImageJobAction::MarkRunning => ImageJobActionView::MarkRunning,
            ImageJobAction::Generate => ImageJobActionView::Generate,
            ImageJobAction::InspectCandidate => ImageJobActionView::InspectCandidate,
            ImageJobAction::SaveCheckpoint => ImageJobActionView::SaveCheckpoint,
            ImageJobAction::LoadCheckpoint => ImageJobActionView::LoadCheckpoint,
            ImageJobAction::InstallContent => ImageJobActionView::InstallContent,
            ImageJobAction::Materialize => ImageJobActionView::Materialize,
            ImageJobAction::PlaceAsset => ImageJobActionView::PlaceAsset,
            ImageJobAction::QueueDerivatives => ImageJobActionView::QueueDerivatives,
            ImageJobAction::Finish => ImageJobActionView::Finish,
            ImageJobAction::RemoveContentThenFail(e) => {
                let v = run_error_view(*e);
                ImageJobActionView::RemoveContentThenFail(v.0, v.1, v.2, v.3)
            },
            ImageJobAction::Fail(e) => {
                let v = run_error_view(*e);
                ImageJobActionView::Fail(v.0, v.1, v.2, v.3)
            },
            ImageJobAction::Ignore => ImageJobActionView::Ignore,
        }
    }
}

/// The refusal of a job's persisted input, as code and message.
pub open spec fn job_input_refusal(input: CodexImageJobInput) -> Option<(Seq<char>, Seq<char>)> {
    if !(input.provider@ == "codex-image"@ && input.kind@ == "image"@) {
        Some(("CODEX_IMAGE_INVALID_JOB"@, "Codex image job has an invalid provider or kind"@))
    } else if input.model matches Some(m) && m@ != CODEX_IMAGE_MODEL@ {
        Some(("CODEX_IMAGE_MODEL_UNSUPPORTED"@, "Codex image generation uses gpt-image-2"@))
    } else {
        None
    }
}

pub open spec fn cancelled_fail() -> ImageJobActionView {
    ImageJobActionView::Fail("CODEX_IMAGE_CANCELLED"@, "Codex image generation was cancelled"@, false, true)
}

/// After the asset is in the project: place it when the job asks for a
/// placement, else queue derivatives when the media worker runs, else finish.
pub open spec fn after_materialize(has_placement: bool, worker: bool) -> (ImageJobPhase, ImageJobActionView) {
    if has_placement {
        (ImageJobPhase::Placing, ImageJobActionView::PlaceAsset)
    } else if worker {
        (ImageJobPhase::QueueingDerivatives, ImageJobActionView::QueueDerivatives)
    } else {
        (ImageJobPhase::Finished, ImageJobActionView::Finish)
    }
}

/// One step of a Codex image job run. A job that checkpointed a generated
/// image resumes from it; otherwise the job directory is reset, the job
/// marked running, the image generated, inspected and checkpointed. Then,
/// unless cancelled, the content is installed, the asset imported (content
/// installed for a failed import is removed unless referenced), placed when
/// asked, derivatives queued when the worker runs, and the run finishes.
pub open spec fn image_job_spec(
    input: CodexImageJobInput,
    worker: bool,
    phase: ImageJobPhase,
    event: ImageJobEvent,
) -> (ImageJobPhase, ImageJobActionView) {
    match (phase, event) {
        (ImageJobPhase::Start, ImageJobEvent::Begin { checkpoint_generated, cancel_requested }) => match job_input_refusal(input) {
            Some((code, message)) => (ImageJobPhase::Failed, ImageJobActionView::Fail(code, message, false, false)),
            None => if cancel_requested {
                (ImageJobPhase::Failed, cancelled_fail())
            } else if checkpoint_generated {
                (ImageJobPhase::LoadingCheckpoint, ImageJobActionView::LoadCheckpoint)
            } else {
                (ImageJobPhase::Resetting, ImageJobActionView::ResetDirectory)
            },
        },
        (ImageJobPhase::Resetting, ImageJobEvent::StepDone { .. }) => (ImageJobPhase::MarkingRunning, ImageJobActionView::MarkRunning),
        (ImageJobPhase::MarkingRunning, ImageJobEvent::StepDone { .. }) => (ImageJobPhase::Generating, ImageJobActionView::Generate),
        (ImageJobPhase::Generating, ImageJobEvent::StepDone { .. }) => (ImageJobPhase::Inspecting, ImageJobActionView::InspectCandidate),
        (ImageJobPhase::Generating, ImageJobEvent::GenerationFailed { cancel_requested, message }) => if cancel_requested {
            (ImageJobPhase::Failed, cancelled_fail())
        } else {
            (ImageJobPhase::Failed, ImageJobActionView::Fail("CODEX_IMAGE_GENERATION_FAILED"@, message@, true, false))
        },
        (ImageJobPhase::Inspecting, ImageJobEvent::StepDone { .. }) => (ImageJobPhase::SavingCheckpoint, ImageJobActionView::SaveCheckpoint),
        (ImageJobPhase::SavingCheckpoint, ImageJobEvent::StepDone { cancel_requested })
        | (ImageJobPhase::LoadingCheckpoint, ImageJobEvent::StepDone { cancel_requested }) => if cancel_requested {
            (ImageJobPhase::Failed, cancelled_fail())
        } else {
            (ImageJobPhase::Installing, ImageJobActionView::InstallContent)
        },
        (ImageJobPhase::Installing, ImageJobEvent::StepDone { .. }) => (ImageJobPhase::Materializing, ImageJobActionView::Materialize),
        (ImageJobPhase::Materializing, ImageJobEvent::StepDone { .. }) => after_materialize(input.placement is Some, worker),
        (ImageJobPhase::Materializing, ImageJobEvent::MaterializeFailed { error, content_created }) => {
            let v = run_error_view(error);
            if content_created {
                (ImageJobPhase::Failed, ImageJobActionView::RemoveContentThenFail(v.0, v.1, v.2, v.3))
            } else {
                (ImageJobPhase::Failed, ImageJobActionView::Fail(v.0, v.1, v.2, v.3))
            }
        },
        (ImageJobPhase::Placing, ImageJobEvent::StepDone { .. }) => after_materialize(false, worker),
        (ImageJobPhase::Placing, ImageJobEvent::PlacementFailed { message }) => (
            ImageJobPhase::Failed,
            ImageJobActionView::Fail("CODEX_IMAGE_PLACEMENT_FAILED"@, message@, true, false),
        ),
        (ImageJobPhase::QueueingDerivatives, ImageJobEvent::StepDone { .. })
        | (ImageJobPhase::QueueingDerivatives, ImageJobEvent::StepFailed(_)) => (ImageJobPhase::Finished, ImageJobActionView::Finish),
        (ImageJobPhase::Finished, _) | (ImageJobPhase::Failed, _) => (phase, ImageJobActionView::Ignore),
        (_, ImageJobEvent::StepFailed(e)) => {
            let v = run_error_view(e);
            (ImageJobPhase::Failed, ImageJobActionView::Fail(v.0, v.1, v.2, v.3))
        },
        _ => (phase, ImageJobActionView::Ignore),
    }
}

fn next_after_materialize(has_placement: bool, worker: bool) -> (r: (ImageJobPhase, ImageJobAction))
    ensures
        (r.0, r.1@) == after_materialize(has_placement, worker),
{
    if has_placement {
        (ImageJobPhase::Placing, ImageJobAction::PlaceAsset)
    } else if worker {
        (ImageJobPhase::QueueingDerivatives, ImageJobAction::QueueDerivatives)
    } else {
        (ImageJobPhase::Finished, ImageJobAction::Finish)
    }
}

/// One step of a Codex image job run (see `image_job_spec`); `worker`
/// tells whether the media worker runs.
pub fn image_job_step(
    input: &CodexImageJobInput,
    worker: bool,
    phase: ImageJobPhase,
    event: ImageJobEvent,
) -> (r: (ImageJobPhase, ImageJobAction))
    ensures
        (r.0, r.1@) == image_job_spec(*input, worker, phase, event),
{
    match (phase, event) {
        (ImageJobPhase::Start, ImageJobEvent::Begin { checkpoint_generated, cancel_requested }) => match check_job_input(input) {
            Err(e) => (ImageJobPhase::Failed, ImageJobAction::Fail(e)),
            Ok(()) => if cancel_requested {
                (ImageJobPhase::Failed, ImageJobAction::Fail(CodexImageRunError::cancelled()))
            } else if checkpoint_generated {
                (ImageJobPhase::LoadingCheckpoint, ImageJobAction::LoadCheckpoint)
            } else {
                (ImageJobPhase::Resetting, ImageJobAction::ResetDirectory)
            },
        },
        (ImageJobPhase::Resetting, ImageJobEvent::StepDone { .. }) => (ImageJobPhase::MarkingRunning, ImageJobAction::MarkRunning),
        (ImageJobPhase::MarkingRunning, ImageJobEvent::StepDone { .. }) => (ImageJobPhase::Generating, ImageJobAction::Generate),
        (ImageJobPhase::Generating, ImageJobEvent::StepDone { .. }) => (ImageJobPhase::Inspecting, ImageJobAction::InspectCandidate),
        (ImageJobPhase::Generating, ImageJobEvent::GenerationFailed { cancel_requested, message }) => (
            ImageJobPhase::Failed,
            ImageJobAction::Fail(generation_failure(cancel_requested, message.as_str())),
        ),
        (ImageJobPhase::Inspecting, ImageJobEvent::StepDone { .. }) => (ImageJobPhase::SavingCheckpoint, ImageJobAction::SaveCheckpoint),
        (ImageJobPhase::SavingCheckpoint, ImageJobEvent::StepDone { cancel_requested })
        | (ImageJobPhase::LoadingCheckpoint, ImageJobEvent::StepDone { cancel_requested }) => if cancel_requested {
            (ImageJobPhase::Failed, ImageJobAction::Fail(CodexImageRunError::cancelled()))
        } else {
            (ImageJobPhase::Installing, ImageJobAction::InstallContent)
        },
        (ImageJobPhase::Installing, ImageJobEvent::StepDone { .. }) => (ImageJobPhase::Materializing, ImageJobAction::Materialize),
        (ImageJobPhase::Materializing, ImageJobEvent::StepDone { .. }) => next_after_materialize(input.placement.is_some(), worker),
        (ImageJobPhase::Materializing, ImageJobEvent::MaterializeFailed { error, content_created }) => if content_created {
            (ImageJobPhase::Failed, ImageJobAction::RemoveContentThenFail(error))
        } else {
            (ImageJobPhase::Failed, ImageJobAction::Fail(error))
        },
        (ImageJobPhase::Placing, ImageJobEvent::StepDone { .. }) => next_after_materialize(false, worker),
        (ImageJobPhase::Placing, ImageJobEvent::PlacementFailed { message }) => (
            ImageJobPhase::Failed,
            ImageJobAction::Fail(placement_failure(message.as_str())),
        ),
        (ImageJobPhase::QueueingDerivatives, ImageJobEvent::StepDone { .. })
        | (ImageJobPhase::QueueingDerivatives, ImageJobEvent::StepFailed(_)) => (ImageJobPhase::Finished, ImageJobAction::Finish),
        (ImageJobPhase::Finished, _) | (ImageJobPhase::Failed, _) => (phase, ImageJobAction::Ignore),
        (_, ImageJobEvent::StepFailed(e)) => (ImageJobPhase::Failed, ImageJobAction::Fail(e)),
        _ => (phase, ImageJobAction::Ignore),
    }
}

} // verus!


