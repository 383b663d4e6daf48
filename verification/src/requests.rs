//! The HTTP request bodies and queries of the editing API, and the checks the
//! handlers make on them before any project state is touched.
use vstd::prelude::*;
use crate::error::{ApiError, STATUS_BAD_REQUEST, STATUS_CONFLICT, STATUS_NOT_FOUND};
use crate::json::JsonValue;
use crate::paths::{file_name, file_name_spec};
use crate::media::{lower_extension, lowercase_extension, word};
use crate::text::{
    any_control, chars_of, contains, contains_seq, copy_string, no_control,
    str_eq, string_of, trim, trim_spec,
};

verus! {

/// The body of a health probe.
#[derive(Debug)]
pub struct HealthResponse {
    pub status: String,
}

impl HealthResponse {
    /// The answer of a live daemon.
    pub fn ok() -> (r: HealthResponse)
        ensures
            r.status@ == "ok"@,
    {
        HealthResponse { status: copy_string("ok") }
    }
}

/// A request to preview (`confirm == false`) or run content-store garbage
/// collection of media older than `min_age_hours`.
#[derive(Debug)]
pub struct MediaGcRequest {
    pub confirm: bool,
    pub min_age_hours: u64,
}

/// The youngest media that collection may take unless the request says otherwise.
pub fn default_media_gc_age_hours() -> (r: u64)
    ensures
        r == 24,
{
    24
}

/// The longest minimum age a collection request may give: one year.
pub const MAX_GC_MINIMUM_AGE_HOURS: u64 = 8760;

impl MediaGcRequest {
    /// A preview with the default minimum age.
    pub fn preview() -> (r: MediaGcRequest)
        ensures
            !r.confirm,
            r.min_age_hours == 24,
    {
        MediaGcRequest { confirm: false, min_age_hours: default_media_gc_age_hours() }
    }

    /// Checks the minimum age: it must lie in `1..=8760` hours.
    pub fn check_minimum_age(&self) -> (r: Result<(), ApiError>)
        ensures
            r is Ok <==> 1 <= self.min_age_hours <= MAX_GC_MINIMUM_AGE_HOURS,
            r matches Err(e) ==> e.status == STATUS_BAD_REQUEST && e.code@
                == "invalid_gc_minimum_age"@,
    {
        if 1 <= self.min_age_hours && self.min_age_hours <= MAX_GC_MINIMUM_AGE_HOURS {
            Ok(())
        } else {
            Err(
                ApiError::bad_request(
                    "invalid_gc_minimum_age",
                    "minAgeHours must be between 1 and 8760",
                ),
            )
        }
    }

    /// The minimum age in seconds.
    pub fn minimum_age_seconds(&self) -> (r: u64)
        requires
            self.min_age_hours <= MAX_GC_MINIMUM_AGE_HOURS,
        ensures
            r == self.min_age_hours * 3600,
    {
        self.min_age_hours * 3600
    }

    /// A confirmed collection must not run while jobs are queued or running;
    /// the refusal lists the active job ids.
    pub fn check_no_active_jobs(&self, active_job_ids: &Vec<String>) -> (r: Result<(), ApiError>)
        ensures
            r is Ok <==> !self.confirm || active_job_ids.len() == 0,
            r matches Err(e) ==> e.status == STATUS_CONFLICT && e.code@ == "asset_gc_jobs_active"@
                && e.message@ == "asset garbage collection cannot run while jobs are queued or running"@
                && (e.details matches Some(JsonValue::Object(d)) && d@.len() == 1 && d@[0].0@
                == "activeJobIds"@ && (d@[0].1 matches JsonValue::Array(a) && a@.len()
                == active_job_ids.len() && forall|k: int|
                0 <= k < a@.len() ==> (#[trigger] a@[k]).str_view() == Some(active_job_ids@[k]@))),
    {
        if self.confirm && active_job_ids.len() > 0 {
            let mut ids: Vec<JsonValue> = Vec::new();
            let mut i: usize = 0;
            while i < active_job_ids.len()
                invariant
                    i <= active_job_ids.len(),
                    ids.len() == i,
                    forall|k: int| 0 <= k < i ==> (#[trigger] ids@[k]).str_view() == Some(active_job_ids@[k]@),
                decreases active_job_ids.len() - i,
            {
                ids.push(JsonValue::Str(copy_string(active_job_ids[i].as_str())));
                i += 1;
            }
            let details = JsonValue::Object(
                vec![(copy_string("activeJobIds"), JsonValue::Array(ids))],
            );
            Err(
                ApiError::conflict(
                    "asset_gc_jobs_active",
                    "asset garbage collection cannot run while jobs are queued or running",
                ).with_details(details),
            )
        } else {
            Ok(())
        }
    }
}

/// A request to create a project.
#[derive(Debug)]
pub struct CreateProjectRequest {
    pub name: String,
    pub project_id: Option<String>,
    pub idempotency_key: Option<String>,
}

/// A request to switch a project's Auto-Apply policy.
#[derive(Debug)]
pub struct AutoApplyRequest {
    pub expected_revision: u64,
    pub enabled: bool,
    pub idempotency_key: Option<String>,
}

/// A request to delete a project at a known revision.
#[derive(Debug)]
pub struct DeleteProjectRequest {
    pub expected_revision: u64,
    pub idempotency_key: Option<String>,
}

/// The longest project name, in characters.
pub const MAX_PROJECT_NAME_CHARS: usize = 200;

/// The name a project is created with: the trimmed request name, which must
/// hold 1 to 200 characters.
pub open spec fn project_name_spec(name: Seq<char>) -> Option<Seq<char>> {
    let t = trim_spec(name);
    if t.len() == 0 || t.len() > MAX_PROJECT_NAME_CHARS {
        None
    } else {
        Some(t)
    }
}

impl CreateProjectRequest {
    /// The trimmed project name, or `invalid_project_name`.
    pub fn checked_name(&self) -> (r: Result<String, ApiError>)
        ensures
            match r {
                Ok(n) => project_name_spec(self.name@) == Some(n@),
                Err(e) => project_name_spec(self.name@) is None && e.status == STATUS_BAD_REQUEST
                    && e.code@ == "invalid_project_name"@,
            },
    {
        let cs = chars_of(self.name.as_str());
        let t = trim(cs.as_slice());
        if t.len() == 0 || t.len() > MAX_PROJECT_NAME_CHARS {
            Err(
                ApiError::bad_request(
                    "invalid_project_name",
                    "project name must contain 1 to 200 characters",
                ),
            )
        } else {
            Ok(string_of(t.as_slice()))
        }
    }
}

/// The key that makes a mutating request idempotent, from the
/// `Idempotency-Key` header or the body: `Err(true)` when both are given and
/// differ, `Err(false)` when neither is given.
pub open spec fn idempotency_key_spec(header: Option<Seq<char>>, body: Option<Seq<char>>) -> Result<
    Seq<char>,
    bool,
> {
    match (header, body) {
        (Some(h), Some(b)) => if h == b {
            Ok(h)
        } else {
            Err(true)
        },
        (Some(h), None) => Ok(h),
        (None, Some(b)) => Ok(b),
        (None, None) => Err(false),
    }
}

pub open spec fn opt_view(o: Option<&str>) -> Option<Seq<char>> {
    match o {
        Some(s) => Some(s@),
        None => None,
    }
}

/// Resolves the idempotency key of a request from its header and body;
/// `missing_message` says which operation needs one.
pub fn resolve_idempotency_key(header: Option<&str>, body: Option<&str>, missing_message: &str) -> (r:
    Result<String, ApiError>)
    ensures
        match r {
            Ok(k) => idempotency_key_spec(opt_view(header), opt_view(body)) == Ok::<
                Seq<char>,
                bool,
            >(k@),
            Err(e) => e.status == STATUS_BAD_REQUEST && match idempotency_key_spec(
                opt_view(header),
                opt_view(body),
            ) {
                Err(true) => e.code@ == "idempotency_key_mismatch"@,
                Err(false) => e.code@ == "missing_idempotency_key"@ && e.message@
                    == missing_message@,
                Ok(_) => false,
            },
        },
{
    match (header, body) {
        (Some(h), Some(b)) => {
            if str_eq(h, b) {
                Ok(copy_string(h))
            } else {
                Err(
                    ApiError::bad_request(
                        "idempotency_key_mismatch",
                        "Idempotency-Key header must match body idempotencyKey",
                    ),
                )
            }
        },
        (Some(h), None) => Ok(copy_string(h)),
        (None, Some(b)) => Ok(copy_string(b)),
        (None, None) => Err(ApiError::bad_request("missing_idempotency_key", missing_message)),
    }
}

/// The query of a browser media upload.
#[derive(Debug)]
pub struct UploadManagedMediaQuery {
    pub asset_id: String,
    pub name: String,
    pub duration_ticks: Option<i64>,
    pub width: Option<u32>,
    pub height: Option<u32>,
    pub has_audio: Option<bool>,
    pub last_modified: Option<i64>,
}

/// The longest upload name, in characters.
pub const MAX_UPLOAD_NAME_CHARS: usize = 255;

/// What becomes of an uploaded file's name: the trimmed final path component,
/// holding 1 to 255 characters (`Err(false)` otherwise) and no control
/// character (`Err(true)` otherwise).
pub open spec fn upload_name_spec(value: Seq<char>) -> Result<Seq<char>, bool> {
    match file_name_spec(value) {
        None => Err(false),
        Some(f) => {
            let t = trim_spec(f);
            if t.len() == 0 || t.len() > MAX_UPLOAD_NAME_CHARS {
                Err(false)
            } else if !no_control(t) {
                Err(true)
            } else {
                Ok(t)
            }
        },
    }
}

/// The name under which an uploaded file is recorded.
pub fn safe_upload_name(value: &str) -> (r: Result<String, ApiError>)
    ensures
        match r {
            Ok(n) => upload_name_spec(value@) == Ok::<Seq<char>, bool>(n@),
            Err(e) => e.status == STATUS_BAD_REQUEST && e.code@ == "invalid_media_name"@ && match
                upload_name_spec(value@) {
                Err(control) => control == (e.message@
                    == "uploaded media name must not contain control characters"@),
                Ok(_) => false,
            },
        },
{
    let too_long = "uploaded media name must contain 1 to 255 Unicode characters";
    let control = "uploaded media name must not contain control characters";
    proof {
        reveal_strlit("uploaded media name must contain 1 to 255 Unicode characters");
        reveal_strlit("uploaded media name must not contain control characters");
        assert(too_long@.len() != control@.len());
    }
    let f = match file_name(value) {
        Some(f) => f,
        None => return Err(ApiError::bad_request("invalid_media_name", too_long)),
    };
    let t = trim(f.as_slice());
    if t.len() == 0 || t.len() > MAX_UPLOAD_NAME_CHARS {
        return Err(ApiError::bad_request("invalid_media_name", too_long));
    }
    if any_control(t.as_slice()) {
        return Err(ApiError::bad_request("invalid_media_name", control));
    }
    Ok(string_of(t.as_slice()))
}

/// The largest width or height an upload may declare.
pub const MAX_UPLOAD_DIMENSION: u32 = 32768;

/// The declared duration is positive and the dimensions lie in `1..=32768`.
pub open spec fn upload_metadata_valid(q: UploadManagedMediaQuery) -> bool {
    &&& (q.duration_ticks matches Some(d) ==> d > 0)
    &&& (q.width matches Some(w) ==> 1 <= w <= MAX_UPLOAD_DIMENSION)
    &&& (q.height matches Some(h) ==> 1 <= h <= MAX_UPLOAD_DIMENSION)
}

/// Checks the optional duration and dimensions an upload declares.
pub fn validate_uploaded_dimensions(query: &UploadManagedMediaQuery) -> (r: Result<(), ApiError>)
    ensures
        r is Ok <==> upload_metadata_valid(*query),
        r matches Err(e) ==> e.status == STATUS_BAD_REQUEST && e.code@
            == "invalid_media_metadata"@,
{
    let bad_duration = match query.duration_ticks {
        Some(d) => d <= 0,
        None => false,
    };
    let bad_width = match query.width {
        Some(w) => w == 0 || w > MAX_UPLOAD_DIMENSION,
        None => false,
    };
    let bad_height = match query.height {
        Some(h) => h == 0 || h > MAX_UPLOAD_DIMENSION,
        None => false,
    };
    if bad_duration || bad_width || bad_height {
        Err(
            ApiError::bad_request(
                "invalid_media_metadata",
                "duration must be positive and dimensions must be between 1 and 32768",
            ),
        )
    } else {
        Ok(())
    }
}

} // verus!

verus! {

/// The value of a run of decimal digits.
pub open spec fn digits_value(s: Seq<char>) -> nat
    decreases s.len(),
{
    if s.len() == 0 {
        0
    } else {
        10 * digits_value(s.drop_last()) + ((s.last() as u32) - 48) as nat
    }
}

pub open spec fn all_digits(s: Seq<char>) -> bool {
    forall|i: int| 0 <= i < s.len() ==> '0' <= #[trigger] s[i] <= '9'
}

/// `u64::from_str`: an optional `+` followed by one or more ASCII digits
/// whose value fits in 64 bits.
pub open spec fn parse_u64_spec(s: Seq<char>) -> Option<u64> {
    let d = if s.len() > 0 && s[0] == '+' {
        s.drop_first()
    } else {
        s
    };
    if d.len() > 0 && all_digits(d) && digits_value(d) <= u64::MAX {
        Some(digits_value(d) as u64)
    } else {
        None
    }
}

proof fn lemma_digits_value_prefix(s: Seq<char>, k: int)
    requires
        0 <= k <= s.len(),
        all_digits(s),
    ensures
        digits_value(s.subrange(0, k)) <= digits_value(s),
    decreases s.len() - k,
{
    if k < s.len() {
        lemma_digits_value_prefix(s, k + 1);
        let p = s.subrange(0, k + 1);
        assert(p.drop_last() =~= s.subrange(0, k));
        assert(p.last() == s[k]);
        assert('0' <= p.last() <= '9');
    } else {
        assert(s.subrange(0, k) =~= s);
    }
}

/// Parses an unsigned decimal integer as `u64::from_str` does.
pub fn parse_u64(text: &str) -> (r: Option<u64>)
    ensures
        r == parse_u64_spec(text@),
{
    let cs = chars_of(text);
    let start: usize = if cs.len() > 0 && cs[0] == '+' {
        1
    } else {
        0
    };
    let ghost d = if cs@.len() > 0 && cs@[0] == '+' {
        cs@.drop_first()
    } else {
        cs@
    };
    assert(d =~= cs@.subrange(start as int, cs.len() as int));
    if start >= cs.len() {
        return None;
    }
    let mut v: u128 = 0;
    let mut i: usize = start;
    while i < cs.len()
        invariant
            start <= i <= cs.len(),
            cs@ == text@,
            d == (if cs@.len() > 0 && cs@[0] == '+' {
                cs@.drop_first()
            } else {
                cs@
            }),
            d =~= cs@.subrange(start as int, cs.len() as int),
            all_digits(cs@.subrange(start as int, i as int)),
            v == digits_value(cs@.subrange(start as int, i as int)),
            v <= u64::MAX,
        decreases cs.len() - i,
    {
        let c = cs[i];
        if c < '0' || c > '9' {
            assert(d[i - start] == c);
            assert(!all_digits(d));
            return None;
        }
        let digit = (c as u32 - 48) as u128;
        let next = v * 10 + digit;
        assert(cs@.subrange(start as int, i + 1).drop_last() =~= cs@.subrange(start as int, i as int));
        assert(cs@.subrange(start as int, i + 1).last() == c);
        assert(digits_value(cs@.subrange(start as int, i + 1)) == next);
        assert(all_digits(cs@.subrange(start as int, i + 1)));
        if next > u64::MAX as u128 {
            proof {
                if all_digits(d) {
                    assert(cs@.subrange(start as int, i + 1) =~= d.subrange(0, i + 1 - start));
                    lemma_digits_value_prefix(d, i + 1 - start);
                }
            }
            return None;
        }
        v = next;
        i += 1;
    }
    assert(cs@.subrange(start as int, cs.len() as int) =~= d);
    Some(v as u64)
}

/// The largest single managed import: 2 GiB.
pub const MAX_MANAGED_IMPORT_BYTES: u64 = 2147483648;

/// The upload refusal for a body over the managed-media limit.
pub fn media_too_large_error() -> (e: ApiError)
    ensures
        e.status == crate::error::STATUS_PAYLOAD_TOO_LARGE,
        e.code@ == "media_too_large"@,
        e.message@ == "uploaded media exceeds the 2147483648 byte managed-media limit"@,
{
    ApiError::new(
        crate::error::STATUS_PAYLOAD_TOO_LARGE,
        "media_too_large",
        "uploaded media exceeds the 2147483648 byte managed-media limit",
    )
}

/// A `Content-Length` header that parses and exceeds the managed-media limit.
pub fn declared_length_too_large(content_length: Option<&str>) -> (r: bool)
    ensures
        r == (content_length matches Some(h) && parse_u64_spec(h@) matches Some(n) && n
            > MAX_MANAGED_IMPORT_BYTES),
{
    match content_length {
        Some(h) => match parse_u64(h) {
            Some(n) => n > MAX_MANAGED_IMPORT_BYTES,
            None => false,
        },
        None => false,
    }
}

/// The `Idempotency-Key` header of an upload, which must hold more than
/// whitespace.
pub fn required_idempotency_header(header: Option<&str>) -> (r: Result<String, ApiError>)
    ensures
        match r {
            Ok(k) => header matches Some(h) && k@ == h@ && trim_spec(h@).len() > 0,
            Err(e) => (header is None || trim_spec(header.unwrap()@).len() == 0) && e.status
                == STATUS_BAD_REQUEST && e.code@ == "missing_idempotency_key"@,
        },
{
    match header {
        Some(h) => {
            let cs = chars_of(h);
            let t = trim(cs.as_slice());
            if t.len() > 0 {
                return Ok(copy_string(h));
            }
        },
        None => {},
    }
    Err(
        ApiError::bad_request(
            "missing_idempotency_key",
            "media upload requires an Idempotency-Key header",
        ),
    )
}

/// The `X-OpenChatCut-Expected-Revision` header of an upload.
pub fn required_revision_header(header: Option<&str>) -> (r: Result<u64, ApiError>)
    ensures
        match r {
            Ok(n) => header matches Some(h) && parse_u64_spec(h@) == Some(n),
            Err(e) => (header is None || parse_u64_spec(header.unwrap()@) is None) && e.status
                == STATUS_BAD_REQUEST && e.code@ == "missing_expected_revision"@,
        },
{
    match header {
        Some(h) => match parse_u64(h) {
            Some(n) => return Ok(n),
            None => {},
        },
        None => {},
    }
    Err(
        ApiError::bad_request(
            "missing_expected_revision",
            "media upload requires X-OpenChatCut-Expected-Revision",
        ),
    )
}

} // verus!

verus! {

/// A page of a listing.
#[derive(Debug)]
pub struct PageQuery {
    pub limit: u32,
}

/// The page size of a listing that names none.
pub fn default_limit() -> (r: u32)
    ensures
        r == 100,
{
    100
}

impl PageQuery {
    pub fn with_default_limit() -> (r: PageQuery)
        ensures
            r.limit == 100,
    {
        PageQuery { limit: default_limit() }
    }
}

/// A filter over the job list.
#[derive(Debug)]
pub struct JobsQuery {
    pub project_id: Option<String>,
    pub limit: u32,
}

/// A request to open an agent conversation.
#[derive(Debug)]
pub struct CreateAgentSessionRequest {
    pub provider: Option<String>,
}

/// The agent providers a conversation may use.
pub open spec fn supported_agent_provider(p: Seq<char>) -> bool {
    p == "codex"@ || p == "openai-compatible"@ || p == "ollama"@
}

/// Refuses an agent provider outside `codex`, `openai-compatible` and `ollama`.
pub fn validate_agent_provider_id(provider: &str) -> (r: Result<(), ApiError>)
    ensures
        r is Ok <==> supported_agent_provider(provider@),
        r matches Err(e) ==> e.status == STATUS_BAD_REQUEST && e.code@
            == "unsupported_agent_provider"@,
{
    if str_eq(provider, "codex") || str_eq(provider, "openai-compatible") || str_eq(
        provider,
        "ollama",
    ) {
        Ok(())
    } else {
        Err(
            ApiError::bad_request(
                "unsupported_agent_provider",
                "provider must be codex, openai-compatible, or ollama",
            ),
        )
    }
}

impl CreateAgentSessionRequest {
    /// The provider of the new conversation: the requested one, `codex` by
    /// default, which must be supported.
    pub fn checked_provider(&self) -> (r: Result<String, ApiError>)
        ensures
            match r {
                Ok(p) => p@ == (match self.provider {
                    Some(q) => q@,
                    None => "codex"@,
                }) && supported_agent_provider(p@),
                Err(e) => !supported_agent_provider(
                    match self.provider {
                        Some(q) => q@,
                        None => "codex"@,
                    },
                ) && e.code@ == "unsupported_agent_provider"@,
            },
    {
        let p = match &self.provider {
            Some(q) => q.as_str(),
            None => "codex",
        };
        match validate_agent_provider_id(p) {
            Ok(()) => Ok(copy_string(p)),
            Err(e) => Err(e),
        }
    }
}

/// A request to undo or redo, optionally bound to an agent message.
#[derive(Debug)]
pub struct HistoryNavigationRequest {
    pub expected_revision: u64,
    pub idempotency_key: String,
    pub agent_session_id: Option<String>,
    pub agent_message_id: Option<String>,
}

/// A request to save the current revision as a named version.
#[derive(Debug)]
pub struct CreateVersionRequest {
    pub name: String,
    pub expected_revision: u64,
    pub idempotency_key: String,
}

/// A request to restore a named version.
#[derive(Debug)]
pub struct RestoreVersionRequest {
    pub version_id: String,
    pub expected_revision: u64,
    pub idempotency_key: String,
}

/// An identifier of an agent session or message: 1 to 200 UTF-8 bytes and no
/// control character.
pub open spec fn history_id_valid(s: Seq<char>) -> bool {
    0 < vstd::utf8::encode_utf8(s).len() <= 200 && no_control(s)
}

/// The outcome of checking an agent history binding: `Ok(None)` without one,
/// `Ok(Some(..))` with a valid one, and the error code otherwise.
pub open spec fn history_binding_spec(
    session_id: Option<Seq<char>>,
    message_id: Option<Seq<char>>,
    session_present: bool,
    message_present: bool,
) -> Result<Option<(Seq<char>, Seq<char>)>, Seq<char>> {
    if !session_present && !message_present {
        Ok(None)
    } else if !session_present || !message_present {
        Err("incomplete_agent_history_binding"@)
    } else {
        match (session_id, message_id) {
            (Some(s), Some(m)) => if history_id_valid(s) && history_id_valid(m) {
                Ok(Some((s, m)))
            } else {
                Err("invalid_agent_history_binding"@)
            },
            _ => Err("invalid_agent_history_binding"@),
        }
    }
}

pub(crate) fn history_id_ok(s: &str) -> (r: bool)
    ensures
        r == history_id_valid(s@),
{
    let n = s.as_bytes().len();
    let cs = chars_of(s);
    n > 0 && n <= 200 && !any_control(cs.as_slice())
}

/// Checks that an undo or redo names both the agent session and the agent
/// message it answers, or neither.
pub fn validate_agent_history_binding(
    session_id: Option<&str>,
    message_id: Option<&str>,
    session_field_present: bool,
    message_field_present: bool,
) -> (r: Result<Option<(String, String)>, ApiError>)
    ensures
        match r {
            Ok(None) => history_binding_spec(
                opt_view(session_id),
                opt_view(message_id),
                session_field_present,
                message_field_present,
            ) == Ok::<Option<(Seq<char>, Seq<char>)>, Seq<char>>(None),
            Ok(Some(b)) => history_binding_spec(
                opt_view(session_id),
                opt_view(message_id),
                session_field_present,
                message_field_present,
            ) == Ok::<Option<(Seq<char>, Seq<char>)>, Seq<char>>(Some((b.0@, b.1@))),
            Err(e) => e.status == STATUS_BAD_REQUEST && history_binding_spec(
                opt_view(session_id),
                opt_view(message_id),
                session_field_present,
                message_field_present,
            ) == Err::<Option<(Seq<char>, Seq<char>)>, Seq<char>>(e.code@),
        },
{
    if !session_field_present && !message_field_present {
        return Ok(None);
    }
    if !session_field_present || !message_field_present {
        return Err(
            ApiError::bad_request(
                "incomplete_agent_history_binding",
                "agentSessionId and agentMessageId must be supplied together",
            ),
        );
    }
    match (session_id, message_id) {
        (Some(s), Some(m)) => {
            if history_id_ok(s) && history_id_ok(m) {
                Ok(Some((copy_string(s), copy_string(m))))
            } else {
                Err(
                    ApiError::bad_request(
                        "invalid_agent_history_binding",
                        "agentSessionId and agentMessageId must contain 1 to 200 printable characters",
                    ),
                )
            }
        },
        _ => Err(
            ApiError::bad_request(
                "invalid_agent_history_binding",
                "agentSessionId and agentMessageId must contain 1 to 200 printable characters",
            ),
        ),
    }
}

impl HistoryNavigationRequest {
    /// The agent message an undo or redo is recorded against, if any.
    pub fn history_binding(&self) -> (r: Result<Option<(String, String)>, ApiError>)
        ensures
            match r {
                Ok(None) => self.agent_session_id is None && self.agent_message_id is None,
                Ok(Some(b)) => self.agent_session_id matches Some(s) && self.agent_message_id
                    matches Some(m) && b.0@ == s@ && b.1@ == m@ && history_id_valid(s@)
                    && history_id_valid(m@),
                Err(e) => e.status == STATUS_BAD_REQUEST && (self.agent_session_id is Some
                    || self.agent_message_id is Some),
            },
    {
        let s = match &self.agent_session_id {
            Some(s) => Some(s.as_str()),
            None => None,
        };
        let m = match &self.agent_message_id {
            Some(m) => Some(m.as_str()),
            None => None,
        };
        validate_agent_history_binding(
            s,
            m,
            self.agent_session_id.is_some(),
            self.agent_message_id.is_some(),
        )
    }
}

/// The agent history binding carried by a tool call's arguments.
pub fn optional_agent_history_binding(input: &JsonValue) -> (r: Result<
    Option<(String, String)>,
    ApiError,
>)
    ensures
        match r {
            Ok(None) => history_binding_spec(
                input.field_str("agentSessionId"@),
                input.field_str("agentMessageId"@),
                input.field("agentSessionId"@) is Some,
                input.field("agentMessageId"@) is Some,
            ) == Ok::<Option<(Seq<char>, Seq<char>)>, Seq<char>>(None),
            Ok(Some(b)) => history_binding_spec(
                input.field_str("agentSessionId"@),
                input.field_str("agentMessageId"@),
                input.field("agentSessionId"@) is Some,
                input.field("agentMessageId"@) is Some,
            ) == Ok::<Option<(Seq<char>, Seq<char>)>, Seq<char>>(Some((b.0@, b.1@))),
            Err(e) => e.status == STATUS_BAD_REQUEST && history_binding_spec(
                input.field_str("agentSessionId"@),
                input.field_str("agentMessageId"@),
                input.field("agentSessionId"@) is Some,
                input.field("agentMessageId"@) is Some,
            ) == Err::<Option<(Seq<char>, Seq<char>)>, Seq<char>>(e.code@),
        },
{
    let s = input.get_str("agentSessionId");
    let m = input.get_str("agentMessageId");
    let sp = input.get("agentSessionId").is_some();
    let mp = input.get("agentMessageId").is_some();
    proof {
        assert(opt_view(s) == input.field_str("agentSessionId"@));
        assert(opt_view(m) == input.field_str("agentMessageId"@));
    }
    validate_agent_history_binding(s, m, sp, mp)
}

/// The idempotency key of a mutating tool call: 1 to 200 UTF-8 bytes under
/// the top-level `idempotencyKey`.
pub fn required_tool_idempotency_key(wire_input: &JsonValue) -> (r: Result<String, ApiError>)
    ensures
        match r {
            Ok(k) => wire_input.field_str("idempotencyKey"@) == Some(k@) && 0
                < vstd::utf8::encode_utf8(k@).len() <= 200,
            Err(e) => e.status == STATUS_BAD_REQUEST && match wire_input.field_str(
                "idempotencyKey"@,
            ) {
                None => e.code@ == "missing_idempotency_key"@ && e.message@
                    == "mutating tool calls require a top-level idempotencyKey"@,
                Some(k) => e.code@ == "invalid_idempotency_key"@ && e.message@
                    == "idempotencyKey must contain 1 to 200 bytes"@ && !(0
                    < vstd::utf8::encode_utf8(k).len() <= 200),
            },
        },
{
    let key = match wire_input.get_str("idempotencyKey") {
        Some(k) => k,
        None => {
            return Err(
                ApiError::bad_request(
                    "missing_idempotency_key",
                    "mutating tool calls require a top-level idempotencyKey",
                ),
            );
        },
    };
    let n = key.as_bytes().len();
    if n == 0 || n > 200 {
        return Err(
            ApiError::bad_request(
                "invalid_idempotency_key",
                "idempotencyKey must contain 1 to 200 bytes",
            ),
        );
    }
    Ok(copy_string(key))
}

/// The `expectedRevision` argument of a mutating tool call.
pub fn required_expected_revision(input: &JsonValue) -> (r: Result<u64, ApiError>)
    ensures
        match r {
            Ok(n) => input.field_u64("expectedRevision"@) == Some(n),
            Err(e) => input.field_u64("expectedRevision"@) is None && e.status
                == STATUS_BAD_REQUEST && e.code@ == "missing_expected_revision"@ && e.message@
                == "mutating tool calls require arguments.expectedRevision"@,
        },
{
    match input.get_u64("expectedRevision") {
        Some(n) => Ok(n),
        None => Err(
            ApiError::bad_request(
                "missing_expected_revision",
                "mutating tool calls require arguments.expectedRevision",
            ),
        ),
    }
}

/// A required string argument; a missing or non-string one is refused with
/// the field named in the details.
pub fn required_string<'a>(input: &'a JsonValue, field: &str) -> (r: Result<&'a str, ApiError>)
    ensures
        match r {
            Ok(s) => input.field_str(field@) == Some(s@),
            Err(e) => input.field_str(field@) is None && e.status == STATUS_BAD_REQUEST
                && e.code@ == "missing_field"@ && e.message@ == field@ + " is required"@
                && e.details is Some,
        },
{
    match input.get_str(field) {
        Some(s) => Ok(s),
        None => {
            let mut m = chars_of(field);
            crate::text::push_str(&mut m, " is required");
            let message = string_of(m.as_slice());
            let details = JsonValue::Object(
                vec![(copy_string("field"), JsonValue::Str(copy_string(field)))],
            );
            Err(ApiError::bad_request("missing_field", message.as_str()).with_details(details))
        },
    }
}

/// Refuses an empty list of ids given under `field`.
pub fn require_nonempty_ids<T>(values: Vec<T>, field: &str) -> (r: Result<Vec<T>, ApiError>)
    ensures
        match r {
            Ok(v) => v@ == values@ && values.len() > 0,
            Err(e) => values.len() == 0 && e.status == STATUS_BAD_REQUEST && e.code@
                == "empty_id_array"@ && e.message@ == field@ + " must not be empty"@,
        },
{
    if values.len() == 0 {
        let mut m = chars_of(field);
        crate::text::push_str(&mut m, " must not be empty");
        let message = string_of(m.as_slice());
        Err(ApiError::bad_request("empty_id_array", message.as_str()))
    } else {
        Ok(values)
    }
}

/// The answer to a request for an unknown API route.
pub fn route_not_found() -> (e: ApiError)
    ensures
        e.status == STATUS_NOT_FOUND,
        e.code@ == "route_not_found"@,
{
    ApiError::new(STATUS_NOT_FOUND, "route_not_found", "API route was not found")
}

/// The envelope of a successful tool call: `{"ok": true, "data": data}`.
pub fn tool_success(data: JsonValue) -> (r: JsonValue)
    ensures
        r.field_bool("ok"@) == Some(true),
        r.field("data"@) == Some(data),
{
    let entries = vec![(copy_string("ok"), JsonValue::Bool(true)), (copy_string("data"), data)];
    proof {
        reveal_strlit("ok");
        reveal_strlit("data");
        let e = entries@;
        assert(e[0].0@ == "ok"@);
        assert("ok"@.len() != "data"@.len());
        assert(e[0].0@ != "data"@);
        assert(e.drop_first()[0].0@ == "data"@);
        assert(crate::json::object_lookup(e.drop_first(), "data"@) == Some(data));
        assert(crate::json::object_lookup(e, "data"@) == Some(data));
        assert(crate::json::object_lookup(e, "ok"@) == Some(JsonValue::Bool(true)));
    }
    JsonValue::Object(entries)
}

} // verus!

verus! {

/// Maps a failure to install imported content onto the API error: a size
/// limit gives 413 `media_too_large`, a source that changed while it was
/// read gives 409 `import_source_changed`, anything else is internal.
pub fn import_content_error(message: &str) -> (e: ApiError)
    ensures
        contains_seq(message@, "byte limit"@) || contains_seq(message@, "exceeding"@) ==> e.status
            == crate::error::STATUS_PAYLOAD_TOO_LARGE && e.code@ == "media_too_large"@,
        !(contains_seq(message@, "byte limit"@) || contains_seq(message@, "exceeding"@))
            && contains_seq(message@, "source changed"@) ==> e.status == STATUS_CONFLICT
            && e.code@ == "import_source_changed"@,
        !(contains_seq(message@, "byte limit"@) || contains_seq(message@, "exceeding"@)
            || contains_seq(message@, "source changed"@)) ==> e.status
            == crate::error::STATUS_INTERNAL && e.message@ == message@,
{
    let m = chars_of(message);
    let limit = chars_of("byte limit");
    let exceeding = chars_of("exceeding");
    let changed = chars_of("source changed");
    if contains(m.as_slice(), limit.as_slice()) || contains(m.as_slice(), exceeding.as_slice()) {
        ApiError::new(
            crate::error::STATUS_PAYLOAD_TOO_LARGE,
            "media_too_large",
            "local media exceeds the 2147483648 byte managed-import limit",
        )
    } else if contains(m.as_slice(), changed.as_slice()) {
        ApiError::conflict(
            "import_source_changed",
            "the source changed while it was being imported",
        ).with_details(JsonValue::Object(Vec::new()))
    } else {
        ApiError::internal(message)
    }
}

/// The MIME type an export artifact is served with, by its lowercased extension.
pub open spec fn artifact_mime_spec(ext: Option<Seq<char>>) -> Seq<char> {
    match ext {
        Some(e) => if e == "mp4"@ {
            "video/mp4"@
        } else if e == "webm"@ {
            "video/webm"@
        } else if e == "mov"@ {
            "video/quicktime"@
        } else if e == "wav"@ {
            "audio/wav"@
        } else if e == "mp3"@ {
            "audio/mpeg"@
        } else if e == "png"@ {
            "image/png"@
        } else if e == "zip"@ {
            "application/zip"@
        } else if e == "srt"@ || e == "vtt"@ || e == "ass"@ || e == "txt"@ {
            "text/plain; charset=utf-8"@
        } else if e == "xml"@ {
            "application/xml"@
        } else if e == "occproj"@ {
            "application/vnd.openchatcut.project+zip"@
        } else {
            "application/octet-stream"@
        },
        None => "application/octet-stream"@,
    }
}

/// The MIME type of an export artifact named `file_name`.
pub fn export_artifact_mime_type(file_name: &str) -> (r: &'static str)
    ensures
        r@ == artifact_mime_spec(lower_extension(file_name@)),
{
    let e = match lowercase_extension(file_name) {
        Some(e) => e,
        None => return "application/octet-stream",
    };
    let e = e.as_slice();
    if word(e, "mp4") {
        "video/mp4"
    } else if word(e, "webm") {
        "video/webm"
    } else if word(e, "mov") {
        "video/quicktime"
    } else if word(e, "wav") {
        "audio/wav"
    } else if word(e, "mp3") {
        "audio/mpeg"
    } else if word(e, "png") {
        "image/png"
    } else if word(e, "zip") {
        "application/zip"
    } else if word(e, "srt") || word(e, "vtt") || word(e, "ass") || word(e, "txt") {
        "text/plain; charset=utf-8"
    } else if word(e, "xml") {
        "application/xml"
    } else if word(e, "occproj") {
        "application/vnd.openchatcut.project+zip"
    } else {
        "application/octet-stream"
    }
}

/// A single portable path component: not empty, no separator, and neither
/// `.` nor `..` (so it is its own one and only `Path` component and its own
/// file name).
pub open spec fn portable_file_name(n: Seq<char>) -> bool {
    n.len() > 0 && !n.contains('/') && n != "."@ && n != ".."@
}

pub fn is_portable_file_name(n: &str) -> (r: bool)
    ensures
        r == portable_file_name(n@),
{
    let cs = chars_of(n);
    if cs.len() == 0 || word(cs.as_slice(), ".") || word(cs.as_slice(), "..") {
        return false;
    }
    let mut i: usize = 0;
    while i < cs.len()
        invariant
            i <= cs.len(),
            cs@ == n@,
            forall|j: int| 0 <= j < i ==> cs@[j] != '/',
        decreases cs.len() - i,
    {
        if cs[i] == '/' {
            assert(cs@[i as int] == '/');
            assert(cs@.contains('/'));
            return false;
        }
        i += 1;
    }
    true
}

/// The job kinds whose completed runs leave a downloadable artifact.
pub open spec fn export_job_kind(k: Seq<char>) -> bool {
    ||| k == "export"@
    ||| k == "headless_export"@
    ||| k == "timeline_audio_export"@
    ||| k == "subtitle_export"@
    ||| k == "nle_xml_export"@
    ||| k == "project_package_export"@
}

/// Whether an artifact download is authorized, and if not, with which status
/// and code it is refused. On success it gives the artifact's file name.
pub open spec fn artifact_access_spec(
    state: Seq<char>,
    kind: Seq<char>,
    output: Option<JsonValue>,
    input: JsonValue,
    exports_dir: Seq<char>,
) -> Result<Seq<char>, (u16, Seq<char>)> {
    if state != "succeeded"@ {
        Err((STATUS_CONFLICT, "job_artifact_not_ready"@))
    } else if !export_job_kind(kind) {
        Err((STATUS_BAD_REQUEST, "job_has_no_downloadable_artifact"@))
    } else {
        match output {
            None => Err((crate::error::STATUS_INTERNAL, "internal_error"@)),
            Some(out) => if out.field_bool("verified"@) != Some(true) {
                Err((STATUS_CONFLICT, "job_artifact_not_verified"@))
            } else {
                match input.field_str("outputFileName"@) {
                    None => Err((crate::error::STATUS_INTERNAL, "internal_error"@)),
                    Some(name) => if !portable_file_name(name) {
                        Err((crate::error::STATUS_INTERNAL, "internal_error"@))
                    } else if out.field_str("outputPath"@) != Some(
                        crate::paths::join_spec(exports_dir, name),
                    ) {
                        Err((STATUS_CONFLICT, "job_artifact_path_mismatch"@))
                    } else {
                        Ok(name)
                    },
                }
            },
        }
    }
}

/// A character that may stand in the ASCII fallback file name of a download.
pub open spec fn disposition_char(c: char) -> char {
    if ('a' <= c <= 'z') || ('A' <= c <= 'Z') || ('0' <= c <= '9') || c == '.' || c == '-' || c
        == '_' {
        c
    } else {
        '_'
    }
}

/// The `Content-Disposition` of a download named `name`.
pub open spec fn disposition_spec(name: Seq<char>) -> Seq<char> {
    "attachment; filename=\""@ + name.map_values(|c: char| disposition_char(c)) + "\""@
}

/// An authorized artifact download: where the file lies and how it is served.
#[derive(Debug)]
pub struct ArtifactDownload {
    pub file_name: String,
    pub path: String,
    pub mime_type: &'static str,
    pub content_disposition: String,
}

fn job_details(job_id: &str) -> (r: JsonValue)
    ensures
        r matches JsonValue::Object(d) && d@.len() == 1 && d@[0].0@ == "jobId"@ && d@[0].1.str_view()
            == Some(job_id@),
{
    JsonValue::Object(vec![(copy_string("jobId"), JsonValue::Str(copy_string(job_id)))])
}

fn content_disposition(name: &str) -> (r: String)
    ensures
        r@ == disposition_spec(name@),
{
    let cs = chars_of(name);
    let mut v = chars_of("attachment; filename=\"");
    let ghost head = v@;
    let mut i: usize = 0;
    while i < cs.len()
        invariant
            i <= cs.len(),
            v@ == head + cs@.subrange(0, i as int).map_values(|c: char| disposition_char(c)),
        decreases cs.len() - i,
    {
        let c = cs[i];
        let d = if ('a' <= c && c <= 'z') || ('A' <= c && c <= 'Z') || ('0' <= c && c <= '9')
            || c == '.' || c == '-' || c == '_' {
            c
        } else {
            '_'
        };
        v.push(d);
        i += 1;
        assert(cs@.subrange(0, i as int).map_values(|c: char| disposition_char(c)) =~= cs@.subrange(
            0,
            i - 1,
        ).map_values(|c: char| disposition_char(c)).push(disposition_char(c)));
    }
    assert(cs@.subrange(0, cs.len() as int) =~= cs@);
    crate::text::push_str(&mut v, "\"");
    string_of(v.as_slice())
}

/// Decides whether a job's artifact may be downloaded, from the job's
/// persisted state, kind, output and input. Only a verified, completed export
/// whose persisted path is its authorized destination under `exports_dir`
/// passes.
pub fn authorize_artifact_download(
    job_id: &str,
    state: &str,
    kind: &str,
    output: Option<&JsonValue>,
    input: &JsonValue,
    exports_dir: &str,
) -> (r: Result<ArtifactDownload, ApiError>)
    ensures
        match r {
            Ok(d) => artifact_access_spec(
                state@,
                kind@,
                match output {
                    Some(o) => Some(*o),
                    None => None,
                },
                *input,
                exports_dir@,
            ) == Ok::<Seq<char>, (u16, Seq<char>)>(d.file_name@) && d.path@
                == crate::paths::join_spec(exports_dir@, d.file_name@) && d.mime_type@
                == artifact_mime_spec(lower_extension(d.file_name@)) && d.content_disposition@
                == disposition_spec(d.file_name@),
            Err(e) => artifact_access_spec(
                state@,
                kind@,
                match output {
                    Some(o) => Some(*o),
                    None => None,
                },
                *input,
                exports_dir@,
            ) == Err::<Seq<char>, (u16, Seq<char>)>((e.status, e.code@)),
        },
{
    if !str_eq(state, "succeeded") {
        let details = JsonValue::Object(
            vec![
                (copy_string("jobId"), JsonValue::Str(copy_string(job_id))),
                (copy_string("state"), JsonValue::Str(copy_string(state))),
            ],
        );
        return Err(
            ApiError::conflict(
                "job_artifact_not_ready",
                "the job has not produced a completed artifact",
            ).with_details(details),
        );
    }
    if !(str_eq(kind, "export") || str_eq(kind, "headless_export") || str_eq(
        kind,
        "timeline_audio_export",
    ) || str_eq(kind, "subtitle_export") || str_eq(kind, "nle_xml_export") || str_eq(
        kind,
        "project_package_export",
    )) {
        return Err(
            ApiError::bad_request(
                "job_has_no_downloadable_artifact",
                "only completed export jobs expose downloadable artifacts",
            ),
        );
    }
    let out = match output {
        Some(o) => o,
        None => {
            return Err(ApiError::internal("completed export job has no persisted output"));
        },
    };
    match out.get_bool("verified") {
        Some(true) => {},
        _ => {
            return Err(
                ApiError::conflict(
                    "job_artifact_not_verified",
                    "the export artifact did not pass daemon verification",
                ).with_details(job_details(job_id)),
            );
        },
    }
    let name = match input.get_str("outputFileName") {
        Some(n) => n,
        None => {
            return Err(ApiError::internal("export job has no output file name"));
        },
    };
    if !is_portable_file_name(name) {
        return Err(ApiError::internal("export job contains an invalid output file name"));
    }
    let expected = crate::paths::join(exports_dir, name);
    let matches = match out.get_str("outputPath") {
        Some(p) => str_eq(p, expected.as_str()),
        None => false,
    };
    if !matches {
        return Err(
            ApiError::conflict(
                "job_artifact_path_mismatch",
                "the persisted export result does not match its authorized destination",
            ).with_details(job_details(job_id)),
        );
    }
    Ok(
        ArtifactDownload {
            file_name: copy_string(name),
            path: expected,
            mime_type: export_artifact_mime_type(name),
            content_disposition: content_disposition(name),
        },
    )
}

/// The authorized artifact must be a regular file, not a symbolic link.
pub fn check_artifact_file(job_id: &str, is_file: bool, is_symlink: bool) -> (r: Result<(), ApiError>)
    ensures
        r is Ok <==> is_file && !is_symlink,
        r matches Err(e) ==> e.status == STATUS_CONFLICT && e.code@ == "job_artifact_invalid"@,
{
    if !is_file || is_symlink {
        Err(
            ApiError::conflict(
                "job_artifact_invalid",
                "the completed export is not a regular file",
            ).with_details(job_details(job_id)),
        )
    } else {
        Ok(())
    }
}

/// The derivative kinds that can be read back.
pub open spec fn derivative_kind_spec(k: Seq<char>) -> bool {
    k == "thumbnail"@ || k == "contactSheet"@ || k == "waveform"@ || k == "proxy"@ || k
        == "audio"@
}

/// Refuses a derivative kind outside thumbnail, contactSheet, waveform,
/// proxy and audio.
pub fn validate_derivative_kind(kind: &str) -> (r: Result<(), ApiError>)
    ensures
        r is Ok <==> derivative_kind_spec(kind@),
        r matches Err(e) ==> e.status == STATUS_BAD_REQUEST && e.code@
            == "invalid_derivative_kind"@,
{
    if str_eq(kind, "thumbnail") || str_eq(kind, "contactSheet") || str_eq(kind, "waveform")
        || str_eq(kind, "proxy") || str_eq(kind, "audio") {
        Ok(())
    } else {
        Err(
            ApiError::bad_request(
                "invalid_derivative_kind",
                "derivative kind must be thumbnail, contactSheet, waveform, proxy, or audio",
            ),
        )
    }
}

} // verus!

verus! {

/// The extension a transcription upload takes from an asset's recorded MIME type.
pub open spec fn mime_upload_extension(m: Seq<char>) -> Option<Seq<char>> {
    if m == "audio/wav"@ || m == "audio/x-wav"@ {
        Some("wav"@)
    } else if m == "audio/mpeg"@ {
        Some("mp3"@)
    } else if m == "audio/mp4"@ || m == "audio/x-m4a"@ {
        Some("m4a"@)
    } else if m == "audio/aac"@ {
        Some("aac"@)
    } else if m == "audio/flac"@ {
        Some("flac"@)
    } else if m == "audio/ogg"@ {
        Some("ogg"@)
    } else if m == "audio/opus"@ {
        Some("opus"@)
    } else if m == "video/mp4"@ {
        Some("mp4"@)
    } else if m == "video/quicktime"@ {
        Some("mov"@)
    } else if m == "video/x-matroska"@ {
        Some("mkv"@)
    } else if m == "video/webm"@ {
        Some("webm"@)
    } else {
        None
    }
}

/// The extensions of a media name that a transcription upload keeps.
pub open spec fn transcribable_extension(e: Seq<char>) -> bool {
    ||| e == "wav"@
    ||| e == "mp3"@
    ||| e == "m4a"@
    ||| e == "aac"@
    ||| e == "flac"@
    ||| e == "ogg"@
    ||| e == "opus"@
    ||| e == "wma"@
    ||| e == "mp4"@
    ||| e == "mov"@
    ||| e == "mkv"@
    ||| e == "webm"@
    ||| e == "m4v"@
}

/// The file name an asset is uploaded under for transcription: `source.`
/// and the extension its MIME type gives, else its own lowercased extension
/// when that is a media one, else `mp4` for video and `wav` otherwise.
pub open spec fn transcription_name_spec(
    mime_type: Option<Seq<char>>,
    name: Seq<char>,
    kind: crate::media::AssetKind,
) -> Seq<char> {
    let from_mime = match mime_type {
        Some(m) => mime_upload_extension(m),
        None => None,
    };
    let from_name = match lower_extension(name) {
        Some(e) => if transcribable_extension(e) {
            Some(e)
        } else {
            None
        },
        None => None,
    };
    let ext = match from_mime {
        Some(e) => e,
        None => match from_name {
            Some(e) => e,
            None => if kind == crate::media::AssetKind::Video {
                "mp4"@
            } else {
                "wav"@
            },
        },
    };
    "source."@ + ext
}

fn mime_extension_of(m: &str) -> (r: Option<&'static str>)
    ensures
        match r {
            Some(e) => mime_upload_extension(m@) == Some(e@),
            None => mime_upload_extension(m@) is None,
        },
{
    if str_eq(m, "audio/wav") || str_eq(m, "audio/x-wav") {
        Some("wav")
    } else if str_eq(m, "audio/mpeg") {
        Some("mp3")
    } else if str_eq(m, "audio/mp4") || str_eq(m, "audio/x-m4a") {
        Some("m4a")
    } else if str_eq(m, "audio/aac") {
        Some("aac")
    } else if str_eq(m, "audio/flac") {
        Some("flac")
    } else if str_eq(m, "audio/ogg") {
        Some("ogg")
    } else if str_eq(m, "audio/opus") {
        Some("opus")
    } else if str_eq(m, "video/mp4") {
        Some("mp4")
    } else if str_eq(m, "video/quicktime") {
        Some("mov")
    } else if str_eq(m, "video/x-matroska") {
        Some("mkv")
    } else if str_eq(m, "video/webm") {
        Some("webm")
    } else {
        None
    }
}

fn is_transcribable_extension(e: &[char]) -> (r: bool)
    ensures
        r == transcribable_extension(e@),
{
    word(e, "wav") || word(e, "mp3") || word(e, "m4a") || word(e, "aac") || word(e, "flac")
        || word(e, "ogg") || word(e, "opus") || word(e, "wma") || word(e, "mp4") || word(
        e,
        "mov",
    ) || word(e, "mkv") || word(e, "webm") || word(e, "m4v")
}

/// The file name under which an asset's media is sent for transcription.
pub fn transcription_upload_file_name(
    mime_type: Option<&str>,
    name: &str,
    kind: crate::media::AssetKind,
) -> (r: String)
    ensures
        r@ == transcription_name_spec(opt_view(mime_type), name@, kind),
{
    let from_mime = match mime_type {
        Some(m) => mime_extension_of(m),
        None => None,
    };
    let mut out = chars_of("source.");
    match from_mime {
        Some(e) => {
            crate::text::push_str(&mut out, e);
        },
        None => {
            let from_name = match lowercase_extension(name) {
                Some(e) => if is_transcribable_extension(e.as_slice()) {
                    Some(e)
                } else {
                    None
                },
                None => None,
            };
            match from_name {
                Some(mut e) => {
                    out.append(&mut e);
                },
                None => {
                    if kind == crate::media::AssetKind::Video {
                        crate::text::push_str(&mut out, "mp4");
                    } else {
                        crate::text::push_str(&mut out, "wav");
                    }
                },
            }
        },
    }
    string_of(out.as_slice())
}

/// The longest export file name, in UTF-8 bytes.
pub const MAX_EXPORT_FILE_NAME_BYTES: usize = 240;

/// The export destination a tool call asks for: one portable file name of
/// at most 240 bytes whose extension is `expected` up to ASCII case. `Err`
/// carries the refusal code.
pub open spec fn export_file_name_spec(requested: Option<Seq<char>>, expected: Seq<char>) -> Result<
    Seq<char>,
    Seq<char>,
> {
    match requested {
        None => Err("missing_field"@),
        Some(r) => if vstd::utf8::encode_utf8(r).len() > MAX_EXPORT_FILE_NAME_BYTES
            || !portable_file_name(r) {
            Err("invalid_export_output_path"@)
        } else if !crate::text::eq_ignore_ascii_case_spec(
            match crate::paths::extension_spec(r) {
                Some(e) => e,
                None => Seq::empty(),
            },
            expected,
        ) {
            Err("export_extension_mismatch"@)
        } else {
            Ok(r)
        },
    }
}

/// The file name an export is written under, from the `outputPath`
/// argument of a tool call; `label` names the format in the refusal.
pub fn portable_export_output_file_name(
    input: &JsonValue,
    expected_extension: &str,
    label: &str,
) -> (r: Result<String, ApiError>)
    ensures
        match r {
            Ok(n) => export_file_name_spec(input.field_str("outputPath"@), expected_extension@)
                == Ok::<Seq<char>, Seq<char>>(n@),
            Err(e) => e.status == STATUS_BAD_REQUEST && export_file_name_spec(
                input.field_str("outputPath"@),
                expected_extension@,
            ) == Err::<Seq<char>, Seq<char>>(e.code@),
        },
{
    let requested = match required_string(input, "outputPath") {
        Ok(s) => s,
        Err(e) => return Err(e),
    };
    if requested.as_bytes().len() > MAX_EXPORT_FILE_NAME_BYTES || !is_portable_file_name(
        requested,
    ) {
        return Err(
            ApiError::bad_request(
                "invalid_export_output_path",
                "outputPath must be one portable file name; exports are written under the daemon export directory",
            ),
        );
    }
    let ext = match crate::paths::extension(requested) {
        Some(e) => e,
        None => Vec::new(),
    };
    let expected = chars_of(expected_extension);
    if !crate::text::eq_ignore_ascii_case(ext.as_slice(), expected.as_slice()) {
        let mut m = chars_of(label);
        crate::text::push_str(&mut m, " exports must use the .");
        crate::text::push_str(&mut m, expected_extension);
        crate::text::push_str(&mut m, " extension");
        let message = string_of(m.as_slice());
        return Err(ApiError::bad_request("export_extension_mismatch", message.as_str()));
    }
    Ok(copy_string(requested))
}

/// The object an export setting is read from: the nested object under
/// `key` when there is one, else the settings themselves.
pub open spec fn setting_scope(settings: JsonValue, key: Seq<char>) -> JsonValue {
    match settings.field(key) {
        Some(v) => if v is Object {
            v
        } else {
            settings
        },
        None => settings,
    }
}

pub open spec fn u32_of(v: JsonValue) -> Option<u32> {
    match v.u64_view() {
        Some(n) => if n <= u32::MAX {
            Some(n as u32)
        } else {
            None
        },
        None => None,
    }
}

/// Export dimensions: none, or both a width and a height that are integers
/// in the `u32` range.
pub open spec fn export_dimensions_spec(settings: Option<JsonValue>) -> Result<
    Option<(u32, u32)>,
    (),
> {
    match settings {
        None => Ok(None),
        Some(s) => {
            let scope = setting_scope(s, "resolution"@);
            match (scope.field("width"@), scope.field("height"@)) {
                (None, None) => Ok(None),
                (Some(w), Some(h)) => match (u32_of(w), u32_of(h)) {
                    (Some(a), Some(b)) => Ok(Some((a, b))),
                    _ => Err(()),
                },
                _ => Err(()),
            }
        },
    }
}

fn scope_of<'a>(settings: &'a JsonValue, key: &str) -> (r: &'a JsonValue)
    ensures
        *r == setting_scope(*settings, key@),
{
    match settings.get(key) {
        Some(v) => match v {
            JsonValue::Object(_) => v,
            _ => settings,
        },
        None => settings,
    }
}

fn as_u32(v: &JsonValue) -> (r: Option<u32>)
    ensures
        r == u32_of(*v),
{
    match v.as_u64() {
        Some(n) => if n <= 4294967295u64 {
            Some(n as u32)
        } else {
            None
        },
        None => None,
    }
}

/// The output dimensions an export request asks for, under `resolution` or
/// at the top level of its settings.
pub fn export_dimensions(settings: Option<&JsonValue>) -> (r: Result<Option<(u32, u32)>, ApiError>)
    ensures
        match r {
            Ok(d) => export_dimensions_spec(
                match settings {
                    Some(s) => Some(*s),
                    None => None,
                },
            ) == Ok::<Option<(u32, u32)>, ()>(d),
            Err(e) => export_dimensions_spec(
                match settings {
                    Some(s) => Some(*s),
                    None => None,
                },
            ) is Err && e.status == STATUS_BAD_REQUEST && e.code@ == "invalid_export_dimensions"@,
        },
{
    let s = match settings {
        Some(s) => s,
        None => return Ok(None),
    };
    let scope = scope_of(s, "resolution");
    match (scope.get("width"), scope.get("height")) {
        (None, None) => Ok(None),
        (Some(w), Some(h)) => match (as_u32(w), as_u32(h)) {
            (Some(a), Some(b)) => Ok(Some((a, b))),
            _ => Err(
                ApiError::bad_request(
                    "invalid_export_dimensions",
                    "export width and height must be positive integers",
                ),
            ),
        },
        _ => Err(
            ApiError::bad_request(
                "invalid_export_dimensions",
                "export dimensions require both width and height",
            ),
        ),
    }
}

} // verus!

verus! {

/// Unicode `Alphabetic` or `Numeric` (`char::is_alphanumeric`); only named here.
pub uninterp spec fn unicode_alphanumeric(c: char) -> bool;

/// The full Unicode lowercase mapping of a character (`char::to_lowercase`);
/// only named here.
pub uninterp spec fn unicode_lowercase(c: char) -> Seq<char>;

/// `char::is_alphanumeric`.
#[verifier::external_body]
fn is_alphanumeric(c: char) -> (r: bool)
    ensures
        r == unicode_alphanumeric(c),
{
    c.is_alphanumeric()
}

/// `char::to_lowercase`, collected.
#[verifier::external_body]
fn lowercase_of(c: char) -> (r: Vec<char>)
    ensures
        r@ == unicode_lowercase(c),
{
    c.to_lowercase().collect()
}

/// Every alphanumeric character lowercased, every other one a space.
pub open spec fn search_normalized(s: Seq<char>) -> Seq<char>
    decreases s.len(),
{
    if s.len() == 0 {
        Seq::empty()
    } else {
        search_normalized(s.drop_last()) + if unicode_alphanumeric(s.last()) {
            unicode_lowercase(s.last())
        } else {
            seq![' ']
        }
    }
}

/// The maximal runs of non-whitespace characters (`str::split_whitespace`).
pub open spec fn words(s: Seq<char>) -> Seq<Seq<char>>
    decreases s.len(),
{
    if s.len() == 0 {
        Seq::empty()
    } else {
        let w = words(s.drop_last());
        let c = s.last();
        if crate::text::is_whitespace_spec(c) {
            w
        } else if s.len() >= 2 && !crate::text::is_whitespace_spec(s[s.len() - 2]) && w.len()
            > 0 {
            w.drop_last().push(w.last().push(c))
        } else {
            w.push(seq![c])
        }
    }
}

/// Words joined by single spaces.
pub open spec fn join_words(ws: Seq<Seq<char>>) -> Seq<char>
    decreases ws.len(),
{
    if ws.len() == 0 {
        Seq::empty()
    } else if ws.len() == 1 {
        ws[0]
    } else {
        join_words(ws.drop_last()) + seq![' '] + ws.last()
    }
}

/// The text that media search compares: lowercased alphanumeric words
/// separated by single spaces.
pub open spec fn search_index_spec(s: Seq<char>) -> Seq<char> {
    join_words(words(search_normalized(s)))
}

proof fn lemma_words_nonempty(s: Seq<char>)
    requires
        s.len() > 0,
        !crate::text::is_whitespace_spec(s.last()),
    ensures
        words(s).len() > 0,
{
}

proof fn lemma_join_extend(ws: Seq<Seq<char>>, c: char)
    requires
        ws.len() > 0,
    ensures
        join_words(ws.drop_last().push(ws.last().push(c))) == join_words(ws).push(c),
{
    let x = ws.drop_last().push(ws.last().push(c));
    assert(x.drop_last() =~= ws.drop_last());
    if ws.len() == 1 {
        assert(join_words(x) == x[0]);
    } else {
        assert(join_words(x) == join_words(ws.drop_last()) + seq![' '] + ws.last().push(c));
        assert(join_words(x) =~= join_words(ws).push(c));
    }
}

fn normalize_for_search(s: &[char]) -> (r: Vec<char>)
    ensures
        r@ == search_normalized(s@),
{
    let mut out: Vec<char> = Vec::new();
    let mut i: usize = 0;
    while i < s.len()
        invariant
            i <= s.len(),
            out@ == search_normalized(s@.subrange(0, i as int)),
        decreases s.len() - i,
    {
        let c = s[i];
        let ghost before = out@;
        if is_alphanumeric(c) {
            let mut l = lowercase_of(c);
            out.append(&mut l);
        } else {
            out.push(' ');
        }
        i += 1;
        proof {
            let p = s@.subrange(0, i as int);
            assert(p.drop_last() =~= s@.subrange(0, i - 1));
            assert(p.last() == c);
            assert(out@ =~= search_normalized(p));
        }
    }
    assert(s@.subrange(0, s.len() as int) =~= s@);
    out
}

/// Collapses whitespace: the words of `s` joined by single spaces.
#[verifier::spinoff_prover]
fn collapse_whitespace(s: &[char]) -> (r: Vec<char>)
    ensures
        r@ == join_words(words(s@)),
{
    let mut out: Vec<char> = Vec::new();
    let mut pending = false;
    let mut i: usize = 0;
    while i < s.len()
        invariant
            i <= s.len(),
            out@ == join_words(words(s@.subrange(0, i as int))),
            pending == (i > 0 && crate::text::is_whitespace_spec(s@[i - 1]) && words(
                s@.subrange(0, i as int),
            ).len() > 0),
            (words(s@.subrange(0, i as int)).len() == 0) == (out.len() == 0),
        decreases s.len() - i,
    {
        let c = s[i];
        let ghost p = s@.subrange(0, i as int);
        let ghost q = s@.subrange(0, i + 1);
        proof {
            assert(q.drop_last() =~= p);
            assert(q.last() == c);
        }
        if crate::text::is_whitespace(c) {
            if out.len() > 0 {
                pending = true;
            }
        } else {
            if i > 0 && !crate::text::is_whitespace(s[i - 1]) {
                proof {
                    assert(p.last() == s@[i - 1]);
                    lemma_words_nonempty(p);
                    assert(q[q.len() - 2] == s@[i - 1]);
                    lemma_join_extend(words(p), c);
                }
                out.push(c);
            } else {
                proof {
                    if i > 0 {
                        assert(q[q.len() - 2] == s@[i - 1]);
                    }
                    let w = words(p);
                    assert(words(q) == w.push(seq![c]));
                    assert(w.push(seq![c]).drop_last() =~= w);
                    if w.len() == 0 {
                        assert(join_words(w.push(seq![c])) =~= seq![c]);
                    } else {
                        assert(join_words(w.push(seq![c])) == join_words(w) + seq![' '] + seq![c]);
                    }
                }
                if pending {
                    out.push(' ');
                }
                out.push(c);
                proof {
                    let w = words(p);
                    if w.len() == 0 {
                        assert(out@ =~= seq![c]);
                    } else {
                        assert(out@ =~= join_words(w) + seq![' '] + seq![c]);
                    }
                }
            }
            pending = false;
        }
        i += 1;
    }
    assert(s@.subrange(0, s.len() as int) =~= s@);
    out
}

/// The normalized text media search matches against.
pub fn search_index_text(value: &str) -> (r: String)
    ensures
        r@ == search_index_spec(value@),
{
    let cs = chars_of(value);
    let n = normalize_for_search(cs.as_slice());
    let c = collapse_whitespace(n.as_slice());
    string_of(c.as_slice())
}

} // verus!

verus! {

pub open spec fn char_vec_views(v: Seq<Vec<char>>) -> Seq<Seq<char>> {
    v.map_values(|w: Vec<char>| w@)
}

pub(crate) fn split_words(s: &[char]) -> (r: Vec<Vec<char>>)
    ensures
        char_vec_views(r@) == words(s@),
{
    let mut out: Vec<Vec<char>> = Vec::new();
    let mut i: usize = 0;
    while i < s.len()
        invariant
            i <= s.len(),
            char_vec_views(out@) == words(s@.subrange(0, i as int)),
        decreases s.len() - i,
    {
        let c = s[i];
        let ghost p = s@.subrange(0, i as int);
        let ghost q = s@.subrange(0, i + 1);
        proof {
            assert(q.drop_last() =~= p);
            assert(q.last() == c);
            if i > 0 {
                assert(q[q.len() - 2] == s@[i - 1]);
            }
        }
        if crate::text::is_whitespace(c) {
        } else if i > 0 && !crate::text::is_whitespace(s[i - 1]) {
            proof {
                lemma_words_nonempty(p);
            }
            let ghost before = out@;
            let mut last = out.pop().unwrap();
            last.push(c);
            out.push(last);
            proof {
                assert(char_vec_views(before).drop_last() =~= char_vec_views(before.drop_last()));
                assert(char_vec_views(out@) =~= words(p).drop_last().push(words(p).last().push(c)));
            }
        } else {
            let ghost before = out@;
            let mut w: Vec<char> = Vec::new();
            w.push(c);
            out.push(w);
            proof {
                assert(char_vec_views(out@) =~= char_vec_views(before).push(seq![c]));
            }
        }
        i += 1;
    }
    assert(s@.subrange(0, s.len() as int) =~= s@);
    out
}

/// The distinct search words of `value`.
pub fn search_tokens(value: &str) -> (r: vstd::hash_set::StringHashSet)
    ensures
        r@ == words(search_index_spec(value@)).to_set(),
{
    let text = search_index_text(value);
    let cs = chars_of(text.as_str());
    let ws = split_words(cs.as_slice());
    let mut set = vstd::hash_set::StringHashSet::new();
    let mut i: usize = 0;
    while i < ws.len()
        invariant
            i <= ws.len(),
            set@ == char_vec_views(ws@).subrange(0, i as int).to_set(),
        decreases ws.len() - i,
    {
        let w = string_of(ws[i].as_slice());
        set.insert(w);
        proof {
            let v = char_vec_views(ws@);
            assert(v.subrange(0, i + 1) =~= v.subrange(0, i as int).push(v[i as int]));
            v.subrange(0, i as int).lemma_push_to_set_commute(v[i as int]);
        }
        i += 1;
    }
    assert(char_vec_views(ws@).subrange(0, ws.len() as int) =~= char_vec_views(ws@));
    set
}

} // verus!

verus! {

/// The local answer to a greeting.
pub const GREETING_REPLY: &'static str = "你好！我可以帮你规划可撤销的剪辑修改，例如删口头禅、压缩停顿、加字幕、调整片段、生成 B-roll、旁白、音乐或 MG。";

/// The local answer to a question about what the agent can do.
pub const CAPABILITIES_REPLY: &'static str = "我可以读取当前项目并提出可审阅的剪辑计划：编辑文字稿和字幕、调整场景/轨道/片段、关闭空隙、生成 B-roll、旁白、音乐、SFX 和 MG。所有修改都会先显示差异，批准后才写入一个可撤销的项目 revision。";

/// The local answer to a question about ChatCut-style motion graphics.
pub const MOTION_GRAPHICS_REPLY: &'static str = "支持类似 ChatCut 的可编辑动效：侧栏 Agent 和 OpenChatCut MCP 共用 create_motion_graphic，可以用版本化 DSL 或受限 JSX 生成标题卡、lower third、CTA、图表、形状、SVG/path、媒体组合、关键帧和缓动，并在同一运行时预览与导出。它不是任意 HTML 页面运行器：JSX 会先编译成无网络、无文件权限、无事件处理器的安全 IR；不支持 script、iframe、外部 URL 或任意 CSS/JS。Agent 会先生成提案，经过同一套校验后显示差异，批准后写入 graphics track 并形成可撤销 revision。";

/// Which canned answer, if any, an instruction gets without asking a model.
pub open spec fn agent_reply_spec(instruction: Seq<char>) -> Option<Seq<char>> {
    let t = trim_spec(instruction);
    let n = crate::text::ascii_lower_seq(t);
    if n == "hi"@ || n == "hello"@ || n == "hey"@ || t == "你好"@ || t == "您好"@ || t == "嗨"@
        || t == "哈喽"@ {
        Some(GREETING_REPLY@)
    } else if contains_seq(instruction, "你能做什么"@) || contains_seq(instruction, "你可以做什么"@)
        || contains_seq(instruction, "能做什么"@) || contains_seq(n, "what can you do"@) {
        Some(CAPABILITIES_REPLY@)
    } else if contains_seq(n, "chatcut"@) || (contains_seq(n, "html"@) && (contains_seq(
        instruction,
        "特效"@,
    ) || contains_seq(instruction, "界面"@))) {
        Some(MOTION_GRAPHICS_REPLY@)
    } else {
        None
    }
}

fn has(s: &[char], needle: &str) -> (r: bool)
    ensures
        r == contains_seq(s@, needle@),
{
    let n = chars_of(needle);
    contains(s, n.as_slice())
}

/// Answers greetings and questions about the agent itself locally, without
/// a model round trip.
pub fn local_agent_reply(instruction: &str) -> (r: Option<&'static str>)
    ensures
        match r {
            Some(x) => agent_reply_spec(instruction@) == Some(x@),
            None => agent_reply_spec(instruction@) is None,
        },
{
    let cs = chars_of(instruction);
    let t = trim(cs.as_slice());
    let n = crate::text::lower_ascii(t.as_slice());
    let n = n.as_slice();
    let t = t.as_slice();
    let cs = cs.as_slice();
    if word(n, "hi") || word(n, "hello") || word(n, "hey") || word(t, "你好") || word(t, "您好")
        || word(t, "嗨") || word(t, "哈喽") {
        return Some(GREETING_REPLY);
    }
    if has(cs, "你能做什么") || has(cs, "你可以做什么") || has(cs, "能做什么") || has(
        n,
        "what can you do",
    ) {
        return Some(CAPABILITIES_REPLY);
    }
    if has(n, "chatcut") || (has(n, "html") && (has(cs, "特效") || has(cs, "界面"))) {
        return Some(MOTION_GRAPHICS_REPLY);
    }
    None
}

/// A 32-hex-digit identifier derived from SHA-256 over NUL-separated parts.
pub open spec fn stable_suffix_spec(input: Seq<u8>) -> Seq<char> {
    crate::encoding::hex_lower(crate::encoding::sha256(input)).subrange(0, 32)
}

fn first_32(hex: String) -> (r: String)
    requires
        hex@.len() == 64,
    ensures
        r@ == hex@.subrange(0, 32),
{
    let cs = chars_of(hex.as_str());
    let p = crate::text::copy_range(cs.as_slice(), 0, 32);
    string_of(p.as_slice())
}

/// The transaction suffix of a media import: the first 32 hex digits of
/// SHA-256(project id, NUL, idempotency key).
pub fn stable_import_suffix(project_id: &str, idempotency_key: &str) -> (r: String)
    ensures
        r@ == stable_suffix_spec(vstd::utf8::encode_utf8(project_id@) + seq![0u8] + vstd::utf8::encode_utf8(idempotency_key@)),
{
    let mut h = crate::content::hasher_new();
    crate::content::hasher_update(&mut h, project_id.as_bytes());
    crate::content::hasher_update(&mut h, &[0u8]);
    crate::content::hasher_update(&mut h, idempotency_key.as_bytes());
    assert(crate::content::hasher_input(h) =~= vstd::utf8::encode_utf8(project_id@) + seq![0u8]
        + vstd::utf8::encode_utf8(idempotency_key@));
    let digest = crate::content::hasher_finalize(h);
    proof {
        crate::encoding::lemma_hex_lower_shape(digest@);
    }
    let hex = crate::encoding::hex_encode(digest.as_slice());
    first_32(hex)
}

/// The suffix of an id a tool call creates: the first 32 hex digits of
/// SHA-256 over project id, idempotency key and namespace, each followed by NUL.
pub fn stable_tool_suffix(project_id: &str, idempotency_key: &str, namespace: &str) -> (r: String)
    ensures
        r@ == stable_suffix_spec(
            vstd::utf8::encode_utf8(project_id@) + seq![0u8] + vstd::utf8::encode_utf8(idempotency_key@) + seq![0u8]
                + vstd::utf8::encode_utf8(namespace@) + seq![0u8],
        ),
{
    let mut h = crate::content::hasher_new();
    crate::content::hasher_update(&mut h, project_id.as_bytes());
    crate::content::hasher_update(&mut h, &[0u8]);
    crate::content::hasher_update(&mut h, idempotency_key.as_bytes());
    crate::content::hasher_update(&mut h, &[0u8]);
    crate::content::hasher_update(&mut h, namespace.as_bytes());
    crate::content::hasher_update(&mut h, &[0u8]);
    assert(crate::content::hasher_input(h) =~= vstd::utf8::encode_utf8(project_id@) + seq![0u8]
        + vstd::utf8::encode_utf8(idempotency_key@) + seq![0u8] + vstd::utf8::encode_utf8(
        namespace@,
    ) + seq![0u8]);
    let digest = crate::content::hasher_finalize(h);
    proof {
        crate::encoding::lemma_hex_lower_shape(digest@);
    }
    let hex = crate::encoding::hex_encode(digest.as_slice());
    first_32(hex)
}

} // verus!

verus! {

/// An accepted upload name is accepted again, unchanged: it is already the
/// trimmed final component of itself. (A name that trims to `.` or `..` is
/// the exception, since neither names a file.)
pub proof fn lemma_upload_name_stable(value: Seq<char>)
    requires
        upload_name_spec(value) is Ok,
        upload_name_spec(value)->Ok_0 != "."@,
        upload_name_spec(value)->Ok_0 != ".."@,
    ensures
        upload_name_spec(upload_name_spec(value)->Ok_0) == upload_name_spec(value),
{
    let f = file_name_spec(value)->0;
    crate::paths::lemma_file_name_has_no_separator(value);
    let t = trim_spec(f);
    assert(t == upload_name_spec(value)->Ok_0);
    let end = crate::text::trim_end_index(f);
    crate::text::lemma_trim_end_bounds(f);
    crate::text::lemma_trim_start_bounds(f.subrange(0, end));
    if t.contains('/') {
        let k = choose|k: int| 0 <= k < t.len() && t[k] == '/';
        let start = crate::text::trim_start_index(f.subrange(0, end));
        assert(t[k] == f[start + k]);
        assert(f.contains('/'));
    }
    crate::paths::lemma_file_name_of_plain(t);
    crate::text::lemma_trim_idempotent(f);
}

} // verus!

verus! {

/// An authorized download reads the named file directly inside the export
/// directory and nothing else: its path is the directory's components
/// followed by the file name, whatever the job's persisted input held.
pub proof fn lemma_artifact_inside_exports(
    state: Seq<char>,
    kind: Seq<char>,
    output: Option<JsonValue>,
    input: JsonValue,
    exports_dir: Seq<char>,
)
    requires
        artifact_access_spec(state, kind, output, input, exports_dir) is Ok,
    ensures
        ({
            let name = artifact_access_spec(state, kind, output, input, exports_dir)->Ok_0;
            &&& portable_file_name(name)
            &&& crate::paths::path_components(crate::paths::join_spec(exports_dir, name))
                == crate::paths::path_components(exports_dir) + seq![name]
            &&& crate::paths::path_starts_with(crate::paths::join_spec(exports_dir, name), exports_dir)
        }),
{
    let name = artifact_access_spec(state, kind, output, input, exports_dir)->Ok_0;
    crate::paths::lemma_join_plain_name(exports_dir, name);
}

} // verus!
