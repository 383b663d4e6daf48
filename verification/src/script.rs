//! Script edits: the arguments of transcript editing requests and the stable
//! ids derived for the objects an edit creates.
use vstd::prelude::*;
use crate::error::{ApiError, STATUS_BAD_REQUEST};
use crate::json::{JsonNumber, JsonValue};
use crate::text::{chars_of, copy_range, decimal, push_str, string_of, u64_to_decimal};

verus! {

/// A duration in milliseconds as timeline ticks, given the ticks in one
/// millisecond; negative durations and products beyond `i64` are refused.
pub fn milliseconds_to_ticks(milliseconds: i64, ticks_per_millisecond: i64) -> (r: Result<i64, ApiError>)
    ensures
        match r {
            Ok(t) => milliseconds >= 0 && t == milliseconds * ticks_per_millisecond,
            Err(e) => e.status == STATUS_BAD_REQUEST && e.details is None && if milliseconds < 0 {
                e.code@ == "negative_duration"@ && e.message@
                    == "millisecond durations must not be negative"@
            } else {
                e.code@ == "duration_overflow"@ && e.message@ == "duration is too large"@ && !(i64::MIN
                    <= milliseconds * ticks_per_millisecond <= i64::MAX)
            },
        },
{
    if milliseconds < 0 {
        return Err(
            ApiError::bad_request("negative_duration", "millisecond durations must not be negative"),
        );
    }
    match milliseconds.checked_mul(ticks_per_millisecond) {
        Some(t) => Ok(t),
        None => Err(ApiError::bad_request("duration_overflow", "duration is too large")),
    }
}

/// The cleanup settings a request overrides; the others keep their defaults.
#[derive(Debug, Clone, Copy, PartialEq, Eq, Structural)]
pub struct CleanupOverrides {
    pub pause_threshold_ticks: Option<i64>,
    pub target_pause_ticks: Option<i64>,
    pub minimum_apply_confidence_bps: Option<u16>,
    pub minimum_repeated_take_words: Option<usize>,
    pub repeated_take_similarity_bps: Option<u16>,
    pub highlight_limit: Option<usize>,
}

/// A JSON number as a signed integer (`Value::as_i64`).
pub open spec fn i64_view(v: JsonValue) -> Option<i64> {
    match v {
        JsonValue::Number(JsonNumber::PosInt(n)) => if n <= i64::MAX {
            Some(n as i64)
        } else {
            None
        },
        JsonValue::Number(JsonNumber::NegInt(n)) => Some(n),
        _ => None,
    }
}

/// The object the cleanup settings are read from: `cleanupOptions`, else
/// `options`, else the input itself.
pub open spec fn cleanup_source(input: JsonValue) -> Option<Option<Seq<(String, JsonValue)>>> {
    let chosen = match input.field("cleanupOptions"@) {
        Some(v) => Some(v),
        None => input.field("options"@),
    };
    match chosen {
        Some(JsonValue::Object(o)) => Some(Some(o@)),
        Some(_) => Some(None),
        None => match input {
            JsonValue::Object(o) => Some(Some(o@)),
            _ => None,
        },
    }
}

/// The outcome of one setting: absent, a value, or refused with a message.
pub enum FieldOutcome<T> {
    Absent,
    Value(T),
    Refused(Seq<char>),
}

pub open spec fn int_field(src: Seq<(String, JsonValue)>, f: Seq<char>) -> FieldOutcome<i64> {
    match crate::json::object_lookup(src, f) {
        None => FieldOutcome::Absent,
        Some(v) => match i64_view(v) {
            Some(n) => FieldOutcome::Value(n),
            None => FieldOutcome::Refused(f + " must be an integer"@),
        },
    }
}

pub open spec fn uint_field(src: Seq<(String, JsonValue)>, f: Seq<char>, max: int) -> FieldOutcome<
    u64,
> {
    match crate::json::object_lookup(src, f) {
        None => FieldOutcome::Absent,
        Some(v) => match v.u64_view() {
            Some(n) => if n <= max {
                FieldOutcome::Value(n)
            } else {
                FieldOutcome::Refused(f + " is too large"@)
            },
            None => FieldOutcome::Refused(f + " must be a non-negative integer"@),
        },
    }
}

fn int_setting(src: &Vec<(String, JsonValue)>, f: &str) -> (r: Result<Option<i64>, ApiError>)
    ensures
        match int_field(src@, f@) {
            FieldOutcome::Absent => r == Ok::<Option<i64>, ApiError>(None),
            FieldOutcome::Value(n) => r == Ok::<Option<i64>, ApiError>(Some(n)),
            FieldOutcome::Refused(m) => r matches Err(e) && e.status == STATUS_BAD_REQUEST && e.code@
                == "invalid_cleanup_options"@ && e.message@ == m && e.details is None,
        },
{
    match lookup(src, f) {
        None => Ok(None),
        Some(v) => {
            let n = match v {
                JsonValue::Number(JsonNumber::PosInt(n)) => if *n <= 9223372036854775807u64 {
                    Some(*n as i64)
                } else {
                    None
                },
                JsonValue::Number(JsonNumber::NegInt(n)) => Some(*n),
                _ => None,
            };
            match n {
                Some(n) => Ok(Some(n)),
                None => {
                    let mut m = chars_of(f);
                    push_str(&mut m, " must be an integer");
                    Err(ApiError::bad_request("invalid_cleanup_options", string_of(m.as_slice()).as_str()))
                },
            }
        },
    }
}

fn lookup<'a>(src: &'a Vec<(String, JsonValue)>, key: &str) -> (r: Option<&'a JsonValue>)
    ensures
        match r {
            Some(v) => crate::json::object_lookup(src@, key@) == Some(*v),
            None => crate::json::object_lookup(src@, key@) is None,
        },
{
    let mut i: usize = 0;
    assert(src@.subrange(0, src.len() as int) =~= src@);
    while i < src.len()
        invariant
            i <= src.len(),
            crate::json::object_lookup(src@, key@) == crate::json::object_lookup(
                src@.subrange(i as int, src.len() as int),
                key@,
            ),
        decreases src.len() - i,
    {
        let ghost rest = src@.subrange(i as int, src.len() as int);
        assert(rest.drop_first() =~= src@.subrange(i + 1, src.len() as int));
        assert(rest[0] == src@[i as int]);
        if crate::text::str_eq(src[i].0.as_str(), key) {
            return Some(&src[i].1);
        }
        i += 1;
    }
    None
}

fn uint_setting(src: &Vec<(String, JsonValue)>, f: &str, max: u64) -> (r: Result<Option<u64>, ApiError>)
    ensures
        match uint_field(src@, f@, max as int) {
            FieldOutcome::Absent => r == Ok::<Option<u64>, ApiError>(None),
            FieldOutcome::Value(n) => r == Ok::<Option<u64>, ApiError>(Some(n)),
            FieldOutcome::Refused(m) => r matches Err(e) && e.status == STATUS_BAD_REQUEST && e.code@
                == "invalid_cleanup_options"@ && e.message@ == m && e.details is None,
        },
{
    match lookup(src, f) {
        None => Ok(None),
        Some(v) => match v.as_u64() {
            Some(n) => {
                if n <= max {
                    Ok(Some(n))
                } else {
                    let mut m = chars_of(f);
                    push_str(&mut m, " is too large");
                    Err(ApiError::bad_request("invalid_cleanup_options", string_of(m.as_slice()).as_str()))
                }
            },
            None => {
                let mut m = chars_of(f);
                push_str(&mut m, " must be a non-negative integer");
                Err(ApiError::bad_request("invalid_cleanup_options", string_of(m.as_slice()).as_str()))
            },
        },
    }
}


/// A duration setting in milliseconds, as ticks.
pub open spec fn ms_setting(src: Seq<(String, JsonValue)>, f: Seq<char>, tpm: i64) -> Result<
    Option<i64>,
    (Seq<char>, Seq<char>),
> {
    match int_field(src, f) {
        FieldOutcome::Absent => Ok(None),
        FieldOutcome::Refused(m) => Err(("invalid_cleanup_options"@, m)),
        FieldOutcome::Value(ms) => if ms < 0 {
            Err(("negative_duration"@, "millisecond durations must not be negative"@))
        } else if !(i64::MIN <= ms * tpm <= i64::MAX) {
            Err(("duration_overflow"@, "duration is too large"@))
        } else {
            Ok(Some((ms * tpm) as i64))
        },
    }
}

/// A count setting at most `max`.
pub open spec fn count_setting(src: Seq<(String, JsonValue)>, f: Seq<char>, max: int) -> Result<
    Option<u64>,
    (Seq<char>, Seq<char>),
> {
    match uint_field(src, f, max) {
        FieldOutcome::Absent => Ok(None),
        FieldOutcome::Refused(m) => Err(("invalid_cleanup_options"@, m)),
        FieldOutcome::Value(n) => Ok(Some(n)),
    }
}

pub open spec fn narrow_u16(o: Option<u64>) -> Option<u16> {
    match o {
        Some(n) => Some(n as u16),
        None => None,
    }
}

pub open spec fn narrow_usize(o: Option<u64>) -> Option<usize> {
    match o {
        Some(n) => Some(n as usize),
        None => None,
    }
}

/// The cleanup settings of a request, read in order; the first refused one
/// decides the error (code and message).
pub open spec fn cleanup_spec(input: JsonValue, tpm: i64) -> Result<
    CleanupOverrides,
    (Seq<char>, Seq<char>),
> {
    match cleanup_source(input) {
        None => Err(("invalid_cleanup_options"@, "cleanup input must be an object"@)),
        Some(None) => Err(("invalid_cleanup_options"@, "cleanupOptions/options must be an object"@)),
        Some(Some(src)) => match ms_setting(src, "pauseThresholdMs"@, tpm) {
            Err(e) => Err(e),
            Ok(p) => match ms_setting(src, "targetGapMs"@, tpm) {
                Err(e) => Err(e),
                Ok(g) => match count_setting(src, "minimumApplyConfidenceBps"@, 65535) {
                    Err(e) => Err(e),
                    Ok(c) => match count_setting(src, "minimumRepeatedTakeWords"@, usize::MAX as int) {
                        Err(e) => Err(e),
                        Ok(w) => match count_setting(src, "repeatedTakeSimilarityBps"@, 65535) {
                            Err(e) => Err(e),
                            Ok(sim) => match count_setting(src, "highlightLimit"@, usize::MAX as int) {
                                Err(e) => Err(e),
                                Ok(h) => Ok(
                                    CleanupOverrides {
                                        pause_threshold_ticks: p,
                                        target_pause_ticks: g,
                                        minimum_apply_confidence_bps: narrow_u16(c),
                                        minimum_repeated_take_words: narrow_usize(w),
                                        repeated_take_similarity_bps: narrow_u16(sim),
                                        highlight_limit: narrow_usize(h),
                                    },
                                ),
                            },
                        },
                    },
                },
            },
        },
    }
}

fn ms_setting_of(src: &Vec<(String, JsonValue)>, f: &str, ticks_per_millisecond: i64) -> (r: Result<
    Option<i64>,
    ApiError,
>)
    ensures
        match (r, ms_setting(src@, f@, ticks_per_millisecond)) {
            (Ok(a), Ok(b)) => a == b,
            (Err(e), Err((code, message))) => e.status == STATUS_BAD_REQUEST && e.code@ == code
                && e.message@ == message && e.details is None,
            _ => false,
        },
{
    match int_setting(src, f) {
        Err(e) => Err(e),
        Ok(None) => Ok(None),
        Ok(Some(ms)) => match milliseconds_to_ticks(ms, ticks_per_millisecond) {
            Ok(t) => Ok(Some(t)),
            Err(e) => Err(e),
        },
    }
}

fn count_setting_of(src: &Vec<(String, JsonValue)>, f: &str, max: u64) -> (r: Result<
    Option<u64>,
    ApiError,
>)
    ensures
        match (r, count_setting(src@, f@, max as int)) {
            (Ok(a), Ok(b)) => a == b,
            (Err(e), Err((code, message))) => e.status == STATUS_BAD_REQUEST && e.code@ == code
                && e.message@ == message && e.details is None,
            _ => false,
        },
{
    uint_setting(src, f, max)
}

/// The cleanup settings that a transcript cleanup request overrides, read
/// from `cleanupOptions`, `options` or the request itself; durations in
/// milliseconds become ticks at `ticks_per_millisecond`.
pub fn transcript_cleanup_options(input: &JsonValue, ticks_per_millisecond: i64) -> (r: Result<
    CleanupOverrides,
    ApiError,
>)
    ensures
        match (r, cleanup_spec(*input, ticks_per_millisecond)) {
            (Ok(a), Ok(b)) => a == b,
            (Err(e), Err((code, message))) => e.status == STATUS_BAD_REQUEST && e.code@ == code
                && e.message@ == message && e.details is None,
            _ => false,
        },
{
    let chosen = match input.get("cleanupOptions") {
        Some(v) => Some(v),
        None => input.get("options"),
    };
    let src: &Vec<(String, JsonValue)> = match chosen {
        Some(JsonValue::Object(o)) => o,
        Some(_) => {
            return Err(
                ApiError::bad_request(
                    "invalid_cleanup_options",
                    "cleanupOptions/options must be an object",
                ),
            );
        },
        None => match input {
            JsonValue::Object(o) => o,
            _ => {
                return Err(
                    ApiError::bad_request(
                        "invalid_cleanup_options",
                        "cleanup input must be an object",
                    ),
                );
            },
        },
    };
    let pause = match ms_setting_of(src, "pauseThresholdMs", ticks_per_millisecond) {
        Err(e) => {
            return Err(e);
        },
        Ok(v) => v,
    };
    let gap = match ms_setting_of(src, "targetGapMs", ticks_per_millisecond) {
        Err(e) => {
            return Err(e);
        },
        Ok(v) => v,
    };
    let confidence = match count_setting_of(src, "minimumApplyConfidenceBps", 65535) {
        Err(e) => {
            return Err(e);
        },
        Ok(v) => v,
    };
    let words = match count_setting_of(src, "minimumRepeatedTakeWords", usize::MAX as u64) {
        Err(e) => {
            return Err(e);
        },
        Ok(v) => v,
    };
    let similarity = match count_setting_of(src, "repeatedTakeSimilarityBps", 65535) {
        Err(e) => {
            return Err(e);
        },
        Ok(v) => v,
    };
    let highlight = match count_setting_of(src, "highlightLimit", usize::MAX as u64) {
        Err(e) => {
            return Err(e);
        },
        Ok(v) => v,
    };
    Ok(
        CleanupOverrides {
            pause_threshold_ticks: pause,
            target_pause_ticks: gap,
            minimum_apply_confidence_bps: match confidence {
                Some(n) => Some(n as u16),
                None => None,
            },
            minimum_repeated_take_words: match words {
                Some(n) => Some(n as usize),
                None => None,
            },
            repeated_take_similarity_bps: match similarity {
                Some(n) => Some(n as u16),
                None => None,
            },
            highlight_limit: match highlight {
                Some(n) => Some(n as usize),
                None => None,
            },
        },
    )
}


/// The input hashed for the ids an edit creates: project id, idempotency
/// key, the word id (or a fixed namespace) and the edit's index in decimal,
/// each followed by NUL.
pub open spec fn script_suffix_input(project_id: Seq<char>, key: Seq<char>, word: Seq<char>, index: nat) -> Seq<u8> {
    vstd::utf8::encode_utf8(project_id) + seq![0u8] + vstd::utf8::encode_utf8(key) + seq![0u8]
        + vstd::utf8::encode_utf8(word) + seq![0u8] + vstd::utf8::encode_utf8(decimal(index))
        + seq![0u8]
}

/// The suffix of an id a script edit creates: the first 24 hex digits of
/// SHA-256 over `script_suffix_input`.
pub fn stable_script_suffix(project_id: &str, idempotency_key: &str, word_id: &str, edit_index: usize) -> (r: String)
    ensures
        r@ == crate::encoding::hex_lower(
            crate::encoding::sha256(script_suffix_input(project_id@, idempotency_key@, word_id@, edit_index as nat)),
        ).subrange(0, 24),
{
    let index_text = string_of(u64_to_decimal(edit_index as u64).as_slice());
    let mut h = crate::content::hasher_new();
    crate::content::hasher_update(&mut h, project_id.as_bytes());
    crate::content::hasher_update(&mut h, &[0u8]);
    crate::content::hasher_update(&mut h, idempotency_key.as_bytes());
    crate::content::hasher_update(&mut h, &[0u8]);
    crate::content::hasher_update(&mut h, word_id.as_bytes());
    crate::content::hasher_update(&mut h, &[0u8]);
    crate::content::hasher_update(&mut h, index_text.as_str().as_bytes());
    crate::content::hasher_update(&mut h, &[0u8]);
    assert(crate::content::hasher_input(h) =~= script_suffix_input(
        project_id@,
        idempotency_key@,
        word_id@,
        edit_index as nat,
    ));
    let digest = crate::content::hasher_finalize(h);
    proof {
        crate::encoding::lemma_hex_lower_shape(digest@);
    }
    let hex = crate::encoding::hex_encode(digest.as_slice());
    let cs = chars_of(hex.as_str());
    let p = copy_range(cs.as_slice(), 0, 24);
    string_of(p.as_slice())
}

} // verus!
