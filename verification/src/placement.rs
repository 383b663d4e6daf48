//! Where a generated asset lands on the timeline: the placement a
//! generation request carries, checked and normalized before any provider
//! sees the request.
use vstd::prelude::*;
use crate::error::{ApiError, STATUS_BAD_REQUEST};
use crate::json::{json_clone, json_same, object_lookup, JsonNumber, JsonValue};
use crate::script::i64_view;
use crate::script_edits::{debug_quoted, debug_string};
use crate::text::{chars_of, copy_string, no_control, push_str, str_eq, string_of};

verus! {

/// A placement time given in seconds, as read from its JSON number: not a
/// finite number, negative, exactly zero, too many ticks for `i64`, or
/// positive with its rounded tick count.
#[derive(Debug, Clone, Copy, PartialEq, Eq, Structural)]
pub enum SecondsReading {
    NotFinite,
    Negative,
    Zero,
    TooLarge,
    Ticks(i64),
}

/// The members a placement may set.
pub open spec fn placement_key(k: Seq<char>) -> bool {
    ||| k == "startTicks"@
    ||| k == "startSeconds"@
    ||| k == "durationTicks"@
    ||| k == "durationSeconds"@
    ||| k == "sceneId"@
    ||| k == "trackId"@
    ||| k == "name"@
    ||| k == "timelineAnchor"@
}

/// The first member a placement may not set.
pub open spec fn first_unknown_key(en: Seq<(String, JsonValue)>) -> Option<Seq<char>>
    decreases en.len(),
{
    if en.len() == 0 {
        None
    } else if !placement_key(en[0].0@) {
        Some(en[0].0@)
    } else {
        first_unknown_key(en.drop_first())
    }
}

pub open spec fn sign_word(allow_zero: bool) -> Seq<char> {
    if allow_zero {
        "non-negative"@
    } else {
        "positive"@
    }
}

/// A placement time in ticks: the integer `tf` when given (non-negative,
/// or positive when zero is not allowed), else the seconds `sf` as read in
/// `secs`. The error is the refusal's message.
pub open spec fn time_field_spec(
    en: Seq<(String, JsonValue)>,
    tf: Seq<char>,
    sf: Seq<char>,
    allow_zero: bool,
    secs: SecondsReading,
) -> Result<i64, Seq<char>> {
    match object_lookup(en, tf) {
        Some(v) => match i64_view(v) {
            None => Err("placement "@ + tf + " must be an integer"@),
            Some(t) => if t < 0 || (!allow_zero && t == 0) {
                Err("placement "@ + tf + " must be "@ + sign_word(allow_zero))
            } else {
                Ok(t)
            },
        },
        None => match object_lookup(en, sf) {
            None => Err("placement requires "@ + tf + " or "@ + sf),
            Some(_) => match secs {
                SecondsReading::NotFinite => Err("placement "@ + sf + " must be a finite number"@),
                SecondsReading::Negative => Err("placement "@ + sf + " must be "@ + sign_word(allow_zero)),
                SecondsReading::Zero => if allow_zero {
                    Ok(0)
                } else {
                    Err("placement "@ + sf + " must be "@ + sign_word(allow_zero))
                },
                SecondsReading::TooLarge => Err("placement "@ + sf + " is too large"@),
                SecondsReading::Ticks(t) => Ok(t),
            },
        },
    }
}

/// A text member: absent, or 1 to 200 bytes with no control character.
pub open spec fn text_member(en: Seq<(String, JsonValue)>, f: Seq<char>, message: Seq<char>) -> Result<Option<Seq<char>>, Seq<char>> {
    match object_lookup(en, f) {
        None => Ok(None),
        Some(v) => match v.str_view() {
            Some(t) => if t.len() > 0 && vstd::utf8::encode_utf8(t).len() <= 200 && no_control(t) {
                Ok(Some(t))
            } else {
                Err(message)
            },
            None => Err(message),
        },
    }
}

/// A checked placement.
#[derive(Debug)]
pub struct Placement {
    pub start_ticks: i64,
    pub duration_ticks: i64,
    pub scene_id: Option<String>,
    pub track_id: Option<String>,
    pub name: Option<String>,
    /// The timeline anchor as given.
    pub timeline_anchor: Option<JsonValue>,
}

pub struct PlacementView {
    pub start_ticks: i64,
    pub duration_ticks: i64,
    pub scene_id: Option<Seq<char>>,
    pub track_id: Option<Seq<char>>,
    pub name: Option<Seq<char>>,
    pub timeline_anchor: Option<JsonValue>,
}

pub open spec fn opt_view(o: Option<String>) -> Option<Seq<char>> {
    match o {
        Some(s) => Some(s@),
        None => None,
    }
}

/// The placement of a generation request (`options.placement`): none, or
/// an object of placement members whose start and duration (at most a day
/// of ticks at `tps`; a duration above zero) and optional scene, track and
/// name are checked. The error is the refusal's message.
pub open spec fn placement_spec(options: JsonValue, tps: i64, start_s: SecondsReading, dur_s: SecondsReading) -> Result<
    Option<PlacementView>,
    Seq<char>,
> {
    match options.field("placement"@) {
        None => Ok(None),
        Some(JsonValue::Object(en)) => match first_unknown_key(en@) {
            Some(k) => Err("options.placement contains unsupported field "@ + debug_quoted(k)),
            None => match time_field_spec(en@, "startTicks"@, "startSeconds"@, true, start_s) {
                Err(m) => Err(m),
                Ok(start) => match time_field_spec(en@, "durationTicks"@, "durationSeconds"@, false, dur_s) {
                    Err(m) => Err(m),
                    Ok(duration) => if duration <= 0 {
                        Err("placement duration must be greater than zero"@)
                    } else if start > 86400 * tps || duration > 86400 * tps {
                        Err("placement start and duration must be no more than 24 hours"@)
                    } else {
                        match text_member(en@, "sceneId"@, "placement sceneId must contain 1 to 200 printable characters"@) {
                            Err(m) => Err(m),
                            Ok(scene) => match text_member(en@, "trackId"@, "placement trackId must contain 1 to 200 printable characters"@) {
                                Err(m) => Err(m),
                                Ok(track) => match text_member(en@, "name"@, "placement name must contain 1 to 200 printable characters"@) {
                                    Err(m) => Err(m),
                                    Ok(name) => Ok(
                                        Some(
                                            PlacementView {
                                                start_ticks: start,
                                                duration_ticks: duration,
                                                scene_id: scene,
                                                track_id: track,
                                                name,
                                                timeline_anchor: object_lookup(en@, "timelineAnchor"@),
                                            },
                                        ),
                                    ),
                                },
                            },
                        }
                    },
                },
            },
        },
        Some(_) => Err("options.placement must be an object"@),
    }
}

pub open spec fn placement_matches(p: Placement, v: PlacementView) -> bool {
    &&& p.start_ticks == v.start_ticks
    &&& p.duration_ticks == v.duration_ticks
    &&& opt_view(p.scene_id) == v.scene_id
    &&& opt_view(p.track_id) == v.track_id
    &&& opt_view(p.name) == v.name
    &&& match (p.timeline_anchor, v.timeline_anchor) {
        (Some(a), Some(b)) => json_same(a, b),
        (None, None) => true,
        _ => false,
    }
}

fn refusal(message: &str) -> (e: ApiError)
    ensures
        e.status == STATUS_BAD_REQUEST,
        e.code@ == "invalid_generation_placement"@,
        e.message@ == message@,
        e.details is None,
{
    ApiError::bad_request("invalid_generation_placement", message)
}

fn lookup<'a>(en: &'a Vec<(String, JsonValue)>, key: &str) -> (r: Option<&'a JsonValue>)
    ensures
        match r {
            Some(v) => object_lookup(en@, key@) == Some(*v),
            None => object_lookup(en@, key@) is None,
        },
{
    let mut i: usize = 0;
    assert(en@.subrange(0, en.len() as int) =~= en@);
    while i < en.len()
        invariant
            i <= en.len(),
            object_lookup(en@, key@) == object_lookup(en@.subrange(i as int, en.len() as int), key@),
        decreases en.len() - i,
    {
        let ghost rest = en@.subrange(i as int, en.len() as int);
        assert(rest.drop_first() =~= en@.subrange(i + 1, en.len() as int));
        assert(rest[0] == en@[i as int]);
        if str_eq(en[i].0.as_str(), key) {
            return Some(&en[i].1);
        }
        i += 1;
    }
    None
}

fn concat(parts: &[&str; 4]) -> (r: String)
    ensures
        r@ == parts[0]@ + parts[1]@ + parts[2]@ + parts[3]@,
{
    let mut v = chars_of(parts[0]);
    push_str(&mut v, parts[1]);
    push_str(&mut v, parts[2]);
    push_str(&mut v, parts[3]);
    string_of(v.as_slice())
}

fn time_field(
    en: &Vec<(String, JsonValue)>,
    tf: &str,
    sf: &str,
    allow_zero: bool,
    secs: SecondsReading,
) -> (r: Result<i64, ApiError>)
    ensures
        match (r, time_field_spec(en@, tf@, sf@, allow_zero, secs)) {
            (Ok(a), Ok(b)) => a == b,
            (Err(e), Err(m)) => e.status == STATUS_BAD_REQUEST && e.code@ == "invalid_generation_placement"@
                && e.message@ == m,
            _ => false,
        },
{
    proof {
        reveal_strlit("");
    }
    let sign = if allow_zero {
        "non-negative"
    } else {
        "positive"
    };
    match lookup(en, tf) {
        Some(v) => {
            let t = match v {
                JsonValue::Number(JsonNumber::PosInt(n)) => if *n <= 9223372036854775807u64 {
                    *n as i64
                } else {
                    return Err(refusal(concat(&["placement ", tf, " must be an integer", ""]).as_str()));
                },
                JsonValue::Number(JsonNumber::NegInt(n)) => *n,
                _ => return Err(refusal(concat(&["placement ", tf, " must be an integer", ""]).as_str())),
            };
            if t < 0 || (!allow_zero && t == 0) {
                return Err(refusal(concat(&["placement ", tf, " must be ", sign]).as_str()));
            }
            Ok(t)
        },
        None => match lookup(en, sf) {
            None => Err(refusal(concat(&["placement requires ", tf, " or ", sf]).as_str())),
            Some(_) => match secs {
                SecondsReading::NotFinite => Err(
                    refusal(concat(&["placement ", sf, " must be a finite number", ""]).as_str()),
                ),
                SecondsReading::Negative => Err(refusal(concat(&["placement ", sf, " must be ", sign]).as_str())),
                SecondsReading::Zero => if allow_zero {
                    Ok(0)
                } else {
                    Err(refusal(concat(&["placement ", sf, " must be ", sign]).as_str()))
                },
                SecondsReading::TooLarge => Err(refusal(concat(&["placement ", sf, " is too large", ""]).as_str())),
                SecondsReading::Ticks(t) => Ok(t),
            },
        },
    }
}

fn text_field(en: &Vec<(String, JsonValue)>, f: &str, message: &str) -> (r: Result<Option<String>, ApiError>)
    ensures
        match (r, text_member(en@, f@, message@)) {
            (Ok(a), Ok(b)) => opt_view(a) == b,
            (Err(e), Err(m)) => e.status == STATUS_BAD_REQUEST && e.code@ == "invalid_generation_placement"@
                && e.message@ == m,
            _ => false,
        },
{
    match lookup(en, f) {
        None => Ok(None),
        Some(v) => match v.as_str() {
            Some(t) => {
                let cs = chars_of(t);
                if cs.len() > 0 && t.as_bytes().len() <= 200 && !crate::text::any_control(cs.as_slice()) {
                    Ok(Some(copy_string(t)))
                } else {
                    Err(refusal(message))
                }
            },
            None => Err(refusal(message)),
        },
    }
}

fn is_placement_key(k: &str) -> (r: bool)
    ensures
        r == placement_key(k@),
{
    str_eq(k, "startTicks") || str_eq(k, "startSeconds") || str_eq(k, "durationTicks") || str_eq(
        k,
        "durationSeconds",
    ) || str_eq(k, "sceneId") || str_eq(k, "trackId") || str_eq(k, "name") || str_eq(k, "timelineAnchor")
}

fn unknown_key(en: &Vec<(String, JsonValue)>) -> (r: Option<&str>)
    ensures
        match r {
            Some(k) => first_unknown_key(en@) == Some(k@),
            None => first_unknown_key(en@) is None,
        },
{
    let mut i: usize = 0;
    assert(en@.subrange(0, en.len() as int) =~= en@);
    while i < en.len()
        invariant
            i <= en.len(),
            first_unknown_key(en@) == first_unknown_key(en@.subrange(i as int, en.len() as int)),
        decreases en.len() - i,
    {
        let ghost rest = en@.subrange(i as int, en.len() as int);
        assert(rest.drop_first() =~= en@.subrange(i + 1, en.len() as int));
        assert(rest[0] == en@[i as int]);
        if !is_placement_key(en[i].0.as_str()) {
            return Some(en[i].0.as_str());
        }
        i += 1;
    }
    None
}

/// The placement of a generation request (see `placement_spec`); a time
/// given in seconds is taken as `start_seconds` and `duration_seconds` read
/// it. Refusals are 400 `invalid_generation_placement`.
pub fn generated_asset_placement(
    options: &JsonValue,
    ticks_per_second: i64,
    start_seconds: SecondsReading,
    duration_seconds: SecondsReading,
) -> (r: Result<Option<Placement>, ApiError>)
    requires
        i64::MIN <= 86400 * ticks_per_second <= i64::MAX,
    ensures
        match (r, placement_spec(*options, ticks_per_second, start_seconds, duration_seconds)) {
            (Ok(Some(p)), Ok(Some(v))) => placement_matches(p, v),
            (Ok(None), Ok(None)) => true,
            (Err(e), Err(m)) => e.status == STATUS_BAD_REQUEST && e.code@ == "invalid_generation_placement"@
                && e.message@ == m,
            _ => false,
        },
{
    let en = match options.get("placement") {
        None => return Ok(None),
        Some(JsonValue::Object(en)) => en,
        Some(_) => return Err(refusal("options.placement must be an object")),
    };
    if let Some(k) = unknown_key(en) {
        let q = debug_string(k);
        let mut m = chars_of("options.placement contains unsupported field ");
        push_str(&mut m, q.as_str());
        return Err(refusal(string_of(m.as_slice()).as_str()));
    }
    let start = match time_field(en, "startTicks", "startSeconds", true, start_seconds) {
        Err(e) => return Err(e),
        Ok(t) => t,
    };
    let duration = match time_field(en, "durationTicks", "durationSeconds", false, duration_seconds) {
        Err(e) => return Err(e),
        Ok(t) => t,
    };
    if duration <= 0 {
        return Err(refusal("placement duration must be greater than zero"));
    }
    let maximum: i64 = 86400 * ticks_per_second;
    if start > maximum || duration > maximum {
        return Err(refusal("placement start and duration must be no more than 24 hours"));
    }
    let scene = match text_field(en, "sceneId", "placement sceneId must contain 1 to 200 printable characters") {
        Err(e) => return Err(e),
        Ok(s) => s,
    };
    let track = match text_field(en, "trackId", "placement trackId must contain 1 to 200 printable characters") {
        Err(e) => return Err(e),
        Ok(s) => s,
    };
    let name = match text_field(en, "name", "placement name must contain 1 to 200 printable characters") {
        Err(e) => return Err(e),
        Ok(s) => s,
    };
    let anchor = match lookup(en, "timelineAnchor") {
        Some(a) => Some(json_clone(a)),
        None => None,
    };
    Ok(
        Some(
            Placement {
                start_ticks: start,
                duration_ticks: duration,
                scene_id: scene,
                track_id: track,
                name,
                timeline_anchor: anchor,
            },
        ),
    )
}

} // verus!

verus! {

/// The string a text member holds, if it is one.
pub open spec fn given_text(en: Seq<(String, JsonValue)>, f: Seq<char>) -> Option<Seq<char>> {
    match object_lookup(en, f) {
        Some(v) => v.str_view(),
        None => None,
    }
}

/// An accepted placement keeps what it was given: the scene, track and
/// name exactly as the placement object names them (none when absent), the
/// start and duration given in ticks or read from seconds, and the timeline
/// anchor.
pub proof fn lemma_accepted_placement_keeps_its_members(
    options: JsonValue,
    tps: i64,
    start_s: SecondsReading,
    dur_s: SecondsReading,
    en: Vec<(String, JsonValue)>,
)
    requires
        options.field("placement"@) == Some(JsonValue::Object(en)),
        placement_spec(options, tps, start_s, dur_s) is Ok,
    ensures
        placement_spec(options, tps, start_s, dur_s) matches Ok(Some(v)) && v.scene_id == given_text(en@, "sceneId"@)
            && v.track_id == given_text(en@, "trackId"@) && v.name == given_text(en@, "name"@)
            && v.timeline_anchor == object_lookup(en@, "timelineAnchor"@) && (object_lookup(en@, "startTicks"@) matches Some(
            x) ==> i64_view(x) == Some(v.start_ticks)) && (object_lookup(en@, "durationTicks"@) matches Some(x)
            ==> i64_view(x) == Some(v.duration_ticks)),
        object_lookup(en@, "startTicks"@) is None ==> (start_s matches SecondsReading::Ticks(t) ==> (placement_spec(
            options,
            tps,
            start_s,
            dur_s,
        ) matches Ok(Some(v)) && v.start_ticks == t)),
        object_lookup(en@, "durationTicks"@) is None ==> (dur_s matches SecondsReading::Ticks(t) ==> (placement_spec(
            options,
            tps,
            start_s,
            dur_s,
        ) matches Ok(Some(v)) && v.duration_ticks == t)),
{
}

} // verus!
