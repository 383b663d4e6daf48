//! The advanced motion-graphic compiler boundary: what the daemon accepts
//! back from the sandboxed JSX compiler before its safe IR reaches a project.
use vstd::prelude::*;
use crate::json::JsonValue;
use crate::text::{any_control, chars_of, copy_string, no_control, str_eq, string_of};

verus! {

/// Where the motion-graphic compiler lives: the Node.js executable and the
/// compiler's entry script.
#[derive(Debug, Clone)]
pub struct MotionGraphicRuntime {
    pub node: String,
    pub entrypoint: String,
}

impl MotionGraphicRuntime {
    pub fn new(node: String, entrypoint: String) -> (r: MotionGraphicRuntime)
        ensures
            r.node@ == node@,
            r.entrypoint@ == entrypoint@,
    {
        MotionGraphicRuntime { node, entrypoint }
    }
}

/// Why a motion graphic could not be compiled: the compiler refused the
/// input, or the compiler itself could not be trusted or reached.
#[derive(Debug)]
pub enum MotionGraphicRuntimeError {
    Validation { code: String, message: String, path: Option<String> },
    Unavailable(String),
}

/// The refusal for a failure of the compiler itself.
pub fn unavailable(error: &str) -> (e: MotionGraphicRuntimeError)
    ensures
        e matches MotionGraphicRuntimeError::Unavailable(m) && m@ == error@,
{
    MotionGraphicRuntimeError::Unavailable(copy_string(error))
}

pub open spec fn is_unavailable(r: Result<(), MotionGraphicRuntimeError>, m: Seq<char>) -> bool {
    r matches Err(MotionGraphicRuntimeError::Unavailable(s)) && s@ == m
}

impl MotionGraphicRuntimeError {
    /// The structured details of a validation refusal: its code, message and
    /// path (`null` when it has none).
    pub fn validation_details(&self) -> (r: Option<JsonValue>)
        ensures
            match self {
                MotionGraphicRuntimeError::Validation { code, message, path } => r matches Some(
                    d,
                ) && d.field_str("code"@) == Some(code@) && d.field_str("message"@) == Some(
                    message@,
                ) && match path {
                    Some(p) => d.field_str("path"@) == Some(p@),
                    None => d.field("path"@) == Some(JsonValue::Null),
                },
                MotionGraphicRuntimeError::Unavailable(_) => r is None,
            },
    {
        match self {
            MotionGraphicRuntimeError::Validation { code, message, path } => {
                let p = match path {
                    Some(p) => JsonValue::Str(copy_string(p.as_str())),
                    None => JsonValue::Null,
                };
                let ghost pv = p;
                let entries = vec![
                    (copy_string("code"), JsonValue::Str(copy_string(code.as_str()))),
                    (copy_string("message"), JsonValue::Str(copy_string(message.as_str()))),
                    (copy_string("path"), p),
                ];
                proof {
                    reveal_strlit("code");
                    reveal_strlit("message");
                    reveal_strlit("path");
                    let e = entries@;
                    assert(e[0].0@ == "code"@);
                    assert(e[1].0@ == "message"@);
                    assert(e[2].0@ == "path"@);
                    assert("code"@.len() != "message"@.len());
                    assert("code"@[0] != "path"@[0]);
                    assert("message"@.len() != "path"@.len());
                    assert(e.drop_first()[0] == e[1]);
                    assert(e.drop_first().drop_first()[0] == e[2]);
                    assert(crate::json::object_lookup(e.drop_first().drop_first(), "path"@) == Some(
                        pv,
                    ));
                    assert(crate::json::object_lookup(e.drop_first(), "path"@) == Some(pv));
                    assert(crate::json::object_lookup(e.drop_first(), "message"@) == Some(
                        e[1].1,
                    ));
                }
                Some(JsonValue::Object(entries))
            },
            MotionGraphicRuntimeError::Unavailable(_) => None,
        }
    }

    /// The error's text, as it is shown to the user.
    pub fn message(&self) -> (r: String)
        ensures
            match self {
                MotionGraphicRuntimeError::Validation { message, .. } => r@ == message@,
                MotionGraphicRuntimeError::Unavailable(m) => r@
                    == "advanced motion graphic compiler is unavailable: "@ + m@,
            },
    {
        match self {
            MotionGraphicRuntimeError::Validation { message, .. } => copy_string(message.as_str()),
            MotionGraphicRuntimeError::Unavailable(m) => {
                let mut v = chars_of("advanced motion graphic compiler is unavailable: ");
                crate::text::push_str(&mut v, m.as_str());
                string_of(v.as_slice())
            },
        }
    }
}

/// A compiler-supplied text as it is passed on: the fallback when it is
/// empty or holds a control character, else its first `max` characters.
pub open spec fn bounded_text_spec(value: Seq<char>, max: nat, fallback: Seq<char>) -> Seq<char> {
    if value.len() == 0 || !no_control(value) {
        fallback
    } else if value.len() <= max {
        value
    } else {
        value.subrange(0, max as int)
    }
}

pub fn bounded_text(value: &str, max: usize, fallback: &str) -> (r: String)
    ensures
        r@ == bounded_text_spec(value@, max as nat, fallback@),
{
    let cs = chars_of(value);
    if cs.len() == 0 || any_control(cs.as_slice()) {
        return copy_string(fallback);
    }
    if cs.len() <= max {
        return string_of(cs.as_slice());
    }
    let p = crate::text::copy_range(cs.as_slice(), 0, max);
    string_of(p.as_slice())
}

/// The largest compile request, in bytes.
pub const MAX_REQUEST_BYTES: usize = 524288;

/// The largest compiler standard output, in bytes.
pub const MAX_STDOUT_BYTES: u64 = 2097152;

/// The largest compiler standard error, in bytes.
pub const MAX_STDERR_BYTES: u64 = 65536;

/// The most values a safe IR may hold.
pub const MAX_IR_VALUES: usize = 50000;

/// The deepest nesting a safe IR may have.
pub const MAX_IR_DEPTH: usize = 100;

/// The longest string in a safe IR, in UTF-8 bytes.
pub const MAX_IR_STRING_BYTES: usize = 262144;

/// Refuses a serialized compile request over 512 KiB.
pub fn check_request_size(request_bytes: usize) -> (r: Result<(), MotionGraphicRuntimeError>)
    ensures
        r is Ok <==> request_bytes <= MAX_REQUEST_BYTES,
        r matches Err(MotionGraphicRuntimeError::Validation { code, path, .. }) ==> code@
            == "MG_INPUT_LIMIT"@ && path is None,
        r matches Err(e) ==> e is Validation,
{
    if request_bytes > MAX_REQUEST_BYTES {
        Err(
            MotionGraphicRuntimeError::Validation {
                code: copy_string("MG_INPUT_LIMIT"),
                message: copy_string("Advanced motion graphic request is too large"),
                path: None,
            },
        )
    } else {
        Ok(())
    }
}

} // verus!

verus! {

/// The object keys a safe IR may never hold.
pub open spec fn forbidden_key(k: Seq<char>) -> bool {
    k == "__proto__"@ || k == "prototype"@ || k == "constructor"@
}

pub open spec fn has_forbidden_key(entries: Seq<(String, JsonValue)>) -> bool {
    exists|i: int| 0 <= i < entries.len() && forbidden_key(#[trigger] entries[i].0@)
}

/// A walk over a JSON value in document order that counts every value it
/// visits: `Ok` with the count after the value, or the first limit it
/// breaks.
pub open spec fn bounded_walk(v: JsonValue, depth: nat, visited: nat) -> Result<nat, Seq<char>>
    decreases v, 0nat,
{
    if depth > MAX_IR_DEPTH {
        Err("compiler safe IR exceeds its depth limit"@)
    } else if visited + 1 > MAX_IR_VALUES {
        Err("compiler safe IR exceeds its value limit"@)
    } else {
        match v {
            JsonValue::Str(s) => if vstd::utf8::encode_utf8(s@).len() > MAX_IR_STRING_BYTES {
                Err("compiler safe IR contains an oversized string"@)
            } else {
                Ok(visited + 1)
            },
            JsonValue::Array(items) => bounded_walk_items(items@, depth + 1, visited + 1),
            JsonValue::Object(entries) => if has_forbidden_key(entries@) {
                Err("compiler safe IR contains a forbidden key"@)
            } else {
                bounded_walk_entries(entries@, depth + 1, visited + 1)
            },
            _ => Ok(visited + 1),
        }
    }
}

pub open spec fn bounded_walk_items(items: Seq<JsonValue>, depth: nat, visited: nat) -> Result<
    nat,
    Seq<char>,
>
    decreases items, items.len(),
{
    if items.len() == 0 {
        Ok(visited)
    } else {
        match bounded_walk(items[0], depth, visited) {
            Ok(n) => bounded_walk_items(items.drop_first(), depth, n),
            Err(m) => Err(m),
        }
    }
}

pub open spec fn bounded_walk_entries(
    entries: Seq<(String, JsonValue)>,
    depth: nat,
    visited: nat,
) -> Result<nat, Seq<char>>
    decreases entries, entries.len(),
{
    if entries.len() == 0 {
        Ok(visited)
    } else {
        match bounded_walk(entries[0].1, depth, visited) {
            Ok(n) => bounded_walk_entries(entries.drop_first(), depth, n),
            Err(m) => Err(m),
        }
    }
}

} // verus!

verus! {

fn key_is_forbidden(k: &str) -> (r: bool)
    ensures
        r == forbidden_key(k@),
{
    str_eq(k, "__proto__") || str_eq(k, "prototype") || str_eq(k, "constructor")
}

fn find_forbidden_key(entries: &Vec<(String, JsonValue)>) -> (r: bool)
    ensures
        r == has_forbidden_key(entries@),
{
    let mut i: usize = 0;
    while i < entries.len()
        invariant
            i <= entries.len(),
            forall|j: int| 0 <= j < i ==> !forbidden_key(#[trigger] entries@[j].0@),
        decreases entries.len() - i,
    {
        if key_is_forbidden(entries[i].0.as_str()) {
            return true;
        }
        i += 1;
    }
    false
}

/// Checks that a safe IR stays within the depth, value-count and string
/// limits and holds no prototype-polluting key, visiting values in document
/// order; `visited` counts the values seen so far.
pub fn validate_bounded_json(value: &JsonValue, depth: usize, visited: &mut usize) -> (r: Result<
    (),
    MotionGraphicRuntimeError,
>)
    ensures
        match bounded_walk(*value, depth as nat, *old(visited) as nat) {
            Ok(n) => r is Ok && *final(visited) == n,
            Err(m) => is_unavailable(r, m),
        },
    decreases value,
{
    if depth > MAX_IR_DEPTH {
        return Err(unavailable("compiler safe IR exceeds its depth limit"));
    }
    if *visited >= MAX_IR_VALUES {
        return Err(unavailable("compiler safe IR exceeds its value limit"));
    }
    *visited = *visited + 1;
    match value {
        JsonValue::Str(s) => {
            if s.as_str().as_bytes().len() > MAX_IR_STRING_BYTES {
                return Err(unavailable("compiler safe IR contains an oversized string"));
            }
            Ok(())
        },
        JsonValue::Array(items) => {
            let mut i: usize = 0;
            assert(items@.subrange(0, items.len() as int) =~= items@);
            while i < items.len()
                invariant
                    i <= items.len(),
                    depth <= MAX_IR_DEPTH,
                    *value == JsonValue::Array(*items),
                    bounded_walk(*value, depth as nat, *old(visited) as nat) == bounded_walk_items(
                        items@.subrange(i as int, items.len() as int),
                        depth as nat + 1,
                        *visited as nat,
                    ),
                decreases items.len() - i,
            {
                let ghost rest = items@.subrange(i as int, items.len() as int);
                assert(rest[0] == items@[i as int]);
                assert(rest.drop_first() =~= items@.subrange(i + 1, items.len() as int));
                match validate_bounded_json(&items[i], depth + 1, visited) {
                    Err(e) => {
                        return Err(e);
                    },
                    Ok(()) => {},
                }
                i += 1;
            }
            Ok(())
        },
        JsonValue::Object(entries) => {
            if find_forbidden_key(entries) {
                return Err(unavailable("compiler safe IR contains a forbidden key"));
            }
            let mut i: usize = 0;
            assert(entries@.subrange(0, entries.len() as int) =~= entries@);
            while i < entries.len()
                invariant
                    i <= entries.len(),
                    depth <= MAX_IR_DEPTH,
                    *value == JsonValue::Object(*entries),
                    bounded_walk(*value, depth as nat, *old(visited) as nat)
                        == bounded_walk_entries(
                        entries@.subrange(i as int, entries.len() as int),
                        depth as nat + 1,
                        *visited as nat,
                    ),
                decreases entries.len() - i,
            {
                let ghost rest = entries@.subrange(i as int, entries.len() as int);
                assert(rest[0] == entries@[i as int]);
                assert(rest.drop_first() =~= entries@.subrange(i + 1, entries.len() as int));
                match validate_bounded_json(&entries[i].1, depth + 1, visited) {
                    Err(e) => {
                        return Err(e);
                    },
                    Ok(()) => {},
                }
                i += 1;
            }
            Ok(())
        },
        _ => Ok(()),
    }
}

} // verus!

verus! {

use crate::auth::strings_view;
use crate::text::{lex_lt, lex_less, lemma_lex_transitive, lemma_lex_total};

/// Every element comes strictly before the ones after it.
pub open spec fn strictly_sorted(s: Seq<Seq<char>>) -> bool {
    forall|i: int, j: int| 0 <= i < j < s.len() ==> lex_lt(#[trigger] s[i], #[trigger] s[j])
}

/// Adds `x` to a strictly sorted list unless it is already there.
fn insert_sorted(out: &mut Vec<String>, x: String)
    requires
        strictly_sorted(strings_view(old(out)@)),
    ensures
        strictly_sorted(strings_view(final(out)@)),
        strings_view(final(out)@).to_set() == strings_view(old(out)@).to_set().insert(x@),
{
    let ghost old_v = strings_view(out@);
    let mut p: usize = 0;
    while p < out.len() && lex_less(chars_of(out[p].as_str()).as_slice(), chars_of(x.as_str()).as_slice())
        invariant
            p <= out.len(),
            old_v == strings_view(out@),
            forall|k: int| 0 <= k < p ==> lex_lt(#[trigger] old_v[k], x@),
        decreases out.len() - p,
    {
        p += 1;
    }
    if p < out.len() && str_eq(out[p].as_str(), x.as_str()) {
        proof {
            assert(old_v[p as int] == x@);
            assert(old_v.to_set().contains(x@));
            assert(old_v.to_set().insert(x@) =~= old_v.to_set());
        }
        return;
    }
    proof {
        if p < old_v.len() {
            assert(!lex_lt(old_v[p as int], x@));
            lemma_lex_total(old_v[p as int], x@);
        }
    }
    out.insert(p, x);
    proof {
        let nv = strings_view(out@);
        assert(nv =~= old_v.insert(p as int, x@));
        assert forall|i: int, j: int| 0 <= i < j < nv.len() implies lex_lt(#[trigger] nv[i], #[trigger] nv[j]) by {
            if j < p {
            } else if j == p {
                assert(nv[i] == old_v[i]);
            } else if i > p {
                assert(nv[i] == old_v[i - 1]);
                assert(nv[j] == old_v[j - 1]);
            } else if i == p {
                assert(nv[j] == old_v[j - 1]);
                if j - 1 > p {
                    lemma_lex_transitive(x@, old_v[p as int], old_v[j - 1]);
                }
            } else {
                assert(nv[i] == old_v[i]);
                assert(nv[j] == old_v[j - 1]);
            }
        }
        assert forall|y: Seq<char>| #[trigger] nv.to_set().contains(y) == old_v.to_set().insert(
            x@,
        ).contains(y) by {
            if nv.contains(y) {
                let k = choose|k: int| 0 <= k < nv.len() && nv[k] == y;
                if k < p {
                    assert(old_v[k] == y);
                } else if k > p {
                    assert(old_v[k - 1] == y);
                }
            }
            if old_v.contains(y) {
                let k = choose|k: int| 0 <= k < old_v.len() && old_v[k] == y;
                if k < p {
                    assert(nv[k] == y);
                } else {
                    assert(nv[k + 1] == y);
                }
            }
            if y == x@ {
                assert(nv[p as int] == y);
            }
        }
        assert(nv.to_set() =~= old_v.to_set().insert(x@));
    }
}

/// A well-formed asset reference: `asset:` and at most 262 UTF-8 bytes in
/// all, with no control character.
pub open spec fn valid_asset_id(s: Seq<char>) -> bool {
    crate::text::starts_with_spec(s, "asset:"@) && vstd::utf8::encode_utf8(s).len() <= 262
        && no_control(s)
}

/// The first problem with a list of asset references, in order.
pub open spec fn asset_ids_problem(items: Seq<JsonValue>) -> Option<Seq<char>>
    decreases items.len(),
{
    if items.len() == 0 {
        None
    } else {
        match items[0].str_view() {
            None => Some("compiler returned a non-string asset reference"@),
            Some(s) => if !valid_asset_id(s) {
                Some("compiler returned an invalid asset reference"@)
            } else {
                asset_ids_problem(items.drop_first())
            },
        }
    }
}

/// The references a problem-free list holds.
pub open spec fn asset_id_set(items: Seq<JsonValue>) -> Set<Seq<char>> {
    Set::new(|s: Seq<char>| exists|i: int| 0 <= i < items.len() && #[trigger] items[i].str_view() == Some(s))
}

fn valid_asset_id_exec(s: &str) -> (r: bool)
    ensures
        r == valid_asset_id(s@),
{
    let cs = chars_of(s);
    let prefix = chars_of("asset:");
    crate::text::starts_with(cs.as_slice(), prefix.as_slice()) && s.as_bytes().len() <= 262
        && !any_control(cs.as_slice())
}

/// The asset references a compiler result names, sorted and without
/// repeats, or the first malformed one.
pub fn collect_asset_ids(items: &Vec<JsonValue>) -> (r: Result<Vec<String>, MotionGraphicRuntimeError>)
    ensures
        match r {
            Ok(ids) => asset_ids_problem(items@) is None && strictly_sorted(strings_view(ids@))
                && strings_view(ids@).to_set() == asset_id_set(items@),
            Err(MotionGraphicRuntimeError::Unavailable(m)) => asset_ids_problem(items@) == Some(
                m@,
            ),
            Err(_) => false,
        },
{
    let mut out: Vec<String> = Vec::new();
    let mut i: usize = 0;
    assert(items@.subrange(0, items.len() as int) =~= items@);
    while i < items.len()
        invariant
            i <= items.len(),
            asset_ids_problem(items@) == asset_ids_problem(items@.subrange(i as int, items.len() as int)),
            strictly_sorted(strings_view(out@)),
            strings_view(out@).to_set() == asset_id_set(items@.subrange(0, i as int)),
        decreases items.len() - i,
    {
        let ghost rest = items@.subrange(i as int, items.len() as int);
        assert(rest[0] == items@[i as int]);
        assert(rest.drop_first() =~= items@.subrange(i + 1, items.len() as int));
        let s = match items[i].as_str() {
            Some(s) => s,
            None => {
                return Err(unavailable("compiler returned a non-string asset reference"));
            },
        };
        if !valid_asset_id_exec(s) {
            return Err(unavailable("compiler returned an invalid asset reference"));
        }
        let ghost before = asset_id_set(items@.subrange(0, i as int));
        insert_sorted(&mut out, copy_string(s));
        proof {
            let next = items@.subrange(0, i + 1);
            assert forall|y: Seq<char>| #[trigger] asset_id_set(next).contains(y) == before.insert(
                s@,
            ).contains(y) by {
                if asset_id_set(next).contains(y) {
                    let k = choose|k: int| 0 <= k < next.len() && #[trigger] next[k].str_view() == Some(y);
                    if k < i {
                        assert(items@.subrange(0, i as int)[k] == next[k]);
                    }
                }
                if before.contains(y) {
                    let k = choose|k: int| 0 <= k < i && #[trigger] items@.subrange(0, i as int)[k].str_view() == Some(y);
                    assert(next[k] == items@.subrange(0, i as int)[k]);
                }
                if y == s@ {
                    assert(next[i as int].str_view() == Some(y));
                }
            }
            assert(asset_id_set(next) =~= before.insert(s@));
        }
        i += 1;
    }
    assert(items@.subrange(0, items.len() as int) =~= items@);
    Ok(out)
}

} // verus!

verus! {

/// The largest AST a compiled motion graphic may come from.
pub const MAX_AST_NODES: u64 = 20000;

/// The most asset references a compiled motion graphic may hold.
pub const MAX_ASSET_REFERENCES: usize = 1024;

/// The safe IR describes the frame that was asked for. The floating-point
/// duration and frame rate are compared outside and arrive as
/// `duration_matches` and `fps_matches`.
pub open spec fn ir_context_matches(
    ir: JsonValue,
    width: u32,
    height: u32,
    duration_matches: bool,
    fps_matches: bool,
) -> bool {
    &&& ir.field_u64("version"@) == Some(1u64)
    &&& ir.field_str("kind"@) == Some("jsxSafeIr"@)
    &&& ir.field_u64("width"@) == Some(width as u64)
    &&& ir.field_u64("height"@) == Some(height as u64)
    &&& duration_matches
    &&& fps_matches
}

/// The compiler reports that it ran no source, with no network or file
/// access, in an opaque sandbox, on the allowlisted interpreter.
pub open spec fn security_ok(security: JsonValue) -> bool {
    &&& security.field_bool("sourceExecuted"@) == Some(false)
    &&& security.field_str("networkAccess"@) == Some("disabled"@)
    &&& security.field_str("fileAccess"@) == Some("disabled"@)
    &&& security.field_str("sandboxOrigin"@) == Some("opaque"@)
    &&& security.field_str("interpreter"@) == Some("deterministic-allowlisted-ir-v1"@)
}

/// The first reason a compiler result is not accepted, in the order the
/// checks run, or `None` when it is accepted.
pub open spec fn compiled_result_problem(
    result: JsonValue,
    width: u32,
    height: u32,
    duration_matches: bool,
    fps_matches: bool,
) -> Option<Seq<char>> {
    if !(result is Object) {
        Some("compiler result is not an object"@)
    } else {
        match result.field("ir"@) {
            None => Some("compiler result has no safe IR"@),
            Some(ir) => if !(ir is Object) {
                Some("compiler safe IR is not an object"@)
            } else if !ir_context_matches(ir, width, height, duration_matches, fps_matches) {
                Some("compiler safe IR context does not match the request"@)
            } else {
                match bounded_walk(ir, 0, 0) {
                    Err(m) => Some(m),
                    Ok(_) => match result.field("stats"@) {
                        None => Some("compiler result has no validation statistics"@),
                        Some(stats) => match stats.field_u64("astNodes"@) {
                            None => Some("compiler result has invalid AST statistics"@),
                            Some(n) => if n == 0 || n > MAX_AST_NODES {
                                Some("compiler AST statistics exceed safe bounds"@)
                            } else {
                                match result.field("assetIds"@) {
                                    Some(JsonValue::Array(items)) => if items.len()
                                        > MAX_ASSET_REFERENCES {
                                        Some("compiler returned too many asset references"@)
                                    } else {
                                        match asset_ids_problem(items@) {
                                            Some(m) => Some(m),
                                            None => match result.field("security"@) {
                                                None => Some(
                                                    "compiler result has no security metadata"@,
                                                ),
                                                Some(sec) => if !security_ok(sec) {
                                                    Some(
                                                        "compiler returned invalid security metadata"@,
                                                    )
                                                } else {
                                                    None
                                                },
                                            },
                                        }
                                    },
                                    _ => Some("compiler result has no asset list"@),
                                }
                            },
                        },
                    },
                }
            },
        }
    }
}

/// The asset references of an accepted compiler result.
pub open spec fn result_asset_ids(result: JsonValue) -> Seq<JsonValue> {
    match result.field("assetIds"@) {
        Some(JsonValue::Array(items)) => items@,
        _ => Seq::empty(),
    }
}

/// An accepted compiler result: the compiler's whole answer, whose `ir`,
/// `stats` and `security` members passed the checks, and its asset
/// references sorted and without repeats.
#[derive(Debug)]
pub struct CompiledMotionGraphic {
    pub result: JsonValue,
    pub asset_ids: Vec<String>,
}

impl CompiledMotionGraphic {
    /// The safe IR.
    pub fn ir(&self) -> (r: Option<&JsonValue>)
        ensures
            match r {
                Some(v) => self.result.field("ir"@) == Some(*v),
                None => self.result.field("ir"@) is None,
            },
    {
        self.result.get("ir")
    }

    /// The compiler's validation statistics.
    pub fn stats(&self) -> (r: Option<&JsonValue>)
        ensures
            match r {
                Some(v) => self.result.field("stats"@) == Some(*v),
                None => self.result.field("stats"@) is None,
            },
    {
        self.result.get("stats")
    }

    /// The compiler's security metadata.
    pub fn security(&self) -> (r: Option<&JsonValue>)
        ensures
            match r {
                Some(v) => self.result.field("security"@) == Some(*v),
                None => self.result.field("security"@) is None,
            },
    {
        self.result.get("security")
    }
}

fn ir_context_ok(
    ir: &JsonValue,
    width: u32,
    height: u32,
    duration_matches: bool,
    fps_matches: bool,
) -> (r: bool)
    ensures
        r == ir_context_matches(*ir, width, height, duration_matches, fps_matches),
{
    let kind_ok = match ir.get_str("kind") {
        Some(k) => str_eq(k, "jsxSafeIr"),
        None => false,
    };
    ir.get_u64("version") == Some(1u64) && kind_ok && ir.get_u64("width") == Some(width as u64)
        && ir.get_u64("height") == Some(height as u64) && duration_matches && fps_matches
}

fn field_is(v: &JsonValue, key: &str, expected: &str) -> (r: bool)
    ensures
        r == (v.field_str(key@) == Some(expected@)),
{
    match v.get_str(key) {
        Some(s) => str_eq(s, expected),
        None => false,
    }
}

fn security_ok_exec(sec: &JsonValue) -> (r: bool)
    ensures
        r == security_ok(*sec),
{
    sec.get_bool("sourceExecuted") == Some(false) && field_is(sec, "networkAccess", "disabled")
        && field_is(sec, "fileAccess", "disabled") && field_is(sec, "sandboxOrigin", "opaque")
        && field_is(sec, "interpreter", "deterministic-allowlisted-ir-v1")
}

/// Accepts a compiler result only when its safe IR matches the requested
/// frame, stays within its bounds, its statistics are sane, its asset
/// references are well formed and its security metadata says the source
/// never ran.
pub fn verify_compiled_result(
    result: JsonValue,
    width: u32,
    height: u32,
    duration_matches: bool,
    fps_matches: bool,
) -> (r: Result<CompiledMotionGraphic, MotionGraphicRuntimeError>)
    ensures
        match r {
            Ok(c) => compiled_result_problem(result, width, height, duration_matches, fps_matches)
                is None && c.result == result && strictly_sorted(strings_view(c.asset_ids@))
                && strings_view(c.asset_ids@).to_set() == asset_id_set(result_asset_ids(result)),
            Err(MotionGraphicRuntimeError::Unavailable(m)) => compiled_result_problem(
                result,
                width,
                height,
                duration_matches,
                fps_matches,
            ) == Some(m@),
            Err(_) => false,
        },
{
    match &result {
        JsonValue::Object(_) => {},
        _ => return Err(unavailable("compiler result is not an object")),
    }
    let ir = match result.get("ir") {
        Some(ir) => ir,
        None => return Err(unavailable("compiler result has no safe IR")),
    };
    match ir {
        JsonValue::Object(_) => {},
        _ => return Err(unavailable("compiler safe IR is not an object")),
    }
    if !ir_context_ok(ir, width, height, duration_matches, fps_matches) {
        return Err(unavailable("compiler safe IR context does not match the request"));
    }
    let mut visited: usize = 0;
    match validate_bounded_json(ir, 0, &mut visited) {
        Ok(()) => {},
        Err(e) => return Err(e),
    }
    let stats = match result.get("stats") {
        Some(s) => s,
        None => return Err(unavailable("compiler result has no validation statistics")),
    };
    let ast_nodes = match stats.get_u64("astNodes") {
        Some(n) => n,
        None => return Err(unavailable("compiler result has invalid AST statistics")),
    };
    if ast_nodes == 0 || ast_nodes > MAX_AST_NODES {
        return Err(unavailable("compiler AST statistics exceed safe bounds"));
    }
    let items = match result.get("assetIds") {
        Some(JsonValue::Array(items)) => items,
        _ => return Err(unavailable("compiler result has no asset list")),
    };
    if items.len() > MAX_ASSET_REFERENCES {
        return Err(unavailable("compiler returned too many asset references"));
    }
    let asset_ids = match collect_asset_ids(items) {
        Ok(ids) => ids,
        Err(e) => return Err(e),
    };
    let security = match result.get("security") {
        Some(s) => s,
        None => return Err(unavailable("compiler result has no security metadata")),
    };
    if !security_ok_exec(security) {
        return Err(unavailable("compiler returned invalid security metadata"));
    }
    Ok(CompiledMotionGraphic { result, asset_ids })
}

/// A validation refusal the compiler reports.
#[derive(Debug)]
pub struct RuntimeValidationError {
    pub code: String,
    pub message: String,
    pub path: Option<String>,
}

/// The compiler's answer as decoded from its standard output.
#[derive(Debug)]
pub struct RuntimeResponse {
    pub ok: bool,
    pub result: Option<JsonValue>,
    pub error: Option<RuntimeValidationError>,
}

/// Refuses compiler output over its limits: 2 MiB of standard output and
/// 64 KiB of standard error.
pub fn check_output_sizes(stdout_bytes: u64, stderr_bytes: u64) -> (r: Result<(), MotionGraphicRuntimeError>)
    ensures
        r is Ok <==> stdout_bytes <= MAX_STDOUT_BYTES && stderr_bytes <= MAX_STDERR_BYTES,
        r is Err ==> is_unavailable(r, "compiler output exceeded its limit"@),
{
    if stdout_bytes > MAX_STDOUT_BYTES || stderr_bytes > MAX_STDERR_BYTES {
        Err(unavailable("compiler output exceeded its limit"))
    } else {
        Ok(())
    }
}

/// What the daemon makes of the compiler's decoded answer and exit status:
/// a refusal is passed on with its texts bounded, and an accepted answer
/// must come from a successful exit and carry a result.
pub fn interpret_response(response: RuntimeResponse, exited_successfully: bool) -> (r: Result<
    JsonValue,
    MotionGraphicRuntimeError,
>)
    ensures
        !response.ok ==> match response.error {
            None => r matches Err(MotionGraphicRuntimeError::Unavailable(m)) && m@
                == "compiler rejected input without an error"@,
            Some(err) => r matches Err(MotionGraphicRuntimeError::Validation { code, message, path })
                && code@ == bounded_text_spec(err.code@, 96, "MG_VALIDATION_FAILED"@) && message@
                == bounded_text_spec(err.message@, 1024, "Advanced motion graphic is invalid"@)
                && match err.path {
                Some(p) => path matches Some(q) && q@ == bounded_text_spec(p@, 512, "$"@),
                None => path is None,
            },
        },
        response.ok && !exited_successfully ==> (r matches Err(
            MotionGraphicRuntimeError::Unavailable(m),
        ) && m@ == "compiler exited unsuccessfully"@),
        response.ok && exited_successfully ==> match response.result {
            Some(v) => r == Ok::<JsonValue, MotionGraphicRuntimeError>(v),
            None => r matches Err(MotionGraphicRuntimeError::Unavailable(m)) && m@
                == "compiler returned no result"@,
        },
{
    if !response.ok {
        return match response.error {
            None => Err(unavailable("compiler rejected input without an error")),
            Some(err) => {
                let path = match &err.path {
                    Some(p) => Some(bounded_text(p.as_str(), 512, "$")),
                    None => None,
                };
                Err(
                    MotionGraphicRuntimeError::Validation {
                        code: bounded_text(err.code.as_str(), 96, "MG_VALIDATION_FAILED"),
                        message: bounded_text(
                            err.message.as_str(),
                            1024,
                            "Advanced motion graphic is invalid",
                        ),
                        path,
                    },
                )
            },
        };
    }
    if !exited_successfully {
        return Err(unavailable("compiler exited unsuccessfully"));
    }
    match response.result {
        Some(v) => Ok(v),
        None => Err(unavailable("compiler returned no result")),
    }
}

} // verus!

verus! {

proof fn lemma_walk_bound(v: JsonValue, depth: nat, visited: nat)
    ensures
        bounded_walk(v, depth, visited) matches Ok(n) ==> visited < n <= MAX_IR_VALUES,
    decreases v, 0nat,
{
    if depth <= MAX_IR_DEPTH && visited + 1 <= MAX_IR_VALUES {
        match v {
            JsonValue::Array(items) => {
                lemma_walk_items_bound(items@, depth + 1, visited + 1);
            },
            JsonValue::Object(entries) => {
                lemma_walk_entries_bound(entries@, depth + 1, visited + 1);
            },
            _ => {},
        }
    }
}

proof fn lemma_walk_items_bound(items: Seq<JsonValue>, depth: nat, visited: nat)
    requires
        visited <= MAX_IR_VALUES,
    ensures
        bounded_walk_items(items, depth, visited) matches Ok(n) ==> visited <= n <= MAX_IR_VALUES,
    decreases items, items.len(),
{
    if items.len() > 0 {
        lemma_walk_bound(items[0], depth, visited);
        match bounded_walk(items[0], depth, visited) {
            Ok(n) => lemma_walk_items_bound(items.drop_first(), depth, n),
            Err(_) => {},
        }
    }
}

proof fn lemma_walk_entries_bound(entries: Seq<(String, JsonValue)>, depth: nat, visited: nat)
    requires
        visited <= MAX_IR_VALUES,
    ensures
        bounded_walk_entries(entries, depth, visited) matches Ok(n) ==> visited <= n <= MAX_IR_VALUES,
    decreases entries, entries.len(),
{
    if entries.len() > 0 {
        lemma_walk_bound(entries[0].1, depth, visited);
        match bounded_walk(entries[0].1, depth, visited) {
            Ok(n) => lemma_walk_entries_bound(entries.drop_first(), depth, n),
            Err(_) => {},
        }
    }
}

/// An accepted compiler result carries a safe IR that holds at least one
/// and at most 50000 values, all within the depth and string limits and
/// free of prototype keys, and whose frame is the requested one.
pub proof fn lemma_accepted_ir_is_bounded(result: JsonValue, width: u32, height: u32, duration_matches: bool, fps_matches: bool)
    requires
        compiled_result_problem(result, width, height, duration_matches, fps_matches) is None,
    ensures
        result.field("ir"@) matches Some(ir) && ir_context_matches(ir, width, height, duration_matches, fps_matches)
            && (bounded_walk(ir, 0, 0) matches Ok(n) && 0 < n <= MAX_IR_VALUES),
{
    let ir = result.field("ir"@)->0;
    lemma_walk_bound(ir, 0, 0);
}

} // verus!
