//! The boundary to the local Codex app-server: what the daemon accepts from
//! its protocol stream, its plans and the images it generates.
use vstd::prelude::*;
use crate::json::JsonValue;
use crate::text::{
    char_views, chars_of, copy_range, copy_string, split_all, split_on, string_of,
};

verus! {

/// An image the Codex image tool saved, with the prompt it says it used.
#[derive(Debug, Clone)]
pub struct CodexGeneratedImage {
    pub path: String,
    pub revised_prompt: Option<String>,
}

/// A local image attached to a planning turn so the model can look at it.
#[derive(Debug, Clone)]
pub struct CodexPlanningVisual {
    pub asset_id: String,
    pub role: &'static str,
    pub path: String,
}

/// Progress of a planning turn, as shown to the user.
#[derive(Debug, Clone)]
pub enum CodexPlanEvent {
    /// The app-server process runs; its handshake may still take a while.
    AppServerStarted,
    /// The app-server answered the initialize request.
    InitializeCompleted,
    ThreadStarted { thread_id: String },
    /// The app-server accepted the turn request; the turn waits for model
    /// work.
    TurnQueued,
    TurnStarted { turn_id: String },
    MessageStreaming { text: String },
}

pub enum PlanEventView {
    AppServerStarted,
    InitializeCompleted,
    ThreadStarted(Seq<char>),
    TurnQueued,
    TurnStarted(Seq<char>),
    MessageStreaming(Seq<char>),
}

pub open spec fn plan_event_view(e: CodexPlanEvent) -> PlanEventView {
    match e {
        CodexPlanEvent::AppServerStarted => PlanEventView::AppServerStarted,
        CodexPlanEvent::InitializeCompleted => PlanEventView::InitializeCompleted,
        CodexPlanEvent::ThreadStarted { thread_id } => PlanEventView::ThreadStarted(thread_id@),
        CodexPlanEvent::TurnQueued => PlanEventView::TurnQueued,
        CodexPlanEvent::TurnStarted { turn_id } => PlanEventView::TurnStarted(turn_id@),
        CodexPlanEvent::MessageStreaming { text } => PlanEventView::MessageStreaming(text@),
    }
}

/// The first `k` characters of `x`, or all of it.
pub open spec fn take_chars(x: Seq<char>, k: nat) -> Seq<char> {
    if x.len() <= k {
        x
    } else {
        x.subrange(0, k as int)
    }
}

fn take_prefix(x: &[char], k: usize) -> (r: Vec<char>)
    ensures
        r@ == take_chars(x@, k as nat),
{
    if x.len() <= k {
        copy_range(x, 0, x.len())
    } else {
        copy_range(x, 0, k)
    }
}

/// The text of a protocol error reported by the app-server: its message, at
/// most 500 characters, or a generic text when it has none.
pub open spec fn protocol_error_spec(error: JsonValue) -> Seq<char> {
    match error.field_str("message"@) {
        Some(m) => take_chars(m, 500),
        None => "unknown Codex error"@,
    }
}

pub fn safe_protocol_error(error: &JsonValue) -> (r: String)
    ensures
        r@ == protocol_error_spec(*error),
{
    let m = match error.get_str("message") {
        Some(m) => chars_of(m),
        None => chars_of("unknown Codex error"),
    };
    proof {
        reveal_strlit("unknown Codex error");
    }
    let t = take_prefix(m.as_slice(), 500);
    string_of(t.as_slice())
}

/// A line without the carriage return that ended it.
pub open spec fn strip_cr(x: Seq<char>) -> Seq<char> {
    if x.len() > 0 && x.last() == '\r' {
        x.drop_last()
    } else {
        x
    }
}

/// `str::lines`: the pieces between `\n`, each without a `\r` that stood
/// right before its `\n`, and without an empty piece after a final `\n`.
pub open spec fn std_lines(s: Seq<char>) -> Seq<Seq<char>> {
    let p = split_on(s, '\n');
    let n = p.len() as int;
    let full = Seq::new((n - 1) as nat, |i: int| strip_cr(p[i]));
    if n >= 1 && p[n - 1].len() > 0 {
        full.push(p[n - 1])
    } else {
        full
    }
}

/// Pieces joined by a separator.
pub open spec fn join_with(ws: Seq<Seq<char>>, sep: Seq<char>) -> Seq<char>
    decreases ws.len(),
{
    if ws.len() == 0 {
        Seq::empty()
    } else if ws.len() == 1 {
        ws[0]
    } else {
        join_with(ws.drop_last(), sep) + sep + ws.last()
    }
}

/// What of the app-server's standard error reaches an error message: its
/// first eight lines, each cut to 300 characters, joined by ` | `.
pub open spec fn sanitize_stderr_spec(s: Seq<char>) -> Seq<char> {
    let l = std_lines(s);
    let k = if l.len() < 8 {
        l.len()
    } else {
        8
    };
    join_with(Seq::new(k, |i: int| take_chars(l[i], 300)), " | "@)
}

fn std_lines_exec(s: &[char]) -> (r: Vec<Vec<char>>)
    ensures
        char_views(r@) == std_lines(s@),
{
    let pieces = split_all(s, '\n');
    proof {
        crate::text::lemma_split_nonempty(s@, '\n');
    }
    let n = pieces.len();
    let ghost p = split_on(s@, '\n');
    let mut out: Vec<Vec<char>> = Vec::new();
    let mut i: usize = 0;
    while i + 1 < n
        invariant
            n == pieces.len(),
            n >= 1,
            char_views(pieces@) == p,
            i + 1 <= n,
            char_views(out@) == Seq::new(i as nat, |j: int| strip_cr(p[j])),
        decreases n - i,
    {
        let piece = pieces[i].as_slice();
        let line = if piece.len() > 0 && piece[piece.len() - 1] == '\r' {
            copy_range(piece, 0, piece.len() - 1)
        } else {
            copy_range(piece, 0, piece.len())
        };
        proof {
            assert(piece@ == p[i as int]);
            if piece@.len() > 0 && piece@.last() == '\r' {
                assert(piece@.subrange(0, piece.len() - 1) =~= piece@.drop_last());
            } else {
                assert(piece@.subrange(0, piece.len() as int) =~= piece@);
            }
        }
        let ghost before = out@;
        out.push(line);
        proof {
            assert(char_views(out@) =~= char_views(before).push(strip_cr(p[i as int])));
        }
        i += 1;
        proof {
            assert(char_views(out@) =~= Seq::new(i as nat, |j: int| strip_cr(p[j])));
        }
    }
    let last = pieces[n - 1].as_slice();
    if last.len() > 0 {
        let ghost before = out@;
        out.push(copy_range(last, 0, last.len()));
        proof {
            assert(last@.subrange(0, last.len() as int) =~= last@);
            assert(char_views(out@) =~= char_views(before).push(p[n - 1]));
        }
    }
    out
}

/// The part of the app-server's standard error that is quoted in errors.
pub fn sanitize_stderr(stderr: &str) -> (r: String)
    ensures
        r@ == sanitize_stderr_spec(stderr@),
{
    let cs = chars_of(stderr);
    let lines = std_lines_exec(cs.as_slice());
    let ghost l = std_lines(stderr@);
    let k: usize = if lines.len() < 8 {
        lines.len()
    } else {
        8
    };
    let mut out: Vec<char> = Vec::new();
    let mut j: usize = 0;
    while j < k
        invariant
            k <= lines.len(),
            char_views(lines@) == l,
            j <= k,
            out@ == join_with(Seq::new(j as nat, |i: int| take_chars(l[i], 300)), " | "@),
        decreases k - j,
    {
        let t = take_prefix(lines[j].as_slice(), 300);
        let ghost before = Seq::new(j as nat, |i: int| take_chars(l[i], 300));
        let ghost after = Seq::new((j + 1) as nat, |i: int| take_chars(l[i], 300));
        proof {
            assert(lines@[j as int]@ == l[j as int]);
            assert(after.drop_last() =~= before);
            assert(after.last() == t@);
        }
        if j > 0 {
            crate::text::push_str(&mut out, " | ");
        }
        let mut tv = t;
        let ghost mid = out@;
        out.append(&mut tv);
        proof {
            if j == 0 {
                assert(out@ =~= t@);
                assert(join_with(after, " | "@) == after[0]);
            } else {
                assert(out@ =~= join_with(before, " | "@) + " | "@ + t@);
            }
        }
        j += 1;
    }
    string_of(out.as_slice())
}

} // verus!

verus! {

use crate::text::{
    contains_seq, find, find_char, first_index_of, is_whitespace_spec, lemma_first_index_bounds,
    occurs_at, trim_start_index,
};

/// The first index at which `needle` occurs in `s`.
pub open spec fn first_occurrence(s: Seq<char>, needle: Seq<char>) -> Option<int> {
    if exists|i: int| occurs_at(s, needle, i) && forall|j: int| 0 <= j < i ==> !occurs_at(s, needle, j) {
        Some(choose|i: int| occurs_at(s, needle, i) && forall|j: int| 0 <= j < i ==> !occurs_at(s, needle, j))
    } else {
        None
    }
}

fn find_first(s: &[char], needle: &[char]) -> (r: Option<usize>)
    ensures
        match r {
            Some(i) => first_occurrence(s@, needle@) == Some(i as int) && i + needle.len() <= s.len(),
            None => first_occurrence(s@, needle@) is None,
        },
{
    match find(s, needle) {
        Some(i) => {
            proof {
                let k = choose|k: int| occurs_at(s@, needle@, k) && forall|j: int| 0 <= j < k ==> !occurs_at(s@, needle@, j);
                if k < i {
                } else if k > i {
                    assert(!occurs_at(s@, needle@, i as int));
                }
            }
            Some(i)
        },
        None => {
            proof {
                assert forall|i: int| !(occurs_at(s@, needle@, i) && forall|j: int| 0 <= j < i ==> !occurs_at(s@, needle@, j)) by {
                    if occurs_at(s@, needle@, i) {
                        assert(contains_seq(s@, needle@));
                    }
                }
            }
            None
        },
    }
}

/// The end of a JSON string body: the index of its first unescaped quote,
/// or the length when the body is cut off.
pub open spec fn string_end_from(e: Seq<char>, i: int, escaped: bool) -> int
    decreases e.len() - i,
{
    if i >= e.len() || i < 0 {
        e.len() as int
    } else if escaped {
        string_end_from(e, i + 1, false)
    } else if e[i] == '\\' {
        string_end_from(e, i + 1, true)
    } else if e[i] == '"' {
        i
    } else {
        string_end_from(e, i + 1, false)
    }
}

/// The marker of the summary member in a streamed plan.
pub open spec fn summary_marker() -> Seq<char> {
    "\"summary\""@
}

/// The still-encoded text of the `summary` member of a partial plan: what
/// follows the first `"summary"`, its colon, whitespace and opening quote,
/// up to the closing quote or the end of the stream.
pub open spec fn summary_encoded(o: Seq<char>) -> Option<Seq<char>> {
    match first_occurrence(o, summary_marker()) {
        None => None,
        Some(i) => {
            let a = o.subrange(i + summary_marker().len(), o.len() as int);
            match first_index_of(a, ':') {
                None => None,
                Some(c) => {
                    let b = a.subrange(c + 1, a.len() as int);
                    let t = b.subrange(trim_start_index(b), b.len() as int);
                    if t.len() == 0 || t[0] != '"' {
                        None
                    } else {
                        let e = t.drop_first();
                        Some(e.subrange(0, string_end_from(e, 0, false)))
                    }
                },
            }
        },
    }
}

/// `serde_json::from_str::<String>`: the string a complete JSON string
/// literal denotes, or `None` when the text is not one; only named here.
pub uninterp spec fn json_string_decode(text: Seq<char>) -> Option<Seq<char>>;

/// `serde_json::from_str::<String>`.
#[verifier::external_body]
fn decode_json_string(text: &str) -> (r: Option<String>)
    ensures
        match r {
            Some(s) => json_string_decode(text@) == Some(s@),
            None => json_string_decode(text@) is None,
        },
{
    serde_json::from_str::<String>(text).ok()
}

pub open spec fn quoted(x: Seq<char>) -> Seq<char> {
    seq!['"'] + x + seq!['"']
}

/// The decoding of the longest prefix of `enc`, of at most `b` characters,
/// that decodes as a JSON string body.
pub open spec fn longest_decodable(enc: Seq<char>, b: int) -> Option<Seq<char>>
    decreases b + 1,
{
    if b < 0 {
        None
    } else {
        match json_string_decode(quoted(enc.subrange(0, b))) {
            Some(d) => Some(d),
            None => longest_decodable(enc, b - 1),
        }
    }
}

/// The summary text a partial plan stream already holds.
pub open spec fn partial_summary_spec(o: Seq<char>) -> Option<Seq<char>> {
    match summary_encoded(o) {
        None => None,
        Some(enc) => longest_decodable(enc, enc.len() as int),
    }
}

fn trim_start_at(b: &[char]) -> (k: usize)
    ensures
        k == trim_start_index(b@),
{
    let mut k: usize = 0;
    while k < b.len() && crate::text::is_whitespace(b[k])
        invariant
            k <= b.len(),
            forall|j: int| 0 <= j < k ==> is_whitespace_spec(#[trigger] b@[j]),
        decreases b.len() - k,
    {
        k += 1;
    }
    proof {
        crate::text::lemma_trim_start_unique(b@, k as int);
    }
    k
}

fn string_end(e: &[char]) -> (r: usize)
    ensures
        r == string_end_from(e@, 0, false),
{
    let mut i: usize = 0;
    let mut escaped = false;
    while i < e.len()
        invariant
            i <= e.len(),
            string_end_from(e@, 0, false) == string_end_from(e@, i as int, escaped),
        decreases e.len() - i,
    {
        if escaped {
            escaped = false;
        } else if e[i] == '\\' {
            escaped = true;
        } else if e[i] == '"' {
            return i;
        }
        i += 1;
    }
    i
}

/// The human-readable summary of a plan that Codex is still streaming,
/// decoded as far as it can be; nothing of the partial operations.
pub fn partial_summary_from_structured_output(output: &str) -> (r: Option<String>)
    ensures
        match r {
            Some(s) => partial_summary_spec(output@) == Some(s@),
            None => partial_summary_spec(output@) is None,
        },
{
    let o = chars_of(output);
    let marker = chars_of("\"summary\"");
    proof {
        reveal_strlit("\"summary\"");
    }
    let i = match find_first(o.as_slice(), marker.as_slice()) {
        Some(i) => i,
        None => return None,
    };
    let a = copy_range(o.as_slice(), i + marker.len(), o.len());
    proof {
        lemma_first_index_bounds(a@, ':');
    }
    let c = match find_char(a.as_slice(), ':') {
        Some(c) => c,
        None => return None,
    };
    let b = copy_range(a.as_slice(), c + 1, a.len());
    let k = trim_start_at(b.as_slice());
    proof {
        crate::text::lemma_trim_start_bounds(b@);
    }
    let t = copy_range(b.as_slice(), k, b.len());
    if t.len() == 0 || t[0] != '"' {
        return None;
    }
    let e = copy_range(t.as_slice(), 1, t.len());
    assert(e@ =~= t@.drop_first());
    let end = string_end(e.as_slice());
    proof {
        assert(string_end_from(e@, 0, false) <= e@.len()) by {
            lemma_string_end_bound(e@, 0, false);
        }
    }
    let enc = copy_range(e.as_slice(), 0, end);
    proof {
        assert(summary_encoded(output@) == Some(enc@));
    }
    let mut bnd: usize = enc.len();
    loop
        invariant
            bnd <= enc.len(),
            partial_summary_spec(output@) == longest_decodable(enc@, bnd as int),
        decreases bnd,
    {
        let mut cand: Vec<char> = Vec::new();
        cand.push('"');
        let mut body = copy_range(enc.as_slice(), 0, bnd);
        cand.append(&mut body);
        cand.push('"');
        assert(cand@ =~= quoted(enc@.subrange(0, bnd as int)));
        let text = string_of(cand.as_slice());
        match decode_json_string(text.as_str()) {
            Some(d) => {
                return Some(d);
            },
            None => {},
        }
        if bnd == 0 {
            assert(longest_decodable(enc@, -1) is None);
            return None;
        }
        bnd -= 1;
    }
}

/// A string body as JSON writes it: every quote in it is escaped and no
/// escape is left open, so the scan for the closing quote stops right after
/// the body.
pub open spec fn closed_body(b: Seq<char>) -> bool {
    string_end_from(b + seq!['"'], 0, false) == b.len()
}

/// The start of a plan whose first member is `summary`.
pub open spec fn summary_head() -> Seq<char> {
    "{\"summary\":"@
}

proof fn lemma_string_end_extends(p: Seq<char>, x: Seq<char>, i: int, escaped: bool)
    requires
        0 <= i,
        string_end_from(p, i, escaped) < p.len(),
    ensures
        string_end_from(p + x, i, escaped) == string_end_from(p, i, escaped),
    decreases p.len() - i,
{
    if i < p.len() {
        assert((p + x)[i] == p[i]);
        if escaped {
            lemma_string_end_extends(p, x, i + 1, false);
        } else if p[i] == '\\' {
            lemma_string_end_extends(p, x, i + 1, true);
        } else if p[i] != '"' {
            lemma_string_end_extends(p, x, i + 1, false);
        }
    }
}

/// The encoded summary of a stream that begins `{"summary":` and an opening
/// quote: the body up to the closing quote or the end.
proof fn lemma_summary_encoded_at_head(e: Seq<char>)
    ensures
        summary_encoded(summary_head() + seq!['"'] + e) == Some(e.subrange(0, string_end_from(e, 0, false))),
{
    reveal_strlit("{\"summary\":");
    reveal_strlit("\"summary\"");
    let o = summary_head() + seq!['"'] + e;
    let m = summary_marker();
    assert(o.subrange(1, 1 + m.len() as int) =~= m);
    assert(occurs_at(o, m, 1));
    assert(!occurs_at(o, m, 0)) by {
        assert(o[0] == '{');
        if occurs_at(o, m, 0) {
            assert(o.subrange(0, m.len() as int)[0] == m[0]);
        }
    }
    assert forall|i: int| occurs_at(o, m, i) && (forall|j: int| 0 <= j < i ==> !occurs_at(o, m, j)) implies i == 1 by {
        if i > 1 {
            assert(!occurs_at(o, m, 1));
        }
    }
    assert(first_occurrence(o, m) == Some(1int));
    let a = o.subrange(1 + m.len() as int, o.len() as int);
    assert(a[0] == ':');
    assert(first_index_of(a, ':') == Some(0int));
    let b = a.subrange(1, a.len() as int);
    assert(b[0] == '"');
    assert(!is_whitespace_spec('"'));
    assert(trim_start_index(b) == 0) by {
        crate::text::lemma_trim_start_unique(b, 0);
    }
    let t = b.subrange(0, b.len() as int);
    assert(t =~= b);
    assert(t.drop_first() =~= e);
}

/// A stream that holds a complete `summary` value, as JSON writes a string,
/// gives that string, whatever follows the value.
pub proof fn lemma_complete_summary_is_decoded(body: Seq<char>, s: Seq<char>, rest: Seq<char>)
    requires
        closed_body(body),
        json_string_decode(quoted(body)) == Some(s),
    ensures
        partial_summary_spec(summary_head() + quoted(body) + rest) == Some(s),
{
    let e = body + seq!['"'] + rest;
    assert(summary_head() + quoted(body) + rest =~= summary_head() + seq!['"'] + e);
    lemma_summary_encoded_at_head(e);
    lemma_string_end_extends(body + seq!['"'], rest, 0, false);
    assert(body + seq!['"'] + rest =~= (body + seq!['"']) + rest);
    assert(e.subrange(0, body.len() as int) =~= body);
    assert(body.subrange(0, body.len() as int) =~= body);
}

/// A stream cut anywhere inside a `summary` value gives, if anything, the
/// decoding of a prefix of the value's body: never text from after the value.
pub proof fn lemma_cut_summary_stays_inside(body: Seq<char>, k: int)
    requires
        closed_body(body),
        0 <= k <= quoted(body).len(),
    ensures
        partial_summary_spec(summary_head() + quoted(body).subrange(0, k)) matches Some(t) ==> exists|j: int|
            0 <= j <= body.len() && json_string_decode(quoted(#[trigger] body.subrange(0, j))) == Some(t),
{
    let q = quoted(body);
    if k >= 1 {
        let e = q.subrange(1, k);
        assert(summary_head() + q.subrange(0, k) =~= summary_head() + seq!['"'] + e);
        lemma_summary_encoded_at_head(e);
        lemma_string_end_bound(e, 0, false);
        let end = string_end_from(e, 0, false);
        if k == q.len() {
            assert(e =~= body + seq!['"']);
        }
        let enc = e.subrange(0, end);
        assert(enc.len() <= body.len());
        assert(enc =~= body.subrange(0, enc.len() as int));
        lemma_longest_decodable_prefix(enc, enc.len() as int, body);
    } else {
        reveal_strlit("{\"summary\":");
        assert(summary_head() + q.subrange(0, k) =~= summary_head());
        assert(summary_encoded(summary_head()) is None) by {
            lemma_head_alone();
        }
    }
}

proof fn lemma_head_alone()
    ensures
        summary_encoded(summary_head()) is None,
{
    reveal_strlit("{\"summary\":");
    reveal_strlit("\"summary\"");
    let o = summary_head();
    let m = summary_marker();
    assert(o.subrange(1, 1 + m.len() as int) =~= m);
    assert(occurs_at(o, m, 1));
    assert(!occurs_at(o, m, 0)) by {
        if occurs_at(o, m, 0) {
            assert(o.subrange(0, m.len() as int)[0] == m[0]);
        }
    }
    assert forall|i: int| occurs_at(o, m, i) && (forall|j: int| 0 <= j < i ==> !occurs_at(o, m, j)) implies i == 1 by {
        if i > 1 {
            assert(!occurs_at(o, m, 1));
        }
    }
    assert(first_occurrence(o, m) == Some(1int));
    let a = o.subrange(1 + m.len() as int, o.len() as int);
    assert(a =~= seq![':']);
    assert(first_index_of(a, ':') == Some(0int));
    let b = a.subrange(1, a.len() as int);
    assert(b.len() == 0);
    assert(trim_start_index(b) == 0) by {
        crate::text::lemma_trim_start_bounds(b);
    }
}

proof fn lemma_longest_decodable_prefix(enc: Seq<char>, n: int, body: Seq<char>)
    requires
        enc.len() <= body.len(),
        enc =~= body.subrange(0, enc.len() as int),
        n <= enc.len(),
    ensures
        longest_decodable(enc, n) matches Some(t) ==> exists|j: int|
            0 <= j <= body.len() && json_string_decode(quoted(#[trigger] body.subrange(0, j))) == Some(t),
    decreases n + 1,
{
    if n >= 0 {
        assert(enc.subrange(0, n) =~= body.subrange(0, n));
        match json_string_decode(quoted(enc.subrange(0, n))) {
            Some(d) => {
                assert(json_string_decode(quoted(body.subrange(0, n))) == Some(d));
            },
            None => {
                lemma_longest_decodable_prefix(enc, n - 1, body);
            },
        }
    }
}

proof fn lemma_string_end_bound(e: Seq<char>, i: int, escaped: bool)
    ensures
        0 <= string_end_from(e, i, escaped) <= e.len(),
    decreases e.len() - i,
{
    if 0 <= i < e.len() {
        lemma_string_end_bound(e, i + 1, false);
        lemma_string_end_bound(e, i + 1, true);
    }
}

} // verus!

verus! {

use crate::paths::{has_parent_component, is_absolute_spec, path_starts_with};
use crate::text::no_control;

/// The most images a planning turn may carry.
pub const MAX_PLANNING_VISUALS: usize = 8;

/// The largest planning image, in bytes.
pub const MAX_PLANNING_VISUAL_BYTES: u64 = 16777216;

/// The largest image the Codex image tool may hand back, in bytes.
pub const MAX_CODEX_IMAGE_BYTES: u64 = 104857600;

pub fn check_planning_visual_count(count: usize) -> (r: Result<(), &'static str>)
    ensures
        r is Ok <==> count <= MAX_PLANNING_VISUALS,
        r matches Err(m) ==> m@ == "Codex planning visual context exceeds 8 images"@,
{
    if count > MAX_PLANNING_VISUALS {
        Err("Codex planning visual context exceeds 8 images")
    } else {
        Ok(())
    }
}

/// A planning image names its asset (1 to 256 UTF-8 bytes, no control
/// character) and is a contact sheet or a thumbnail.
pub open spec fn visual_metadata_ok(asset_id: Seq<char>, role: Seq<char>) -> bool {
    &&& 0 < vstd::utf8::encode_utf8(asset_id).len() <= 256
    &&& no_control(asset_id)
    &&& (role == "contactSheet"@ || role == "thumbnail"@)
}

/// An absolute path without `..` that lies beneath the isolated directory,
/// as given or as canonicalized.
pub open spec fn inside_isolated(path: Seq<char>, cwd: Seq<char>, canonical_cwd: Seq<char>) -> bool {
    &&& is_absolute_spec(path)
    &&& !has_parent_component(path)
    &&& (path_starts_with(path, cwd) || path_starts_with(path, canonical_cwd))
}

fn inside_isolated_exec(path: &str, cwd: &str, canonical_cwd: &str) -> (r: bool)
    ensures
        r == inside_isolated(path@, cwd@, canonical_cwd@),
{
    crate::paths::is_absolute(path) && !crate::paths::has_parent_dir(path) && (
    crate::paths::starts_with_path(path, cwd) || crate::paths::starts_with_path(
        path,
        canonical_cwd,
    ))
}

/// Checks what can be checked of a planning image before touching the
/// disk: its metadata, then where its path points.
pub fn check_planning_visual(visual: &CodexPlanningVisual, cwd: &str, canonical_cwd: &str) -> (r:
    Result<(), &'static str>)
    ensures
        !visual_metadata_ok(visual.asset_id@, visual.role@) ==> (r matches Err(m) && m@ == "Codex planning visual metadata is invalid"@),
        visual_metadata_ok(visual.asset_id@, visual.role@) && !inside_isolated(
            visual.path@,
            cwd@,
            canonical_cwd@,
        ) ==> (r matches Err(m) && m@ == "Codex planning visual path is outside the isolated directory"@),
        r is Ok <==> visual_metadata_ok(visual.asset_id@, visual.role@) && inside_isolated(
            visual.path@,
            cwd@,
            canonical_cwd@,
        ),
{
    let id = visual.asset_id.as_str();
    let n = id.as_bytes().len();
    let cs = chars_of(id);
    let role_ok = crate::text::str_eq(visual.role, "contactSheet") || crate::text::str_eq(
        visual.role,
        "thumbnail",
    );
    if n == 0 || n > 256 || crate::text::any_control(cs.as_slice()) || !role_ok {
        return Err("Codex planning visual metadata is invalid");
    }
    if !inside_isolated_exec(visual.path.as_str(), cwd, canonical_cwd) {
        return Err("Codex planning visual path is outside the isolated directory");
    }
    Ok(())
}

/// A regular file that is not a symbolic link, of 1 to `max` bytes.
pub open spec fn bounded_regular_file(is_symlink: bool, is_file: bool, len: u64, max: u64) -> bool {
    !is_symlink && is_file && 0 < len <= max
}

pub fn check_planning_visual_file(is_symlink: bool, is_file: bool, len: u64) -> (r: Result<
    (),
    &'static str,
>)
    ensures
        r is Ok <==> bounded_regular_file(is_symlink, is_file, len, MAX_PLANNING_VISUAL_BYTES),
        r matches Err(m) ==> m@ == "Codex planning visual is not a bounded regular file"@,
{
    if is_symlink || !is_file || len == 0 || len > MAX_PLANNING_VISUAL_BYTES {
        Err("Codex planning visual is not a bounded regular file")
    } else {
        Ok(())
    }
}

pub fn check_planning_visual_resolved(canonical_path: &str, canonical_cwd: &str) -> (r: Result<
    (),
    &'static str,
>)
    ensures
        r is Ok <==> path_starts_with(canonical_path@, canonical_cwd@),
        r matches Err(m) ==> m@ == "Codex planning visual resolves outside the isolated directory"@,
{
    if crate::paths::starts_with_path(canonical_path, canonical_cwd) {
        Ok(())
    } else {
        Err("Codex planning visual resolves outside the isolated directory")
    }
}

/// The leading bytes of a JPEG, PNG or WebP image.
pub open spec fn raster_prefix(p: Seq<u8>) -> bool {
    ||| crate::text::starts_with_spec(p, seq![0xffu8, 0xd8, 0xff])
    ||| crate::text::starts_with_spec(p, seq![0x89u8, 0x50, 0x4e, 0x47, 0x0d, 0x0a, 0x1a, 0x0a])
    ||| (p.len() >= 12 && p.subrange(0, 4) == seq![0x52u8, 0x49, 0x46, 0x46] && p.subrange(8, 12)
        == seq![0x57u8, 0x45, 0x42, 0x50])
}

pub fn is_raster_prefix(prefix: &[u8]) -> (r: bool)
    ensures
        r == raster_prefix(prefix@),
{
    let riff = prefix.len() >= 12 && crate::text::bytes_start_with(prefix, &[0x52u8, 0x49, 0x46, 0x46])
        && prefix[8] == 0x57 && prefix[9] == 0x45 && prefix[10] == 0x42 && prefix[11] == 0x50;
    proof {
        if prefix.len() >= 12 {
            let w = prefix@.subrange(8, 12);
            if prefix@[8] == 0x57 && prefix@[9] == 0x45 && prefix@[10] == 0x42 && prefix@[11]
                == 0x50 {
                assert(w =~= seq![0x57u8, 0x45, 0x42, 0x50]);
            }
            if w == seq![0x57u8, 0x45, 0x42, 0x50] {
                assert(w[0] == prefix@[8]);
                assert(w[1] == prefix@[9]);
                assert(w[2] == prefix@[10]);
                assert(w[3] == prefix@[11]);
            }
        }
    }
    crate::text::bytes_start_with(prefix, &[0xffu8, 0xd8, 0xff]) || crate::text::bytes_start_with(
        prefix,
        &[0x89u8, 0x50, 0x4e, 0x47, 0x0d, 0x0a, 0x1a, 0x0a],
    ) || riff
}

pub fn check_planning_visual_raster(prefix: &[u8]) -> (r: Result<(), &'static str>)
    ensures
        r is Ok <==> raster_prefix(prefix@),
        r matches Err(m) ==> m@ == "Codex planning visual is not a recognized raster image"@,
{
    if is_raster_prefix(prefix) {
        Ok(())
    } else {
        Err("Codex planning visual is not a recognized raster image")
    }
}

/// Checks the saved path the image tool reports before touching the disk:
/// it must be absolute, free of `..`, and beneath the isolated directory.
pub fn check_generated_image_location(saved_path: &str, cwd: &str, canonical_cwd: &str) -> (r:
    Result<(), &'static str>)
    ensures
        r is Ok <==> inside_isolated(saved_path@, cwd@, canonical_cwd@),
        !(is_absolute_spec(saved_path@) && !has_parent_component(saved_path@)) ==> (r matches Err(m) && m@ == "Codex generated image path must be absolute and normalized"@),
        is_absolute_spec(saved_path@) && !has_parent_component(saved_path@) && !inside_isolated(
            saved_path@,
            cwd@,
            canonical_cwd@,
        ) ==> (r matches Err(m) && m@ == "Codex generated image path is outside the isolated directory"@),
{
    if !crate::paths::is_absolute(saved_path) || crate::paths::has_parent_dir(saved_path) {
        return Err("Codex generated image path must be absolute and normalized");
    }
    if !crate::paths::starts_with_path(saved_path, cwd) && !crate::paths::starts_with_path(
        saved_path,
        canonical_cwd,
    ) {
        return Err("Codex generated image path is outside the isolated directory");
    }
    Ok(())
}

/// Checks the generated file itself: a regular non-symlink file of 1 byte
/// to 100 MiB whose canonical path stays beneath the canonical directory.
pub fn check_generated_image_file(
    is_symlink: bool,
    is_file: bool,
    len: u64,
    canonical_path: &str,
    canonical_cwd: &str,
) -> (r: Result<(), &'static str>)
    ensures
        r is Ok <==> bounded_regular_file(is_symlink, is_file, len, MAX_CODEX_IMAGE_BYTES)
            && path_starts_with(canonical_path@, canonical_cwd@),
        (is_symlink || !is_file) ==> (r matches Err(m) && m@ == "Codex generated image is not a regular non-symlink file"@),
        !is_symlink && is_file && !(0 < len <= MAX_CODEX_IMAGE_BYTES) ==> (r matches Err(m) && m@ == "Codex generated image exceeds the allowed size"@),
        bounded_regular_file(is_symlink, is_file, len, MAX_CODEX_IMAGE_BYTES) && !path_starts_with(
            canonical_path@,
            canonical_cwd@,
        ) ==> (r matches Err(m) && m@ == "Codex generated image resolves outside the isolated directory"@),
{
    if is_symlink || !is_file {
        return Err("Codex generated image is not a regular non-symlink file");
    }
    if len == 0 || len > MAX_CODEX_IMAGE_BYTES {
        return Err("Codex generated image exceeds the allowed size");
    }
    if !crate::paths::starts_with_path(canonical_path, canonical_cwd) {
        return Err("Codex generated image resolves outside the isolated directory");
    }
    Ok(())
}

} // verus!

verus! {

/// The longest plan summary, in UTF-8 bytes.
pub const MAX_PLAN_SUMMARY_BYTES: usize = 4000;

/// The most operations one plan may carry.
pub const MAX_PLAN_OPERATIONS: usize = 1000;

/// Checks a plan's summary (not blank, at most 4000 bytes) and the number
/// of its operations (at most 1000).
pub fn check_plan_summary(summary: &str, operation_count: usize) -> (r: Result<(), &'static str>)
    ensures
        r is Ok <==> crate::text::trim_spec(summary@).len() > 0 && vstd::utf8::encode_utf8(
            summary@,
        ).len() <= MAX_PLAN_SUMMARY_BYTES && operation_count <= MAX_PLAN_OPERATIONS,
        !(crate::text::trim_spec(summary@).len() > 0 && vstd::utf8::encode_utf8(summary@).len()
            <= MAX_PLAN_SUMMARY_BYTES) ==> (r matches Err(m) && m@
            == "Agent edit-plan summary is empty or too long"@),
{
    let cs = chars_of(summary);
    let t = crate::text::trim(cs.as_slice());
    if t.len() == 0 || summary.as_bytes().len() > MAX_PLAN_SUMMARY_BYTES {
        return Err("Agent edit-plan summary is empty or too long");
    }
    if operation_count > MAX_PLAN_OPERATIONS {
        return Err("Agent edit plan contains too many operations");
    }
    Ok(())
}

/// A plan either queues durable capability work or edits the timeline and
/// motion graphics, never both.
pub fn check_plan_not_mixed(capability_calls: usize, operations: usize, has_motion_graphic: bool) -> (r:
    Result<(), &'static str>)
    ensures
        r is Ok <==> capability_calls == 0 || (operations == 0 && !has_motion_graphic),
        r matches Err(m) ==> m@
            == "Agent plan must not mix capability calls with timeline or motion-graphic edits"@,
{
    if capability_calls > 0 && (operations > 0 || has_motion_graphic) {
        Err("Agent plan must not mix capability calls with timeline or motion-graphic edits")
    } else {
        Ok(())
    }
}

/// An encoded plan member that holds nothing but whitespace.
pub fn encoded_member_is_blank(encoded: &str) -> (r: bool)
    ensures
        r == (crate::text::trim_spec(encoded@).len() == 0),
{
    let cs = chars_of(encoded);
    crate::text::trim(cs.as_slice()).len() == 0
}

/// An operation in the externally tagged shape `{"kind": {fields}}`: a
/// one-member object without `type` whose member is an object.
pub open spec fn externally_tagged(op: JsonValue) -> bool {
    match op {
        JsonValue::Object(entries) => entries.len() == 1 && crate::json::object_lookup(
            entries@,
            "type"@,
        ) is None && entries@[0].1 is Object,
        _ => false,
    }
}

/// What a normalized operation holds: an externally tagged one becomes its
/// fields with `type` set to its tag; any other one stays as it was.
pub open spec fn normalized_as(op: JsonValue, out: JsonValue) -> bool {
    if externally_tagged(op) {
        let tag = op->Object_0@[0].0@;
        let fields = op->Object_0@[0].1;
        &&& out is Object
        &&& out.field_str("type"@) == Some(tag)
        &&& forall|k: Seq<char>| k != "type"@ ==> #[trigger] out.field(k) == fields.field(k)
    } else {
        out == op
    }
}

proof fn lemma_lookup_other_key(entries: Seq<(String, JsonValue)>, j: int, v: JsonValue, k: Seq<char>)
    requires
        0 <= j < entries.len(),
        entries[j].0@ != k,
    ensures
        crate::json::object_lookup(entries.update(j, (entries[j].0, v)), k)
            == crate::json::object_lookup(entries, k),
    decreases entries.len(),
{
    let u = entries.update(j, (entries[j].0, v));
    if j > 0 {
        assert(u.drop_first() =~= entries.drop_first().update(j - 1, (entries[j].0, v)));
        assert(entries.drop_first()[j - 1] == entries[j]);
        lemma_lookup_other_key(entries.drop_first(), j - 1, v, k);
    } else {
        assert(u.drop_first() =~= entries.drop_first());
    }
}

proof fn lemma_lookup_updated(entries: Seq<(String, JsonValue)>, j: int, v: JsonValue)
    requires
        0 <= j < entries.len(),
        forall|i: int| 0 <= i < j ==> entries[i].0@ != entries[j].0@,
    ensures
        crate::json::object_lookup(entries.update(j, (entries[j].0, v)), entries[j].0@) == Some(v),
    decreases entries.len(),
{
    let u = entries.update(j, (entries[j].0, v));
    if j > 0 {
        assert(u.drop_first() =~= entries.drop_first().update(j - 1, (entries[j].0, v)));
        assert(entries.drop_first()[j - 1] == entries[j]);
        assert forall|i: int| 0 <= i < j - 1 implies (#[trigger] entries.drop_first()[i]).0@ != entries.drop_first()[j - 1].0@ by {
            assert(entries.drop_first()[i] == entries[i + 1]);
        }
        lemma_lookup_updated(entries.drop_first(), j - 1, v);
        assert(u[0] == entries[0]);
    }
}

proof fn lemma_lookup_pushed(entries: Seq<(String, JsonValue)>, key: String, v: JsonValue, k: Seq<char>)
    requires
        crate::json::object_lookup(entries, key@) is None,
    ensures
        crate::json::object_lookup(entries.push((key, v)), k) == if k == key@ {
            Some(v)
        } else {
            crate::json::object_lookup(entries, k)
        },
    decreases entries.len(),
{
    let p = entries.push((key, v));
    if entries.len() == 0 {
        assert(p.drop_first() =~= Seq::<(String, JsonValue)>::empty());
    } else {
        assert(p.drop_first() =~= entries.drop_first().push((key, v)));
        if entries[0].0@ != key@ {
            lemma_lookup_pushed(entries.drop_first(), key, v, k);
        }
    }
}

fn find_key(entries: &Vec<(String, JsonValue)>, key: &str) -> (r: Option<usize>)
    ensures
        match r {
            Some(j) => j < entries.len() && entries@[j as int].0@ == key@ && forall|i: int|
                0 <= i < j ==> entries@[i].0@ != key@,
            None => forall|i: int| 0 <= i < entries.len() ==> entries@[i].0@ != key@,
        },
{
    let mut i: usize = 0;
    while i < entries.len()
        invariant
            i <= entries.len(),
            forall|j: int| 0 <= j < i ==> entries@[j].0@ != key@,
        decreases entries.len() - i,
    {
        if crate::text::str_eq(entries[i].0.as_str(), key) {
            return Some(i);
        }
        i += 1;
    }
    None
}

proof fn lemma_lookup_none(entries: Seq<(String, JsonValue)>, k: Seq<char>)
    requires
        forall|i: int| 0 <= i < entries.len() ==> entries[i].0@ != k,
    ensures
        crate::json::object_lookup(entries, k) is None,
    decreases entries.len(),
{
    if entries.len() > 0 {
        assert forall|i: int| 0 <= i < entries.drop_first().len() implies entries.drop_first()[i].0@ != k by {
            assert(entries.drop_first()[i] == entries[i + 1]);
        }
        lemma_lookup_none(entries.drop_first(), k);
    }
}

/// Rewrites one operation from the externally tagged shape to the flat one.
pub fn normalize_operation(op: JsonValue) -> (r: JsonValue)
    ensures
        normalized_as(op, r),
{
    let ghost op0 = op;
    match op {
        JsonValue::Object(mut entries) => {
            let has_type = find_key(&entries, "type");
            proof {
                if has_type is None {
                    lemma_lookup_none(entries@, "type"@);
                } else {
                    assert(crate::json::object_lookup(entries@, "type"@) is Some) by {
                        lemma_first_key_found(entries@, has_type.unwrap() as int, "type"@);
                    }
                }
            }
            if entries.len() != 1 || has_type.is_some() {
                return JsonValue::Object(entries);
            }
            let member_is_object = match &entries[0].1 {
                JsonValue::Object(_) => true,
                _ => false,
            };
            if !member_is_object {
                return JsonValue::Object(entries);
            }
            let ghost e0 = entries@[0];
            let (tag, fields) = entries.pop().unwrap();
            match fields {
                JsonValue::Object(mut members) => {
                    let ghost m0 = members@;
                    match find_key(&members, "type") {
                        Some(j) => {
                            let key = members[j].0.clone();
                            members.set(j, (key, JsonValue::Str(tag)));
                            proof {
                                assert(members@ == m0.update(j as int, (m0[j as int].0, JsonValue::Str(tag))));
                                lemma_lookup_updated(m0, j as int, JsonValue::Str(tag));
                                assert forall|k: Seq<char>| k != "type"@ implies #[trigger] crate::json::object_lookup(members@, k) == crate::json::object_lookup(m0, k) by {
                                    lemma_lookup_other_key(m0, j as int, JsonValue::Str(tag), k);
                                }
                            }
                            JsonValue::Object(members)
                        },
                        None => {
                            let key = copy_string("type");
                            proof {
                                reveal_strlit("type");
                                lemma_lookup_none(m0, "type"@);
                            }
                            members.push((key, JsonValue::Str(tag)));
                            proof {
                                assert forall|k: Seq<char>| true implies #[trigger] crate::json::object_lookup(members@, k) == if k == key@ {
                                    Some(JsonValue::Str(tag))
                                } else {
                                    crate::json::object_lookup(m0, k)
                                } by {
                                    lemma_lookup_pushed(m0, key, JsonValue::Str(tag), k);
                                }
                            }
                            JsonValue::Object(members)
                        },
                    }
                },
                _ => {
                    proof {
                        assert(e0.1 is Object);
                    }
                    JsonValue::Null
                },
            }
        },
        other => other,
    }
}

proof fn lemma_first_key_found(entries: Seq<(String, JsonValue)>, j: int, k: Seq<char>)
    requires
        0 <= j < entries.len(),
        entries[j].0@ == k,
    ensures
        crate::json::object_lookup(entries, k) is Some,
    decreases entries.len(),
{
    if j > 0 && entries[0].0@ != k {
        assert(entries.drop_first()[j - 1] == entries[j]);
        lemma_first_key_found(entries.drop_first(), j - 1, k);
    }
}

/// Normalizes every operation of a decoded `operationsJson` array.
pub fn normalize_operations(value: JsonValue) -> (r: Result<JsonValue, &'static str>)
    ensures
        match r {
            Ok(JsonValue::Array(out)) => value matches JsonValue::Array(ops) && out.len() == ops.len()
                && forall|i: int| 0 <= i < ops.len() ==> normalized_as(#[trigger] ops@[i], out@[i]),
            Ok(_) => false,
            Err(m) => !(value is Array) && m@ == "Agent operationsJson was not a JSON array"@,
        },
{
    match value {
        JsonValue::Array(ops) => {
            let ghost ops0 = ops@;
            let mut ops = ops;
            let mut out: Vec<JsonValue> = Vec::new();
            let n = ops.len();
            let mut i: usize = 0;
            while i < n
                invariant
                    n == ops0.len(),
                    ops@.len() == n,
                    i <= n,
                    out.len() == i,
                    forall|j: int| i <= j < n ==> ops@[j] == ops0[j],
                    forall|j: int| 0 <= j < i ==> normalized_as(#[trigger] ops0[j], out@[j]),
                decreases n - i,
            {
                let mut taken = JsonValue::Null;
                std::mem::swap(&mut taken, &mut ops[i]);
                let normalized = normalize_operation(taken);
                out.push(normalized);
                i += 1;
            }
            Ok(JsonValue::Array(out))
        },
        _ => Err("Agent operationsJson was not a JSON array"),
    }
}

} // verus!

verus! {

/// The member at `a`, then `b`, of nested objects.
pub open spec fn at2(v: JsonValue, a: Seq<char>, b: Seq<char>) -> Option<JsonValue> {
    match v.field(a) {
        Some(x) => x.field(b),
        None => None,
    }
}

pub open spec fn at3(v: JsonValue, a: Seq<char>, b: Seq<char>, c: Seq<char>) -> Option<JsonValue> {
    match at2(v, a, b) {
        Some(x) => x.field(c),
        None => None,
    }
}

pub open spec fn at4(v: JsonValue, a: Seq<char>, b: Seq<char>, c: Seq<char>, d: Seq<char>) -> Option<
    JsonValue,
> {
    match at3(v, a, b, c) {
        Some(x) => x.field(d),
        None => None,
    }
}

/// The string an optional JSON value holds.
pub open spec fn str_of(o: Option<JsonValue>) -> Option<Seq<char>> {
    match o {
        Some(x) => x.str_view(),
        None => None,
    }
}

fn get2<'a>(v: &'a JsonValue, a: &str, b: &str) -> (r: Option<&'a JsonValue>)
    ensures
        match r {
            Some(x) => at2(*v, a@, b@) == Some(*x),
            None => at2(*v, a@, b@) is None,
        },
{
    match v.get(a) {
        Some(x) => x.get(b),
        None => None,
    }
}

fn get3<'a>(v: &'a JsonValue, a: &str, b: &str, c: &str) -> (r: Option<&'a JsonValue>)
    ensures
        match r {
            Some(x) => at3(*v, a@, b@, c@) == Some(*x),
            None => at3(*v, a@, b@, c@) is None,
        },
{
    match get2(v, a, b) {
        Some(x) => x.get(c),
        None => None,
    }
}

fn get4<'a>(v: &'a JsonValue, a: &str, b: &str, c: &str, d: &str) -> (r: Option<&'a JsonValue>)
    ensures
        match r {
            Some(x) => at4(*v, a@, b@, c@, d@) == Some(*x),
            None => at4(*v, a@, b@, c@, d@) is None,
        },
{
    match get3(v, a, b, c) {
        Some(x) => x.get(d),
        None => None,
    }
}

fn str_in<'a>(o: Option<&'a JsonValue>) -> (r: Option<&'a str>)
    ensures
        match r {
            Some(s) => str_of(match o {
                Some(x) => Some(*x),
                None => None,
            }) == Some(s@),
            None => str_of(match o {
                Some(x) => Some(*x),
                None => None,
            }) is None,
        },
{
    match o {
        Some(x) => x.as_str(),
        None => None,
    }
}

/// The progress a planning step shows the user: the initialize answer when
/// the thread is to be started, the thread's id when the turn is to be
/// started, the accepted turn request, the started turn, and the summary
/// streamed so far; nothing for the other steps.
pub open spec fn plan_event_spec(s: StepView) -> Option<PlanEventView> {
    match s {
        StepView::StartThread => Some(PlanEventView::InitializeCompleted),
        StepView::StartTurn(t) => Some(PlanEventView::ThreadStarted(t)),
        StepView::TurnQueued => Some(PlanEventView::TurnQueued),
        StepView::TurnStarted(t) => Some(PlanEventView::TurnStarted(t)),
        StepView::Streaming(t) => Some(PlanEventView::MessageStreaming(t)),
        _ => None,
    }
}

/// The progress a planning step shows the user (see `plan_event_spec`).
pub fn plan_event(step: &ProtocolStep) -> (r: Option<CodexPlanEvent>)
    ensures
        match r {
            Some(e) => plan_event_spec(step_view(*step)) == Some(plan_event_view(e)),
            None => plan_event_spec(step_view(*step)) is None,
        },
{
    match step {
        ProtocolStep::StartThread => Some(CodexPlanEvent::InitializeCompleted),
        ProtocolStep::StartTurn(t) => Some(CodexPlanEvent::ThreadStarted { thread_id: copy_string(t.as_str()) }),
        ProtocolStep::TurnQueued => Some(CodexPlanEvent::TurnQueued),
        ProtocolStep::TurnStarted(t) => Some(CodexPlanEvent::TurnStarted { turn_id: copy_string(t.as_str()) }),
        ProtocolStep::Streaming(t) => Some(CodexPlanEvent::MessageStreaming { text: copy_string(t.as_str()) }),
        _ => None,
    }
}

/// The longest protocol line the daemon reads, in bytes.
pub const MAX_PROTOCOL_LINE_BYTES: usize = 8388608;

/// What the daemon does with one app-server message.
#[derive(Debug)]
pub enum ProtocolStep {
    /// Abort the turn with this error.
    Fail(String),
    /// Refuse the server's request (`{"decision": "decline"}` under its id).
    Decline,
    /// The server accepted the initialize request: send `initialized`, then
    /// `thread/start`.
    StartThread,
    /// The thread started, with this id: send `turn/start` on it.
    StartTurn(String),
    /// The server accepted the turn request; the turn waits for the model.
    TurnQueued,
    /// Tell the user the turn started.
    TurnStarted(String),
    /// Tell the user the summary streamed so far.
    Streaming(String),
    /// The turn is over: stop reading.
    Finished,
    /// Nothing to do.
    Continue,
}

pub enum StepView {
    Fail(Seq<char>),
    Decline,
    StartThread,
    StartTurn(Seq<char>),
    TurnQueued,
    TurnStarted(Seq<char>),
    Streaming(Seq<char>),
    Finished,
    Continue,
}

pub open spec fn step_view(s: ProtocolStep) -> StepView {
    match s {
        ProtocolStep::Fail(m) => StepView::Fail(m@),
        ProtocolStep::Decline => StepView::Decline,
        ProtocolStep::StartThread => StepView::StartThread,
        ProtocolStep::StartTurn(t) => StepView::StartTurn(t@),
        ProtocolStep::TurnQueued => StepView::TurnQueued,
        ProtocolStep::TurnStarted(t) => StepView::TurnStarted(t@),
        ProtocolStep::Streaming(t) => StepView::Streaming(t@),
        ProtocolStep::Finished => StepView::Finished,
        ProtocolStep::Continue => StepView::Continue,
    }
}

pub open spec fn opt_string_view(o: Option<String>) -> Option<Seq<char>> {
    match o {
        Some(s) => Some(s@),
        None => None,
    }
}

/// What every session does first with a message: refuse an oversized line,
/// fail on a reported error, decline a server request; `None` when the
/// message is a response or a notification to look at further.
pub open spec fn common_step(line_bytes: nat, m: JsonValue) -> Option<StepView> {
    if line_bytes > MAX_PROTOCOL_LINE_BYTES {
        Some(StepView::Fail("Codex app-server emitted an oversized protocol message"@))
    } else if m.field("error"@) is Some {
        Some(StepView::Fail("Codex app-server request failed: "@ + protocol_error_spec(m.field("error"@)->0)))
    } else if m.field("id"@) is Some && m.field("method"@) is Some {
        Some(StepView::Decline)
    } else {
        None
    }
}

fn common_step_exec(line_bytes: usize, m: &JsonValue) -> (r: Option<ProtocolStep>)
    ensures
        match r {
            Some(s) => common_step(line_bytes as nat, *m) == Some(step_view(s)),
            None => common_step(line_bytes as nat, *m) is None,
        },
{
    if line_bytes > MAX_PROTOCOL_LINE_BYTES {
        return Some(ProtocolStep::Fail(copy_string("Codex app-server emitted an oversized protocol message")));
    }
    match m.get("error") {
        Some(e) => {
            let mut v = chars_of("Codex app-server request failed: ");
            let detail = safe_protocol_error(e);
            crate::text::push_str(&mut v, detail.as_str());
            return Some(ProtocolStep::Fail(string_of(v.as_slice())));
        },
        None => {},
    }
    if m.get("id").is_some() && m.get("method").is_some() {
        return Some(ProtocolStep::Decline);
    }
    None
}

/// A notification about the session's thread: its `params.threadId` is the
/// thread the session started (both absent counts as the same).
pub open spec fn on_thread(m: JsonValue, thread_id: Option<Seq<char>>) -> bool {
    str_of(at2(m, "params"@, "threadId"@)) == thread_id
}

fn on_thread_exec(m: &JsonValue, thread_id: &Option<String>) -> (r: bool)
    ensures
        r == on_thread(*m, opt_string_view(*thread_id)),
{
    match (str_in(get2(m, "params", "threadId")), thread_id) {
        (Some(a), Some(b)) => crate::text::str_eq(a, b.as_str()),
        (None, None) => true,
        _ => false,
    }
}

fn method_is(m: &JsonValue, name: &str) -> (r: bool)
    ensures
        r == (m.field_str("method"@) == Some(name@)),
{
    match m.get_str("method") {
        Some(s) => crate::text::str_eq(s, name),
        None => false,
    }
}

} // verus!

verus! {

/// The text of the last agent message among a completed turn's items.
pub open spec fn last_agent_text(items: Seq<JsonValue>) -> Option<Seq<char>>
    decreases items.len(),
{
    if items.len() == 0 {
        None
    } else {
        let it = items.last();
        if it.field_str("type"@) == Some("agentMessage"@) && it.field_str("text"@) is Some {
            it.field_str("text"@)
        } else {
            last_agent_text(items.drop_last())
        }
    }
}

fn last_agent_text_exec(items: &Vec<JsonValue>) -> (r: Option<String>)
    ensures
        opt_string_view(r) == last_agent_text(items@),
{
    let mut k: usize = items.len();
    assert(items@.subrange(0, k as int) =~= items@);
    while k > 0
        invariant
            k <= items.len(),
            last_agent_text(items@) == last_agent_text(items@.subrange(0, k as int)),
        decreases k,
    {
        let it = &items[k - 1];
        let ghost pre = items@.subrange(0, k as int);
        assert(pre.last() == *it);
        assert(pre.drop_last() =~= items@.subrange(0, k - 1));
        let is_agent = match it.get_str("type") {
            Some(t) => crate::text::str_eq(t, "agentMessage"),
            None => false,
        };
        if is_agent {
            match it.get_str("text") {
                Some(t) => {
                    return Some(copy_string(t));
                },
                None => {},
            }
        }
        k -= 1;
    }
    None
}

/// What a planning session remembers between messages.
pub struct PlannerView {
    pub thread_id: Option<Seq<char>>,
    pub final_message: Option<Seq<char>>,
    pub streamed: Seq<char>,
}

/// One message of a planning turn: the session afterwards and what to do.
pub open spec fn planner_spec(s: PlannerView, line_bytes: nat, m: JsonValue) -> (PlannerView, StepView) {
    match common_step(line_bytes, m) {
        Some(st) => (s, st),
        None => match m.field_u64("id"@) {
            Some(id) => if id == 1 {
                (s, StepView::StartThread)
            } else if id == 2 {
                match str_of(at3(m, "result"@, "thread"@, "id"@)) {
                    Some(t) => (PlannerView { thread_id: Some(t), ..s }, StepView::StartTurn(t)),
                    None => (s, StepView::Fail("Codex thread/start response has no thread id"@)),
                }
            } else if id == 3 {
                (s, StepView::TurnQueued)
            } else {
                (s, StepView::Continue)
            },
            None => {
                let method = m.field_str("method"@);
                if method == Some("turn/started"@) && on_thread(m, s.thread_id) && str_of(
                    at3(m, "params"@, "turn"@, "id"@),
                ) is Some {
                    (s, StepView::TurnStarted(str_of(at3(m, "params"@, "turn"@, "id"@))->0))
                } else if method == Some("item/agentMessage/delta"@) && on_thread(m, s.thread_id)
                    && str_of(at2(m, "params"@, "delta"@)) is Some {
                    let streamed = s.streamed + str_of(at2(m, "params"@, "delta"@))->0;
                    (
                        PlannerView { streamed, ..s },
                        match partial_summary_spec(streamed) {
                            Some(t) => StepView::Streaming(t),
                            None => StepView::Continue,
                        },
                    )
                } else if method == Some("item/completed"@) && str_of(
                    at3(m, "params"@, "item"@, "type"@),
                ) == Some("agentMessage"@) && str_of(at3(m, "params"@, "item"@, "text"@)) is Some {
                    (
                        PlannerView { final_message: str_of(at3(m, "params"@, "item"@, "text"@)), ..s },
                        StepView::Continue,
                    )
                } else if method == Some("turn/completed"@) && on_thread(m, s.thread_id) {
                    let status = match str_of(at3(m, "params"@, "turn"@, "status"@)) {
                        Some(x) => x,
                        None => "failed"@,
                    };
                    if status != "completed"@ {
                        (
                            s,
                            StepView::Fail(
                                match str_of(at4(m, "params"@, "turn"@, "error"@, "message"@)) {
                                    Some(d) => "Codex planning turn ended with status "@ + status
                                        + ": "@ + take_chars(d, 500),
                                    None => "Codex planning turn ended with status "@ + status,
                                },
                            ),
                        )
                    } else if s.final_message is None {
                        (
                            PlannerView {
                                final_message: match at3(m, "params"@, "turn"@, "items"@) {
                                    Some(JsonValue::Array(items)) => last_agent_text(items@),
                                    _ => None,
                                },
                                ..s
                            },
                            StepView::Finished,
                        )
                    } else {
                        (s, StepView::Finished)
                    }
                } else {
                    (s, StepView::Continue)
                }
            },
        },
    }
}

/// The state of one planning turn with the Codex app-server.
#[derive(Debug)]
pub struct PlannerSession {
    pub thread_id: Option<String>,
    /// The final agent message, once one arrived.
    pub final_message: Option<String>,
    /// The agent message text streamed so far.
    pub streamed: Vec<char>,
}

impl PlannerSession {
    pub open spec fn view(&self) -> PlannerView {
        PlannerView {
            thread_id: opt_string_view(self.thread_id),
            final_message: opt_string_view(self.final_message),
            streamed: self.streamed@,
        }
    }

    pub fn new() -> (r: PlannerSession)
        ensures
            r.view() == (PlannerView {
                thread_id: None,
                final_message: None,
                streamed: Seq::empty(),
            }),
    {
        PlannerSession { thread_id: None, final_message: None, streamed: Vec::new() }
    }

    /// Takes one app-server message (its line's length and its decoded
    /// JSON) and says what to do next.
    pub fn step(&mut self, line_bytes: usize, m: &JsonValue) -> (r: ProtocolStep)
        ensures
            (final(self).view(), step_view(r)) == planner_spec(old(self).view(), line_bytes as nat, *m),
    {
        match common_step_exec(line_bytes, m) {
            Some(s) => return s,
            None => {},
        }
        match m.get_u64("id") {
            Some(id) => {
                if id == 1 {
                    return ProtocolStep::StartThread;
                } else if id == 2 {
                    return match str_in(get3(m, "result", "thread", "id")) {
                        Some(t) => {
                            self.thread_id = Some(copy_string(t));
                            ProtocolStep::StartTurn(copy_string(t))
                        },
                        None => ProtocolStep::Fail(copy_string("Codex thread/start response has no thread id")),
                    };
                } else if id == 3 {
                    return ProtocolStep::TurnQueued;
                } else {
                    return ProtocolStep::Continue;
                }
            },
            None => {},
        }
        let on = on_thread_exec(m, &self.thread_id);
        if method_is(m, "turn/started") && on {
            match str_in(get3(m, "params", "turn", "id")) {
                Some(t) => {
                    return ProtocolStep::TurnStarted(copy_string(t));
                },
                None => {},
            }
        }
        if method_is(m, "item/agentMessage/delta") && on {
            match str_in(get2(m, "params", "delta")) {
                Some(d) => {
                    crate::text::push_str(&mut self.streamed, d);
                    let text = string_of(self.streamed.as_slice());
                    return match partial_summary_from_structured_output(text.as_str()) {
                        Some(t) => ProtocolStep::Streaming(t),
                        None => ProtocolStep::Continue,
                    };
                },
                None => {},
            }
        }
        if method_is(m, "item/completed") {
            let is_agent = match str_in(get3(m, "params", "item", "type")) {
                Some(t) => crate::text::str_eq(t, "agentMessage"),
                None => false,
            };
            if is_agent {
                match str_in(get3(m, "params", "item", "text")) {
                    Some(t) => {
                        self.final_message = Some(copy_string(t));
                        return ProtocolStep::Continue;
                    },
                    None => {},
                }
            }
        }
        if method_is(m, "turn/completed") && on {
            let status = match str_in(get3(m, "params", "turn", "status")) {
                Some(x) => x,
                None => "failed",
            };
            if !crate::text::str_eq(status, "completed") {
                let mut v = chars_of("Codex planning turn ended with status ");
                crate::text::push_str(&mut v, status);
                match str_in(get4(m, "params", "turn", "error", "message")) {
                    Some(d) => {
                        crate::text::push_str(&mut v, ": ");
                        let dc = chars_of(d);
                        let mut t = take_prefix(dc.as_slice(), 500);
                        v.append(&mut t);
                    },
                    None => {},
                }
                return ProtocolStep::Fail(string_of(v.as_slice()));
            }
            if self.final_message.is_none() {
                self.final_message = match get3(m, "params", "turn", "items") {
                    Some(JsonValue::Array(items)) => last_agent_text_exec(items),
                    _ => None,
                };
            }
            return ProtocolStep::Finished;
        }
        ProtocolStep::Continue
    }
}

} // verus!

verus! {

/// The longest revised prompt an image may come back with, in UTF-8 bytes.
pub const MAX_REVISED_PROMPT_BYTES: usize = 20000;

pub struct GeneratedView {
    pub path: Seq<char>,
    pub revised_prompt: Option<Seq<char>>,
}

/// What an image session remembers between messages.
pub struct ImageView {
    pub thread_id: Option<Seq<char>>,
    pub generated: Option<GeneratedView>,
}

/// The outcome of an `imageGeneration` item: the image, or why it is refused.
pub open spec fn generated_item_spec(m: JsonValue) -> Result<GeneratedView, Seq<char>> {
    let status = match str_of(at3(m, "params"@, "item"@, "status"@)) {
        Some(x) => x,
        None => "failed"@,
    };
    if !(status == "completed"@ || status == "succeeded"@ || status == "success"@) {
        Err("Codex image item ended with status "@ + status)
    } else {
        match str_of(at3(m, "params"@, "item"@, "savedPath"@)) {
            None => Err("Codex image item was not saved to a local path"@),
            Some(p) => {
                let revised = str_of(at3(m, "params"@, "item"@, "revisedPrompt"@));
                if revised matches Some(rp) && vstd::utf8::encode_utf8(rp).len()
                    > MAX_REVISED_PROMPT_BYTES {
                    Err("Codex revised image prompt exceeds the 20000-byte limit"@)
                } else {
                    Ok(GeneratedView { path: p, revised_prompt: revised })
                }
            },
        }
    }
}

/// One message of an image turn: the session afterwards and what to do.
pub open spec fn image_spec(s: ImageView, line_bytes: nat, m: JsonValue) -> (ImageView, StepView) {
    match common_step(line_bytes, m) {
        Some(st) => (s, st),
        None => match m.field_u64("id"@) {
            Some(id) => if id == 1 {
                (s, StepView::StartThread)
            } else if id == 2 {
                match str_of(at3(m, "result"@, "thread"@, "id"@)) {
                    Some(t) => (ImageView { thread_id: Some(t), ..s }, StepView::StartTurn(t)),
                    None => (s, StepView::Fail("Codex thread/start response has no thread id"@)),
                }
            } else {
                (s, StepView::Continue)
            },
            None => {
                let method = m.field_str("method"@);
                if method == Some("item/completed"@) && on_thread(m, s.thread_id) && str_of(
                    at3(m, "params"@, "item"@, "type"@),
                ) == Some("imageGeneration"@) {
                    if s.generated is Some {
                        (s, StepView::Fail("Codex image turn returned more than one generated image"@))
                    } else {
                        match generated_item_spec(m) {
                            Err(e) => (s, StepView::Fail(e)),
                            Ok(g) => (ImageView { generated: Some(g), ..s }, StepView::Continue),
                        }
                    }
                } else if method == Some("turn/completed"@) && on_thread(m, s.thread_id) {
                    let status = match str_of(at3(m, "params"@, "turn"@, "status"@)) {
                        Some(x) => x,
                        None => "failed"@,
                    };
                    if status != "completed"@ {
                        (s, StepView::Fail("Codex image turn ended with status "@ + status))
                    } else {
                        (s, StepView::Finished)
                    }
                } else {
                    (s, StepView::Continue)
                }
            },
        },
    }
}

/// The state of one image turn with the Codex app-server.
#[derive(Debug)]
pub struct ImageSession {
    pub thread_id: Option<String>,
    /// The image the turn produced, once it did.
    pub generated: Option<CodexGeneratedImage>,
}

pub open spec fn generated_view(g: CodexGeneratedImage) -> GeneratedView {
    GeneratedView { path: g.path@, revised_prompt: opt_string_view(g.revised_prompt) }
}

impl ImageSession {
    pub open spec fn view(&self) -> ImageView {
        ImageView {
            thread_id: opt_string_view(self.thread_id),
            generated: match self.generated {
                Some(g) => Some(generated_view(g)),
                None => None,
            },
        }
    }

    pub fn new() -> (r: ImageSession)
        ensures
            r.view() == (ImageView { thread_id: None, generated: None }),
    {
        ImageSession { thread_id: None, generated: None }
    }

    fn generated_item(m: &JsonValue) -> (r: Result<CodexGeneratedImage, String>)
        ensures
            match r {
                Ok(g) => generated_item_spec(*m) == Ok::<GeneratedView, Seq<char>>(generated_view(g)),
                Err(e) => generated_item_spec(*m) == Err::<GeneratedView, Seq<char>>(e@),
            },
    {
        let status = match str_in(get3(m, "params", "item", "status")) {
            Some(x) => x,
            None => "failed",
        };
        if !(crate::text::str_eq(status, "completed") || crate::text::str_eq(status, "succeeded")
            || crate::text::str_eq(status, "success")) {
            let mut v = chars_of("Codex image item ended with status ");
            crate::text::push_str(&mut v, status);
            return Err(string_of(v.as_slice()));
        }
        let path = match str_in(get3(m, "params", "item", "savedPath")) {
            Some(p) => p,
            None => return Err(copy_string("Codex image item was not saved to a local path")),
        };
        let revised = match str_in(get3(m, "params", "item", "revisedPrompt")) {
            Some(rp) => {
                if rp.as_bytes().len() > MAX_REVISED_PROMPT_BYTES {
                    return Err(copy_string("Codex revised image prompt exceeds the 20000-byte limit"));
                }
                Some(copy_string(rp))
            },
            None => None,
        };
        Ok(CodexGeneratedImage { path: copy_string(path), revised_prompt: revised })
    }

    /// Takes one app-server message of an image turn and says what to do.
    pub fn step(&mut self, line_bytes: usize, m: &JsonValue) -> (r: ProtocolStep)
        ensures
            (final(self).view(), step_view(r)) == image_spec(old(self).view(), line_bytes as nat, *m),
    {
        match common_step_exec(line_bytes, m) {
            Some(s) => return s,
            None => {},
        }
        match m.get_u64("id") {
            Some(id) => {
                if id == 1 {
                    return ProtocolStep::StartThread;
                } else if id == 2 {
                    return match str_in(get3(m, "result", "thread", "id")) {
                        Some(t) => {
                            self.thread_id = Some(copy_string(t));
                            ProtocolStep::StartTurn(copy_string(t))
                        },
                        None => ProtocolStep::Fail(copy_string("Codex thread/start response has no thread id")),
                    };
                } else {
                    return ProtocolStep::Continue;
                }
            },
            None => {},
        }
        let on = on_thread_exec(m, &self.thread_id);
        let is_image = match str_in(get3(m, "params", "item", "type")) {
            Some(t) => crate::text::str_eq(t, "imageGeneration"),
            None => false,
        };
        if method_is(m, "item/completed") && on && is_image {
            if self.generated.is_some() {
                return ProtocolStep::Fail(copy_string("Codex image turn returned more than one generated image"));
            }
            return match Self::generated_item(m) {
                Err(e) => ProtocolStep::Fail(e),
                Ok(g) => {
                    self.generated = Some(g);
                    ProtocolStep::Continue
                },
            };
        }
        if method_is(m, "turn/completed") && on {
            let status = match str_in(get3(m, "params", "turn", "status")) {
                Some(x) => x,
                None => "failed",
            };
            if !crate::text::str_eq(status, "completed") {
                let mut v = chars_of("Codex image turn ended with status ");
                crate::text::push_str(&mut v, status);
                return ProtocolStep::Fail(string_of(v.as_slice()));
            }
            return ProtocolStep::Finished;
        }
        ProtocolStep::Continue
    }
}

} // verus!

verus! {

/// The isolated planner never approves anything the app-server asks for:
/// every server request (a message with both an id and a method) that is
/// not an error is declined, and the session is left as it was.
pub proof fn lemma_planner_declines_requests(s: PlannerView, line_bytes: nat, m: JsonValue)
    requires
        line_bytes <= MAX_PROTOCOL_LINE_BYTES,
        m.field("error"@) is None,
        m.field("id"@) is Some,
        m.field("method"@) is Some,
    ensures
        planner_spec(s, line_bytes, m) == (s, StepView::Decline),
{
}

/// The same holds of an image turn.
pub proof fn lemma_image_declines_requests(s: ImageView, line_bytes: nat, m: JsonValue)
    requires
        line_bytes <= MAX_PROTOCOL_LINE_BYTES,
        m.field("error"@) is None,
        m.field("id"@) is Some,
        m.field("method"@) is Some,
    ensures
        image_spec(s, line_bytes, m) == (s, StepView::Decline),
{
}

/// An image turn yields at most one image: once one is recorded, no later
/// message replaces it, and a second image item fails the turn.
pub proof fn lemma_single_generated_image(s: ImageView, line_bytes: nat, m: JsonValue)
    requires
        s.generated is Some,
    ensures
        image_spec(s, line_bytes, m).0.generated == s.generated,
        image_spec(s, line_bytes, m).1 == StepView::Continue ==> image_spec(s, line_bytes, m).0 == s,
{
}

/// The thread a session talks about changes only when the app-server
/// answers the thread start request.
pub proof fn lemma_thread_fixed_by_start_response(s: PlannerView, line_bytes: nat, m: JsonValue)
    requires
        m.field_u64("id"@) != Some(2u64),
    ensures
        planner_spec(s, line_bytes, m).0.thread_id == s.thread_id,
{
}

} // verus!
