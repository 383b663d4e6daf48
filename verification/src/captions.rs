//! Caption requests: which transcript and which of its active words a
//! caption edit covers, in timeline order.
use vstd::prelude::*;
use crate::error::{ApiError, STATUS_BAD_REQUEST};
use crate::json::JsonValue;
use crate::text::{copy_string, str_eq};

verus! {

pub const STATUS_UNPROCESSABLE: u16 = 422;

/// The `options` object of a caption request; `None` when the request has
/// none (no options are set).
pub fn caption_options(input: &JsonValue) -> (r: Result<Option<&JsonValue>, ApiError>)
    ensures
        match input.field("options"@) {
            None => r matches Ok(None),
            Some(JsonValue::Object(_)) => r matches Ok(Some(o)) && input.field("options"@) == Some(*o),
            Some(_) => r matches Err(e) && e.status == STATUS_BAD_REQUEST && e.code@
                == "invalid_caption_options"@,
        },
{
    match input.get("options") {
        None => Ok(None),
        Some(o) => match o {
            JsonValue::Object(_) => Ok(Some(o)),
            _ => Err(ApiError::bad_request("invalid_caption_options", "options must be an object")),
        },
    }
}

/// Which transcript a caption edit uses.
#[derive(Debug, Clone, Copy, PartialEq, Eq, Structural)]
pub enum TranscriptSelection {
    /// The transcript at this position.
    Selected(usize),
    /// The named transcript does not exist.
    Unknown,
    /// The project has no transcript.
    NoneExists,
    /// Several transcripts exist and none was named.
    Ambiguous,
}

/// The position of the first id equal to `id`.
pub open spec fn position_of(ids: Seq<Seq<char>>, id: Seq<char>) -> Option<int>
    decreases ids.len(),
{
    if ids.len() == 0 {
        None
    } else if ids[0] == id {
        Some(0)
    } else {
        match position_of(ids.drop_first(), id) {
            Some(i) => Some(i + 1),
            None => None,
        }
    }
}

pub open spec fn string_seq_views(v: Seq<String>) -> Seq<Seq<char>> {
    v.map_values(|s: String| s@)
}

/// The transcript named by `options.transcriptId` (when it is a string),
/// else the project's only transcript.
pub open spec fn transcript_selection_spec(ids: Seq<Seq<char>>, options: Option<JsonValue>) -> TranscriptSelection {
    let named = match options {
        Some(o) => o.field_str("transcriptId"@),
        None => None,
    };
    match named {
        Some(t) => match position_of(ids, t) {
            Some(i) => TranscriptSelection::Selected(i as usize),
            None => TranscriptSelection::Unknown,
        },
        None => if ids.len() == 1 {
            TranscriptSelection::Selected(0)
        } else if ids.len() == 0 {
            TranscriptSelection::NoneExists
        } else {
            TranscriptSelection::Ambiguous
        },
    }
}

fn find_position(ids: &Vec<String>, id: &str) -> (r: Option<usize>)
    ensures
        match r {
            Some(i) => i < ids.len() && position_of(string_seq_views(ids@), id@) == Some(i as int),
            None => position_of(string_seq_views(ids@), id@) is None,
        },
{
    let ghost v = string_seq_views(ids@);
    let mut i: usize = 0;
    assert(v.subrange(0, v.len() as int) =~= v);
    while i < ids.len()
        invariant
            i <= ids.len(),
            v == string_seq_views(ids@),
            forall|j: int| 0 <= j < i ==> v[j] != id@,
            position_of(v, id@) == match position_of(v.subrange(i as int, v.len() as int), id@) {
                Some(k) => Some(k + i),
                None => None::<int>,
            },
        decreases ids.len() - i,
    {
        let ghost rest = v.subrange(i as int, v.len() as int);
        assert(rest.drop_first() =~= v.subrange(i + 1, v.len() as int));
        assert(rest[0] == ids@[i as int]@);
        if str_eq(ids[i].as_str(), id) {
            return Some(i);
        }
        i += 1;
    }
    None
}

/// The transcript a caption edit uses (see `transcript_selection_spec`).
pub fn selected_caption_transcript(transcript_ids: &Vec<String>, options: Option<&JsonValue>) -> (r:
    TranscriptSelection)
    ensures
        r == transcript_selection_spec(
            string_seq_views(transcript_ids@),
            match options {
                Some(o) => Some(*o),
                None => None,
            },
        ),
{
    let named = match options {
        Some(o) => o.get_str("transcriptId"),
        None => None,
    };
    match named {
        Some(t) => match find_position(transcript_ids, t) {
            Some(i) => TranscriptSelection::Selected(i),
            None => TranscriptSelection::Unknown,
        },
        None => {
            if transcript_ids.len() == 1 {
                TranscriptSelection::Selected(0)
            } else if transcript_ids.len() == 0 {
                TranscriptSelection::NoneExists
            } else {
                TranscriptSelection::Ambiguous
            }
        },
    }
}

/// The API error for a transcript that cannot be selected; `None` for an
/// unknown transcript, which the API answers with its not-found error.
pub fn transcript_selection_error(selection: TranscriptSelection, transcript_ids: &Vec<String>) -> (r:
    Option<ApiError>)
    ensures
        selection == TranscriptSelection::NoneExists ==> (r matches Some(e) && e.status
            == STATUS_UNPROCESSABLE && e.code@ == "transcript_required"@),
        selection == TranscriptSelection::Ambiguous ==> (r matches Some(e) && e.status
            == STATUS_BAD_REQUEST && e.code@ == "transcript_selection_required"@ && (e.details
            matches Some(d) && d.field("transcriptIds"@) matches Some(JsonValue::Array(items))
            && items.len() == transcript_ids.len())),
        selection is Selected || selection == TranscriptSelection::Unknown ==> r is None,
{
    match selection {
        TranscriptSelection::NoneExists => Some(
            ApiError::new(
                STATUS_UNPROCESSABLE,
                "transcript_required",
                "caption creation requires a transcript",
            ),
        ),
        TranscriptSelection::Ambiguous => {
            let mut items: Vec<JsonValue> = Vec::new();
            let mut i: usize = 0;
            while i < transcript_ids.len()
                invariant
                    i <= transcript_ids.len(),
                    items.len() == i,
                decreases transcript_ids.len() - i,
            {
                items.push(JsonValue::Str(copy_string(transcript_ids[i].as_str())));
                i += 1;
            }
            let mut entries: Vec<(String, JsonValue)> = Vec::new();
            crate::json::insert_entry(&mut entries, "transcriptIds", JsonValue::Array(items));
            Some(
                ApiError::bad_request(
                    "transcript_selection_required",
                    "more than one transcript exists; provide options.transcriptId",
                ).with_details(JsonValue::Object(entries)),
            )
        },
        _ => None,
    }
}


/// The timeline range of an active transcript word.
#[derive(Debug)]
pub struct WordRange {
    pub word_id: String,
    pub start_ticks: i64,
    pub end_ticks: i64,
}

/// The range of the first entry for the word.
pub open spec fn range_of(ranges: Seq<WordRange>, w: Seq<char>) -> Option<(i64, i64)>
    decreases ranges.len(),
{
    if ranges.len() == 0 {
        None
    } else if ranges[0].word_id@ == w {
        Some((ranges[0].start_ticks, ranges[0].end_ticks))
    } else {
        range_of(ranges.drop_first(), w)
    }
}

/// The words a caption request names: `options.wordIds` when given (an
/// array of strings), else every active word.
pub open spec fn requested_words(options: Option<JsonValue>, ranges: Seq<WordRange>) -> Option<
    Result<Seq<Seq<char>>, bool>,
> {
    let given = match options {
        Some(o) => o.field("wordIds"@),
        None => None,
    };
    match given {
        None => Some(Ok(ranges.map_values(|r: WordRange| r.word_id@))),
        Some(JsonValue::Array(items)) => match crate::story::string_list(items@) {
            Some(l) => Some(Ok(l)),
            None => Some(Err(true)),
        },
        Some(_) => Some(Err(false)),
    }
}

/// The word at `k` repeats an earlier one.
pub open spec fn repeats_earlier(list: Seq<Seq<char>>, k: int) -> bool {
    exists|j: int| 0 <= j < k && list[j] == list[k]
}

/// The word at `k` is refused: it repeats an earlier word or is not active.
pub open spec fn word_refused(list: Seq<Seq<char>>, ranges: Seq<WordRange>, k: int) -> bool {
    repeats_earlier(list, k) || range_of(ranges, list[k]) is None
}

/// The sort key of the word at `k`: its range, then its position.
pub open spec fn word_key_lt(list: Seq<Seq<char>>, ranges: Seq<WordRange>, a: int, b: int) -> bool {
    let (sa, ea) = range_of(ranges, list[a]).unwrap();
    let (sb, eb) = range_of(ranges, list[b]).unwrap();
    sa < sb || (sa == sb && (ea < eb || (ea == eb && a < b)))
}

/// `out` lists the words of `list` by range start, then range end, words
/// with equal ranges in their requested order (a stable sort by range).
pub open spec fn in_timeline_order(out: Seq<Seq<char>>, list: Seq<Seq<char>>, ranges: Seq<WordRange>) -> bool {
    exists|p: Seq<int>|
        p.len() == out.len() && (forall|i: int|
            0 <= i < p.len() ==> 0 <= #[trigger] p[i] < list.len() && out[i] == list[p[i]]) && (
        forall|i: int, j: int|
            0 <= i < j < p.len() ==> word_key_lt(list, ranges, #[trigger] p[i], #[trigger] p[j]))
            && (forall|k: int| 0 <= k < list.len() ==> #[trigger] p.contains(k))
}

pub(crate) fn range_index(ranges: &Vec<WordRange>, w: &str) -> (r: Option<usize>)
    ensures
        match r {
            Some(i) => i < ranges.len() && range_of(ranges@, w@) == Some(
                (ranges@[i as int].start_ticks, ranges@[i as int].end_ticks),
            ),
            None => range_of(ranges@, w@) is None,
        },
{
    let mut i: usize = 0;
    assert(ranges@.subrange(0, ranges.len() as int) =~= ranges@);
    while i < ranges.len()
        invariant
            i <= ranges.len(),
            range_of(ranges@, w@) == range_of(ranges@.subrange(i as int, ranges.len() as int), w@),
        decreases ranges.len() - i,
    {
        let ghost rest = ranges@.subrange(i as int, ranges.len() as int);
        assert(rest.drop_first() =~= ranges@.subrange(i + 1, ranges.len() as int));
        assert(rest[0] == ranges@[i as int]);
        if str_eq(ranges[i].word_id.as_str(), w) {
            return Some(i);
        }
        i += 1;
    }
    None
}

fn requested_word_list(options: Option<&JsonValue>, ranges: &Vec<WordRange>) -> (r: Result<
    Vec<String>,
    ApiError,
>)
    ensures
        match requested_words(
            match options {
                Some(o) => Some(*o),
                None => None,
            },
            ranges@,
        ) {
            Some(Ok(l)) => r matches Ok(v) && string_seq_views(v@) == l,
            Some(Err(non_string)) => r matches Err(e) && e.status == STATUS_BAD_REQUEST && e.code@
                == "invalid_caption_word_ids"@ && e.message@ == (if non_string {
                "options.wordIds must contain stable string IDs"@
            } else {
                "options.wordIds must be an array"@
            }),
            None => false,
        },
{
    let given = match options {
        Some(o) => o.get("wordIds"),
        None => None,
    };
    match given {
        None => {
            let mut out: Vec<String> = Vec::new();
            let mut i: usize = 0;
            while i < ranges.len()
                invariant
                    i <= ranges.len(),
                    out.len() == i,
                    forall|k: int| 0 <= k < i ==> (#[trigger] out@[k])@ == ranges@[k].word_id@,
                decreases ranges.len() - i,
            {
                out.push(copy_string(ranges[i].word_id.as_str()));
                i += 1;
            }
            assert(string_seq_views(out@) =~= ranges@.map_values(|r: WordRange| r.word_id@));
            Ok(out)
        },
        Some(v) => match v {
            JsonValue::Array(items) => {
                let mut out: Vec<String> = Vec::new();
                let mut i: usize = 0;
                assert(string_seq_views(out@) =~= Seq::<Seq<char>>::empty());
                while i < items.len()
                    invariant
                        i <= items.len(),
                        match options {
                            Some(o) => o.field("wordIds"@),
                            None => None,
                        } == Some(JsonValue::Array(*items)),
                        crate::story::string_list(items@.subrange(0, i as int)) == Some(
                            string_seq_views(out@),
                        ),
                    decreases items.len() - i,
                {
                    assert(items@.subrange(0, i + 1).drop_last() =~= items@.subrange(0, i as int));
                    assert(items@.subrange(0, i + 1).last() == items@[i as int]);
                    match items[i].as_str() {
                        Some(t) => {
                            let ghost before = string_seq_views(out@);
                            out.push(copy_string(t));
                            assert(string_seq_views(out@) =~= before.push(t@));
                        },
                        None => {
                            proof {
                                assert(crate::story::string_list(items@.subrange(0, i + 1)) is None);
                                lemma_string_list_none(items@, i + 1);
                            }
                            return Err(
                                ApiError::bad_request(
                                    "invalid_caption_word_ids",
                                    "options.wordIds must contain stable string IDs",
                                ),
                            );
                        },
                    }
                    i += 1;
                }
                assert(items@.subrange(0, items.len() as int) =~= items@);
                Ok(out)
            },
            _ => Err(
                ApiError::bad_request("invalid_caption_word_ids", "options.wordIds must be an array"),
            ),
        },
    }
}

proof fn lemma_string_list_none(items: Seq<JsonValue>, k: int)
    requires
        0 <= k <= items.len(),
        crate::story::string_list(items.subrange(0, k)) is None,
    ensures
        crate::story::string_list(items) is None,
    decreases items.len() - k,
{
    if k == items.len() {
        assert(items.subrange(0, k) =~= items);
    } else {
        assert(items.drop_last().subrange(0, k) =~= items.subrange(0, k));
        lemma_string_list_none(items.drop_last(), k);
    }
}


/// The first refused word among the first `n`.
pub open spec fn first_refused_word(list: Seq<Seq<char>>, ranges: Seq<WordRange>, n: int) -> Option<int>
    decreases n,
{
    if n <= 0 {
        None
    } else {
        match first_refused_word(list, ranges, n - 1) {
            Some(k) => Some(k),
            None => if word_refused(list, ranges, n - 1) {
                Some(n - 1)
            } else {
                None
            },
        }
    }
}

proof fn lemma_first_refused_stays(list: Seq<Seq<char>>, ranges: Seq<WordRange>, k: int, m: int)
    requires
        0 <= k <= m,
        first_refused_word(list, ranges, k) is Some,
    ensures
        first_refused_word(list, ranges, m) == first_refused_word(list, ranges, k),
    decreases m - k,
{
    if m > k {
        lemma_first_refused_stays(list, ranges, k, m - 1);
    }
}

/// Checks every requested word in order (no repeat, active) and collects the
/// range of each.
fn word_ranges(list: &Vec<String>, ranges: &Vec<WordRange>) -> (r: Result<(Vec<i64>, Vec<i64>), ApiError>)
    ensures
        ({
            let l = string_seq_views(list@);
            match first_refused_word(l, ranges@, l.len() as int) {
                Some(k) => r matches Err(e) && if repeats_earlier(l, k) {
                    e.status == STATUS_BAD_REQUEST && e.code@ == "duplicate_caption_word"@
                } else {
                    e.status == STATUS_UNPROCESSABLE && e.code@ == "inactive_caption_word"@ && (
                    e.details matches Some(d) && d.field_str("wordId"@) == Some(l[k]))
                },
                None => r matches Ok((starts, ends)) && starts.len() == l.len() && ends.len() == l.len()
                    && forall|k: int|
                    0 <= k < l.len() ==> range_of(ranges@, l[k]) == Some(
                        (#[trigger] starts@[k], ends@[k]),
                    ),
            }
        }),
{
    let ghost l = string_seq_views(list@);
    let mut starts: Vec<i64> = Vec::new();
    let mut ends: Vec<i64> = Vec::new();
    let mut k: usize = 0;
    while k < list.len()
        invariant
            k <= list.len(),
            l == string_seq_views(list@),
            first_refused_word(l, ranges@, k as int) is None,
            starts.len() == k,
            ends.len() == k,
            forall|q: int| 0 <= q < k ==> range_of(ranges@, l[q]) == Some((#[trigger] starts@[q], ends@[q])),
        decreases list.len() - k,
    {
        let mut repeated = false;
        let mut j: usize = 0;
        while j < k
            invariant
                j <= k,
                k < list.len(),
                l == string_seq_views(list@),
                repeated == exists|q: int| 0 <= q < j && l[q] == l[k as int],
            decreases k - j,
        {
            if str_eq(list[j].as_str(), list[k].as_str()) {
                assert(l[j as int] == l[k as int]);
                repeated = true;
            }
            j += 1;
        }
        if repeated {
            proof {
                assert(repeats_earlier(l, k as int));
                assert(first_refused_word(l, ranges@, k + 1) == Some(k as int));
                lemma_first_refused_stays(l, ranges@, k + 1, l.len() as int);
            }
            return Err(
                ApiError::bad_request(
                    "duplicate_caption_word",
                    "options.wordIds must not contain duplicates",
                ),
            );
        }
        match range_index(ranges, list[k].as_str()) {
            None => {
                let mut entries: Vec<(String, JsonValue)> = Vec::new();
                crate::json::insert_entry(
                    &mut entries,
                    "wordId",
                    JsonValue::Str(copy_string(list[k].as_str())),
                );
                proof {
                    assert(!repeats_earlier(l, k as int));
                    assert(first_refused_word(l, ranges@, k + 1) == Some(k as int));
                    lemma_first_refused_stays(l, ranges@, k + 1, l.len() as int);
                }
                return Err(
                    ApiError::new(
                        STATUS_UNPROCESSABLE,
                        "inactive_caption_word",
                        "captions can only anchor to active transcript words",
                    ).with_details(JsonValue::Object(entries)),
                );
            },
            Some(i) => {
                starts.push(ranges[i].start_ticks);
                ends.push(ranges[i].end_ticks);
                assert(!repeats_earlier(l, k as int));
            },
        }
        k += 1;
    }
    Ok((starts, ends))
}

/// The positions of the words in timeline order (see `in_timeline_order`).
pub(crate) fn timeline_positions(starts: &Vec<i64>, ends: &Vec<i64>) -> (order: Vec<usize>)
    requires
        starts.len() == ends.len(),
    ensures
        order.len() == starts.len(),
        forall|i: int| 0 <= i < order.len() ==> #[trigger] order@[i] < starts.len(),
        forall|i: int, j: int|
            0 <= i < j < order.len() ==> key_before(starts@, ends@, #[trigger] order@[i] as int, #[trigger] order@[j] as int),
        forall|k: int| 0 <= k < starts.len() ==> #[trigger] order@.contains(k as usize),
{
    let n = starts.len();
    let mut taken: Vec<bool> = Vec::new();
    let mut t: usize = 0;
    while t < n
        invariant
            t <= n,
            taken.len() == t,
            forall|q: int| 0 <= q < t ==> !(#[trigger] taken@[q]),
        decreases n - t,
    {
        taken.push(false);
        t += 1;
    }
    let mut order: Vec<usize> = Vec::new();
    loop
        invariant
            n == starts.len(),
            n == ends.len(),
            taken.len() == n,
            order.len() <= n,
            forall|i: int| 0 <= i < order.len() ==> #[trigger] order@[i] < n,
            forall|q: int| 0 <= q < n ==> (#[trigger] taken@[q] <==> order@.contains(q as usize)),
            forall|i: int, j: int|
                0 <= i < j < order.len() ==> key_before(starts@, ends@, #[trigger] order@[i] as int, #[trigger] order@[j] as int),
            forall|i: int, q: int|
                0 <= i < order.len() && 0 <= q < n && !(#[trigger] taken@[q]) ==> key_before(
                    starts@,
                    ends@,
                    #[trigger] order@[i] as int,
                    q,
                ),
        ensures
            forall|q: int| 0 <= q < n ==> #[trigger] taken@[q],
        decreases n - order.len(),
    {
        let mut best: usize = n;
        let mut k: usize = 0;
        while k < n
            invariant
                k <= n,
                n == starts.len(),
                n == ends.len(),
                taken.len() == n,
                best == n || (best < n && !taken@[best as int] && best < k),
                best < n ==> forall|q: int| 0 <= q < k && !taken@[q] && q != best ==> key_before(starts@, ends@, best as int, q),
                best == n ==> forall|q: int| 0 <= q < k ==> #[trigger] taken@[q],
            decreases n - k,
        {
            if !taken[k] {
                if best == n || starts[k] < starts[best] || (starts[k] == starts[best] && ends[k] < ends[best]) {
                    best = k;
                }
            }
            k += 1;
        }
        if best == n {
            break;
        }
        proof {
            assert(!order@.contains(best));
            if order.len() == n {
                lemma_all_picked(order@, n as int, best as int);
            }
        }
        let ghost prev_order = order@;
        let ghost prev_taken = taken@;
        taken.set(best, true);
        order.push(best);
        proof {
            assert forall|q: int| 0 <= q < n implies (#[trigger] taken@[q] <==> order@.contains(q as usize)) by {
                if q != best {
                    assert(taken@[q] == prev_taken[q]);
                    if order@.contains(q as usize) {
                        let i = choose|i: int| 0 <= i < order.len() && order@[i] == q as usize;
                        assert(i < order.len() - 1);
                        assert(prev_order[i] == q as usize);
                        assert(prev_order.contains(q as usize));
                    }
                    if prev_taken[q] {
                        assert(prev_order.contains(q as usize));
                        let i = choose|i: int| 0 <= i < prev_order.len() && prev_order[i] == q as usize;
                        assert(order@[i] == q as usize);
                    }
                } else {
                    assert(order@[order.len() - 1] == best);
                }
            }
        }
    }
    assert forall|k: int| 0 <= k < starts.len() implies #[trigger] order@.contains(k as usize) by {
        assert(taken@[k]);
    }
    proof {
        lemma_cover_len(order@, starts@, ends@);
    }
    order
}

/// Positions in strictly increasing key order, below `n`, that include every
/// position below `n`, number `n`.
proof fn lemma_cover_len(order: Seq<usize>, starts: Seq<i64>, ends: Seq<i64>)
    requires
        starts.len() <= usize::MAX,
        order.len() <= starts.len(),
        forall|i: int| 0 <= i < order.len() ==> #[trigger] order[i] < starts.len(),
        forall|i: int, j: int|
            0 <= i < j < order.len() ==> key_before(starts, ends, #[trigger] order[i] as int, #[trigger] order[j] as int),
        forall|k: int| 0 <= k < starts.len() ==> #[trigger] order.contains(k as usize),
    ensures
        order.len() == starts.len(),
{
    let n = starts.len() as int;
    let s = order.map_values(|v: usize| v as int);
    assert forall|i: int, j: int| 0 <= i < s.len() && 0 <= j < s.len() && i != j implies s[i] != s[j] by {
        if i < j {
            assert(key_before(starts, ends, order[i] as int, order[j] as int));
        } else {
            assert(key_before(starts, ends, order[j] as int, order[i] as int));
        }
    }
    assert(s.no_duplicates());
    s.unique_seq_to_set();
    vstd::set_lib::lemma_int_range(0, n);
    assert forall|v: int| vstd::set_lib::set_int_range(0, n).contains(v) implies s.to_set().contains(v) by {
        assert(order.contains(v as usize));
        let i = choose|i: int| 0 <= i < order.len() && order[i] == v as usize;
        assert(s[i] == v);
    }
    assert(s.to_set().finite()) by {
        vstd::seq_lib::seq_to_set_is_finite(s);
    }
    vstd::set_lib::lemma_len_subset(vstd::set_lib::set_int_range(0, n), s.to_set());
}

/// Word `a` sorts before word `b`: earlier start, then earlier end, then
/// earlier requested position.
pub open spec fn key_before(starts: Seq<i64>, ends: Seq<i64>, a: int, b: int) -> bool {
    starts[a] < starts[b] || (starts[a] == starts[b] && (ends[a] < ends[b] || (ends[a] == ends[b] && a < b)))
}

/// A sequence of `n` distinct positions below `n` holds every position.
proof fn lemma_all_picked(order: Seq<usize>, n: int, x: int)
    requires
        order.len() == n,
        0 <= x < n,
        forall|i: int| 0 <= i < order.len() ==> #[trigger] order[i] < n,
        forall|i: int, j: int| 0 <= i < j < order.len() ==> order[i] != order[j],
    ensures
        order.contains(x as usize),
{
    if !order.contains(x as usize) {
        let s = order.map_values(|v: usize| v as int);
        assert forall|i: int, j: int| 0 <= i < s.len() && 0 <= j < s.len() && i != j implies s[i] != s[j] by {
            if i < j {
                assert(order[i] != order[j]);
            } else {
                assert(order[j] != order[i]);
            }
        }
        assert(s.no_duplicates());
        s.unique_seq_to_set();
        vstd::set_lib::lemma_int_range(0, n);
        let r = vstd::set_lib::set_int_range(0, n).remove(x);
        assert forall|v: int| s.to_set().contains(v) implies r.contains(v) by {
            let i = choose|i: int| 0 <= i < s.len() && s[i] == v;
            assert(order[i] < n);
            if v == x {
                assert(order[i] == x as usize);
            }
        }
        vstd::set_lib::lemma_len_subset(s.to_set(), r);
    }
}


/// The words a caption covers, in timeline order.
///
/// `ranges` holds the timeline range of every active word of the selected
/// transcript. The words are `options.wordIds` when given, else every active
/// word; none may repeat or be inactive (the first such word decides the
/// error), and they are ordered by range start, then end, then request order.
pub fn caption_word_ids(ranges: &Vec<WordRange>, options: Option<&JsonValue>) -> (r: Result<
    Vec<String>,
    ApiError,
>)
    ensures
        match requested_words(
            match options {
                Some(o) => Some(*o),
                None => None,
            },
            ranges@,
        ) {
            None => false,
            Some(Err(_)) => r matches Err(e) && e.status == STATUS_BAD_REQUEST && e.code@
                == "invalid_caption_word_ids"@,
            Some(Ok(list)) => if list.len() == 0 {
                r matches Err(e) && e.status == STATUS_UNPROCESSABLE && e.code@
                    == "caption_words_required"@
            } else {
                match first_refused_word(list, ranges@, list.len() as int) {
                    Some(k) => r matches Err(e) && if repeats_earlier(list, k) {
                        e.status == STATUS_BAD_REQUEST && e.code@ == "duplicate_caption_word"@
                    } else {
                        e.status == STATUS_UNPROCESSABLE && e.code@ == "inactive_caption_word"@ && (
                        e.details matches Some(d) && d.field_str("wordId"@) == Some(list[k]))
                    },
                    None => r matches Ok(v) && in_timeline_order(string_seq_views(v@), list, ranges@),
                }
            },
        },
{
    let list = match requested_word_list(options, ranges) {
        Ok(l) => l,
        Err(e) => {
            return Err(e);
        },
    };
    if list.len() == 0 {
        return Err(
            ApiError::new(
                STATUS_UNPROCESSABLE,
                "caption_words_required",
                "the selected transcript has no active words to caption",
            ),
        );
    }
    let (starts, ends) = match word_ranges(&list, ranges) {
        Ok(x) => x,
        Err(e) => {
            return Err(e);
        },
    };
    let order = timeline_positions(&starts, &ends);
    let ghost l = string_seq_views(list@);
    let mut out: Vec<String> = Vec::new();
    let mut i: usize = 0;
    while i < order.len()
        invariant
            i <= order.len(),
            list.len() == starts.len(),
            forall|j: int| 0 <= j < order.len() ==> #[trigger] order@[j] < starts.len(),
            out.len() == i,
            forall|j: int| 0 <= j < i ==> (#[trigger] out@[j])@ == list@[order@[j] as int]@,
        decreases order.len() - i,
    {
        out.push(copy_string(list[order[i]].as_str()));
        i += 1;
    }
    proof {
        let p = order@.map_values(|x: usize| x as int);
        let o = string_seq_views(out@);
        assert forall|a: int, b: int| 0 <= a < b < p.len() implies word_key_lt(
            l,
            ranges@,
            #[trigger] p[a],
            #[trigger] p[b],
        ) by {
            assert(key_before(starts@, ends@, order@[a] as int, order@[b] as int));
            assert(range_of(ranges@, l[p[a]]) == Some((starts@[p[a]], ends@[p[a]])));
            assert(range_of(ranges@, l[p[b]]) == Some((starts@[p[b]], ends@[p[b]])));
        }
        assert forall|k: int| 0 <= k < l.len() implies #[trigger] p.contains(k) by {
            assert(order@.contains(k as usize));
            let j = choose|j: int| 0 <= j < order.len() && order@[j] == k as usize;
            assert(p[j] == k);
        }
        assert forall|j: int| 0 <= j < p.len() implies 0 <= #[trigger] p[j] < l.len() && o[j] == l[p[j]] by {
            assert(out@[j]@ == list@[order@[j] as int]@);
        }
        assert(in_timeline_order(o, l, ranges@));
    }
    Ok(out)
}

} // verus!
