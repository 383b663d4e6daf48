//! Reordering spoken content: a requested order of story clips, transcript
//! utterances or transcript words is turned into the order of story clips and
//! of transcript segments that the project's reorder operations apply.
use vstd::prelude::*;
use crate::json::JsonValue;
use crate::error::ApiError;
use crate::text::{chars_of, copy_string, push_str, str_eq, string_of};

verus! {

/// A transcript word and whether it was deleted from the spoken content.
#[derive(Debug)]
pub struct TranscriptWord {
    pub id: String,
    pub deleted: bool,
}

/// A transcript segment (an utterance) and its words, in order.
#[derive(Debug)]
pub struct TranscriptSegment {
    pub id: String,
    pub word_ids: Vec<String>,
}

/// What reordering reads of a transcript.
#[derive(Debug)]
pub struct TranscriptDocument {
    pub id: String,
    pub words: Vec<TranscriptWord>,
    pub segments: Vec<TranscriptSegment>,
}

/// A materialized story clip and the transcript words it plays.
#[derive(Debug)]
pub struct StoryClip {
    pub id: String,
    pub word_ids: Vec<String>,
}

/// A story sequence: the clips that play a transcript, in playback order.
#[derive(Debug)]
pub struct StorySequence {
    pub id: String,
    pub transcript_id: String,
    pub clips: Vec<StoryClip>,
}

/// Why a reorder request is refused.
#[derive(Debug)]
pub enum ReorderError {
    StorySequenceRequired,
    StoryClipsRequired,
    AmbiguousTarget,
    /// The named id list is missing or not an array.
    MissingIds(String),
    /// The named id list holds a non-string.
    NonStringIds(String),
    /// The named id list is empty.
    EmptyIds(String),
    InvalidSegmentPermutation,
    /// A deleted word was named as a reorder anchor.
    DeletedAnchor(String),
    /// A named word belongs to no story clip.
    WordNotInStory(String),
    /// The named words return to a clip that an earlier run of words left.
    ClipReentered,
    InvalidClipPermutation,
    /// The live words of the named utterance lie in non-adjacent clips.
    InterleavedSegment(String),
    /// The requested utterance order differs from the one the clip order gives.
    UtteranceOrderCrossesClip,
    NoEffect,
}

/// The data of a reorder refusal.
pub enum ReorderFailure {
    StorySequenceRequired,
    StoryClipsRequired,
    AmbiguousTarget,
    MissingIds(Seq<char>),
    NonStringIds(Seq<char>),
    EmptyIds(Seq<char>),
    InvalidSegmentPermutation,
    DeletedAnchor(Seq<char>),
    WordNotInStory(Seq<char>),
    ClipReentered,
    InvalidClipPermutation,
    InterleavedSegment(Seq<char>),
    UtteranceOrderCrossesClip,
    NoEffect,
}

impl View for ReorderError {
    type V = ReorderFailure;

    open spec fn view(&self) -> ReorderFailure {
        match self {
            ReorderError::StorySequenceRequired => ReorderFailure::StorySequenceRequired,
            ReorderError::StoryClipsRequired => ReorderFailure::StoryClipsRequired,
            ReorderError::AmbiguousTarget => ReorderFailure::AmbiguousTarget,
            ReorderError::MissingIds(f) => ReorderFailure::MissingIds(f@),
            ReorderError::NonStringIds(f) => ReorderFailure::NonStringIds(f@),
            ReorderError::EmptyIds(f) => ReorderFailure::EmptyIds(f@),
            ReorderError::InvalidSegmentPermutation => ReorderFailure::InvalidSegmentPermutation,
            ReorderError::DeletedAnchor(w) => ReorderFailure::DeletedAnchor(w@),
            ReorderError::WordNotInStory(w) => ReorderFailure::WordNotInStory(w@),
            ReorderError::ClipReentered => ReorderFailure::ClipReentered,
            ReorderError::InvalidClipPermutation => ReorderFailure::InvalidClipPermutation,
            ReorderError::InterleavedSegment(s) => ReorderFailure::InterleavedSegment(s@),
            ReorderError::UtteranceOrderCrossesClip => ReorderFailure::UtteranceOrderCrossesClip,
            ReorderError::NoEffect => ReorderFailure::NoEffect,
        }
    }
}

pub open spec fn ids_of(v: Seq<String>) -> Seq<Seq<char>> {
    v.map_values(|s: String| s@)
}

/// Whether the word with this id is deleted; the last word with the id
/// decides, and an unknown word is not deleted.
pub open spec fn deleted_flag(words: Seq<TranscriptWord>, id: Seq<char>) -> bool
    decreases words.len(),
{
    if words.len() == 0 {
        false
    } else if words.last().id@ == id {
        words.last().deleted
    } else {
        deleted_flag(words.drop_last(), id)
    }
}

/// The last story clip that plays the word.
pub open spec fn clip_of_word(clips: Seq<StoryClip>, w: Seq<char>) -> Option<Seq<char>>
    decreases clips.len(),
{
    if clips.len() == 0 {
        None
    } else if ids_of(clips.last().word_ids@).contains(w) {
        Some(clips.last().id@)
    } else {
        clip_of_word(clips.drop_last(), w)
    }
}

/// The clip order that a word order names: each word's clip in turn, a run
/// of words in one clip naming it once. A deleted word, a word in no clip,
/// or a return to a clip left earlier refuses the order.
pub open spec fn clip_order(
    clips: Seq<StoryClip>,
    words: Seq<TranscriptWord>,
    ids: Seq<Seq<char>>,
) -> Result<Seq<Seq<char>>, ReorderFailure>
    decreases ids.len(),
{
    if ids.len() == 0 {
        Ok(Seq::empty())
    } else {
        match clip_order(clips, words, ids.drop_last()) {
            Err(e) => Err(e),
            Ok(ordered) => {
                let w = ids.last();
                if deleted_flag(words, w) {
                    Err(ReorderFailure::DeletedAnchor(w))
                } else {
                    match clip_of_word(clips, w) {
                        None => Err(ReorderFailure::WordNotInStory(w)),
                        Some(c) => if ordered.len() > 0 && ordered.last() == c {
                            Ok(ordered)
                        } else if ordered.contains(c) {
                            Err(ReorderFailure::ClipReentered)
                        } else {
                            Ok(ordered.push(c))
                        },
                    }
                }
            },
        }
    }
}

pub open spec fn order_view(r: Result<Vec<String>, ReorderError>) -> Result<
    Seq<Seq<char>>,
    ReorderFailure,
> {
    match r {
        Ok(v) => Ok(ids_of(v@)),
        Err(e) => Err(e@),
    }
}

/// Once a prefix of a word order is refused, the whole order is refused
/// for the same reason.
proof fn lemma_clip_order_err_prefix(
    clips: Seq<StoryClip>,
    words: Seq<TranscriptWord>,
    ids: Seq<Seq<char>>,
    k: int,
)
    requires
        0 <= k <= ids.len(),
        clip_order(clips, words, ids.subrange(0, k)) is Err,
    ensures
        clip_order(clips, words, ids) == clip_order(clips, words, ids.subrange(0, k)),
    decreases ids.len() - k,
{
    if k == ids.len() {
        assert(ids.subrange(0, k) =~= ids);
    } else {
        assert(ids.drop_last().subrange(0, k) =~= ids.subrange(0, k));
        lemma_clip_order_err_prefix(clips, words, ids.drop_last(), k);
    }
}

fn deleted_of(words: &Vec<TranscriptWord>, id: &str) -> (r: bool)
    ensures
        r == deleted_flag(words@, id@),
{
    let mut found = false;
    let mut i: usize = 0;
    while i < words.len()
        invariant
            i <= words.len(),
            found == deleted_flag(words@.subrange(0, i as int), id@),
        decreases words.len() - i,
    {
        assert(words@.subrange(0, i + 1).drop_last() =~= words@.subrange(0, i as int));
        if str_eq(words[i].id.as_str(), id) {
            found = words[i].deleted;
        }
        i += 1;
    }
    assert(words@.subrange(0, words.len() as int) =~= words@);
    found
}

pub(crate) fn list_contains(v: &Vec<String>, id: &str) -> (r: bool)
    ensures
        r == ids_of(v@).contains(id@),
{
    let mut i: usize = 0;
    while i < v.len()
        invariant
            i <= v.len(),
            forall|j: int| 0 <= j < i ==> v@[j]@ != id@,
        decreases v.len() - i,
    {
        if str_eq(v[i].as_str(), id) {
            assert(ids_of(v@)[i as int] == id@);
            return true;
        }
        i += 1;
    }
    assert forall|j: int| 0 <= j < ids_of(v@).len() implies ids_of(v@)[j] != id@ by {
        assert(ids_of(v@)[j] == v@[j]@);
    }
    false
}

fn clip_for_word(clips: &Vec<StoryClip>, w: &str) -> (r: Option<usize>)
    ensures
        match r {
            Some(i) => i < clips.len() && clip_of_word(clips@, w@) == Some(clips@[i as int].id@),
            None => clip_of_word(clips@, w@) is None,
        },
{
    let mut found: Option<usize> = None;
    let mut i: usize = 0;
    while i < clips.len()
        invariant
            i <= clips.len(),
            match found {
                Some(k) => k < i && clip_of_word(clips@.subrange(0, i as int), w@) == Some(
                    clips@[k as int].id@,
                ),
                None => clip_of_word(clips@.subrange(0, i as int), w@) is None,
            },
        decreases clips.len() - i,
    {
        assert(clips@.subrange(0, i + 1).drop_last() =~= clips@.subrange(0, i as int));
        if list_contains(&clips[i].word_ids, w) {
            found = Some(i);
        }
        i += 1;
    }
    assert(clips@.subrange(0, clips.len() as int) =~= clips@);
    found
}

/// The order of story clips that a word order names (see `clip_order`).
pub fn story_clip_order_from_words(
    sequence: &StorySequence,
    transcript: &TranscriptDocument,
    word_ids: &Vec<String>,
) -> (r: Result<Vec<String>, ReorderError>)
    ensures
        order_view(r) == clip_order(sequence.clips@, transcript.words@, ids_of(word_ids@)),
{
    let ghost ids = ids_of(word_ids@);
    let mut ordered: Vec<String> = Vec::new();
    assert(ids_of(ordered@) =~= Seq::<Seq<char>>::empty());
    let mut i: usize = 0;
    while i < word_ids.len()
        invariant
            i <= word_ids.len(),
            ids == ids_of(word_ids@),
            clip_order(sequence.clips@, transcript.words@, ids.subrange(0, i as int)) == Ok::<
                Seq<Seq<char>>,
                ReorderFailure,
            >(ids_of(ordered@)),
        decreases word_ids.len() - i,
    {
        assert(ids.subrange(0, i + 1).drop_last() =~= ids.subrange(0, i as int));
        assert(ids.subrange(0, i + 1).last() == word_ids@[i as int]@);
        let w = word_ids[i].as_str();
        if deleted_of(&transcript.words, w) {
            proof {
                lemma_clip_order_err_prefix(sequence.clips@, transcript.words@, ids, i + 1);
            }
            return Err(ReorderError::DeletedAnchor(copy_string(w)));
        }
        match clip_for_word(&sequence.clips, w) {
            None => {
                proof {
                    lemma_clip_order_err_prefix(sequence.clips@, transcript.words@, ids, i + 1);
                }
                return Err(ReorderError::WordNotInStory(copy_string(w)));
            },
            Some(ci) => {
                let c = sequence.clips[ci].id.as_str();
                let n = ordered.len();
                if n > 0 && str_eq(ordered[n - 1].as_str(), c) {
                    assert(ids_of(ordered@).last() == ordered@[n - 1]@);
                } else {
                    if n > 0 {
                        assert(ids_of(ordered@).last() == ordered@[n - 1]@);
                    }
                    if list_contains(&ordered, c) {
                        proof {
                            lemma_clip_order_err_prefix(
                                sequence.clips@,
                                transcript.words@,
                                ids,
                                i + 1,
                            );
                        }
                        return Err(ReorderError::ClipReentered);
                    }
                    let ghost before = ids_of(ordered@);
                    ordered.push(copy_string(c));
                    assert(ids_of(ordered@) =~= before.push(c@));
                }
            },
        }
        i += 1;
    }
    assert(ids.subrange(0, word_ids.len() as int) =~= ids);
    Ok(ordered)
}


/// The rank of a clip: its last position in the requested clip order.
pub open spec fn clip_rank(clip_ids: Seq<Seq<char>>, c: Seq<char>) -> Option<int>
    decreases clip_ids.len(),
{
    if clip_ids.len() == 0 {
        None
    } else if clip_ids.last() == c {
        Some(clip_ids.len() - 1)
    } else {
        clip_rank(clip_ids.drop_last(), c)
    }
}

/// The rank of a word: that of the last ranked story clip that plays it.
pub open spec fn word_rank(clips: Seq<StoryClip>, clip_ids: Seq<Seq<char>>, w: Seq<char>) -> Option<
    int,
>
    decreases clips.len(),
{
    if clips.len() == 0 {
        None
    } else if ids_of(clips.last().word_ids@).contains(w) && clip_rank(clip_ids, clips.last().id@)
        is Some {
        clip_rank(clip_ids, clips.last().id@)
    } else {
        word_rank(clips.drop_last(), clip_ids, w)
    }
}

/// The ranks of the live (not deleted) words of a segment.
pub open spec fn segment_ranks(
    seg: TranscriptSegment,
    words: Seq<TranscriptWord>,
    clips: Seq<StoryClip>,
    clip_ids: Seq<Seq<char>>,
) -> Set<int> {
    Set::new(
        |r: int|
            exists|k: int|
                0 <= k < seg.word_ids.len() && !deleted_flag(words, #[trigger] seg.word_ids@[k]@)
                    && word_rank(clips, clip_ids, seg.word_ids@[k]@) == Some(r),
    )
}

/// A set of ranks without gaps.
pub open spec fn contiguous(rs: Set<int>) -> bool {
    forall|a: int, b: int, c: int|
        #![trigger rs.contains(a), rs.contains(b), rs.contains(c)]
        rs.contains(a) && rs.contains(b) && a < c < b ==> rs.contains(c)
}

/// The least rank of a set, or `usize::MAX` for an empty one.
pub open spec fn first_rank(rs: Set<int>) -> int {
    if exists|r: int| rs.contains(r) {
        choose|r: int| rs.contains(r) && forall|q: int| rs.contains(q) ==> r <= q
    } else {
        usize::MAX as int
    }
}

/// The first segment whose live words lie in non-adjacent clips.
pub open spec fn first_interleaved(
    segs: Seq<TranscriptSegment>,
    words: Seq<TranscriptWord>,
    clips: Seq<StoryClip>,
    clip_ids: Seq<Seq<char>>,
) -> Option<int>
    decreases segs.len(),
{
    if segs.len() == 0 {
        None
    } else {
        match first_interleaved(segs.drop_last(), words, clips, clip_ids) {
            Some(i) => Some(i),
            None => if !contiguous(segment_ranks(segs.last(), words, clips, clip_ids)) {
                Some(segs.len() - 1)
            } else {
                None
            },
        }
    }
}

/// The positions among the first `n` keys that hold key `r`, in order.
pub open spec fn positions_with_key(keys: Seq<int>, r: int, n: int) -> Seq<int>
    decreases n,
{
    if n <= 0 {
        Seq::empty()
    } else {
        positions_with_key(keys, r, n - 1) + if keys[n - 1] == r {
            seq![n - 1]
        } else {
            Seq::empty()
        }
    }
}

/// The positions ordered by key, for keys below `m`, each key's positions in
/// their original order.
pub open spec fn positions_by_key(keys: Seq<int>, m: int) -> Seq<int>
    decreases m,
{
    if m <= 0 {
        Seq::empty()
    } else {
        positions_by_key(keys, m - 1) + positions_with_key(keys, m - 1, keys.len() as int)
    }
}

pub open spec fn segment_keys(
    segs: Seq<TranscriptSegment>,
    words: Seq<TranscriptWord>,
    clips: Seq<StoryClip>,
    clip_ids: Seq<Seq<char>>,
) -> Seq<int> {
    Seq::new(segs.len(), |i: int| first_rank(segment_ranks(segs[i], words, clips, clip_ids)))
}

/// The positions of the segments in the order a clip order gives.
pub open spec fn segment_positions(t: TranscriptDocument, clips: Seq<StoryClip>, clip_ids: Seq<Seq<char>>) -> Seq<int> {
    let keys = segment_keys(t.segments@, t.words@, clips, clip_ids);
    positions_by_key(keys, clip_ids.len() as int) + positions_with_key(
        keys,
        usize::MAX as int,
        t.segments@.len() as int,
    )
}

/// The segment order that a clip order gives: segments by the rank of their
/// earliest live word's clip, ties in their current order, segments with no
/// ranked live word last. A segment whose live words lie in non-adjacent
/// clips refuses the order.
pub open spec fn segment_order(
    t: TranscriptDocument,
    clips: Seq<StoryClip>,
    clip_ids: Seq<Seq<char>>,
) -> Result<Seq<Seq<char>>, ReorderFailure> {
    let segs = t.segments@;
    match first_interleaved(segs, t.words@, clips, clip_ids) {
        Some(i) => Err(ReorderFailure::InterleavedSegment(segs[i].id@)),
        None => Ok(segment_positions(t, clips, clip_ids).map_values(|i: int| segs[i].id@)),
    }
}

proof fn lemma_first_rank_is(rs: Set<int>, x: int)
    requires
        rs.contains(x),
        forall|q: int| rs.contains(q) ==> x <= q,
    ensures
        first_rank(rs) == x,
{
    let y = choose|r: int| rs.contains(r) && forall|q: int| rs.contains(q) ==> r <= q;
    assert(rs.contains(y) && forall|q: int| rs.contains(q) ==> y <= q);
    assert(x <= y && y <= x);
}

fn clip_rank_of(clip_ids: &Vec<String>, c: &str) -> (r: Option<usize>)
    ensures
        match r {
            Some(k) => k < clip_ids.len() && clip_rank(ids_of(clip_ids@), c@) == Some(k as int),
            None => clip_rank(ids_of(clip_ids@), c@) is None,
        },
{
    let ghost ids = ids_of(clip_ids@);
    let mut found: Option<usize> = None;
    let mut i: usize = 0;
    while i < clip_ids.len()
        invariant
            i <= clip_ids.len(),
            ids == ids_of(clip_ids@),
            match found {
                Some(k) => k < i && clip_rank(ids.subrange(0, i as int), c@) == Some(k as int),
                None => clip_rank(ids.subrange(0, i as int), c@) is None,
            },
        decreases clip_ids.len() - i,
    {
        assert(ids.subrange(0, i + 1).drop_last() =~= ids.subrange(0, i as int));
        if str_eq(clip_ids[i].as_str(), c) {
            found = Some(i);
        }
        i += 1;
    }
    assert(ids.subrange(0, clip_ids.len() as int) =~= ids);
    found
}

fn word_rank_of(clips: &Vec<StoryClip>, clip_ranks: &Vec<Option<usize>>, clip_ids: &Vec<String>, w: &str) -> (r: Option<usize>)
    requires
        clip_ranks.len() == clips.len(),
        forall|c: int| 0 <= c < clips.len() ==> match #[trigger] clip_ranks@[c] {
            Some(k) => k < clip_ids.len() && clip_rank(ids_of(clip_ids@), clips@[c].id@) == Some(k as int),
            None => clip_rank(ids_of(clip_ids@), clips@[c].id@) is None,
        },
    ensures
        match r {
            Some(k) => k < clip_ids.len() && word_rank(clips@, ids_of(clip_ids@), w@) == Some(k as int),
            None => word_rank(clips@, ids_of(clip_ids@), w@) is None,
        },
{
    let ghost ids = ids_of(clip_ids@);
    let mut found: Option<usize> = None;
    let mut i: usize = 0;
    while i < clips.len()
        invariant
            i <= clips.len(),
            ids == ids_of(clip_ids@),
            clip_ranks.len() == clips.len(),
            forall|c: int| 0 <= c < clips.len() ==> match #[trigger] clip_ranks@[c] {
                Some(k) => k < clip_ids.len() && clip_rank(ids, clips@[c].id@) == Some(k as int),
                None => clip_rank(ids, clips@[c].id@) is None,
            },
            match found {
                Some(k) => k < clip_ids.len() && word_rank(clips@.subrange(0, i as int), ids, w@) == Some(k as int),
                None => word_rank(clips@.subrange(0, i as int), ids, w@) is None,
            },
        decreases clips.len() - i,
    {
        assert(clips@.subrange(0, i + 1).drop_last() =~= clips@.subrange(0, i as int));
        let rank = clip_ranks[i];
        match rank {
            Some(k) => {
                if list_contains(&clips[i].word_ids, w) {
                    found = Some(k);
                }
            },
            None => {},
        }
        i += 1;
    }
    assert(clips@.subrange(0, clips.len() as int) =~= clips@);
    found
}


proof fn lemma_first_interleaved_prefix(
    segs: Seq<TranscriptSegment>,
    words: Seq<TranscriptWord>,
    clips: Seq<StoryClip>,
    clip_ids: Seq<Seq<char>>,
    k: int,
)
    requires
        0 <= k <= segs.len(),
        first_interleaved(segs.subrange(0, k), words, clips, clip_ids) is Some,
    ensures
        first_interleaved(segs, words, clips, clip_ids) == first_interleaved(
            segs.subrange(0, k),
            words,
            clips,
            clip_ids,
        ),
    decreases segs.len() - k,
{
    if k == segs.len() {
        assert(segs.subrange(0, k) =~= segs);
    } else {
        assert(segs.drop_last().subrange(0, k) =~= segs.subrange(0, k));
        lemma_first_interleaved_prefix(segs.drop_last(), words, clips, clip_ids, k);
    }
}

fn segment_rank_marks(
    seg: &TranscriptSegment,
    words: &Vec<TranscriptWord>,
    clips: &Vec<StoryClip>,
    clip_ranks: &Vec<Option<usize>>,
    clip_ids: &Vec<String>,
) -> (present: Vec<bool>)
    requires
        clip_ranks.len() == clips.len(),
        forall|c: int| 0 <= c < clips.len() ==> match #[trigger] clip_ranks@[c] {
            Some(k) => k < clip_ids.len() && clip_rank(ids_of(clip_ids@), clips@[c].id@) == Some(k as int),
            None => clip_rank(ids_of(clip_ids@), clips@[c].id@) is None,
        },
    ensures
        present.len() == clip_ids.len(),
        forall|r: int| 0 <= r < clip_ids.len() ==> (#[trigger] present@[r] <==> segment_ranks(
            *seg,
            words@,
            clips@,
            ids_of(clip_ids@),
        ).contains(r)),
        forall|r: int| #[trigger] segment_ranks(*seg, words@, clips@, ids_of(clip_ids@)).contains(r)
            ==> 0 <= r < clip_ids.len(),
{
    let ghost ids = ids_of(clip_ids@);
    let m = clip_ids.len();
    let mut present: Vec<bool> = Vec::new();
    let mut j: usize = 0;
    while j < m
        invariant
            j <= m,
            present.len() == j,
            forall|r: int| 0 <= r < j ==> !(#[trigger] present@[r]),
        decreases m - j,
    {
        present.push(false);
        j += 1;
    }
    let mut k: usize = 0;
    while k < seg.word_ids.len()
        invariant
            k <= seg.word_ids.len(),
            m == clip_ids.len(),
            ids == ids_of(clip_ids@),
            present.len() == m,
            clip_ranks.len() == clips.len(),
            forall|c: int| 0 <= c < clips.len() ==> match #[trigger] clip_ranks@[c] {
                Some(q) => q < clip_ids.len() && clip_rank(ids, clips@[c].id@) == Some(q as int),
                None => clip_rank(ids, clips@[c].id@) is None,
            },
            forall|r: int|
                0 <= r < m ==> (#[trigger] present@[r] <==> exists|q: int|
                    0 <= q < k && !deleted_flag(words@, #[trigger] seg.word_ids@[q]@) && word_rank(
                        clips@,
                        ids,
                        seg.word_ids@[q]@,
                    ) == Some(r)),
            forall|q: int|
                0 <= q < k && !deleted_flag(words@, #[trigger] seg.word_ids@[q]@) ==> match word_rank(
                    clips@,
                    ids,
                    seg.word_ids@[q]@,
                ) {
                    Some(r) => 0 <= r < m,
                    None => true,
                },
        decreases seg.word_ids.len() - k,
    {
        let w = seg.word_ids[k].as_str();
        if !deleted_of(words, w) {
            match word_rank_of(clips, clip_ranks, clip_ids, w) {
                Some(r) => {
                    present.set(r, true);
                },
                None => {},
            }
        }
        k += 1;
    }
    let ghost rs = segment_ranks(*seg, words@, clips@, ids);
    assert forall|r: int| 0 <= r < m implies (#[trigger] present@[r] <==> rs.contains(r)) by {
        if present@[r] {
            let q = choose|q: int|
                0 <= q < seg.word_ids.len() && !deleted_flag(words@, #[trigger] seg.word_ids@[q]@)
                    && word_rank(clips@, ids, seg.word_ids@[q]@) == Some(r);
            assert(rs.contains(r));
        }
    }
    assert forall|r: int| #[trigger] rs.contains(r) implies 0 <= r < m by {
        let q = choose|q: int|
            0 <= q < seg.word_ids.len() && !deleted_flag(words@, #[trigger] seg.word_ids@[q]@)
                && word_rank(clips@, ids, seg.word_ids@[q]@) == Some(r);
    }
    present
}

fn rank_span(present: &Vec<bool>) -> (r: Option<(usize, usize)>)
    ensures
        r is None <==> forall|j: int| 0 <= j < present.len() ==> !(#[trigger] present@[j]),
        r matches Some((a, b)) ==> a <= b < present.len() && present@[a as int] && present@[b as int]
            && (forall|j: int| 0 <= j < a ==> !(#[trigger] present@[j])) && (forall|j: int|
            b < j < present.len() ==> !(#[trigger] present@[j])),
{
    let mut first: Option<usize> = None;
    let mut last: usize = 0;
    let mut j: usize = 0;
    while j < present.len()
        invariant
            j <= present.len(),
            first is None ==> forall|q: int| 0 <= q < j ==> !(#[trigger] present@[q]),
            first matches Some(a) ==> a <= last < j && present@[a as int] && present@[last as int]
                && (forall|q: int| 0 <= q < a ==> !(#[trigger] present@[q])) && (forall|q: int|
                last < q < j ==> !(#[trigger] present@[q])),
        decreases present.len() - j,
    {
        if present[j] {
            if first.is_none() {
                first = Some(j);
            }
            last = j;
        }
        j += 1;
    }
    match first {
        None => None,
        Some(a) => Some((a, last)),
    }
}

fn all_marked(present: &Vec<bool>, a: usize, b: usize) -> (r: bool)
    requires
        b < present.len(),
    ensures
        r <==> forall|j: int| a <= j <= b ==> #[trigger] present@[j],
{
    let mut j: usize = a;
    while j <= b
        invariant
            a <= j,
            b < present.len(),
            forall|q: int| a <= q < j ==> #[trigger] present@[q],
        decreases b + 1 - j,
    {
        if !present[j] {
            return false;
        }
        j += 1;
    }
    true
}


/// The key of one segment: the first rank of its live words, or `None` when
/// those lie in non-adjacent clips.
fn segment_key(
    seg: &TranscriptSegment,
    words: &Vec<TranscriptWord>,
    clips: &Vec<StoryClip>,
    clip_ranks: &Vec<Option<usize>>,
    clip_ids: &Vec<String>,
) -> (r: Option<usize>)
    requires
        clip_ranks.len() == clips.len(),
        forall|c: int| 0 <= c < clips.len() ==> match #[trigger] clip_ranks@[c] {
            Some(k) => k < clip_ids.len() && clip_rank(ids_of(clip_ids@), clips@[c].id@) == Some(k as int),
            None => clip_rank(ids_of(clip_ids@), clips@[c].id@) is None,
        },
    ensures
        r is None <==> !contiguous(segment_ranks(*seg, words@, clips@, ids_of(clip_ids@))),
        r matches Some(k) ==> k as int == first_rank(segment_ranks(*seg, words@, clips@, ids_of(clip_ids@)))
            && (k < clip_ids.len() || k == usize::MAX),
{
    let present = segment_rank_marks(seg, words, clips, clip_ranks, clip_ids);
    let ghost rs = segment_ranks(*seg, words@, clips@, ids_of(clip_ids@));
    match rank_span(&present) {
        None => {
            assert forall|q: int| !rs.contains(q) by {
                if rs.contains(q) {
                    assert(present@[q]);
                }
            }
            Some(usize::MAX)
        },
        Some((a, b)) => {
            assert(rs.contains(a as int));
            assert forall|q: int| rs.contains(q) implies a <= q <= b by {
                assert(present@[q]);
            }
            proof {
                lemma_first_rank_is(rs, a as int);
            }
            if !all_marked(&present, a, b) {
                proof {
                    let g = choose|g: int| a <= g <= b && !present@[g];
                    assert(rs.contains(b as int));
                    assert(!rs.contains(g));
                }
                return None;
            }
            assert forall|x: int, y: int, z: int|
                #![trigger rs.contains(x), rs.contains(y), rs.contains(z)]
                rs.contains(x) && rs.contains(y) && x < z < y implies rs.contains(z) by {
                assert(present@[z]);
            }
            Some(a)
        },
    }
}

/// The order of transcript segments that a story clip order gives (see
/// `segment_order`).
pub fn segment_order_for_story_clips(
    transcript: &TranscriptDocument,
    sequence: &StorySequence,
    clip_ids: &Vec<String>,
) -> (r: Result<Vec<String>, ReorderError>)
    ensures
        order_view(r) == segment_order(*transcript, sequence.clips@, ids_of(clip_ids@)),
{
    let ghost ids = ids_of(clip_ids@);
    let clips = &sequence.clips;
    let segs = &transcript.segments;
    let words = &transcript.words;
    let mut clip_ranks: Vec<Option<usize>> = Vec::new();
    let mut c: usize = 0;
    while c < clips.len()
        invariant
            c <= clips.len(),
            ids == ids_of(clip_ids@),
            clip_ranks.len() == c,
            forall|q: int| 0 <= q < c ==> match #[trigger] clip_ranks@[q] {
                Some(k) => k < clip_ids.len() && clip_rank(ids, clips@[q].id@) == Some(k as int),
                None => clip_rank(ids, clips@[q].id@) is None,
            },
        decreases clips.len() - c,
    {
        clip_ranks.push(clip_rank_of(clip_ids, clips[c].id.as_str()));
        c += 1;
    }
    let ghost kseq = segment_keys(segs@, words@, clips@, ids);
    let mut keys: Vec<usize> = Vec::new();
    let mut i: usize = 0;
    while i < segs.len()
        invariant
            i <= segs.len(),
            ids == ids_of(clip_ids@),
            kseq == segment_keys(segs@, words@, clips@, ids),
            segs@ == transcript.segments@,
            words@ == transcript.words@,
            clips@ == sequence.clips@,
            clip_ranks.len() == clips.len(),
            forall|q: int| 0 <= q < clips.len() ==> match #[trigger] clip_ranks@[q] {
                Some(k) => k < clip_ids.len() && clip_rank(ids, clips@[q].id@) == Some(k as int),
                None => clip_rank(ids, clips@[q].id@) is None,
            },
            first_interleaved(segs@.subrange(0, i as int), words@, clips@, ids) is None,
            keys.len() == i,
            forall|q: int| 0 <= q < i ==> (#[trigger] keys@[q]) as int == kseq[q],
            forall|q: int| 0 <= q < i ==> (#[trigger] keys@[q] < clip_ids.len() || keys@[q] == usize::MAX),
        decreases segs.len() - i,
    {
        assert(segs@.subrange(0, i + 1).drop_last() =~= segs@.subrange(0, i as int));
        assert(segs@.subrange(0, i + 1).last() == segs@[i as int]);
        let ghost rs = segment_ranks(segs@[i as int], words@, clips@, ids);
        match segment_key(&segs[i], words, clips, &clip_ranks, clip_ids) {
            None => {
                proof {
                    assert(first_interleaved(segs@.subrange(0, i + 1), words@, clips@, ids)
                        == Some(i as int));
                    lemma_first_interleaved_prefix(segs@, words@, clips@, ids, i + 1);
                    assert(segment_order(*transcript, sequence.clips@, ids) == Err::<
                        Seq<Seq<char>>,
                        ReorderFailure,
                    >(ReorderFailure::InterleavedSegment(segs@[i as int].id@)));
                }
                let e = ReorderError::InterleavedSegment(copy_string(segs[i].id.as_str()));
                assert(e@ == ReorderFailure::InterleavedSegment(segs@[i as int].id@));
                return Err(e);
            },
            Some(k) => {
                keys.push(k);
            },
        }
        i += 1;
    }
    assert(segs@.subrange(0, segs.len() as int) =~= segs@);
    let ghost kint = keys@.map_values(|k: usize| k as int);
    assert(kint =~= kseq);
    let n = keys.len();
    let m = clip_ids.len();
    let mut pos: Vec<usize> = Vec::new();
    let mut r: usize = 0;
    while r < m
        invariant
            r <= m,
            n == keys.len(),
            m == clip_ids.len(),
            kint == keys@.map_values(|k: usize| k as int),
            pos@.map_values(|p: usize| p as int) == positions_by_key(kint, r as int),
            forall|q: int| 0 <= q < pos.len() ==> #[trigger] pos@[q] < n,
        decreases m - r,
    {
        let mut i: usize = 0;
        while i < n
            invariant
                i <= n,
                r < m,
                n == keys.len(),
                kint == keys@.map_values(|k: usize| k as int),
                pos@.map_values(|p: usize| p as int) == positions_by_key(kint, r as int)
                    + positions_with_key(kint, r as int, i as int),
                forall|q: int| 0 <= q < pos.len() ==> #[trigger] pos@[q] < n,
            decreases n - i,
        {
            let ghost before = pos@.map_values(|p: usize| p as int);
            if keys[i] == r {
                pos.push(i);
                assert(pos@.map_values(|p: usize| p as int) =~= before + seq![i as int]);
            } else {
                assert(before + Seq::<int>::empty() =~= before);
            }
            assert(positions_by_key(kint, r as int) + positions_with_key(kint, r as int, i + 1)
                =~= positions_by_key(kint, r as int) + positions_with_key(kint, r as int, i as int)
                + (if kint[i as int] == r { seq![i as int] } else { Seq::<int>::empty() }));
            i += 1;
        }
        r += 1;
    }
    let mut i: usize = 0;
    while i < n
        invariant
            i <= n,
            n == keys.len(),
            m == clip_ids.len(),
            kint == keys@.map_values(|k: usize| k as int),
            pos@.map_values(|p: usize| p as int) == positions_by_key(kint, m as int)
                + positions_with_key(kint, usize::MAX as int, i as int),
            forall|q: int| 0 <= q < pos.len() ==> #[trigger] pos@[q] < n,
        decreases n - i,
    {
        let ghost before = pos@.map_values(|p: usize| p as int);
        if keys[i] == usize::MAX {
            pos.push(i);
            assert(pos@.map_values(|p: usize| p as int) =~= before + seq![i as int]);
        } else {
            assert(before + Seq::<int>::empty() =~= before);
        }
        assert(positions_by_key(kint, m as int) + positions_with_key(kint, usize::MAX as int, i + 1)
            =~= positions_by_key(kint, m as int) + positions_with_key(kint, usize::MAX as int, i as int)
            + (if kint[i as int] == usize::MAX as int { seq![i as int] } else { Seq::<int>::empty() }));
        i += 1;
    }
    let ghost pint = pos@.map_values(|p: usize| p as int);
    let mut out: Vec<String> = Vec::new();
    let mut j: usize = 0;
    while j < pos.len()
        invariant
            j <= pos.len(),
            n == segs.len(),
            forall|q: int| 0 <= q < pos.len() ==> #[trigger] pos@[q] < n,
            out.len() == j,
            forall|q: int| 0 <= q < j ==> (#[trigger] out@[q])@ == segs@[pos@[q] as int].id@,
        decreases pos.len() - j,
    {
        out.push(copy_string(segs[pos[j]].id.as_str()));
        j += 1;
    }
    assert(ids_of(out@) =~= pint.map_values(|p: int| segs@[p].id@));
    Ok(out)
}


/// `req` names every id of `cur` exactly once: the same set of ids, and as
/// many entries as distinct ids.
pub open spec fn is_permutation_of(cur: Seq<Seq<char>>, req: Seq<Seq<char>>) -> bool {
    cur.to_set() == req.to_set() && cur.to_set().len() == req.len()
}

fn no_repeats(v: &Vec<String>) -> (r: bool)
    ensures
        r == ids_of(v@).no_duplicates(),
{
    let ghost ids = ids_of(v@);
    let mut i: usize = 0;
    while i < v.len()
        invariant
            i <= v.len(),
            ids == ids_of(v@),
            forall|a: int, b: int| 0 <= a < i && 0 <= b < v.len() && a != b ==> ids[a] != ids[b],
        decreases v.len() - i,
    {
        let mut j: usize = 0;
        while j < v.len()
            invariant
                j <= v.len(),
                i < v.len(),
                ids == ids_of(v@),
                forall|a: int, b: int| 0 <= a < i && 0 <= b < v.len() && a != b ==> ids[a] != ids[b],
                forall|b: int| 0 <= b < j && b != i ==> ids[i as int] != ids[b],
            decreases v.len() - j,
        {
            if j != i && str_eq(v[i].as_str(), v[j].as_str()) {
                assert(ids[i as int] == ids[j as int]);
                return false;
            }
            j += 1;
        }
        i += 1;
    }
    true
}

fn all_listed(v: &Vec<String>, w: &Vec<String>) -> (r: bool)
    ensures
        r == forall|k: int| 0 <= k < v.len() ==> ids_of(w@).contains(#[trigger] ids_of(v@)[k]),
{
    let mut k: usize = 0;
    while k < v.len()
        invariant
            k <= v.len(),
            forall|q: int| 0 <= q < k ==> ids_of(w@).contains(#[trigger] ids_of(v@)[q]),
        decreases v.len() - k,
    {
        if !list_contains(w, v[k].as_str()) {
            assert(ids_of(v@)[k as int] == v@[k as int]@);
            return false;
        }
        assert(ids_of(v@)[k as int] == v@[k as int]@);
        k += 1;
    }
    true
}

/// Whether `req` names every id of `cur` exactly once (`is_permutation_of`).
pub fn is_permutation(cur: &Vec<String>, req: &Vec<String>) -> (r: bool)
    ensures
        r == is_permutation_of(ids_of(cur@), ids_of(req@)),
{
    let ghost c = ids_of(cur@);
    let ghost q = ids_of(req@);
    let distinct = no_repeats(req);
    let forward = all_listed(req, cur);
    let backward = all_listed(cur, req);
    proof {
        if forward && backward {
            assert forall|x: Seq<char>| c.to_set().contains(x) <==> q.to_set().contains(x) by {
                if c.contains(x) {
                    let k = choose|k: int| 0 <= k < c.len() && c[k] == x;
                    assert(q.contains(c[k]));
                }
                if q.contains(x) {
                    let k = choose|k: int| 0 <= k < q.len() && q[k] == x;
                    assert(c.contains(q[k]));
                }
            }
            assert(c.to_set() =~= q.to_set());
            if distinct {
                q.unique_seq_to_set();
            } else if q.to_set().len() == q.len() {
                q.lemma_no_dup_set_cardinality();
            }
        } else if forward {
            let k = choose|k: int| 0 <= k < c.len() && !q.contains(#[trigger] c[k]);
            assert(c.to_set().contains(c[k]));
            assert(!q.to_set().contains(c[k]));
        } else {
            let k = choose|k: int| 0 <= k < q.len() && !c.contains(#[trigger] q[k]);
            assert(q.to_set().contains(q[k]));
            assert(!c.to_set().contains(q[k]));
        }
    }
    distinct && forward && backward
}

/// Whether two id lists are equal.
pub fn same_ids(a: &Vec<String>, b: &Vec<String>) -> (r: bool)
    ensures
        r == (ids_of(a@) == ids_of(b@)),
{
    if a.len() != b.len() {
        assert(ids_of(a@).len() != ids_of(b@).len());
        return false;
    }
    let mut i: usize = 0;
    while i < a.len()
        invariant
            i <= a.len(),
            a.len() == b.len(),
            forall|k: int| 0 <= k < i ==> a@[k]@ == b@[k]@,
        decreases a.len() - i,
    {
        if !str_eq(a[i].as_str(), b[i].as_str()) {
            assert(ids_of(a@)[i as int] != ids_of(b@)[i as int]);
            return false;
        }
        i += 1;
    }
    assert(ids_of(a@) =~= ids_of(b@));
    true
}


/// A reorder operation on the project.
#[derive(Debug)]
pub enum ReorderOperation {
    ReorderTranscriptSegments { transcript_id: String, segment_ids: Vec<String> },
    ReorderStoryClips { sequence_id: String, clip_ids: Vec<String> },
}

/// The data of a reorder operation.
pub enum ReorderOpView {
    TranscriptSegments(Seq<char>, Seq<Seq<char>>),
    StoryClips(Seq<char>, Seq<Seq<char>>),
}

impl View for ReorderOperation {
    type V = ReorderOpView;

    open spec fn view(&self) -> ReorderOpView {
        match self {
            ReorderOperation::ReorderTranscriptSegments { transcript_id, segment_ids } =>
                ReorderOpView::TranscriptSegments(transcript_id@, ids_of(segment_ids@)),
            ReorderOperation::ReorderStoryClips { sequence_id, clip_ids } => ReorderOpView::StoryClips(
                sequence_id@,
                ids_of(clip_ids@),
            ),
        }
    }
}

/// The first story sequence that plays the transcript.
pub open spec fn sequence_for(seqs: Seq<StorySequence>, tid: Seq<char>) -> Option<StorySequence>
    decreases seqs.len(),
{
    if seqs.len() == 0 {
        None
    } else if seqs[0].transcript_id@ == tid {
        Some(seqs[0])
    } else {
        sequence_for(seqs.drop_first(), tid)
    }
}

/// The strings of a JSON array, or `None` if one element is not a string.
pub open spec fn string_list(items: Seq<JsonValue>) -> Option<Seq<Seq<char>>>
    decreases items.len(),
{
    if items.len() == 0 {
        Some(Seq::empty())
    } else {
        match (string_list(items.drop_last()), items.last().str_view()) {
            (Some(l), Some(x)) => Some(l.push(x)),
            _ => None,
        }
    }
}

/// The non-empty list of ids under `field`.
pub open spec fn id_list(edit: JsonValue, field: Seq<char>) -> Result<Seq<Seq<char>>, ReorderFailure> {
    match edit.field(field) {
        Some(JsonValue::Array(items)) => match string_list(items@) {
            None => Err(ReorderFailure::NonStringIds(field)),
            Some(l) => if l.len() == 0 {
                Err(ReorderFailure::EmptyIds(field))
            } else {
                Ok(l)
            },
        },
        _ => Err(ReorderFailure::MissingIds(field)),
    }
}

/// The first segment with the given id.
pub open spec fn segment_with_id(segs: Seq<TranscriptSegment>, id: Seq<char>) -> Option<
    TranscriptSegment,
>
    decreases segs.len(),
{
    if segs.len() == 0 {
        None
    } else if segs[0].id@ == id {
        Some(segs[0])
    } else {
        segment_with_id(segs.drop_first(), id)
    }
}

/// The words of the named segments, segment by segment.
pub open spec fn utterance_words(segs: Seq<TranscriptSegment>, req: Seq<Seq<char>>) -> Seq<
    Seq<char>,
>
    decreases req.len(),
{
    if req.len() == 0 {
        Seq::empty()
    } else {
        utterance_words(segs, req.drop_last()) + match segment_with_id(segs, req.last()) {
            Some(seg) => ids_of(seg.word_ids@),
            None => Seq::empty(),
        }
    }
}

pub open spec fn segment_ids_of(t: TranscriptDocument) -> Seq<Seq<char>> {
    t.segments@.map_values(|s: TranscriptSegment| s.id@)
}

pub open spec fn clip_ids_of(s: StorySequence) -> Seq<Seq<char>> {
    s.clips@.map_values(|c: StoryClip| c.id@)
}

pub open spec fn present_count(edit: JsonValue) -> int {
    (if edit.field("clipIds"@) is Some { 1int } else { 0int }) + (if edit.field("utteranceIds"@)
        is Some {
        1int
    } else {
        0int
    }) + (if edit.field("wordIds"@) is Some { 1int } else { 0int })
}

/// The requested clip order, and the requested utterance order when the
/// request named utterances.
pub open spec fn reorder_target(edit: JsonValue, t: TranscriptDocument, s: StorySequence) -> Result<
    (Seq<Seq<char>>, Option<Seq<Seq<char>>>),
    ReorderFailure,
> {
    if present_count(edit) != 1 {
        Err(ReorderFailure::AmbiguousTarget)
    } else if edit.field("clipIds"@) is Some {
        match id_list(edit, "clipIds"@) {
            Err(e) => Err(e),
            Ok(l) => Ok((l, None)),
        }
    } else if edit.field("utteranceIds"@) is Some {
        match id_list(edit, "utteranceIds"@) {
            Err(e) => Err(e),
            Ok(l) => if !is_permutation_of(segment_ids_of(t), l) {
                Err(ReorderFailure::InvalidSegmentPermutation)
            } else {
                match clip_order(s.clips@, t.words@, utterance_words(t.segments@, l)) {
                    Err(e) => Err(e),
                    Ok(c) => Ok((c, Some(l))),
                }
            },
        }
    } else {
        match id_list(edit, "wordIds"@) {
            Err(e) => Err(e),
            Ok(l) => match clip_order(s.clips@, t.words@, l) {
                Err(e) => Err(e),
                Ok(c) => Ok((c, None)),
            },
        }
    }
}

/// The operations of a reorder: the segment order when it changes, then the
/// clip order when it changes.
pub open spec fn reorder_operations(
    t: TranscriptDocument,
    s: StorySequence,
    clip_ids: Seq<Seq<char>>,
    requested: Option<Seq<Seq<char>>>,
) -> Result<Seq<ReorderOpView>, ReorderFailure> {
    if !is_permutation_of(clip_ids_of(s), clip_ids) {
        Err(ReorderFailure::InvalidClipPermutation)
    } else {
        match segment_order(t, s.clips@, clip_ids) {
            Err(e) => Err(e),
            Ok(inferred) => if requested is Some && inferred != requested.unwrap() {
                Err(ReorderFailure::UtteranceOrderCrossesClip)
            } else {
                let ops = (if inferred != segment_ids_of(t) {
                    seq![ReorderOpView::TranscriptSegments(t.id@, inferred)]
                } else {
                    Seq::empty()
                }) + (if clip_ids != clip_ids_of(s) {
                    seq![ReorderOpView::StoryClips(s.id@, clip_ids)]
                } else {
                    Seq::empty()
                });
                if ops.len() == 0 {
                    Err(ReorderFailure::NoEffect)
                } else {
                    Ok(ops)
                }
            },
        }
    }
}

/// What a reorder request gives.
pub open spec fn reorder_spec(edit: JsonValue, t: TranscriptDocument, seqs: Seq<StorySequence>) -> Result<
    Seq<ReorderOpView>,
    ReorderFailure,
> {
    match sequence_for(seqs, t.id@) {
        None => Err(ReorderFailure::StorySequenceRequired),
        Some(s) => if s.clips.len() == 0 {
            Err(ReorderFailure::StoryClipsRequired)
        } else {
            match reorder_target(edit, t, s) {
                Err(e) => Err(e),
                Ok((clip_ids, requested)) => reorder_operations(t, s, clip_ids, requested),
            }
        },
    }
}

pub open spec fn ops_view(r: Result<Vec<ReorderOperation>, ReorderError>) -> Result<
    Seq<ReorderOpView>,
    ReorderFailure,
> {
    match r {
        Ok(v) => Ok(v@.map_values(|o: ReorderOperation| o@)),
        Err(e) => Err(e@),
    }
}


pub(crate) fn find_sequence<'a>(seqs: &'a Vec<StorySequence>, tid: &str) -> (r: Option<&'a StorySequence>)
    ensures
        match r {
            Some(s) => sequence_for(seqs@, tid@) == Some(*s),
            None => sequence_for(seqs@, tid@) is None,
        },
{
    let mut i: usize = 0;
    assert(seqs@.subrange(0, seqs.len() as int) =~= seqs@);
    while i < seqs.len()
        invariant
            i <= seqs.len(),
            sequence_for(seqs@, tid@) == sequence_for(seqs@.subrange(i as int, seqs.len() as int), tid@),
        decreases seqs.len() - i,
    {
        let ghost rest = seqs@.subrange(i as int, seqs.len() as int);
        assert(rest.drop_first() =~= seqs@.subrange(i + 1, seqs.len() as int));
        assert(rest[0] == seqs@[i as int]);
        if str_eq(seqs[i].transcript_id.as_str(), tid) {
            return Some(&seqs[i]);
        }
        i += 1;
    }
    None
}

fn find_segment<'a>(segs: &'a Vec<TranscriptSegment>, id: &str) -> (r: Option<&'a TranscriptSegment>)
    ensures
        match r {
            Some(s) => segment_with_id(segs@, id@) == Some(*s),
            None => segment_with_id(segs@, id@) is None,
        },
{
    let mut i: usize = 0;
    assert(segs@.subrange(0, segs.len() as int) =~= segs@);
    while i < segs.len()
        invariant
            i <= segs.len(),
            segment_with_id(segs@, id@) == segment_with_id(segs@.subrange(i as int, segs.len() as int), id@),
        decreases segs.len() - i,
    {
        let ghost rest = segs@.subrange(i as int, segs.len() as int);
        assert(rest.drop_first() =~= segs@.subrange(i + 1, segs.len() as int));
        assert(rest[0] == segs@[i as int]);
        if str_eq(segs[i].id.as_str(), id) {
            return Some(&segs[i]);
        }
        i += 1;
    }
    None
}

pub(crate) fn copy_ids(v: &Vec<String>) -> (r: Vec<String>)
    ensures
        ids_of(r@) == ids_of(v@),
{
    let mut out: Vec<String> = Vec::new();
    let mut i: usize = 0;
    while i < v.len()
        invariant
            i <= v.len(),
            out.len() == i,
            forall|k: int| 0 <= k < i ==> (#[trigger] out@[k])@ == v@[k]@,
        decreases v.len() - i,
    {
        out.push(copy_string(v[i].as_str()));
        i += 1;
    }
    assert(ids_of(out@) =~= ids_of(v@));
    out
}

pub(crate) fn parse_ids(edit: &JsonValue, field: &str) -> (r: Result<Vec<String>, ReorderError>)
    ensures
        order_view(r) == id_list(*edit, field@),
{
    match edit.get(field) {
        Some(JsonValue::Array(items)) => {
            let mut out: Vec<String> = Vec::new();
            let mut i: usize = 0;
            assert(ids_of(out@) =~= Seq::<Seq<char>>::empty());
            while i < items.len()
                invariant
                    i <= items.len(),
                    edit.field(field@) == Some(JsonValue::Array(*items)),
                    string_list(items@.subrange(0, i as int)) == Some(ids_of(out@)),
                decreases items.len() - i,
            {
                assert(items@.subrange(0, i + 1).drop_last() =~= items@.subrange(0, i as int));
                assert(items@.subrange(0, i + 1).last() == items@[i as int]);
                match items[i].as_str() {
                    Some(t) => {
                        let ghost before = ids_of(out@);
                        out.push(copy_string(t));
                        assert(ids_of(out@) =~= before.push(t@));
                    },
                    None => {
                        proof {
                            assert(items@[i as int].str_view() is None);
                            assert(string_list(items@.subrange(0, i + 1)) is None);
                            lemma_string_list_none_prefix(items@, i + 1);
                        }
                        return Err(ReorderError::NonStringIds(copy_string(field)));
                    },
                }
                i += 1;
            }
            assert(items@.subrange(0, items.len() as int) =~= items@);
            if out.len() == 0 {
                return Err(ReorderError::EmptyIds(copy_string(field)));
            }
            Ok(out)
        },
        _ => Err(ReorderError::MissingIds(copy_string(field))),
    }
}

proof fn lemma_string_list_none_prefix(items: Seq<JsonValue>, k: int)
    requires
        0 <= k <= items.len(),
        string_list(items.subrange(0, k)) is None,
    ensures
        string_list(items) is None,
    decreases items.len() - k,
{
    if k == items.len() {
        assert(items.subrange(0, k) =~= items);
    } else {
        assert(items.drop_last().subrange(0, k) =~= items.subrange(0, k));
        lemma_string_list_none_prefix(items.drop_last(), k);
    }
}

fn segment_id_list(t: &TranscriptDocument) -> (r: Vec<String>)
    ensures
        ids_of(r@) == segment_ids_of(*t),
{
    let mut out: Vec<String> = Vec::new();
    let mut i: usize = 0;
    while i < t.segments.len()
        invariant
            i <= t.segments.len(),
            out.len() == i,
            forall|k: int| 0 <= k < i ==> (#[trigger] out@[k])@ == t.segments@[k].id@,
        decreases t.segments.len() - i,
    {
        out.push(copy_string(t.segments[i].id.as_str()));
        i += 1;
    }
    assert(ids_of(out@) =~= segment_ids_of(*t));
    out
}

fn clip_id_list(s: &StorySequence) -> (r: Vec<String>)
    ensures
        ids_of(r@) == clip_ids_of(*s),
{
    let mut out: Vec<String> = Vec::new();
    let mut i: usize = 0;
    while i < s.clips.len()
        invariant
            i <= s.clips.len(),
            out.len() == i,
            forall|k: int| 0 <= k < i ==> (#[trigger] out@[k])@ == s.clips@[k].id@,
        decreases s.clips.len() - i,
    {
        out.push(copy_string(s.clips[i].id.as_str()));
        i += 1;
    }
    assert(ids_of(out@) =~= clip_ids_of(*s));
    out
}

fn utterance_word_list(segs: &Vec<TranscriptSegment>, req: &Vec<String>) -> (r: Vec<String>)
    ensures
        ids_of(r@) == utterance_words(segs@, ids_of(req@)),
{
    let ghost q = ids_of(req@);
    let mut out: Vec<String> = Vec::new();
    assert(ids_of(out@) =~= Seq::<Seq<char>>::empty());
    let mut i: usize = 0;
    while i < req.len()
        invariant
            i <= req.len(),
            q == ids_of(req@),
            ids_of(out@) == utterance_words(segs@, q.subrange(0, i as int)),
        decreases req.len() - i,
    {
        assert(q.subrange(0, i + 1).drop_last() =~= q.subrange(0, i as int));
        assert(q.subrange(0, i + 1).last() == req@[i as int]@);
        match find_segment(segs, req[i].as_str()) {
            Some(seg) => {
                let ghost before = ids_of(out@);
                let mut words = copy_ids(&seg.word_ids);
                let ghost added = ids_of(words@);
                out.append(&mut words);
                assert(ids_of(out@) =~= before + added);
            },
            None => {
                assert(ids_of(out@) =~= ids_of(out@) + Seq::<Seq<char>>::empty());
            },
        }
        i += 1;
    }
    assert(q.subrange(0, req.len() as int) =~= q);
    out
}


pub open spec fn opt_ids(q: Option<Vec<String>>) -> Option<Seq<Seq<char>>> {
    match q {
        Some(v) => Some(ids_of(v@)),
        None => None,
    }
}

fn reorder_target_of(edit: &JsonValue, t: &TranscriptDocument, s: &StorySequence) -> (r: Result<
    (Vec<String>, Option<Vec<String>>),
    ReorderError,
>)
    ensures
        match r {
            Ok((c, q)) => reorder_target(*edit, *t, *s) == Ok::<
                (Seq<Seq<char>>, Option<Seq<Seq<char>>>),
                ReorderFailure,
            >((ids_of(c@), opt_ids(q))),
            Err(e) => reorder_target(*edit, *t, *s) == Err::<
                (Seq<Seq<char>>, Option<Seq<Seq<char>>>),
                ReorderFailure,
            >(e@),
        },
{
    proof {
        reveal_strlit("clipIds");
        reveal_strlit("utteranceIds");
        reveal_strlit("wordIds");
    }
    let has_clips = edit.get("clipIds").is_some();
    let has_utterances = edit.get("utteranceIds").is_some();
    let has_words = edit.get("wordIds").is_some();
    let count: u8 = (if has_clips { 1u8 } else { 0u8 }) + (if has_utterances { 1u8 } else { 0u8 }) + (
    if has_words {
        1u8
    } else {
        0u8
    });
    if count != 1 {
        return Err(ReorderError::AmbiguousTarget);
    }
    if has_clips {
        match parse_ids(edit, "clipIds") {
            Err(e) => Err(e),
            Ok(l) => Ok((l, None)),
        }
    } else if has_utterances {
        match parse_ids(edit, "utteranceIds") {
            Err(e) => Err(e),
            Ok(l) => {
                let current = segment_id_list(t);
                if !is_permutation(&current, &l) {
                    return Err(ReorderError::InvalidSegmentPermutation);
                }
                let words = utterance_word_list(&t.segments, &l);
                match story_clip_order_from_words(s, t, &words) {
                    Err(e) => Err(e),
                    Ok(c) => Ok((c, Some(l))),
                }
            },
        }
    } else {
        match parse_ids(edit, "wordIds") {
            Err(e) => Err(e),
            Ok(l) => match story_clip_order_from_words(s, t, &l) {
                Err(e) => Err(e),
                Ok(c) => Ok((c, None)),
            },
        }
    }
}

fn reorder_operations_of(
    t: &TranscriptDocument,
    s: &StorySequence,
    clip_ids: Vec<String>,
    requested: Option<Vec<String>>,
) -> (r: Result<Vec<ReorderOperation>, ReorderError>)
    ensures
        ops_view(r) == reorder_operations(*t, *s, ids_of(clip_ids@), opt_ids(requested)),
{
    let current_clips = clip_id_list(s);
    if !is_permutation(&current_clips, &clip_ids) {
        return Err(ReorderError::InvalidClipPermutation);
    }
    let inferred = match segment_order_for_story_clips(t, s, &clip_ids) {
        Err(e) => {
            return Err(e);
        },
        Ok(v) => v,
    };
    match &requested {
        Some(q) => {
            if !same_ids(&inferred, q) {
                return Err(ReorderError::UtteranceOrderCrossesClip);
            }
        },
        None => {},
    }
    let current_segments = segment_id_list(t);
    let mut operations: Vec<ReorderOperation> = Vec::new();
    let ghost inferred_ids = ids_of(inferred@);
    let ghost clip_view = ids_of(clip_ids@);
    let segments_changed = !same_ids(&inferred, &current_segments);
    let clips_changed = !same_ids(&clip_ids, &current_clips);
    if segments_changed {
        operations.push(
            ReorderOperation::ReorderTranscriptSegments {
                transcript_id: copy_string(t.id.as_str()),
                segment_ids: inferred,
            },
        );
    }
    if clips_changed {
        operations.push(
            ReorderOperation::ReorderStoryClips {
                sequence_id: copy_string(s.id.as_str()),
                clip_ids: clip_ids,
            },
        );
    }
    proof {
        let seg_op = if segments_changed {
            seq![ReorderOpView::TranscriptSegments(t.id@, inferred_ids)]
        } else {
            Seq::<ReorderOpView>::empty()
        };
        let clip_op = if clips_changed {
            seq![ReorderOpView::StoryClips(s.id@, clip_view)]
        } else {
            Seq::<ReorderOpView>::empty()
        };
        assert(operations@.map_values(|o: ReorderOperation| o@) =~= seg_op + clip_op);
    }
    if operations.len() == 0 {
        return Err(ReorderError::NoEffect);
    }
    Ok(operations)
}

/// The reorder operations for a request that names a new order of story
/// clips (`clipIds`), transcript utterances (`utteranceIds`) or transcript
/// words (`wordIds`); exactly one of the three must be given.
///
/// The story sequence is the first that plays the transcript. Utterances
/// and words are turned into the clip order they name; the clip order must
/// name every clip once; the segment order follows from it, and must match
/// a requested utterance order. A request that changes nothing is refused.
pub fn build_script_reorder_operations(
    edit: &JsonValue,
    transcript: &TranscriptDocument,
    sequences: &Vec<StorySequence>,
) -> (r: Result<Vec<ReorderOperation>, ReorderError>)
    ensures
        ops_view(r) == reorder_spec(*edit, *transcript, sequences@),
{
    let sequence = match find_sequence(sequences, transcript.id.as_str()) {
        None => {
            return Err(ReorderError::StorySequenceRequired);
        },
        Some(s) => s,
    };
    if sequence.clips.len() == 0 {
        return Err(ReorderError::StoryClipsRequired);
    }
    match reorder_target_of(edit, transcript, sequence) {
        Err(e) => Err(e),
        Ok((clip_ids, requested)) => reorder_operations_of(transcript, sequence, clip_ids, requested),
    }
}


pub const STATUS_UNPROCESSABLE: u16 = 422;

/// The status, code and message the API answers for a refusal; `None` for a
/// word that no clip plays, which the API answers with its not-found error
/// for a materialized story word.
pub open spec fn reorder_answer(f: ReorderFailure) -> Option<(u16, Seq<char>, Seq<char>)> {
    match f {
        ReorderFailure::StorySequenceRequired => Some((422u16, "story_sequence_required"@, "reordering spoken content requires a materialized StorySequence"@)),
        ReorderFailure::StoryClipsRequired => Some((422u16, "story_clips_required"@, "reordering spoken content requires at least one materialized story clip"@)),
        ReorderFailure::AmbiguousTarget => Some((400u16, "ambiguous_reorder_target"@, "reorder_words requires exactly one of clipIds, utteranceIds, or wordIds"@)),
        ReorderFailure::MissingIds(f) => Some((400u16, "missing_field"@, f + " is required"@)),
        ReorderFailure::NonStringIds(f) => Some((400u16, "invalid_id_array"@, f + " must contain strings"@)),
        ReorderFailure::EmptyIds(f) => Some((400u16, "empty_id_array"@, f + " must not be empty"@)),
        ReorderFailure::InvalidSegmentPermutation => Some((400u16, "invalid_segment_permutation"@, "utteranceIds must contain every transcript utterance exactly once"@)),
        ReorderFailure::DeletedAnchor(w) => Some((400u16, "deleted_reorder_anchor"@, "deleted transcript word "@ + w + " cannot anchor a reorder"@)),
        ReorderFailure::WordNotInStory(_) => None,
        ReorderFailure::ClipReentered => Some((422u16, "story_clip_split_required"@, "wordIds re-enter an earlier story clip; split the spoken content before moving that word range"@)),
        ReorderFailure::InvalidClipPermutation => Some((400u16, "invalid_story_clip_permutation"@, "the reorder target must contain every materialized story clip exactly once"@)),
        ReorderFailure::InterleavedSegment(s) => Some((422u16, "interleaved_story_segment"@, "utterance "@ + s + " is interleaved across non-adjacent story clips"@)),
        ReorderFailure::UtteranceOrderCrossesClip => Some((422u16, "story_clip_split_required"@, "the requested utterance order crosses an existing story clip; split the spoken content at an utterance boundary first"@)),
        ReorderFailure::NoEffect => Some((400u16, "reorder_has_no_effect"@, "the requested spoken-content order is already active"@)),
    }
}

fn concat3(a: &str, b: &str, c: &str) -> (r: String)
    ensures
        r@ == a@ + b@ + c@,
{
    let mut v = chars_of(a);
    push_str(&mut v, b);
    push_str(&mut v, c);
    string_of(v.as_slice())
}

/// The API error for a reorder refusal (see `reorder_answer`).
pub fn reorder_error_answer(e: &ReorderError) -> (r: Option<ApiError>)
    ensures
        match reorder_answer(e@) {
            None => r is None,
            Some((status, code, message)) => match r {
                Some(a) => a.status == status && a.code@ == code && a.message@ == message,
                None => false,
            },
        },
{
    proof {
        reveal_strlit("");
    }
    match e {
        ReorderError::StorySequenceRequired => Some(
            ApiError::new(
                STATUS_UNPROCESSABLE,
                "story_sequence_required",
                "reordering spoken content requires a materialized StorySequence",
            ),
        ),
        ReorderError::StoryClipsRequired => Some(
            ApiError::new(
                STATUS_UNPROCESSABLE,
                "story_clips_required",
                "reordering spoken content requires at least one materialized story clip",
            ),
        ),
        ReorderError::AmbiguousTarget => Some(
            ApiError::bad_request(
                "ambiguous_reorder_target",
                "reorder_words requires exactly one of clipIds, utteranceIds, or wordIds",
            ),
        ),
        ReorderError::MissingIds(f) => Some(
            ApiError::bad_request("missing_field", concat3(f.as_str(), " is required", "").as_str()),
        ),
        ReorderError::NonStringIds(f) => Some(
            ApiError::bad_request(
                "invalid_id_array",
                concat3(f.as_str(), " must contain strings", "").as_str(),
            ),
        ),
        ReorderError::EmptyIds(f) => Some(
            ApiError::bad_request(
                "empty_id_array",
                concat3(f.as_str(), " must not be empty", "").as_str(),
            ),
        ),
        ReorderError::InvalidSegmentPermutation => Some(
            ApiError::bad_request(
                "invalid_segment_permutation",
                "utteranceIds must contain every transcript utterance exactly once",
            ),
        ),
        ReorderError::DeletedAnchor(w) => Some(
            ApiError::bad_request(
                "deleted_reorder_anchor",
                concat3("deleted transcript word ", w.as_str(), " cannot anchor a reorder").as_str(),
            ),
        ),
        ReorderError::WordNotInStory(_) => None,
        ReorderError::ClipReentered => Some(
            ApiError::new(
                STATUS_UNPROCESSABLE,
                "story_clip_split_required",
                "wordIds re-enter an earlier story clip; split the spoken content before moving that word range",
            ),
        ),
        ReorderError::InvalidClipPermutation => Some(
            ApiError::bad_request(
                "invalid_story_clip_permutation",
                "the reorder target must contain every materialized story clip exactly once",
            ),
        ),
        ReorderError::InterleavedSegment(s) => Some(
            ApiError::new(
                STATUS_UNPROCESSABLE,
                "interleaved_story_segment",
                concat3(
                    "utterance ",
                    s.as_str(),
                    " is interleaved across non-adjacent story clips",
                ).as_str(),
            ),
        ),
        ReorderError::UtteranceOrderCrossesClip => Some(
            ApiError::new(
                STATUS_UNPROCESSABLE,
                "story_clip_split_required",
                "the requested utterance order crosses an existing story clip; split the spoken content at an utterance boundary first",
            ),
        ),
        ReorderError::NoEffect => Some(
            ApiError::bad_request(
                "reorder_has_no_effect",
                "the requested spoken-content order is already active",
            ),
        ),
    }
}


proof fn lemma_with_key(keys: Seq<int>, r: int, n: int)
    requires
        0 <= n <= keys.len(),
    ensures
        forall|j: int|
            0 <= j < positions_with_key(keys, r, n).len() ==> 0 <= #[trigger] positions_with_key(
                keys,
                r,
                n,
            )[j] < n && keys[positions_with_key(keys, r, n)[j]] == r,
        positions_with_key(keys, r, n).no_duplicates(),
        forall|i: int| 0 <= i < n && keys[i] == r ==> #[trigger] positions_with_key(keys, r, n).contains(i),
    decreases n,
{
    if n > 0 {
        lemma_with_key(keys, r, n - 1);
        let prev = positions_with_key(keys, r, n - 1);
        if keys[n - 1] == r {
            assert(positions_with_key(keys, r, n) == prev + seq![n - 1]);
            assert(positions_with_key(keys, r, n)[prev.len() as int] == n - 1);
            assert forall|i: int| 0 <= i < n && keys[i] == r implies #[trigger] positions_with_key(
                keys,
                r,
                n,
            ).contains(i) by {
                if i < n - 1 {
                    assert(prev.contains(i));
                    let j = choose|j: int| 0 <= j < prev.len() && prev[j] == i;
                    assert(positions_with_key(keys, r, n)[j] == i);
                }
            }
        } else {
            assert(positions_with_key(keys, r, n) =~= prev);
        }
    }
}

proof fn lemma_by_key(keys: Seq<int>, m: int)
    requires
        0 <= m,
    ensures
        forall|j: int|
            0 <= j < positions_by_key(keys, m).len() ==> 0 <= #[trigger] positions_by_key(keys, m)[j]
                < keys.len() && 0 <= keys[positions_by_key(keys, m)[j]] < m,
        positions_by_key(keys, m).no_duplicates(),
        forall|i: int|
            0 <= i < keys.len() && 0 <= keys[i] < m ==> #[trigger] positions_by_key(keys, m).contains(i),
    decreases m,
{
    if m > 0 {
        lemma_by_key(keys, m - 1);
        lemma_with_key(keys, m - 1, keys.len() as int);
        let a = positions_by_key(keys, m - 1);
        let b = positions_with_key(keys, m - 1, keys.len() as int);
        assert forall|i: int, j: int| 0 <= i < a.len() && 0 <= j < b.len() implies a[i] != b[j] by {
            assert(keys[a[i]] < m - 1);
            assert(keys[b[j]] == m - 1);
        }
        vstd::seq_lib::lemma_no_dup_in_concat(a, b);
        assert(positions_by_key(keys, m) == a + b);
        assert forall|i: int| 0 <= i < keys.len() && 0 <= keys[i] < m implies #[trigger] positions_by_key(
            keys,
            m,
        ).contains(i) by {
            if keys[i] < m - 1 {
                assert(a.contains(i));
                let j = choose|j: int| 0 <= j < a.len() && a[j] == i;
                assert((a + b)[j] == i);
            } else {
                assert(b.contains(i));
                let j = choose|j: int| 0 <= j < b.len() && b[j] == i;
                assert((a + b)[a.len() + j] == i);
            }
        }
    }
}

/// The positions ordered by bucket list every position exactly once, when
/// every key lies below `m` or is the `usize::MAX` of an unranked segment.
pub proof fn lemma_positions_cover(keys: Seq<int>, m: int)
    requires
        0 <= m <= usize::MAX,
        forall|i: int| 0 <= i < keys.len() ==> (0 <= #[trigger] keys[i] < m || keys[i] == usize::MAX),
    ensures
        ({
            let p = positions_by_key(keys, m) + positions_with_key(keys, usize::MAX as int, keys.len() as int);
            &&& p.no_duplicates()
            &&& forall|j: int| 0 <= j < p.len() ==> 0 <= #[trigger] p[j] < keys.len()
            &&& forall|i: int| 0 <= i < keys.len() ==> #[trigger] p.contains(i)
        }),
{
    lemma_by_key(keys, m);
    lemma_with_key(keys, usize::MAX as int, keys.len() as int);
    let a = positions_by_key(keys, m);
    let b = positions_with_key(keys, usize::MAX as int, keys.len() as int);
    assert forall|i: int, j: int| 0 <= i < a.len() && 0 <= j < b.len() implies a[i] != b[j] by {
        assert(keys[a[i]] < m);
        assert(keys[b[j]] == usize::MAX);
    }
    vstd::seq_lib::lemma_no_dup_in_concat(a, b);
    assert forall|i: int| 0 <= i < keys.len() implies #[trigger] (a + b).contains(i) by {
        if keys[i] < m {
            assert(a.contains(i));
            let j = choose|j: int| 0 <= j < a.len() && a[j] == i;
            assert((a + b)[j] == i);
        } else {
            assert(b.contains(i));
            let j = choose|j: int| 0 <= j < b.len() && b[j] == i;
            assert((a + b)[a.len() + j] == i);
        }
    }
    assert forall|j: int| 0 <= j < (a + b).len() implies 0 <= #[trigger] (a + b)[j] < keys.len() by {
        if j < a.len() {
            assert((a + b)[j] == a[j]);
        } else {
            assert((a + b)[j] == b[j - a.len()]);
        }
    }
}


proof fn lemma_clip_rank_bound(ids: Seq<Seq<char>>, c: Seq<char>)
    ensures
        clip_rank(ids, c) matches Some(r) ==> 0 <= r < ids.len(),
    decreases ids.len(),
{
    if ids.len() > 0 {
        lemma_clip_rank_bound(ids.drop_last(), c);
    }
}

proof fn lemma_word_rank_bound(clips: Seq<StoryClip>, ids: Seq<Seq<char>>, w: Seq<char>)
    ensures
        word_rank(clips, ids, w) matches Some(r) ==> 0 <= r < ids.len(),
    decreases clips.len(),
{
    if clips.len() > 0 {
        lemma_clip_rank_bound(ids, clips.last().id@);
        lemma_word_rank_bound(clips.drop_last(), ids, w);
    }
}

proof fn lemma_min_exists(rs: Set<int>, x: int)
    requires
        rs.contains(x),
        forall|q: int| rs.contains(q) ==> q >= 0,
    ensures
        exists|r: int| rs.contains(r) && forall|q: int| rs.contains(q) ==> r <= q,
    decreases x,
{
    if !(forall|q: int| rs.contains(q) ==> x <= q) {
        let y = choose|q: int| rs.contains(q) && !(x <= q);
        lemma_min_exists(rs, y);
    }
}

proof fn lemma_key_range(
    seg: TranscriptSegment,
    words: Seq<TranscriptWord>,
    clips: Seq<StoryClip>,
    ids: Seq<Seq<char>>,
)
    ensures
        ({
            let k = first_rank(segment_ranks(seg, words, clips, ids));
            (0 <= k < ids.len() || k == usize::MAX)
        }),
{
    let rs = segment_ranks(seg, words, clips, ids);
    assert forall|q: int| rs.contains(q) implies 0 <= q < ids.len() by {
        let k = choose|k: int|
            0 <= k < seg.word_ids.len() && !deleted_flag(words, #[trigger] seg.word_ids@[k]@)
                && word_rank(clips, ids, seg.word_ids@[k]@) == Some(q);
        lemma_word_rank_bound(clips, ids, seg.word_ids@[k]@);
    }
    if exists|r: int| rs.contains(r) {
        let x = choose|r: int| rs.contains(r);
        lemma_min_exists(rs, x);
    }
}

/// The segment order a clip order gives lists every transcript segment
/// exactly once.
pub proof fn lemma_segment_order_lists_each_segment(
    t: TranscriptDocument,
    clips: Seq<StoryClip>,
    clip_ids: Seq<Seq<char>>,
)
    requires
        clip_ids.len() <= usize::MAX,
    ensures
        segment_positions(t, clips, clip_ids).no_duplicates(),
        forall|j: int|
            0 <= j < segment_positions(t, clips, clip_ids).len() ==> 0 <= #[trigger] segment_positions(
                t,
                clips,
                clip_ids,
            )[j] < t.segments@.len(),
        forall|i: int|
            0 <= i < t.segments@.len() ==> #[trigger] segment_positions(t, clips, clip_ids).contains(i),
{
    let keys = segment_keys(t.segments@, t.words@, clips, clip_ids);
    assert forall|i: int| 0 <= i < keys.len() implies (0 <= #[trigger] keys[i] < clip_ids.len()
        || keys[i] == usize::MAX) by {
        lemma_key_range(t.segments@[i], t.words@, clips, clip_ids);
    }
    lemma_positions_cover(keys, clip_ids.len() as int);
}

} // verus!
