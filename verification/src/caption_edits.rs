//! Caption edits on the timeline: which caption track a request targets,
//! removing captions, translating a caption track, and importing subtitle
//! cues onto transcript words.
use vstd::prelude::*;
use crate::error::{ApiError, STATUS_BAD_REQUEST};
use crate::captions::WordRange;
use crate::json::JsonValue;
use crate::text::{chars_of, copy_string, no_control, push_decimal, push_str, str_eq, string_of};

verus! {

pub const STATUS_PRECONDITION_REQUIRED: u16 = 428;
pub const STATUS_UNPROCESSABLE: u16 = 422;
pub const STATUS_NOT_IMPLEMENTED: u16 = 501;

/// The kind of a timeline track, as far as captions care.
#[derive(Debug, Clone, Copy, PartialEq, Eq, Structural)]
pub enum TrackKind {
    Caption,
    Text,
    Other,
}

/// A timeline item; a caption item carries its caption's language.
#[derive(Debug)]
pub struct TimelineItem {
    pub id: String,
    pub name: String,
    pub start_ticks: i64,
    pub duration_ticks: i64,
    pub caption_language: Option<String>,
}

/// A timeline track and the scene it belongs to.
#[derive(Debug)]
pub struct Track {
    pub scene_id: String,
    pub id: String,
    pub kind: TrackKind,
    pub items: Vec<TimelineItem>,
}

/// Why a caption edit is refused.
#[derive(Debug)]
pub enum CaptionEditError {
    Refused(ApiError),
    /// No track has the requested caption track id.
    TrackNotFound(String),
    /// No transcript has the requested id.
    TranscriptNotFound(String),
}

pub enum CaptionFailure {
    /// Status, code, message, and the track ids the details list, if any.
    Refused(u16, Seq<char>, Seq<char>, Option<Seq<Seq<char>>>),
    TrackNotFound(Seq<char>),
    TranscriptNotFound(Seq<char>),
}

impl View for CaptionEditError {
    type V = CaptionFailure;

    open spec fn view(&self) -> CaptionFailure {
        match self {
            CaptionEditError::Refused(e) => CaptionFailure::Refused(
                e.status,
                e.code@,
                e.message@,
                listed_track_ids(e.details),
            ),
            CaptionEditError::TrackNotFound(id) => CaptionFailure::TrackNotFound(id@),
            CaptionEditError::TranscriptNotFound(id) => CaptionFailure::TranscriptNotFound(id@),
        }
    }
}

/// The track ids an error's details list under `captionTrackIds`.
pub open spec fn listed_track_ids(details: Option<JsonValue>) -> Option<Seq<Seq<char>>> {
    match details {
        Some(JsonValue::Object(d)) => if d@.len() == 1 && d@[0].0@ == "captionTrackIds"@ {
            match d@[0].1 {
                JsonValue::Array(a) => Some(a@.map_values(|v: JsonValue| v.str_view().unwrap())),
                _ => None,
            }
        } else {
            None
        },
        _ => None,
    }
}

pub open spec fn refused(status: u16, code: Seq<char>, message: Seq<char>) -> CaptionFailure {
    CaptionFailure::Refused(status, code, message, None)
}

fn refuse(status: u16, code: &str, message: &str) -> (e: CaptionEditError)
    ensures
        e@ == refused(status, code@, message@),
{
    CaptionEditError::Refused(ApiError::new(status, code, message))
}

pub open spec fn is_caption_item(i: TimelineItem) -> bool {
    i.caption_language is Some
}

/// The ids of the caption items, in track order.
pub open spec fn caption_item_ids(items: Seq<TimelineItem>) -> Seq<Seq<char>>
    decreases items.len(),
{
    if items.len() == 0 {
        Seq::empty()
    } else {
        caption_item_ids(items.drop_last()) + if is_caption_item(items.last()) {
            seq![items.last().id@]
        } else {
            Seq::empty()
        }
    }
}

/// A track holds captions: a caption track, or one with a caption item.
pub open spec fn holds_captions(t: Track) -> bool {
    t.kind == TrackKind::Caption || caption_item_ids(t.items@).len() > 0
}

/// The tracks that hold captions, in order.
pub open spec fn caption_tracks(ts: Seq<Track>) -> Seq<Track>
    decreases ts.len(),
{
    if ts.len() == 0 {
        Seq::empty()
    } else {
        caption_tracks(ts.drop_last()) + if holds_captions(ts.last()) {
            seq![ts.last()]
        } else {
            Seq::empty()
        }
    }
}

/// The first track with the id.
pub open spec fn track_with_id(ts: Seq<Track>, id: Seq<char>) -> Option<Track>
    decreases ts.len(),
{
    if ts.len() == 0 {
        None
    } else if ts[0].id@ == id {
        Some(ts[0])
    } else {
        track_with_id(ts.drop_first(), id)
    }
}

/// The caption track a request targets: the one named by `captionTrackId`,
/// else the project's only track that holds captions.
pub open spec fn target_track_spec(ts: Seq<Track>, input: JsonValue) -> Result<Track, CaptionFailure> {
    match input.field_str("captionTrackId"@) {
        Some(id) => match track_with_id(ts, id) {
            Some(t) => Ok(t),
            None => Err(CaptionFailure::TrackNotFound(id)),
        },
        None => {
            let c = caption_tracks(ts);
            if c.len() == 1 {
                Ok(c[0])
            } else if c.len() == 0 {
                Err(refused(422, "caption_track_required"@, "the project has no caption track"@))
            } else {
                Err(
                    CaptionFailure::Refused(
                        400,
                        "caption_track_selection_required"@,
                        "more than one caption track exists; provide captionTrackId"@,
                        Some(c.map_values(|t: Track| t.id@)),
                    ),
                )
            }
        },
    }
}

pub(crate) fn find_track<'a>(ts: &'a Vec<Track>, id: &str) -> (r: Option<&'a Track>)
    ensures
        match r {
            Some(t) => track_with_id(ts@, id@) == Some(*t),
            None => track_with_id(ts@, id@) is None,
        },
{
    let mut i: usize = 0;
    assert(ts@.subrange(0, ts.len() as int) =~= ts@);
    while i < ts.len()
        invariant
            i <= ts.len(),
            track_with_id(ts@, id@) == track_with_id(ts@.subrange(i as int, ts.len() as int), id@),
        decreases ts.len() - i,
    {
        let ghost rest = ts@.subrange(i as int, ts.len() as int);
        assert(rest.drop_first() =~= ts@.subrange(i + 1, ts.len() as int));
        assert(rest[0] == ts@[i as int]);
        if str_eq(ts[i].id.as_str(), id) {
            return Some(&ts[i]);
        }
        i += 1;
    }
    None
}

/// The caption item ids of a track's items.
fn caption_items_of(items: &Vec<TimelineItem>) -> (r: Vec<String>)
    ensures
        crate::story::ids_of(r@) == caption_item_ids(items@),
{
    let mut out: Vec<String> = Vec::new();
    let mut i: usize = 0;
    while i < items.len()
        invariant
            i <= items.len(),
            crate::story::ids_of(out@) == caption_item_ids(items@.subrange(0, i as int)),
        decreases items.len() - i,
    {
        assert(items@.subrange(0, i + 1).drop_last() =~= items@.subrange(0, i as int));
        let ghost before = out@;
        if items[i].caption_language.is_some() {
            out.push(copy_string(items[i].id.as_str()));
            assert(crate::story::ids_of(out@) =~= crate::story::ids_of(before).push(items@[i as int].id@));
        }
        i += 1;
    }
    assert(items@.subrange(0, items.len() as int) =~= items@);
    out
}

/// The track a caption edit targets (see `target_track_spec`); when several
/// tracks hold captions the refusal lists their ids in its details.
pub fn target_caption_track<'a>(tracks: &'a Vec<Track>, input: &JsonValue) -> (r: Result<
    &'a Track,
    CaptionEditError,
>)
    ensures
        match (r, target_track_spec(tracks@, *input)) {
            (Ok(t), Ok(s)) => *t == s,
            (Err(e), Err(f)) => e@ == f,
            _ => false,
        },
{
    if let Some(id) = input.get_str("captionTrackId") {
        return match find_track(tracks, id) {
            Some(t) => Ok(t),
            None => Err(CaptionEditError::TrackNotFound(copy_string(id))),
        };
    }
    let mut found: Vec<usize> = Vec::new();
    let mut i: usize = 0;
    while i < tracks.len()
        invariant
            i <= tracks.len(),
            found.len() == caption_tracks(tracks@.subrange(0, i as int)).len(),
            forall|k: int|
                0 <= k < found.len() ==> #[trigger] found@[k] < i && tracks@[found@[k] as int]
                    == caption_tracks(tracks@.subrange(0, i as int))[k],
        decreases tracks.len() - i,
    {
        assert(tracks@.subrange(0, i + 1).drop_last() =~= tracks@.subrange(0, i as int));
        let ghost before = caption_tracks(tracks@.subrange(0, i as int));
        let ids = caption_items_of(&tracks[i].items);
        if tracks[i].kind == TrackKind::Caption || ids.len() > 0 {
            found.push(i);
            assert(caption_tracks(tracks@.subrange(0, i + 1)) =~= before.push(tracks@[i as int]));
        } else {
            assert(caption_tracks(tracks@.subrange(0, i + 1)) =~= before);
        }
        i += 1;
    }
    assert(tracks@.subrange(0, tracks.len() as int) =~= tracks@);
    if found.len() == 1 {
        Ok(&tracks[found[0]])
    } else if found.len() == 0 {
        Err(refuse(STATUS_UNPROCESSABLE, "caption_track_required", "the project has no caption track"))
    } else {
        let ghost c = caption_tracks(tracks@);
        let mut ids: Vec<JsonValue> = Vec::new();
        let mut k: usize = 0;
        while k < found.len()
            invariant
                k <= found.len(),
                found.len() == c.len(),
                c == caption_tracks(tracks@),
                forall|q: int| 0 <= q < found.len() ==> #[trigger] found@[q] < tracks.len() && tracks@[found@[q] as int] == c[q],
                ids@.map_values(|v: JsonValue| v.str_view().unwrap()) == c.subrange(0, k as int).map_values(|t: Track| t.id@),
            decreases found.len() - k,
        {
            let ghost before = ids@.map_values(|v: JsonValue| v.str_view().unwrap());
            let id = copy_string(tracks[found[k]].id.as_str());
            assert(id@ == c[k as int].id@);
            ids.push(JsonValue::Str(id));
            assert(ids@.map_values(|v: JsonValue| v.str_view().unwrap()) =~= before.push(c[k as int].id@));
            assert(c.subrange(0, k + 1).map_values(|t: Track| t.id@) =~= c.subrange(0, k as int).map_values(
                |t: Track| t.id@,
            ).push(c[k as int].id@));
            k += 1;
        }
        assert(c.subrange(0, c.len() as int) =~= c);
        let details = JsonValue::Object(vec![(copy_string("captionTrackIds"), JsonValue::Array(ids))]);
        Err(
            CaptionEditError::Refused(
                ApiError::bad_request(
                    "caption_track_selection_required",
                    "more than one caption track exists; provide captionTrackId",
                ).with_details(details),
            ),
        )
    }
}

/// A timeline operation of a caption edit.
#[derive(Debug)]
pub enum CaptionOperation {
    RemoveTrack { track_id: String },
    RemoveItem { item_id: String },
    /// A new caption track, first in its scene.
    AddCaptionTrack { scene_id: String, track_id: String, name: String },
    /// A copy of the caption item `source_item_id` in another language, on
    /// the track `track_id`; the caption keeps its words and records its
    /// source language.
    InsertTranslatedCaption {
        track_id: String,
        item_id: String,
        name: String,
        start_ticks: i64,
        duration_ticks: i64,
        source_item_id: String,
        language: String,
        translation_of: String,
    },
    /// A new main scene, first in the project, named `Main`.
    AddMainScene { scene_id: String },
    /// A caption item over the caption's words, on the track `track_id`.
    InsertCaption { track_id: String, item_id: String, name: String, start_ticks: i64, duration_ticks: i64 },
}

pub enum CaptionOpView {
    RemoveTrack(Seq<char>),
    RemoveItem(Seq<char>),
    AddCaptionTrack(Seq<char>, Seq<char>, Seq<char>),
    InsertTranslatedCaption(Seq<char>, Seq<char>, Seq<char>, i64, i64, Seq<char>, Seq<char>, Seq<char>),
    AddMainScene(Seq<char>),
    InsertCaption(Seq<char>, Seq<char>, Seq<char>, i64, i64),
}

impl View for CaptionOperation {
    type V = CaptionOpView;

    open spec fn view(&self) -> CaptionOpView {
        match self {
            CaptionOperation::RemoveTrack { track_id } => CaptionOpView::RemoveTrack(track_id@),
            CaptionOperation::RemoveItem { item_id } => CaptionOpView::RemoveItem(item_id@),
            CaptionOperation::AddCaptionTrack { scene_id, track_id, name } =>
                CaptionOpView::AddCaptionTrack(scene_id@, track_id@, name@),
            CaptionOperation::InsertTranslatedCaption {
                track_id,
                item_id,
                name,
                start_ticks,
                duration_ticks,
                source_item_id,
                language,
                translation_of,
            } => CaptionOpView::InsertTranslatedCaption(
                track_id@,
                item_id@,
                name@,
                *start_ticks,
                *duration_ticks,
                source_item_id@,
                language@,
                translation_of@,
            ),
            CaptionOperation::AddMainScene { scene_id } => CaptionOpView::AddMainScene(scene_id@),
            CaptionOperation::InsertCaption { track_id, item_id, name, start_ticks, duration_ticks } =>
                CaptionOpView::InsertCaption(track_id@, item_id@, name@, *start_ticks, *duration_ticks),
        }
    }
}

pub open spec fn caption_op_views(v: Seq<CaptionOperation>) -> Seq<CaptionOpView> {
    v.map_values(|o: CaptionOperation| o@)
}

/// The removal of a track's captions.
#[derive(Debug)]
pub struct CaptionRemoval {
    pub track_id: String,
    pub item_ids: Vec<String>,
    pub operations: Vec<CaptionOperation>,
}

/// Removing captions: confirmed by `confirm: true`, on the targeted track;
/// the whole track goes when it holds nothing but captions, else each
/// caption item goes.
pub open spec fn removal_spec(input: JsonValue, ts: Seq<Track>) -> Result<
    (Seq<char>, Seq<Seq<char>>, Seq<CaptionOpView>),
    CaptionFailure,
> {
    if input.field_bool("confirm"@) != Some(true) {
        Err(
            refused(428, "confirmation_required"@, "removing captions requires confirm=true after reviewing the affected track"@),
        )
    } else {
        match target_track_spec(ts, input) {
            Err(f) => Err(f),
            Ok(t) => {
                let ids = caption_item_ids(t.items@);
                if ids.len() == 0 {
                    Err(refused(422, "caption_items_required"@, "the selected track contains no caption items"@))
                } else if ids.len() == t.items.len() {
                    Ok((t.id@, ids, seq![CaptionOpView::RemoveTrack(t.id@)]))
                } else {
                    Ok((t.id@, ids, ids.map_values(|i: Seq<char>| CaptionOpView::RemoveItem(i))))
                }
            },
        }
    }
}

/// The operations that remove captions (see `removal_spec`).
pub fn remove_captions(input: &JsonValue, tracks: &Vec<Track>) -> (r: Result<CaptionRemoval, CaptionEditError>)
    ensures
        match (r, removal_spec(*input, tracks@)) {
            (Ok(a), Ok((tid, ids, ops))) => a.track_id@ == tid && crate::story::ids_of(a.item_ids@) == ids
                && caption_op_views(a.operations@) == ops,
            (Err(e), Err(f)) => e@ == f,
            _ => false,
        },
{
    if input.get_bool("confirm") != Some(true) {
        return Err(
            refuse(
                STATUS_PRECONDITION_REQUIRED,
                "confirmation_required",
                "removing captions requires confirm=true after reviewing the affected track",
            ),
        );
    }
    let track = match target_caption_track(tracks, input) {
        Err(e) => return Err(e),
        Ok(t) => t,
    };
    let ids = caption_items_of(&track.items);
    if ids.len() == 0 {
        return Err(
            refuse(STATUS_UNPROCESSABLE, "caption_items_required", "the selected track contains no caption items"),
        );
    }
    let ghost expected = removal_spec(*input, tracks@)->Ok_0.2;
    let mut operations: Vec<CaptionOperation> = Vec::new();
    if ids.len() == track.items.len() {
        operations.push(CaptionOperation::RemoveTrack { track_id: copy_string(track.id.as_str()) });
        assert(caption_op_views(operations@) =~= expected);
    } else {
        let mut i: usize = 0;
        while i < ids.len()
            invariant
                i <= ids.len(),
                expected == crate::story::ids_of(ids@).map_values(|x: Seq<char>| CaptionOpView::RemoveItem(x)),
                caption_op_views(operations@) =~= expected.subrange(0, i as int),
            decreases ids.len() - i,
        {
            let op = CaptionOperation::RemoveItem { item_id: copy_string(ids[i].as_str()) };
            assert(op@ == expected[i as int]);
            let ghost before = operations@;
            operations.push(op);
            assert(caption_op_views(operations@) =~= caption_op_views(before).push(expected[i as int]));
            i += 1;
        }
        assert(expected.subrange(0, ids.len() as int) =~= expected);
    }
    Ok(CaptionRemoval { track_id: copy_string(track.id.as_str()), item_ids: ids, operations })
}

/// A member of the options; no options set none.
pub open spec fn opt_field(options: Option<JsonValue>, key: Seq<char>) -> Option<JsonValue> {
    match options {
        Some(o) => o.field(key),
        None => None,
    }
}

/// A string member of the options.
pub open spec fn opt_str(options: Option<JsonValue>, key: Seq<char>) -> Option<Seq<char>> {
    match opt_field(options, key) {
        Some(v) => v.str_view(),
        None => None,
    }
}

pub open spec fn opt_of(o: Option<&JsonValue>) -> Option<JsonValue> {
    match o {
        Some(x) => Some(*x),
        None => None,
    }
}

/// The language a caption track is translated into: `targetLanguage`, a
/// non-empty string of at most 64 bytes.
pub open spec fn target_language_spec(options: Option<JsonValue>) -> Option<Seq<char>> {
    match opt_field(options, "targetLanguage"@) {
        Some(v) => match v.str_view() {
            Some(l) => if l.len() > 0 && vstd::utf8::encode_utf8(l).len() <= 64 {
                Some(l)
            } else {
                None
            },
            None => None,
        },
        None => None,
    }
}

/// The refusal of the first unacceptable translation: a value that is not a
/// string, or text over 20000 characters or with a control character.
pub open spec fn first_bad_translation(entries: Seq<(String, JsonValue)>) -> Option<CaptionFailure>
    decreases entries.len(),
{
    if entries.len() == 0 {
        None
    } else {
        match entries[0].1.str_view() {
            None => Some(refused(400, "invalid_translation"@, "translation values must be strings"@)),
            Some(text) => if text.len() > 20000 || !no_control(text) {
                Some(
                    refused(400, "invalid_translation"@, "translation for "@ + entries[0].0@ + " is invalid"@),
                )
            } else {
                first_bad_translation(entries.drop_first())
            },
        }
    }
}

/// Reviewed translations as word id and text.
pub open spec fn translation_pairs(entries: Seq<(String, JsonValue)>) -> Seq<(Seq<char>, Seq<char>)> {
    entries.map_values(|e: (String, JsonValue)| (e.0@, e.1.str_view().unwrap()))
}

/// The translated copies of the caption items among the first `n` items;
/// an item's id carries its position on the source track.
pub open spec fn translated_ops(items: Seq<TimelineItem>, n: nat, track: Seq<char>, suffix: Seq<char>, lang: Seq<char>) -> Seq<CaptionOpView>
    decreases n,
{
    if n == 0 {
        Seq::empty()
    } else {
        let item = items[n - 1];
        translated_ops(items, (n - 1) as nat, track, suffix, lang) + if is_caption_item(item) {
            seq![
                CaptionOpView::InsertTranslatedCaption(
                    track,
                    "item:caption-translation:"@ + suffix + ":"@ + crate::text::decimal((n - 1) as nat),
                    item.name@ + " ("@ + lang + ")"@,
                    item.start_ticks,
                    item.duration_ticks,
                    item.id@,
                    lang,
                    item.caption_language.unwrap()@,
                ),
            ]
        } else {
            Seq::empty()
        }
    }
}

pub open spec fn inserted_ids(ops: Seq<CaptionOpView>) -> Seq<Seq<char>> {
    ops.map_values(|o: CaptionOpView| match o {
        CaptionOpView::InsertTranslatedCaption(_, id, _, _, _, _, _, _) => id,
        _ => Seq::empty(),
    })
}

/// A translated caption track.
#[derive(Debug)]
pub struct CaptionTranslation {
    pub source_track_id: String,
    pub track_id: String,
    pub target_language: String,
    /// The reviewed text of each word, which every translated caption carries.
    pub translations: Vec<(String, String)>,
    pub item_ids: Vec<String>,
    pub operations: Vec<CaptionOperation>,
}

pub struct TranslationView {
    pub source_track_id: Seq<char>,
    pub track_id: Seq<char>,
    pub target_language: Seq<char>,
    pub translations: Seq<(Seq<char>, Seq<char>)>,
    pub item_ids: Seq<Seq<char>>,
    pub operations: Seq<CaptionOpView>,
}

/// Translating a caption track with reviewed text: no provider may be named;
/// `targetLanguage` and the `translations` object are required and every
/// translation must be acceptable; a new caption track in the source track's
/// scene gets a translated copy of each caption item.
pub open spec fn translation_spec(input: JsonValue, options: Option<JsonValue>, ts: Seq<Track>, suffix: Seq<char>) -> Result<
    TranslationView,
    CaptionFailure,
> {
    if opt_field(options, "provider"@) is Some {
        Err(
            refused(501, "capability_not_available"@, "external caption translation must be submitted through a configured generation provider"@),
        )
    } else {
        match target_language_spec(options) {
            None => Err(refused(400, "target_language_required"@, "options.targetLanguage is required"@)),
            Some(lang) => match opt_field(options, "translations"@) {
                Some(JsonValue::Object(entries)) => match first_bad_translation(entries@) {
                    Some(f) => Err(f),
                    None => match target_track_spec(ts, input) {
                        Err(f) => Err(f),
                        Ok(t) => {
                            let track = "track:caption-translation:"@ + suffix;
                            let inserts = translated_ops(t.items@, t.items@.len(), track, suffix, lang);
                            if inserts.len() == 0 {
                                Err(refused(422, "caption_items_required"@, "the selected track contains no caption items"@))
                            } else {
                                Ok(
                                    TranslationView {
                                        source_track_id: t.id@,
                                        track_id: track,
                                        target_language: lang,
                                        translations: translation_pairs(entries@),
                                        item_ids: inserted_ids(inserts),
                                        operations: seq![CaptionOpView::AddCaptionTrack(t.scene_id@, track, "Captions ("@ + lang + ")"@)]
                                            + inserts,
                                    },
                                )
                            }
                        },
                    },
                },
                _ => Err(
                    refused(400, "translations_required"@, "options.translations must map word IDs to reviewed text"@),
                ),
            },
        }
    }
}

fn opt_get<'a>(options: Option<&'a JsonValue>, key: &str) -> (r: Option<&'a JsonValue>)
    ensures
        opt_of(r) == opt_field(opt_of(options), key@),
{
    match options {
        Some(o) => o.get(key),
        None => None,
    }
}

fn translations_of(entries: &Vec<(String, JsonValue)>) -> (r: Result<Vec<(String, String)>, CaptionEditError>)
    ensures
        match (r, first_bad_translation(entries@)) {
            (Ok(v), None) => v@.map_values(|e: (String, String)| (e.0@, e.1@)) == translation_pairs(entries@),
            (Err(e), Some(f)) => e@ == f,
            _ => false,
        },
{
    let mut out: Vec<(String, String)> = Vec::new();
    let mut i: usize = 0;
    assert(entries@.subrange(0, entries.len() as int) =~= entries@);
    while i < entries.len()
        invariant
            i <= entries.len(),
            out.len() == i,
            first_bad_translation(entries@) == first_bad_translation(entries@.subrange(i as int, entries.len() as int)),
            forall|k: int| 0 <= k < i ==> (#[trigger] out@[k]).0@ == entries@[k].0@ && entries@[k].1.str_view() == Some(out@[k].1@),
        decreases entries.len() - i,
    {
        let ghost rest = entries@.subrange(i as int, entries.len() as int);
        assert(rest.drop_first() =~= entries@.subrange(i + 1, entries.len() as int));
        assert(rest[0] == entries@[i as int]);
        let text = match entries[i].1.as_str() {
            None => return Err(refuse(STATUS_BAD_REQUEST, "invalid_translation", "translation values must be strings")),
            Some(t) => t,
        };
        let cs = chars_of(text);
        if cs.len() > 20000 || crate::text::any_control(cs.as_slice()) {
            let mut m = chars_of("translation for ");
            push_str(&mut m, entries[i].0.as_str());
            push_str(&mut m, " is invalid");
            let message = string_of(m.as_slice());
            return Err(refuse(STATUS_BAD_REQUEST, "invalid_translation", message.as_str()));
        }
        out.push((copy_string(entries[i].0.as_str()), copy_string(text)));
        i += 1;
    }
    assert(out@.map_values(|e: (String, String)| (e.0@, e.1@)) =~= translation_pairs(entries@));
    Ok(out)
}

pub open spec fn translations_entries(options: Option<JsonValue>) -> Seq<(String, JsonValue)> {
    match opt_field(options, "translations"@) {
        Some(JsonValue::Object(entries)) => entries@,
        _ => Seq::empty(),
    }
}

pub open spec fn translation_matches(a: CaptionTranslation, v: TranslationView) -> bool {
    &&& a.source_track_id@ == v.source_track_id
    &&& a.track_id@ == v.track_id
    &&& a.target_language@ == v.target_language
    &&& a.translations@.map_values(|e: (String, String)| (e.0@, e.1@)) == v.translations
    &&& crate::story::ids_of(a.item_ids@) == v.item_ids
    &&& caption_op_views(a.operations@) == v.operations
}

/// The translated caption track (see `translation_spec`); `options` is the
/// request's options object, if it has one, and `suffix` names the new
/// track and items.
#[verifier::loop_isolation(false)]
pub fn translate_captions(input: &JsonValue, options: Option<&JsonValue>, tracks: &Vec<Track>, suffix: &str) -> (r: Result<
    CaptionTranslation,
    CaptionEditError,
>)
    ensures
        match (r, translation_spec(*input, opt_of(options), tracks@, suffix@)) {
            (Ok(a), Ok(v)) => translation_matches(a, v),
            (Err(e), Err(f)) => e@ == f,
            _ => false,
        },
{
    if opt_get(options, "provider").is_some() {
        return Err(
            refuse(
                STATUS_NOT_IMPLEMENTED,
                "capability_not_available",
                "external caption translation must be submitted through a configured generation provider",
            ),
        );
    }
    let lang: &str = match opt_get(options, "targetLanguage") {
        Some(v) => match v.as_str() {
            Some(l) => {
                if chars_of(l).len() > 0 && l.as_bytes().len() <= 64 {
                    l
                } else {
                    return Err(
                        refuse(STATUS_BAD_REQUEST, "target_language_required", "options.targetLanguage is required"),
                    );
                }
            },
            None => {
                return Err(
                    refuse(STATUS_BAD_REQUEST, "target_language_required", "options.targetLanguage is required"),
                )
            },
        },
        None => {
            return Err(
                refuse(STATUS_BAD_REQUEST, "target_language_required", "options.targetLanguage is required"),
            )
        },
    };
    assert(target_language_spec(opt_of(options)) == Some(lang@));
    let translations = match opt_get(options, "translations") {
        Some(JsonValue::Object(entries)) => match translations_of(entries) {
            Err(e) => return Err(e),
            Ok(t) => t,
        },
        _ => {
            return Err(
                refuse(
                    STATUS_BAD_REQUEST,
                    "translations_required",
                    "options.translations must map word IDs to reviewed text",
                ),
            )
        },
    };
    let source = match target_caption_track(tracks, input) {
        Err(e) => return Err(e),
        Ok(t) => t,
    };
    let track_id = {
        let mut v = chars_of("track:caption-translation:");
        push_str(&mut v, suffix);
        string_of(v.as_slice())
    };
    let ghost track = track_id@;
    let items = &source.items;
    let mut inserts: Vec<CaptionOperation> = Vec::new();
    let mut item_ids: Vec<String> = Vec::new();
    let mut i: usize = 0;
    while i < items.len()
        invariant
            i <= items.len(),
            track_id@ == track,
            caption_op_views(inserts@) == translated_ops(items@, i as nat, track, suffix@, lang@),
            crate::story::ids_of(item_ids@) == inserted_ids(caption_op_views(inserts@)),
        decreases items.len() - i,
    {
        let ghost before = caption_op_views(inserts@);
        let ghost before_ids = item_ids@;
        match &items[i].caption_language {
            Some(from) => {
                let item_id = {
                    let mut v = chars_of("item:caption-translation:");
                    push_str(&mut v, suffix);
                    push_str(&mut v, ":");
                    push_decimal(&mut v, i as u64);
                    string_of(v.as_slice())
                };
                let name = {
                    let mut v = chars_of(items[i].name.as_str());
                    push_str(&mut v, " (");
                    push_str(&mut v, lang);
                    push_str(&mut v, ")");
                    string_of(v.as_slice())
                };
                let ghost idv = item_id@;
                item_ids.push(copy_string(item_id.as_str()));
                assert(crate::story::ids_of(item_ids@) =~= crate::story::ids_of(before_ids).push(idv));
                inserts.push(
                    CaptionOperation::InsertTranslatedCaption {
                        track_id: copy_string(track_id.as_str()),
                        item_id,
                        name,
                        start_ticks: items[i].start_ticks,
                        duration_ticks: items[i].duration_ticks,
                        source_item_id: copy_string(items[i].id.as_str()),
                        language: copy_string(lang),
                        translation_of: copy_string(from.as_str()),
                    },
                );
                assert(caption_op_views(inserts@) =~= translated_ops(items@, (i + 1) as nat, track, suffix@, lang@));
                assert(caption_op_views(inserts@) =~= before.push(caption_op_views(inserts@).last()));
                assert(inserted_ids(caption_op_views(inserts@)) =~= inserted_ids(before).push(idv));
            },
            None => {
                assert(translated_ops(items@, (i + 1) as nat, track, suffix@, lang@) =~= before);
            },
        }
        i += 1;
    }
    if inserts.len() == 0 {
        return Err(
            refuse(STATUS_UNPROCESSABLE, "caption_items_required", "the selected track contains no caption items"),
        );
    }
    let name = {
        let mut v = chars_of("Captions (");
        push_str(&mut v, lang);
        push_str(&mut v, ")");
        string_of(v.as_slice())
    };
    let mut operations: Vec<CaptionOperation> = vec![
        CaptionOperation::AddCaptionTrack {
            scene_id: copy_string(source.scene_id.as_str()),
            track_id: copy_string(track_id.as_str()),
            name,
        },
    ];
    let ghost first = caption_op_views(operations@);
    let ghost rest = caption_op_views(inserts@);
    operations.append(&mut inserts);
    assert(caption_op_views(operations@) =~= first + rest);
    proof {
        assert(target_track_spec(tracks@, *input) == Ok::<Track, CaptionFailure>(*source));
        assert(opt_field(opt_of(options), "provider"@) is None);
        assert(first_bad_translation(translations_entries(opt_of(options))) is None);
        assert(translation_spec(*input, opt_of(options), tracks@, suffix@) is Ok);
        let v = translation_spec(*input, opt_of(options), tracks@, suffix@)->Ok_0;
        assert(source.id@ == v.source_track_id);
        assert(track_id@ == v.track_id);
        assert(lang@ == v.target_language);
        assert(translations@.map_values(|e: (String, String)| (e.0@, e.1@)) == v.translations);
        assert(crate::story::ids_of(item_ids@) == v.item_ids);
        assert(caption_op_views(operations@) == v.operations);
    }
    Ok(
        CaptionTranslation {
            source_track_id: copy_string(source.id.as_str()),
            track_id,
            target_language: copy_string(lang),
            translations,
            item_ids,
            operations,
        },
    )
}

/// A subtitle cue: its timeline range and its text.
#[derive(Debug)]
pub struct SubtitleCue {
    pub start_ticks: i64,
    pub end_ticks: i64,
    pub text: String,
}

pub open spec fn starts_of(rs: Seq<WordRange>) -> Seq<i64> {
    rs.map_values(|r: WordRange| r.start_ticks)
}

pub open spec fn ends_of(rs: Seq<WordRange>) -> Seq<i64> {
    rs.map_values(|r: WordRange| r.end_ticks)
}

/// `p` lists every position below the number of keys once, by start, then
/// end, then position: the order of a stable sort by (start, end).
pub open spec fn key_order(p: Seq<int>, starts: Seq<i64>, ends: Seq<i64>) -> bool {
    &&& p.len() == starts.len()
    &&& starts.len() == ends.len()
    &&& forall|i: int| 0 <= i < p.len() ==> 0 <= #[trigger] p[i] < starts.len()
    &&& forall|i: int, j: int|
        0 <= i < j < p.len() ==> crate::captions::key_before(starts, ends, #[trigger] p[i], #[trigger] p[j])
}

/// `p` lists every position of the ranges once, in timeline order.
pub open spec fn timeline_order(p: Seq<int>, rs: Seq<WordRange>) -> bool {
    key_order(p, starts_of(rs), ends_of(rs))
}

pub open spec fn reordered(rs: Seq<WordRange>, p: Seq<int>) -> Seq<WordRange> {
    p.map_values(|i: int| rs[i])
}

pub open spec fn overlaps(r: WordRange, c: SubtitleCue) -> bool {
    r.end_ticks > c.start_ticks && r.start_ticks < c.end_ticks
}

/// The words whose ranges overlap the cue, in the given order.
pub open spec fn overlapping(ord: Seq<WordRange>, c: SubtitleCue) -> Seq<Seq<char>>
    decreases ord.len(),
{
    if ord.len() == 0 {
        Seq::empty()
    } else {
        overlapping(ord.drop_last(), c) + if overlaps(ord.last(), c) {
            seq![ord.last().word_id@]
        } else {
            Seq::empty()
        }
    }
}

/// `sel` followed by the words of `ws` it does not hold yet, each once.
pub open spec fn add_new(sel: Seq<Seq<char>>, ws: Seq<Seq<char>>) -> Seq<Seq<char>>
    decreases ws.len(),
{
    if ws.len() == 0 {
        sel
    } else {
        let s = add_new(sel, ws.drop_last());
        if s.contains(ws.last()) {
            s
        } else {
            s.push(ws.last())
        }
    }
}

/// The words the first `n` cues overlap, each once, cue by cue.
pub open spec fn selected_words(ord: Seq<WordRange>, cues: Seq<SubtitleCue>, n: nat) -> Seq<Seq<char>>
    decreases n,
{
    if n == 0 {
        Seq::empty()
    } else {
        add_new(selected_words(ord, cues, (n - 1) as nat), overlapping(ord, cues[n - 1]))
    }
}

pub open spec fn pair_keys(d: Seq<(Seq<char>, Seq<char>)>) -> Seq<Seq<char>> {
    d.map_values(|e: (Seq<char>, Seq<char>)| e.0)
}

/// Sets `k` to `v` unless `k` already has a text.
pub open spec fn or_insert(d: Seq<(Seq<char>, Seq<char>)>, k: Seq<char>, v: Seq<char>) -> Seq<(Seq<char>, Seq<char>)> {
    if pair_keys(d).contains(k) {
        d
    } else {
        d.push((k, v))
    }
}

pub open spec fn or_insert_blank(d: Seq<(Seq<char>, Seq<char>)>, ws: Seq<Seq<char>>) -> Seq<(Seq<char>, Seq<char>)>
    decreases ws.len(),
{
    if ws.len() == 0 {
        d
    } else {
        or_insert(or_insert_blank(d, ws.drop_last()), ws.last(), Seq::empty())
    }
}

/// The display text of the words under the first `n` cues: a cue's text
/// goes to the first word it overlaps and its other words show nothing; a
/// word keeps the text of the first cue that sets it. Words in the order
/// they are first met.
pub open spec fn cue_display_text(ord: Seq<WordRange>, cues: Seq<SubtitleCue>, n: nat) -> Seq<(Seq<char>, Seq<char>)>
    decreases n,
{
    if n == 0 {
        Seq::empty()
    } else {
        let d = cue_display_text(ord, cues, (n - 1) as nat);
        let o = overlapping(ord, cues[n - 1]);
        if o.len() == 0 {
            d
        } else {
            or_insert_blank(or_insert(d, o[0], cues[n - 1].text@), o.drop_first())
        }
    }
}

pub open spec fn pairs_view(d: Seq<(String, String)>) -> Seq<(Seq<char>, Seq<char>)> {
    d.map_values(|e: (String, String)| (e.0@, e.1@))
}

/// The transcript words that imported cues land on, and the cue text each
/// word shows.
#[derive(Debug)]
pub struct CueWords {
    pub word_ids: Vec<String>,
    pub display_text: Vec<(String, String)>,
}

/// Two orders of the same keys by `key_order` are the same: the order is
/// unique, so `key_order` pins the order of a stable sort.
pub proof fn lemma_key_order_unique(p: Seq<int>, q: Seq<int>, starts: Seq<i64>, ends: Seq<i64>)
    requires
        key_order(p, starts, ends),
        key_order(q, starts, ends),
    ensures
        p == q,
{
    if p != q {
        assert(!(p =~= q));
        let k = choose|k: int| 0 <= k < p.len() && p[k] != q[k];
        lemma_first_difference(p, q, k);
        let f = choose|f: int| 0 <= f <= k && p[f] != q[f] && forall|g: int| 0 <= g < f ==> p[g] == q[g];
        let a = p[f];
        let b = q[f];
        lemma_order_covers(q, starts, ends, a);
        lemma_order_covers(p, starts, ends, b);
        let j = choose|j: int| 0 <= j < q.len() && q[j] == a;
        let i = choose|i: int| 0 <= i < p.len() && p[i] == b;
        if j < f {
            assert(p[j] == a);
            assert(crate::captions::key_before(starts, ends, p[j], p[f]));
        }
        if i < f {
            assert(q[i] == b);
            assert(crate::captions::key_before(starts, ends, q[i], q[f]));
        }
        assert(crate::captions::key_before(starts, ends, q[f], q[j]));
        assert(crate::captions::key_before(starts, ends, p[f], p[i]));
    }
}

/// Two timeline orders of the same ranges are the same.
pub proof fn lemma_timeline_order_unique(p: Seq<int>, q: Seq<int>, rs: Seq<WordRange>)
    requires
        timeline_order(p, rs),
        timeline_order(q, rs),
    ensures
        p == q,
{
    lemma_key_order_unique(p, q, starts_of(rs), ends_of(rs));
}

proof fn lemma_first_difference(p: Seq<int>, q: Seq<int>, k: int)
    requires
        0 <= k < p.len(),
        k < q.len(),
        p[k] != q[k],
    ensures
        exists|f: int| 0 <= f <= k && p[f] != q[f] && forall|g: int| 0 <= g < f ==> p[g] == q[g],
    decreases k,
{
    if exists|g: int| 0 <= g < k && p[g] != q[g] {
        let g = choose|g: int| 0 <= g < k && p[g] != q[g];
        lemma_first_difference(p, q, g);
    } else {
        assert(forall|g: int| 0 <= g < k ==> p[g] == q[g]);
    }
}

/// A key order holds every position.
proof fn lemma_order_covers(p: Seq<int>, starts: Seq<i64>, ends: Seq<i64>, x: int)
    requires
        key_order(p, starts, ends),
        0 <= x < starts.len(),
    ensures
        p.contains(x),
{
    let n = starts.len() as int;
    assert(p.no_duplicates()) by {
        assert forall|i: int, j: int| 0 <= i < p.len() && 0 <= j < p.len() && i != j implies p[i] != p[j] by {
            if i < j {
                assert(crate::captions::key_before(starts, ends, p[i], p[j]));
            } else {
                assert(crate::captions::key_before(starts, ends, p[j], p[i]));
            }
        }
    }
    p.unique_seq_to_set();
    vstd::seq_lib::seq_to_set_is_finite(p);
    vstd::set_lib::lemma_int_range(0, n);
    if !p.contains(x) {
        let r = vstd::set_lib::set_int_range(0, n).remove(x);
        assert forall|v: int| p.to_set().contains(v) implies r.contains(v) by {
            let i = choose|i: int| 0 <= i < p.len() && p[i] == v;
        }
        vstd::set_lib::lemma_len_subset(p.to_set(), r);
    }
}

pub open spec fn keys_match(keys: Set<Seq<char>>, d: Seq<(Seq<char>, Seq<char>)>) -> bool {
    forall|w: Seq<char>| keys.contains(w) <==> pair_keys(d).contains(w)
}

pub open spec fn seen_match(seen: Set<Seq<char>>, sel: Seq<Seq<char>>) -> bool {
    forall|w: Seq<char>| seen.contains(w) <==> sel.contains(w)
}

fn overlapping_ids(ranges: &Vec<WordRange>, order: &Vec<usize>, cue: &SubtitleCue, Ghost(p): Ghost<Seq<int>>) -> (r: Vec<String>)
    requires
        p == order@.map_values(|v: usize| v as int),
        forall|i: int| 0 <= i < order.len() ==> #[trigger] order@[i] < ranges.len(),
    ensures
        crate::story::ids_of(r@) == overlapping(reordered(ranges@, p), *cue),
{
    let ghost ord = reordered(ranges@, p);
    let mut out: Vec<String> = Vec::new();
    let mut k: usize = 0;
    while k < order.len()
        invariant
            k <= order.len(),
            ord == reordered(ranges@, p),
            p == order@.map_values(|v: usize| v as int),
            forall|i: int| 0 <= i < order.len() ==> #[trigger] order@[i] < ranges.len(),
            crate::story::ids_of(out@) == overlapping(ord.subrange(0, k as int), *cue),
        decreases order.len() - k,
    {
        let r = &ranges[order[k]];
        assert(ord.subrange(0, k + 1).drop_last() =~= ord.subrange(0, k as int));
        assert(ord.subrange(0, k + 1).last() == *r);
        let ghost before = out@;
        if r.end_ticks > cue.start_ticks && r.start_ticks < cue.end_ticks {
            out.push(copy_string(r.word_id.as_str()));
            assert(crate::story::ids_of(out@) =~= crate::story::ids_of(before).push(r.word_id@));
        }
        k += 1;
    }
    assert(ord.subrange(0, order.len() as int) =~= ord);
    out
}

fn or_insert_text(d: &mut Vec<(String, String)>, keys: &mut vstd::hash_set::StringHashSet, k: &str, v: &str)
    requires
        keys_match(old(keys)@, pairs_view(old(d)@)),
    ensures
        pairs_view(final(d)@) == or_insert(pairs_view(old(d)@), k@, v@),
        keys_match(final(keys)@, pairs_view(final(d)@)),
{
    if !keys.contains(k) {
        let ghost before = pairs_view(d@);
        keys.insert(copy_string(k));
        d.push((copy_string(k), copy_string(v)));
        assert(pairs_view(d@) =~= before.push((k@, v@)));
        assert(pair_keys(pairs_view(d@)) =~= pair_keys(before).push(k@));
        assert forall|w: Seq<char>| keys@.contains(w) <==> pair_keys(pairs_view(d@)).contains(w) by {
            if w == k@ {
                assert(pair_keys(pairs_view(d@)).last() == k@);
            } else if pair_keys(pairs_view(d@)).contains(w) {
                let i = choose|i: int| 0 <= i < pair_keys(pairs_view(d@)).len() && pair_keys(pairs_view(d@))[i] == w;
                assert(pair_keys(before)[i] == w);
            }
            if pair_keys(before).contains(w) {
                let i = choose|i: int| 0 <= i < pair_keys(before).len() && pair_keys(before)[i] == w;
                assert(pair_keys(pairs_view(d@))[i] == w);
            }
        }
    }
}

fn blank_rest(d: &mut Vec<(String, String)>, keys: &mut vstd::hash_set::StringHashSet, ws: &Vec<String>)
    requires
        ws.len() > 0,
        keys_match(old(keys)@, pairs_view(old(d)@)),
    ensures
        pairs_view(final(d)@) == or_insert_blank(pairs_view(old(d)@), crate::story::ids_of(ws@).drop_first()),
        keys_match(final(keys)@, pairs_view(final(d)@)),
{
    let ghost base = pairs_view(d@);
    let ghost rest = crate::story::ids_of(ws@).drop_first();
    let mut j: usize = 1;
    assert(rest.subrange(0, 0) =~= Seq::<Seq<char>>::empty());
    while j < ws.len()
        invariant
            1 <= j <= ws.len(),
            rest == crate::story::ids_of(ws@).drop_first(),
            pairs_view(d@) == or_insert_blank(base, rest.subrange(0, j - 1)),
            keys_match(keys@, pairs_view(d@)),
        decreases ws.len() - j,
    {
        assert(rest.subrange(0, j as int).drop_last() =~= rest.subrange(0, j - 1));
        assert(rest.subrange(0, j as int).last() == ws@[j as int]@);
        or_insert_text(d, keys, ws[j].as_str(), "");
        proof {
            reveal_strlit("");
        }
        assert(""@ =~= Seq::<char>::empty());
        j += 1;
    }
    assert(rest.subrange(0, ws.len() - 1) =~= rest);
}

fn add_new_words(sel: &mut Vec<String>, seen: &mut vstd::hash_set::StringHashSet, ws: &Vec<String>)
    requires
        seen_match(old(seen)@, crate::story::ids_of(old(sel)@)),
    ensures
        crate::story::ids_of(final(sel)@) == add_new(crate::story::ids_of(old(sel)@), crate::story::ids_of(ws@)),
        seen_match(final(seen)@, crate::story::ids_of(final(sel)@)),
{
    let ghost base = crate::story::ids_of(sel@);
    let ghost all = crate::story::ids_of(ws@);
    let mut j: usize = 0;
    while j < ws.len()
        invariant
            j <= ws.len(),
            all == crate::story::ids_of(ws@),
            crate::story::ids_of(sel@) == add_new(base, all.subrange(0, j as int)),
            seen_match(seen@, crate::story::ids_of(sel@)),
        decreases ws.len() - j,
    {
        assert(all.subrange(0, j + 1).drop_last() =~= all.subrange(0, j as int));
        assert(all.subrange(0, j + 1).last() == ws@[j as int]@);
        let ghost before = crate::story::ids_of(sel@);
        if seen.insert(copy_string(ws[j].as_str())) {
            sel.push(copy_string(ws[j].as_str()));
            assert(crate::story::ids_of(sel@) =~= before.push(ws@[j as int]@));
            assert forall|w: Seq<char>| seen@.contains(w) <==> crate::story::ids_of(sel@).contains(w) by {
                if w == ws@[j as int]@ {
                    assert(crate::story::ids_of(sel@).last() == w);
                } else if crate::story::ids_of(sel@).contains(w) {
                    let i = choose|i: int| 0 <= i < crate::story::ids_of(sel@).len() && crate::story::ids_of(sel@)[i] == w;
                    assert(before[i] == w);
                }
                if before.contains(w) {
                    let i = choose|i: int| 0 <= i < before.len() && before[i] == w;
                    assert(crate::story::ids_of(sel@)[i] == w);
                }
            }
        }
        j += 1;
    }
    assert(all.subrange(0, ws.len() as int) =~= all);
}

/// The transcript words that imported subtitle cues land on (see
/// `selected_words` and `cue_display_text`), over the word ranges in
/// timeline order; refused when no cue overlaps a word.
pub fn subtitle_cue_words(ranges: &Vec<WordRange>, cues: &Vec<SubtitleCue>) -> (r: Result<CueWords, CaptionEditError>)
    ensures
        exists|p: Seq<int>|
            timeline_order(p, ranges@) && ({
                let ord = reordered(ranges@, p);
                let sel = selected_words(ord, cues@, cues@.len());
                match r {
                    Ok(cw) => sel.len() > 0 && crate::story::ids_of(cw.word_ids@) == sel && pairs_view(
                        cw.display_text@,
                    ) == cue_display_text(ord, cues@, cues@.len()),
                    Err(e) => sel.len() == 0 && e@ == refused(
                        422,
                        "subtitle_timing_did_not_match_transcript"@,
                        "no imported subtitle cue overlaps an active transcript word"@,
                    ),
                }
            }),
{
    let mut starts: Vec<i64> = Vec::new();
    let mut ends: Vec<i64> = Vec::new();
    let mut i: usize = 0;
    while i < ranges.len()
        invariant
            i <= ranges.len(),
            starts.len() == i,
            ends.len() == i,
            forall|k: int| 0 <= k < i ==> #[trigger] starts@[k] == ranges@[k].start_ticks,
            forall|k: int| 0 <= k < i ==> #[trigger] ends@[k] == ranges@[k].end_ticks,
        decreases ranges.len() - i,
    {
        starts.push(ranges[i].start_ticks);
        ends.push(ranges[i].end_ticks);
        i += 1;
    }
    let order = crate::captions::timeline_positions(&starts, &ends);
    let ghost p = order@.map_values(|v: usize| v as int);
    assert(starts@ =~= starts_of(ranges@));
    assert(ends@ =~= ends_of(ranges@));
    assert(timeline_order(p, ranges@)) by {
        assert forall|a: int, b: int| 0 <= a < b < p.len() implies crate::captions::key_before(
            starts@,
            ends@,
            #[trigger] p[a],
            #[trigger] p[b],
        ) by {
            assert(crate::captions::key_before(starts@, ends@, order@[a] as int, order@[b] as int));
        }
    }
    let ghost ord = reordered(ranges@, p);
    let mut sel: Vec<String> = Vec::new();
    let mut seen = vstd::hash_set::StringHashSet::new();
    let mut display: Vec<(String, String)> = Vec::new();
    let mut keys = vstd::hash_set::StringHashSet::new();
    let mut c: usize = 0;
    assert(pair_keys(pairs_view(display@)) =~= Seq::<Seq<char>>::empty());
    while c < cues.len()
        invariant
            c <= cues.len(),
            p == order@.map_values(|v: usize| v as int),
            ord == reordered(ranges@, p),
            timeline_order(p, ranges@),
            forall|k: int| 0 <= k < order.len() ==> #[trigger] order@[k] < ranges.len(),
            crate::story::ids_of(sel@) == selected_words(ord, cues@, c as nat),
            seen_match(seen@, crate::story::ids_of(sel@)),
            pairs_view(display@) == cue_display_text(ord, cues@, c as nat),
            keys_match(keys@, pairs_view(display@)),
        decreases cues.len() - c,
    {
        let o = overlapping_ids(ranges, &order, &cues[c], Ghost(p));
        let ghost ov = overlapping(ord, cues@[c as int]);
        if o.len() > 0 {
            assert(ov[0] == o@[0]@);
            or_insert_text(&mut display, &mut keys, o[0].as_str(), cues[c].text.as_str());
            blank_rest(&mut display, &mut keys, &o);
        }
        add_new_words(&mut sel, &mut seen, &o);
        c += 1;
    }
    if sel.len() == 0 {
        Err(
            refuse(
                STATUS_UNPROCESSABLE,
                "subtitle_timing_did_not_match_transcript",
                "no imported subtitle cue overlaps an active transcript word",
            ),
        )
    } else {
        Ok(CueWords { word_ids: sel, display_text: display })
    }
}

/// Division that rounds toward zero, as Rust's integer `/` does.
pub open spec fn trunc_div(x: int, k: int) -> int {
    if x >= 0 {
        x / k
    } else {
        -((-x) / k)
    }
}

/// Where word `w` of `k` starts: the cue's range shared out evenly.
pub open spec fn token_start(c: SubtitleCue, w: int, k: int) -> int {
    c.start_ticks + trunc_div((c.end_ticks - c.start_ticks) * w, k)
}

/// Where word `w` of `k` ends: where the next one starts, and at least one
/// tick after its own start.
pub open spec fn token_end(c: SubtitleCue, w: int, k: int) -> int {
    let s = token_start(c, w, k);
    let e = token_start(c, w + 1, k);
    if e <= s {
        s + 1
    } else {
        e
    }
}

/// The words of a cue's text (split at whitespace); a text without one is
/// a single word.
pub open spec fn cue_tokens(c: SubtitleCue) -> Seq<Seq<char>> {
    let t = crate::requests::words(c.text@);
    if t.len() == 0 {
        seq![c.text@]
    } else {
        t
    }
}

pub open spec fn subtitle_word_id(suffix: Seq<char>, ci: nat, wi: nat) -> Seq<char> {
    "word:subtitle:"@ + suffix + ":"@ + crate::text::decimal(ci) + ":"@ + crate::text::decimal(wi)
}

pub open spec fn subtitle_segment_id(suffix: Seq<char>, ci: nat) -> Seq<char> {
    "segment:subtitle:"@ + suffix + ":"@ + crate::text::decimal(ci)
}

/// A transcript word made from a subtitle cue.
#[derive(Debug)]
pub struct SubtitleWord {
    pub id: String,
    pub text: String,
    pub start_ticks: i64,
    pub end_ticks: i64,
}

pub struct SubtitleWordView {
    pub id: Seq<char>,
    pub text: Seq<char>,
    pub start_ticks: int,
    pub end_ticks: int,
}

pub open spec fn word_views(v: Seq<SubtitleWord>) -> Seq<SubtitleWordView> {
    v.map_values(|w: SubtitleWord| SubtitleWordView { id: w.id@, text: w.text@, start_ticks: w.start_ticks as int, end_ticks: w.end_ticks as int })
}

/// The words of cue `ci`.
pub open spec fn cue_words(c: SubtitleCue, ci: nat, suffix: Seq<char>) -> Seq<SubtitleWordView> {
    let toks = cue_tokens(c);
    Seq::new(
        toks.len(),
        |w: int|
            SubtitleWordView {
                id: subtitle_word_id(suffix, ci, w as nat),
                text: toks[w],
                start_ticks: token_start(c, w, toks.len() as int),
                end_ticks: token_end(c, w, toks.len() as int),
            },
    )
}

pub open spec fn cue_fits(c: SubtitleCue) -> bool {
    &&& c.start_ticks < i64::MAX
    &&& i64::MIN <= c.end_ticks - c.start_ticks <= i64::MAX
}

proof fn lemma_trunc_bounds(d: int, w: int, k: int)
    requires
        0 <= w <= k,
        0 < k,
    ensures
        d >= 0 ==> 0 <= trunc_div(d * w, k) <= d,
        d < 0 ==> d <= trunc_div(d * w, k) <= 0,
        d > 0 && w < k ==> trunc_div(d * w, k) < d,
{
    if d > 0 && w < k {
        assert(0 <= d * w < d * k) by (nonlinear_arith)
            requires
                d > 0,
                0 <= w < k,
        ;
        assert((d * w) / k < d) by (nonlinear_arith)
            requires
                0 <= d * w < d * k,
                k > 0,
        ;
    }
    if d >= 0 {
        assert(0 <= d * w <= d * k) by (nonlinear_arith)
            requires
                d >= 0,
                0 <= w <= k,
        ;
        assert((d * w) / k <= d) by (nonlinear_arith)
            requires
                0 <= d * w <= d * k,
                k > 0,
        ;
    } else {
        assert(0 <= (-d) * w <= (-d) * k) by (nonlinear_arith)
            requires
                d < 0,
                0 <= w <= k,
        ;
        assert(((-d) * w) / k <= -d) by (nonlinear_arith)
            requires
                0 <= (-d) * w <= (-d) * k,
                k > 0,
        ;
        assert(-(d * w) == (-d) * w) by (nonlinear_arith);
    }
}

/// `token_start` in machine integers.
fn token_start_exec(c: &SubtitleCue, w: usize, k: usize) -> (r: i64)
    requires
        cue_fits(*c),
        w <= k,
        0 < k,
    ensures
        r == token_start(*c, w as int, k as int),
{
    let d: i64 = c.end_ticks - c.start_ticks;
    let mag: u128 = if d >= 0 {
        d as u128
    } else {
        (0i128 - d as i128) as u128
    };
    assert(mag <= 0x8000_0000_0000_0000u128);
    assert(mag * (w as u128) <= 0x8000_0000_0000_0000u128 * 0xffff_ffff_ffff_ffffu128) by (nonlinear_arith)
        requires
            mag <= 0x8000_0000_0000_0000u128,
            w <= 0xffff_ffff_ffff_ffffu128,
    ;
    let q: u128 = mag * (w as u128) / (k as u128);
    proof {
        lemma_trunc_bounds(d as int, w as int, k as int);
        if d >= 0 {
            assert(mag == d);
        } else {
            assert(mag == -d);
            assert(-((d as int) * (w as int)) == (-(d as int)) * (w as int)) by (nonlinear_arith);
            if w == 0 {
                assert((d as int) * (w as int) == 0);
            } else {
                assert((d as int) * (w as int) < 0) by (nonlinear_arith)
                    requires
                        d < 0,
                        w > 0,
                ;
            }
        }
    }
    let off: i128 = if d >= 0 {
        q as i128
    } else {
        0i128 - q as i128
    };
    assert(off == trunc_div((c.end_ticks - c.start_ticks) * (w as int), k as int));
    (c.start_ticks as i128 + off) as i64
}

fn subtitle_name(prefix: &str, suffix: &str, ci: usize) -> (r: String)
    ensures
        r@ == prefix@ + suffix@ + ":"@ + crate::text::decimal(ci as nat),
{
    let mut v = chars_of(prefix);
    push_str(&mut v, suffix);
    push_str(&mut v, ":");
    push_decimal(&mut v, ci as u64);
    string_of(v.as_slice())
}

/// The words of one cue (see `cue_words`).
fn cue_subtitle_words(c: &SubtitleCue, ci: usize, suffix: &str) -> (r: Vec<SubtitleWord>)
    requires
        cue_fits(*c),
    ensures
        word_views(r@) == cue_words(*c, ci as nat, suffix@),
{
    let text = chars_of(c.text.as_str());
    let mut toks = crate::requests::split_words(text.as_slice());
    if toks.len() == 0 {
        toks.push(text);
    }
    assert(crate::requests::char_vec_views(toks@) == cue_tokens(*c));
    let k = toks.len();
    let ghost expected = cue_words(*c, ci as nat, suffix@);
    let mut out: Vec<SubtitleWord> = Vec::new();
    let mut w: usize = 0;
    while w < k
        invariant
            w <= k,
            k == toks.len(),
            k > 0,
            cue_fits(*c),
            crate::requests::char_vec_views(toks@) == cue_tokens(*c),
            expected == cue_words(*c, ci as nat, suffix@),
            word_views(out@) =~= expected.subrange(0, w as int),
        decreases k - w,
    {
        let start = token_start_exec(c, w, k);
        let next = token_start_exec(c, w + 1, k);
        proof {
            lemma_trunc_bounds(c.end_ticks - c.start_ticks, w as int, k as int);
        }
        let end = if next <= start {
            start + 1
        } else {
            next
        };
        let id = {
            let base = subtitle_name("word:subtitle:", suffix, ci);
            let mut v = chars_of(base.as_str());
            push_str(&mut v, ":");
            push_decimal(&mut v, w as u64);
            string_of(v.as_slice())
        };
        let word = SubtitleWord { id, text: string_of(toks[w].as_slice()), start_ticks: start, end_ticks: end };
        let ghost before = word_views(out@);
        out.push(word);
        assert(toks@[w as int]@ == cue_tokens(*c)[w as int]);
        assert(word_views(out@) =~= before.push(expected[w as int]));
        w += 1;
    }
    assert(expected.subrange(0, k as int) =~= expected);
    out
}

/// The words of the first `n` cues, cue by cue.
pub open spec fn transcript_words(cues: Seq<SubtitleCue>, n: nat, suffix: Seq<char>) -> Seq<SubtitleWordView>
    decreases n,
{
    if n == 0 {
        Seq::empty()
    } else {
        transcript_words(cues, (n - 1) as nat, suffix) + cue_words(cues[n - 1], (n - 1) as nat, suffix)
    }
}

/// One segment per cue, holding the cue's words.
pub open spec fn transcript_segments(cues: Seq<SubtitleCue>, n: nat, suffix: Seq<char>) -> Seq<(Seq<char>, Seq<Seq<char>>)>
    decreases n,
{
    if n == 0 {
        Seq::empty()
    } else {
        transcript_segments(cues, (n - 1) as nat, suffix).push(
            (
                subtitle_segment_id(suffix, (n - 1) as nat),
                cue_words(cues[n - 1], (n - 1) as nat, suffix).map_values(|w: SubtitleWordView| w.id),
            ),
        )
    }
}

/// A segment of a transcript made from subtitle cues.
#[derive(Debug)]
pub struct SubtitleSegment {
    pub id: String,
    pub word_ids: Vec<String>,
}

/// A transcript made from subtitle cues: a word per whitespace-separated
/// piece of cue text, a segment per cue.
#[derive(Debug)]
pub struct SubtitleTranscript {
    pub id: String,
    pub language: String,
    pub words: Vec<SubtitleWord>,
    pub segments: Vec<SubtitleSegment>,
}

pub open spec fn segment_views(v: Seq<SubtitleSegment>) -> Seq<(Seq<char>, Seq<Seq<char>>)> {
    v.map_values(|s: SubtitleSegment| (s.id@, crate::story::ids_of(s.word_ids@)))
}

/// The transcript for imported cues when no transcript receives them; its
/// ids are named with `suffix`.
pub fn subtitle_transcript(cues: &Vec<SubtitleCue>, language: &str, suffix: &str) -> (r: SubtitleTranscript)
    requires
        forall|i: int| 0 <= i < cues.len() ==> cue_fits(#[trigger] cues@[i]),
    ensures
        r.id@ == "transcript:subtitle:"@ + suffix@,
        r.language@ == language@,
        word_views(r.words@) == transcript_words(cues@, cues@.len(), suffix@),
        segment_views(r.segments@) == transcript_segments(cues@, cues@.len(), suffix@),
{
    let mut words: Vec<SubtitleWord> = Vec::new();
    let mut segments: Vec<SubtitleSegment> = Vec::new();
    let mut ci: usize = 0;
    while ci < cues.len()
        invariant
            ci <= cues.len(),
            forall|i: int| 0 <= i < cues.len() ==> cue_fits(#[trigger] cues@[i]),
            word_views(words@) == transcript_words(cues@, ci as nat, suffix@),
            segment_views(segments@) == transcript_segments(cues@, ci as nat, suffix@),
        decreases cues.len() - ci,
    {
        let mut more = cue_subtitle_words(&cues[ci], ci, suffix);
        let mut ids: Vec<String> = Vec::new();
        let mut k: usize = 0;
        while k < more.len()
            invariant
                k <= more.len(),
                ids.len() == k,
                forall|q: int| 0 <= q < k ==> (#[trigger] ids@[q])@ == more@[q].id@,
            decreases more.len() - k,
        {
            ids.push(copy_string(more[k].id.as_str()));
            k += 1;
        }
        let ghost cw = word_views(more@);
        assert(crate::story::ids_of(ids@) =~= cw.map_values(|w: SubtitleWordView| w.id));
        let ghost before_words = word_views(words@);
        let ghost before_segments = segment_views(segments@);
        words.append(&mut more);
        assert(word_views(words@) =~= before_words + cw);
        let segment = SubtitleSegment { id: subtitle_name("segment:subtitle:", suffix, ci), word_ids: ids };
        segments.push(segment);
        assert(segment_views(segments@) =~= before_segments.push(
            (subtitle_segment_id(suffix@, ci as nat), cw.map_values(|w: SubtitleWordView| w.id)),
        ));
        ci += 1;
    }
    let id = {
        let mut v = chars_of("transcript:subtitle:");
        push_str(&mut v, suffix);
        string_of(v.as_slice())
    };
    SubtitleTranscript { id, language: copy_string(language), words, segments }
}

/// The timeline span of a set of cues: the earliest start and the latest
/// end; an empty subtitle is refused.
pub fn subtitle_span(cues: &Vec<SubtitleCue>) -> (r: Result<(i64, i64), CaptionEditError>)
    ensures
        match r {
            Ok((start, end)) => cues.len() > 0 && (exists|i: int| 0 <= i < cues.len() && cues@[i].start_ticks == start)
                && (exists|i: int| 0 <= i < cues.len() && cues@[i].end_ticks == end) && (forall|i: int|
                0 <= i < cues.len() ==> start <= #[trigger] cues@[i].start_ticks && cues@[i].end_ticks <= end),
            Err(e) => cues.len() == 0 && e@ == refused(400, "invalid_subtitle"@, "subtitle is empty"@),
        },
{
    if cues.len() == 0 {
        return Err(refuse(STATUS_BAD_REQUEST, "invalid_subtitle", "subtitle is empty"));
    }
    let mut start = cues[0].start_ticks;
    let mut end = cues[0].end_ticks;
    let mut i: usize = 1;
    while i < cues.len()
        invariant
            1 <= i <= cues.len(),
            exists|j: int| 0 <= j < i && cues@[j].start_ticks == start,
            exists|j: int| 0 <= j < i && cues@[j].end_ticks == end,
            forall|j: int| 0 <= j < i ==> start <= #[trigger] cues@[j].start_ticks && cues@[j].end_ticks <= end,
        decreases cues.len() - i,
    {
        if cues[i].start_ticks < start {
            start = cues[i].start_ticks;
        }
        if cues[i].end_ticks > end {
            end = cues[i].end_ticks;
        }
        i += 1;
    }
    Ok((start, end))
}

/// The format of a subtitle file.
#[derive(Debug, Clone, Copy, PartialEq, Eq, Structural)]
pub enum SubtitleFormat {
    Srt,
    Vtt,
    Ass,
    Txt,
}

pub open spec fn subtitle_format_spec(options: Option<JsonValue>) -> Option<SubtitleFormat> {
    match opt_field(options, "format"@) {
        Some(v) => match v.str_view() {
            Some(f) => if f == "srt"@ {
                Some(SubtitleFormat::Srt)
            } else if f == "vtt"@ {
                Some(SubtitleFormat::Vtt)
            } else if f == "ass"@ {
                Some(SubtitleFormat::Ass)
            } else if f == "txt"@ {
                Some(SubtitleFormat::Txt)
            } else {
                None
            },
            None => None,
        },
        None => None,
    }
}

/// The subtitle file a caption import carries: its `format` (srt, vtt, ass
/// or txt) and its text (`content`).
pub fn subtitle_file<'a>(options: Option<&'a JsonValue>) -> (r: Result<(SubtitleFormat, &'a str), CaptionEditError>)
    ensures
        match r {
            Ok((f, content)) => subtitle_format_spec(opt_of(options)) == Some(f) && opt_str(
                opt_of(options),
                "content"@,
            ) == Some(content@),
            Err(e) => match subtitle_format_spec(opt_of(options)) {
                None => e@ == refused(400, "invalid_subtitle_format"@, "options.format must be srt, vtt, ass, or txt"@),
                Some(_) => opt_str(opt_of(options), "content"@) is None && e@ == refused(400, "subtitle_content_required"@, "options.content must contain the subtitle file text"@),
            },
        },
{
    let format = match opt_get(options, "format") {
        Some(v) => match v.as_str() {
            Some(f) => if str_eq(f, "srt") {
                Some(SubtitleFormat::Srt)
            } else if str_eq(f, "vtt") {
                Some(SubtitleFormat::Vtt)
            } else if str_eq(f, "ass") {
                Some(SubtitleFormat::Ass)
            } else if str_eq(f, "txt") {
                Some(SubtitleFormat::Txt)
            } else {
                None
            },
            None => None,
        },
        None => None,
    };
    let format = match format {
        Some(f) => f,
        None => {
            return Err(
                refuse(STATUS_BAD_REQUEST, "invalid_subtitle_format", "options.format must be srt, vtt, ass, or txt"),
            )
        },
    };
    match opt_get(options, "content") {
        Some(v) => match v.as_str() {
            Some(c) => Ok((format, c)),
            None => Err(
                refuse(
                    STATUS_BAD_REQUEST,
                    "subtitle_content_required",
                    "options.content must contain the subtitle file text",
                ),
            ),
        },
        None => Err(
            refuse(
                STATUS_BAD_REQUEST,
                "subtitle_content_required",
                "options.content must contain the subtitle file text",
            ),
        ),
    }
}

/// A transcript's id and language.
#[derive(Debug)]
pub struct TranscriptInfo {
    pub id: String,
    pub language: String,
}

pub open spec fn transcript_info_with_id(ts: Seq<TranscriptInfo>, id: Seq<char>) -> Option<TranscriptInfo>
    decreases ts.len(),
{
    if ts.len() == 0 {
        None
    } else if ts[0].id@ == id {
        Some(ts[0])
    } else {
        transcript_info_with_id(ts.drop_first(), id)
    }
}

pub open spec fn creates_transcript(options: Option<JsonValue>) -> bool {
    match opt_field(options, "createTranscript"@) {
        Some(v) => v.bool_view() == Some(true),
        None => false,
    }
}

/// The transcript that imported cues land on: none when `createTranscript`
/// is true, else the one named by `transcriptId`, else the project's only
/// transcript; none otherwise.
pub open spec fn import_transcript_spec(options: Option<JsonValue>, ts: Seq<TranscriptInfo>) -> Result<
    Option<TranscriptInfo>,
    CaptionFailure,
> {
    if creates_transcript(options) {
        Ok(None)
    } else {
        match opt_str(options, "transcriptId"@) {
            Some(id) => match transcript_info_with_id(ts, id) {
                Some(t) => Ok(Some(t)),
                None => Err(CaptionFailure::TranscriptNotFound(id)),
            },
            None => if ts.len() == 1 {
                Ok(Some(ts[0]))
            } else {
                Ok(None)
            },
        }
    }
}

/// The transcript that imported cues land on (see `import_transcript_spec`).
pub fn import_transcript<'a>(options: Option<&JsonValue>, transcripts: &'a Vec<TranscriptInfo>) -> (r: Result<
    Option<&'a TranscriptInfo>,
    CaptionEditError,
>)
    ensures
        match (r, import_transcript_spec(opt_of(options), transcripts@)) {
            (Ok(Some(t)), Ok(Some(s))) => *t == s,
            (Ok(None), Ok(None)) => true,
            (Err(e), Err(f)) => e@ == f,
            _ => false,
        },
{
    let force_new = match opt_get(options, "createTranscript") {
        Some(v) => v.as_bool() == Some(true),
        None => false,
    };
    if force_new {
        return Ok(None);
    }
    match opt_get(options, "transcriptId") {
        Some(v) => match v.as_str() {
            Some(id) => {
                let mut i: usize = 0;
                assert(transcripts@.subrange(0, transcripts.len() as int) =~= transcripts@);
                while i < transcripts.len()
                    invariant
                        i <= transcripts.len(),
                        !creates_transcript(opt_of(options)),
                        opt_str(opt_of(options), "transcriptId"@) == Some(id@),
                        transcript_info_with_id(transcripts@, id@) == transcript_info_with_id(
                            transcripts@.subrange(i as int, transcripts.len() as int),
                            id@,
                        ),
                    decreases transcripts.len() - i,
                {
                    let ghost rest = transcripts@.subrange(i as int, transcripts.len() as int);
                    assert(rest.drop_first() =~= transcripts@.subrange(i + 1, transcripts.len() as int));
                    assert(rest[0] == transcripts@[i as int]);
                    if str_eq(transcripts[i].id.as_str(), id) {
                        return Ok(Some(&transcripts[i]));
                    }
                    i += 1;
                }
                return Err(CaptionEditError::TranscriptNotFound(copy_string(id)));
            },
            None => {},
        },
        None => {},
    }
    if transcripts.len() == 1 {
        Ok(Some(&transcripts[0]))
    } else {
        Ok(None)
    }
}

/// A caption language tag: non-empty, at most 64 bytes, no control
/// character.
pub open spec fn language_tag_ok(l: Seq<char>) -> bool {
    l.len() > 0 && vstd::utf8::encode_utf8(l).len() <= 64 && no_control(l)
}

/// The language of new captions: `options.language`, else `fallback` (the
/// transcript's language); refused unless it is a short language tag.
pub fn caption_language(options: Option<&JsonValue>, fallback: &str) -> (r: Result<String, CaptionEditError>)
    ensures
        ({
            let l = match opt_field(opt_of(options), "language"@) {
                Some(v) => match v.str_view() {
                    Some(s) => s,
                    None => fallback@,
                },
                None => fallback@,
            };
            match r {
                Ok(s) => language_tag_ok(l) && s@ == l,
                Err(e) => !language_tag_ok(l) && e@ == refused(
                    400,
                    "invalid_caption_language"@,
                    "caption language must be a short language tag"@,
                ),
            }
        }),
{
    let l: &str = match opt_get(options, "language") {
        Some(v) => match v.as_str() {
            Some(s) => s,
            None => fallback,
        },
        None => fallback,
    };
    let cs = chars_of(l);
    if cs.len() == 0 || l.as_bytes().len() > 64 || crate::text::any_control(cs.as_slice()) {
        return Err(
            refuse(STATUS_BAD_REQUEST, "invalid_caption_language", "caption language must be a short language tag"),
        );
    }
    Ok(copy_string(l))
}

/// The caption preset a request uses: `presetId`, else the caption's
/// current preset, else the default preset.
pub open spec fn preset_choice_spec(options: Option<JsonValue>, current: Option<Seq<char>>) -> Seq<char> {
    match opt_str(options, "presetId"@) {
        Some(p) => p,
        None => match current {
            Some(c) => c,
            None => "studio-clean"@,
        },
    }
}

/// The caption preset a request uses (see `preset_choice_spec`).
pub fn caption_preset_choice(options: Option<&JsonValue>, current: Option<&str>) -> (r: String)
    ensures
        r@ == preset_choice_spec(
            opt_of(options),
            match current {
                Some(c) => Some(c@),
                None => None,
            },
        ),
{
    match opt_get(options, "presetId") {
        Some(v) => match v.as_str() {
            Some(p) => return copy_string(p),
            None => {},
        },
        None => {},
    }
    match current {
        Some(c) => copy_string(c),
        None => copy_string("studio-clean"),
    }
}

/// Whether a caption starts from its preset's style: when the request names
/// a preset, or the caption is new; otherwise it keeps its current style.
pub fn starts_from_preset_style(options: Option<&JsonValue>, has_current: bool) -> (r: bool)
    ensures
        r == (opt_field(opt_of(options), "presetId"@) is Some || !has_current),
{
    opt_get(options, "presetId").is_some() || !has_current
}

/// Line layout of captions.
#[derive(Debug, Clone, Copy, PartialEq, Eq, Structural)]
pub struct CaptionLayout {
    pub max_lines: u64,
    pub max_characters_per_line: u64,
    pub word_highlight: bool,
}

pub open spec fn opt_u64(options: Option<JsonValue>, key: Seq<char>) -> Option<u64> {
    match opt_field(options, key) {
        Some(v) => v.u64_view(),
        None => None,
    }
}

pub open spec fn opt_bool(options: Option<JsonValue>, key: Seq<char>) -> Option<bool> {
    match opt_field(options, key) {
        Some(v) => v.bool_view(),
        None => None,
    }
}

/// The caption layout: `maxLines` (1 to 8), `maxCharactersPerLine` (4 to
/// 200) and `wordHighlight`, each defaulting to the preset's.
pub fn caption_layout(
    options: Option<&JsonValue>,
    preset_max_lines: u64,
    preset_max_characters: u64,
    preset_word_highlight: bool,
) -> (r: Result<CaptionLayout, ApiError>)
    ensures
        ({
            let lines = match opt_u64(opt_of(options), "maxLines"@) {
                Some(n) => n,
                None => preset_max_lines,
            };
            let chars = match opt_u64(opt_of(options), "maxCharactersPerLine"@) {
                Some(n) => n,
                None => preset_max_characters,
            };
            let highlight = match opt_bool(opt_of(options), "wordHighlight"@) {
                Some(b) => b,
                None => preset_word_highlight,
            };
            if 1 <= lines <= 8 && 4 <= chars <= 200 {
                r == Ok::<CaptionLayout, ApiError>(
                    CaptionLayout { max_lines: lines, max_characters_per_line: chars, word_highlight: highlight },
                )
            } else {
                r matches Err(e) && e.status == STATUS_BAD_REQUEST && e.code@ == "invalid_caption_layout"@
                    && e.message@ == "maxLines must be 1..8 and maxCharactersPerLine must be 4..200"@
            }
        }),
{
    let lines = match opt_get(options, "maxLines") {
        Some(v) => match v.as_u64() {
            Some(n) => n,
            None => preset_max_lines,
        },
        None => preset_max_lines,
    };
    let chars = match opt_get(options, "maxCharactersPerLine") {
        Some(v) => match v.as_u64() {
            Some(n) => n,
            None => preset_max_characters,
        },
        None => preset_max_characters,
    };
    let highlight = match opt_get(options, "wordHighlight") {
        Some(v) => match v.as_bool() {
            Some(b) => b,
            None => preset_word_highlight,
        },
        None => preset_word_highlight,
    };
    if !(1 <= lines && lines <= 8) || !(4 <= chars && chars <= 200) {
        return Err(
            ApiError::bad_request(
                "invalid_caption_layout",
                "maxLines must be 1..8 and maxCharactersPerLine must be 4..200",
            ),
        );
    }
    Ok(CaptionLayout { max_lines: lines, max_characters_per_line: chars, word_highlight: highlight })
}

/// The style properties a caption style patch may set.
pub open spec fn style_key_allowed(k: Seq<char>) -> bool {
    ||| k == "fontFamily"@
    ||| k == "fontSize"@
    ||| k == "textColor"@
    ||| k == "activeWordColor"@
    ||| k == "backgroundColor"@
    ||| k == "outlineColor"@
    ||| k == "outlineWidth"@
    ||| k == "positionX"@
    ||| k == "positionY"@
    ||| k == "maxWidth"@
    ||| k == "lineHeight"@
    ||| k == "textAlign"@
}

fn is_style_key(k: &str) -> (r: bool)
    ensures
        r == style_key_allowed(k@),
{
    str_eq(k, "fontFamily") || str_eq(k, "fontSize") || str_eq(k, "textColor") || str_eq(k, "activeWordColor")
        || str_eq(k, "backgroundColor") || str_eq(k, "outlineColor") || str_eq(k, "outlineWidth") || str_eq(
        k,
        "positionX",
    ) || str_eq(k, "positionY") || str_eq(k, "maxWidth") || str_eq(k, "lineHeight") || str_eq(k, "textAlign")
}

fn check_style_keys(entries: &Vec<(String, JsonValue)>) -> (r: Result<(), ApiError>)
    ensures
        match r {
            Ok(()) => forall|i: int| 0 <= i < entries.len() ==> style_key_allowed(#[trigger] entries@[i].0@),
            Err(e) => e.status == STATUS_BAD_REQUEST && e.code@ == "invalid_caption_style"@ && exists|i: int|
                0 <= i < entries.len() && !style_key_allowed(#[trigger] entries@[i].0@) && (forall|j: int|
                    0 <= j < i ==> style_key_allowed(#[trigger] entries@[j].0@)) && e.message@
                    == "unsupported caption style property: "@ + entries@[i].0@,
        },
{
    let mut i: usize = 0;
    while i < entries.len()
        invariant
            i <= entries.len(),
            forall|j: int| 0 <= j < i ==> style_key_allowed(#[trigger] entries@[j].0@),
        decreases entries.len() - i,
    {
        if !is_style_key(entries[i].0.as_str()) {
            let mut m = chars_of("unsupported caption style property: ");
            push_str(&mut m, entries[i].0.as_str());
            let e = ApiError::bad_request("invalid_caption_style", string_of(m.as_slice()).as_str());
            assert(!style_key_allowed(entries@[i as int].0@));
            return Err(e);
        }
        i += 1;
    }
    Ok(())
}

/// A caption style patch (`options.style`): none, or an object that sets
/// only caption style properties; the members it sets are returned.
pub fn caption_style_patch(patch: Option<&JsonValue>) -> (r: Result<Option<&Vec<(String, JsonValue)>>, ApiError>)
    ensures
        match patch {
            None => r matches Ok(None),
            Some(JsonValue::Object(entries)) => match r {
                Ok(Some(e)) => *e == entries && forall|i: int| 0 <= i < entries.len() ==> style_key_allowed(
                    #[trigger] entries@[i].0@,
                ),
                Ok(None) => false,
                Err(e) => e.status == STATUS_BAD_REQUEST && e.code@ == "invalid_caption_style"@ && exists|i: int|
                    0 <= i < entries.len() && !style_key_allowed(#[trigger] entries@[i].0@)
                        && (forall|j: int| 0 <= j < i ==> style_key_allowed(#[trigger] entries@[j].0@))
                        && e.message@ == "unsupported caption style property: "@ + entries@[i].0@,
            },
            Some(_) => r matches Err(e) && e.status == STATUS_BAD_REQUEST && e.code@ == "invalid_caption_style"@
                && e.message@ == "options.style must be an object"@,
        },
{
    match patch {
        None => Ok(None),
        Some(JsonValue::Object(entries)) => match check_style_keys(entries) {
            Ok(()) => Ok(Some(entries)),
            Err(e) => Err(e),
        },
        Some(_) => Err(ApiError::bad_request("invalid_caption_style", "options.style must be an object")),
    }
}

/// A style's text properties (font family and colours) are each at most 256
/// characters with no control character.
pub fn check_caption_style_strings(values: &Vec<String>) -> (r: Result<(), ApiError>)
    ensures
        match r {
            Ok(()) => forall|i: int| 0 <= i < values.len() ==> (#[trigger] values@[i])@.len() <= 256 && no_control(values@[i]@),
            Err(e) => (exists|i: int| 0 <= i < values.len() && !((#[trigger] values@[i])@.len() <= 256 && no_control(values@[i]@)))
                && e.status == STATUS_BAD_REQUEST && e.code@ == "invalid_caption_style"@ && e.message@
                == "caption style strings must be bounded and contain no control characters"@,
        },
{
    let mut i: usize = 0;
    while i < values.len()
        invariant
            i <= values.len(),
            forall|j: int| 0 <= j < i ==> (#[trigger] values@[j])@.len() <= 256 && no_control(values@[j]@),
        decreases values.len() - i,
    {
        let cs = chars_of(values[i].as_str());
        if cs.len() > 256 || crate::text::any_control(cs.as_slice()) {
            return Err(
                ApiError::bad_request(
                    "invalid_caption_style",
                    "caption style strings must be bounded and contain no control characters",
                ),
            );
        }
        i += 1;
    }
    Ok(())
}

/// The words that still have a timeline range, in order.
pub open spec fn kept_words(ws: Seq<Seq<char>>, ranges: Seq<WordRange>) -> Seq<Seq<char>>
    decreases ws.len(),
{
    if ws.len() == 0 {
        Seq::empty()
    } else {
        kept_words(ws.drop_last(), ranges) + if crate::captions::range_of(ranges, ws.last()) is Some {
            seq![ws.last()]
        } else {
            Seq::empty()
        }
    }
}

pub open spec fn word_starts(ws: Seq<Seq<char>>, ranges: Seq<WordRange>) -> Seq<i64> {
    ws.map_values(|w: Seq<char>| crate::captions::range_of(ranges, w).unwrap().0)
}

pub open spec fn word_ends(ws: Seq<Seq<char>>, ranges: Seq<WordRange>) -> Seq<i64> {
    ws.map_values(|w: Seq<char>| crate::captions::range_of(ranges, w).unwrap().1)
}

/// The sequence without a word that repeats the one just before it.
pub open spec fn dedup_adjacent(s: Seq<Seq<char>>) -> Seq<Seq<char>>
    decreases s.len(),
{
    if s.len() == 0 {
        Seq::empty()
    } else if s.len() >= 2 && s[s.len() - 2] == s.last() {
        dedup_adjacent(s.drop_last())
    } else {
        dedup_adjacent(s.drop_last()).push(s.last())
    }
}

/// The words of a caption after its transcript changed: those that still
/// have a timeline range, in timeline order (a stable sort by range start
/// and end), without adjacent repeats. An empty result removes the caption.
pub fn remap_caption_words(word_ids: &Vec<String>, ranges: &Vec<WordRange>) -> (r: Vec<String>)
    ensures
        ({
            let kept = kept_words(crate::story::ids_of(word_ids@), ranges@);
            exists|p: Seq<int>|
                key_order(p, word_starts(kept, ranges@), word_ends(kept, ranges@)) && crate::story::ids_of(r@)
                    == dedup_adjacent(p.map_values(|i: int| kept[i]))
        }),
{
    let ghost all = crate::story::ids_of(word_ids@);
    let mut kept: Vec<String> = Vec::new();
    let mut starts: Vec<i64> = Vec::new();
    let mut ends: Vec<i64> = Vec::new();
    let mut i: usize = 0;
    while i < word_ids.len()
        invariant
            i <= word_ids.len(),
            all == crate::story::ids_of(word_ids@),
            crate::story::ids_of(kept@) == kept_words(all.subrange(0, i as int), ranges@),
            starts@ == word_starts(crate::story::ids_of(kept@), ranges@),
            ends@ == word_ends(crate::story::ids_of(kept@), ranges@),
        decreases word_ids.len() - i,
    {
        assert(all.subrange(0, i + 1).drop_last() =~= all.subrange(0, i as int));
        assert(all.subrange(0, i + 1).last() == word_ids@[i as int]@);
        let ghost before = crate::story::ids_of(kept@);
        match crate::captions::range_index(ranges, word_ids[i].as_str()) {
            Some(k) => {
                kept.push(copy_string(word_ids[i].as_str()));
                starts.push(ranges[k].start_ticks);
                ends.push(ranges[k].end_ticks);
                assert(crate::story::ids_of(kept@) =~= before.push(word_ids@[i as int]@));
                assert(starts@ =~= word_starts(crate::story::ids_of(kept@), ranges@));
                assert(ends@ =~= word_ends(crate::story::ids_of(kept@), ranges@));
            },
            None => {},
        }
        i += 1;
    }
    assert(all.subrange(0, word_ids.len() as int) =~= all);
    let ghost kv = crate::story::ids_of(kept@);
    let order = crate::captions::timeline_positions(&starts, &ends);
    let ghost p = order@.map_values(|v: usize| v as int);
    assert(key_order(p, starts@, ends@)) by {
        assert forall|a: int, b: int| 0 <= a < b < p.len() implies crate::captions::key_before(
            starts@,
            ends@,
            #[trigger] p[a],
            #[trigger] p[b],
        ) by {
            assert(crate::captions::key_before(starts@, ends@, order@[a] as int, order@[b] as int));
        }
    }
    let ghost sorted = p.map_values(|i: int| kv[i]);
    let mut out: Vec<String> = Vec::new();
    let mut j: usize = 0;
    while j < order.len()
        invariant
            j <= order.len(),
            order.len() == kept.len(),
            kv == crate::story::ids_of(kept@),
            p == order@.map_values(|v: usize| v as int),
            sorted == p.map_values(|i: int| kv[i]),
            forall|q: int| 0 <= q < order.len() ==> #[trigger] order@[q] < kept.len(),
            crate::story::ids_of(out@) == dedup_adjacent(sorted.subrange(0, j as int)),
        decreases order.len() - j,
    {
        let w = kept[order[j]].as_str();
        assert(sorted[j as int] == w@);
        let ghost pre = sorted.subrange(0, j + 1);
        assert(pre.drop_last() =~= sorted.subrange(0, j as int));
        assert(pre.last() == w@);
        let ghost before = crate::story::ids_of(out@);
        let repeat = j > 0 && str_eq(kept[order[j - 1]].as_str(), w);
        if j > 0 {
            assert(pre[pre.len() - 2] == sorted[j - 1]);
        }
        if !repeat {
            out.push(copy_string(w));
            assert(crate::story::ids_of(out@) =~= before.push(w@));
        }
        j += 1;
    }
    assert(sorted.subrange(0, order.len() as int) =~= sorted);
    out
}

/// The action of a caption edit.
#[derive(Debug, Clone, Copy, PartialEq, Eq, Structural)]
pub enum CaptionAction {
    Create,
    UpdateStyle,
    Remap,
    Translate,
    Import,
    Remove,
}

pub open spec fn caption_action_spec(a: Seq<char>) -> Option<CaptionAction> {
    if a == "create"@ {
        Some(CaptionAction::Create)
    } else if a == "update-style"@ {
        Some(CaptionAction::UpdateStyle)
    } else if a == "remap"@ {
        Some(CaptionAction::Remap)
    } else if a == "translate"@ {
        Some(CaptionAction::Translate)
    } else if a == "import"@ {
        Some(CaptionAction::Import)
    } else if a == "remove"@ {
        Some(CaptionAction::Remove)
    } else {
        None
    }
}

/// The action a caption edit asks for: `action` is required, and must be
/// create, update-style, remap, translate, import or remove.
pub fn caption_action(input: &JsonValue) -> (r: Result<CaptionAction, ApiError>)
    ensures
        match input.field_str("action"@) {
            None => r matches Err(e) && e.status == STATUS_BAD_REQUEST && e.code@ == "missing_field"@
                && e.message@ == "action"@ + " is required"@,
            Some(a) => match caption_action_spec(a) {
                Some(c) => r == Ok::<CaptionAction, ApiError>(c),
                None => r matches Err(e) && e.status == STATUS_BAD_REQUEST && e.code@ == "invalid_caption_action"@
                    && e.message@ == "action must be create, update-style, remap, translate, import, or remove"@,
            },
        },
{
    let a = match crate::requests::required_string(input, "action") {
        Err(e) => return Err(e),
        Ok(a) => a,
    };
    if str_eq(a, "create") {
        Ok(CaptionAction::Create)
    } else if str_eq(a, "update-style") {
        Ok(CaptionAction::UpdateStyle)
    } else if str_eq(a, "remap") {
        Ok(CaptionAction::Remap)
    } else if str_eq(a, "translate") {
        Ok(CaptionAction::Translate)
    } else if str_eq(a, "import") {
        Ok(CaptionAction::Import)
    } else if str_eq(a, "remove") {
        Ok(CaptionAction::Remove)
    } else {
        Err(
            ApiError::bad_request(
                "invalid_caption_action",
                "action must be create, update-style, remap, translate, import, or remove",
            ),
        )
    }
}

/// A scene of the project.
#[derive(Debug)]
pub struct SceneInfo {
    pub id: String,
    pub is_main: bool,
}

pub open spec fn scene_index_with_id(scenes: Seq<SceneInfo>, id: Seq<char>) -> Option<int>
    decreases scenes.len(),
{
    if scenes.len() == 0 {
        None
    } else if scenes[0].id@ == id {
        Some(0)
    } else {
        match scene_index_with_id(scenes.drop_first(), id) {
            Some(i) => Some(i + 1),
            None => None,
        }
    }
}

pub open spec fn first_main_scene(scenes: Seq<SceneInfo>) -> Option<int>
    decreases scenes.len(),
{
    if scenes.len() == 0 {
        None
    } else if scenes[0].is_main {
        Some(0)
    } else {
        match first_main_scene(scenes.drop_first()) {
            Some(i) => Some(i + 1),
            None => None,
        }
    }
}

/// The scene new timeline content goes to: the current scene, else the
/// first main scene, else the first scene.
pub open spec fn selected_scene_spec(scenes: Seq<SceneInfo>, current: Option<Seq<char>>) -> Option<int> {
    let by_id = match current {
        Some(id) => scene_index_with_id(scenes, id),
        None => None,
    };
    match by_id {
        Some(i) => Some(i),
        None => match first_main_scene(scenes) {
            Some(i) => Some(i),
            None => if scenes.len() > 0 {
                Some(0)
            } else {
                None
            },
        },
    }
}

/// The scene new timeline content goes to (see `selected_scene_spec`).
pub fn selected_scene(scenes: &Vec<SceneInfo>, current: Option<&str>) -> (r: Option<usize>)
    ensures
        match r {
            Some(i) => selected_scene_spec(scenes@, opt_str_of(current)) == Some(i as int) && i < scenes.len(),
            None => selected_scene_spec(scenes@, opt_str_of(current)) is None,
        },
{
    if let Some(id) = current {
        let mut i: usize = 0;
        while i < scenes.len()
            invariant
                i <= scenes.len(),
                current == Some(id),
                forall|k: int| 0 <= k < i ==> (#[trigger] scenes@[k]).id@ != id@,
            decreases scenes.len() - i,
        {
            if str_eq(scenes[i].id.as_str(), id) {
                proof {
                    lemma_scene_index(scenes@, id@, i as int);
                }
                return Some(i);
            }
            i += 1;
        }
        proof {
            lemma_scene_index_none(scenes@, id@);
        }
    }
    let mut j: usize = 0;
    while j < scenes.len()
        invariant
            j <= scenes.len(),
            forall|k: int| 0 <= k < j ==> !(#[trigger] scenes@[k]).is_main,
            selected_scene_spec(scenes@, opt_str_of(current)) == match first_main_scene(scenes@) {
                Some(i) => Some(i),
                None => if scenes.len() > 0 {
                    Some(0int)
                } else {
                    None
                },
            },
        decreases scenes.len() - j,
    {
        if scenes[j].is_main {
            proof {
                lemma_first_main(scenes@, j as int);
            }
            return Some(j);
        }
        j += 1;
    }
    proof {
        lemma_first_main_none(scenes@);
    }
    if scenes.len() > 0 {
        Some(0)
    } else {
        None
    }
}

pub open spec fn opt_str_of(o: Option<&str>) -> Option<Seq<char>> {
    match o {
        Some(s) => Some(s@),
        None => None,
    }
}

proof fn lemma_scene_index(scenes: Seq<SceneInfo>, id: Seq<char>, i: int)
    requires
        0 <= i < scenes.len(),
        scenes[i].id@ == id,
        forall|k: int| 0 <= k < i ==> (#[trigger] scenes[k]).id@ != id,
    ensures
        scene_index_with_id(scenes, id) == Some(i),
    decreases i,
{
    if i > 0 {
        lemma_scene_index(scenes.drop_first(), id, i - 1);
    }
}

proof fn lemma_scene_index_none(scenes: Seq<SceneInfo>, id: Seq<char>)
    requires
        forall|k: int| 0 <= k < scenes.len() ==> (#[trigger] scenes[k]).id@ != id,
    ensures
        scene_index_with_id(scenes, id) is None,
    decreases scenes.len(),
{
    if scenes.len() > 0 {
        lemma_scene_index_none(scenes.drop_first(), id);
    }
}

proof fn lemma_first_main(scenes: Seq<SceneInfo>, i: int)
    requires
        0 <= i < scenes.len(),
        scenes[i].is_main,
        forall|k: int| 0 <= k < i ==> !(#[trigger] scenes[k]).is_main,
    ensures
        first_main_scene(scenes) == Some(i),
    decreases i,
{
    if i > 0 {
        lemma_first_main(scenes.drop_first(), i - 1);
    }
}

proof fn lemma_first_main_none(scenes: Seq<SceneInfo>)
    requires
        forall|k: int| 0 <= k < scenes.len() ==> !(#[trigger] scenes[k]).is_main,
    ensures
        first_main_scene(scenes) is None,
    decreases scenes.len(),
{
    if scenes.len() > 0 {
        lemma_first_main_none(scenes.drop_first());
    }
}

/// The timeline part of creating captions over the caption's words, which
/// span `start` to `end` on the timeline: a main scene when the project
/// has none to select, the named caption or text track (`captionTrackId`)
/// or a new caption track first in the scene, and the caption item (named
/// `options.name`, else `Captions`). New objects are named with `suffix`.
pub open spec fn create_spec(
    input: JsonValue,
    options: Option<JsonValue>,
    tracks: Seq<Track>,
    scenes: Seq<SceneInfo>,
    current: Option<Seq<char>>,
    suffix: Seq<char>,
    start: i64,
    end: i64,
) -> Result<Seq<CaptionOpView>, CaptionFailure> {
    let (scene_ops, scene_id) = match selected_scene_spec(scenes, current) {
        Some(i) => (Seq::<CaptionOpView>::empty(), scenes[i].id@),
        None => (seq![CaptionOpView::AddMainScene("scene:caption:"@ + suffix)], "scene:caption:"@ + suffix),
    };
    let name = match opt_str(options, "name"@) {
        Some(n) => n,
        None => "Captions"@,
    };
    let item = CaptionOpView::InsertCaption("track:caption:"@ + suffix, "item:caption:"@ + suffix, name, start, (end - start) as i64);
    match input.field_str("captionTrackId"@) {
        Some(id) => match track_with_id(tracks, id) {
            None => Err(CaptionFailure::TrackNotFound(id)),
            Some(t) => if t.kind == TrackKind::Other {
                Err(refused(400, "invalid_caption_track"@, "captionTrackId must identify a caption or text track"@))
            } else {
                Ok(scene_ops.push(CaptionOpView::InsertCaption(t.id@, "item:caption:"@ + suffix, name, start, (end - start) as i64)))
            },
        },
        None => Ok(scene_ops.push(CaptionOpView::AddCaptionTrack(scene_id, "track:caption:"@ + suffix, "Captions"@)).push(item)),
    }
}

fn named(prefix: &str, suffix: &str) -> (r: String)
    ensures
        r@ == prefix@ + suffix@,
{
    let mut v = chars_of(prefix);
    push_str(&mut v, suffix);
    string_of(v.as_slice())
}

/// The timeline operations that create captions (see `create_spec`).
pub fn plan_caption_create(
    input: &JsonValue,
    options: Option<&JsonValue>,
    tracks: &Vec<Track>,
    scenes: &Vec<SceneInfo>,
    current_scene: Option<&str>,
    suffix: &str,
    start: i64,
    end: i64,
) -> (r: Result<Vec<CaptionOperation>, CaptionEditError>)
    requires
        i64::MIN <= end - start <= i64::MAX,
    ensures
        match (r, create_spec(*input, opt_of(options), tracks@, scenes@, opt_str_of(current_scene), suffix@, start, end)) {
            (Ok(v), Ok(o)) => caption_op_views(v@) == o,
            (Err(e), Err(f)) => e@ == f,
            _ => false,
        },
{
    let mut ops: Vec<CaptionOperation> = Vec::new();
    let scene_id = match selected_scene(scenes, current_scene) {
        Some(i) => copy_string(scenes[i].id.as_str()),
        None => {
            ops.push(CaptionOperation::AddMainScene { scene_id: named("scene:caption:", suffix) });
            named("scene:caption:", suffix)
        },
    };
    let name = match opt_get(options, "name") {
        Some(v) => match v.as_str() {
            Some(n) => copy_string(n),
            None => copy_string("Captions"),
        },
        None => copy_string("Captions"),
    };
    let ghost scene_ops = caption_op_views(ops@);
    match input.get_str("captionTrackId") {
        Some(id) => match find_track(tracks, id) {
            None => Err(CaptionEditError::TrackNotFound(copy_string(id))),
            Some(t) => if t.kind == TrackKind::Other {
                Err(refuse(STATUS_BAD_REQUEST, "invalid_caption_track", "captionTrackId must identify a caption or text track"))
            } else {
                ops.push(
                    CaptionOperation::InsertCaption {
                        track_id: copy_string(t.id.as_str()),
                        item_id: named("item:caption:", suffix),
                        name,
                        start_ticks: start,
                        duration_ticks: end - start,
                    },
                );
                assert(caption_op_views(ops@) =~= scene_ops.push(caption_op_views(ops@).last()));
                Ok(ops)
            },
        },
        None => {
            ops.push(
                CaptionOperation::AddCaptionTrack {
                    scene_id,
                    track_id: named("track:caption:", suffix),
                    name: copy_string("Captions"),
                },
            );
            let ghost mid = caption_op_views(ops@);
            assert(mid =~= scene_ops.push(mid.last()));
            ops.push(
                CaptionOperation::InsertCaption {
                    track_id: named("track:caption:", suffix),
                    item_id: named("item:caption:", suffix),
                    name,
                    start_ticks: start,
                    duration_ticks: end - start,
                },
            );
            assert(caption_op_views(ops@) =~= mid.push(caption_op_views(ops@).last()));
            Ok(ops)
        },
    }
}

} // verus!


verus! {

/// The wire name of each caption action.
pub open spec fn caption_action_name(c: CaptionAction) -> Seq<char> {
    match c {
        CaptionAction::Create => "create"@,
        CaptionAction::UpdateStyle => "update-style"@,
        CaptionAction::Remap => "remap"@,
        CaptionAction::Translate => "translate"@,
        CaptionAction::Import => "import"@,
        CaptionAction::Remove => "remove"@,
    }
}

/// Each action name asks for the action of that name, and only its own
/// name does: the name of every action is read back as that action, and
/// two names that are read as the same action are the same name.
pub proof fn lemma_action_names_are_their_actions(c: CaptionAction, a: Seq<char>, b: Seq<char>)
    ensures
        caption_action_spec(caption_action_name(c)) == Some(c),
        caption_action_spec(a) == Some(c) ==> a == caption_action_name(c),
        caption_action_spec(a) is Some && caption_action_spec(a) == caption_action_spec(b) ==> a == b,
{
    reveal_strlit("create");
    reveal_strlit("update-style");
    reveal_strlit("remap");
    reveal_strlit("translate");
    reveal_strlit("import");
    reveal_strlit("remove");
    assert("create"@.len() != "update-style"@.len() && "create"@.len() != "remap"@.len());
    assert("create"@[0] != "translate"@[0] && "create"@[0] != "import"@[0] && "create"@[0] != "remove"@[0]);
    assert("update-style"@.len() != "remap"@.len() && "update-style"@.len() != "translate"@.len());
    assert("update-style"@.len() != "import"@.len() && "update-style"@.len() != "remove"@.len());
    assert("remap"@.len() != "translate"@.len() && "remap"@.len() != "import"@.len() && "remap"@.len() != "remove"@.len());
    assert("translate"@.len() != "import"@.len() && "translate"@.len() != "remove"@.len());
    assert("import"@[0] != "remove"@[0]);
}

} // verus!
