//! The transcription tool: which asset a job transcribes, and the engine,
//! speaker bounds and language hint it runs with.
use vstd::prelude::*;
use crate::agent::AssetFacts;
use crate::error::{ApiError, STATUS_BAD_REQUEST};
use crate::json::JsonValue;
use crate::media::AssetKind;
use crate::text::{any_control, chars_of, copy_string, no_control, str_eq};
use crate::tools::STATUS_NOT_IMPLEMENTED;

verus! {

/// Why no asset can be transcribed.
#[derive(Debug)]
pub enum TranscriptionAssetError {
    /// No asset has the requested id.
    NotFound(String),
    Refused(ApiError),
}

pub enum AssetFailure {
    NotFound(Seq<char>),
    /// Code, and the candidate ids when the refusal lists them.
    Refused(Seq<char>, Option<Seq<Seq<char>>>),
}

/// An asset a transcription may pick by itself: managed, with audio.
pub open spec fn transcribable(a: AssetFacts) -> bool {
    a.managed && (a.kind == AssetKind::Audio || (a.kind == AssetKind::Video && a.has_audio))
}

/// The positions of the assets a transcription may pick, in order.
pub open spec fn transcribable_positions(assets: Seq<AssetFacts>) -> Seq<int>
    decreases assets.len(),
{
    if assets.len() == 0 {
        Seq::empty()
    } else {
        transcribable_positions(assets.drop_last()) + if transcribable(assets.last()) {
            seq![assets.len() - 1]
        } else {
            Seq::empty()
        }
    }
}

/// The position of the first asset with this id.
pub open spec fn asset_position(assets: Seq<AssetFacts>, id: Seq<char>) -> Option<int>
    decreases assets.len(),
{
    if assets.len() == 0 {
        None
    } else {
        match asset_position(assets.drop_last(), id) {
            Some(i) => Some(i),
            None => if assets.last().id@ == id {
                Some(assets.len() - 1)
            } else {
                None
            },
        }
    }
}

/// A chosen asset must carry audio and be managed.
pub open spec fn asset_check(a: AssetFacts) -> Option<Seq<char>> {
    if a.kind == AssetKind::Video && !a.has_audio {
        Some("asset_has_no_audio"@)
    } else if a.kind != AssetKind::Audio && a.kind != AssetKind::Video {
        Some("asset_not_transcribable"@)
    } else if !a.managed {
        Some("asset_not_managed"@)
    } else {
        None
    }
}

/// The asset a transcription uses: the one named by `assetId`, else the
/// project's only managed asset with audio (400 `asset_required` when there
/// is none, 400 `asset_selection_required` listing them when there are
/// several); it must carry audio and be managed.
pub open spec fn transcription_asset_spec(assets: Seq<AssetFacts>, asset_id: Option<Seq<char>>) -> Result<
    int,
    AssetFailure,
> {
    let picked = match asset_id {
        Some(id) => match asset_position(assets, id) {
            Some(i) => Ok(i),
            None => Err(AssetFailure::NotFound(id)),
        },
        None => {
            let c = transcribable_positions(assets);
            if c.len() == 1 {
                Ok(c[0])
            } else if c.len() == 0 {
                Err(AssetFailure::Refused("asset_required"@, None))
            } else {
                Err(AssetFailure::Refused("asset_selection_required"@, Some(c.map_values(|i: int| assets[i].id@))))
            }
        },
    };
    match picked {
        Err(f) => Err(f),
        Ok(i) => match asset_check(assets[i]) {
            Some(code) => Err(AssetFailure::Refused(code, None)),
            None => Ok(i),
        },
    }
}

pub open spec fn asset_failure(e: TranscriptionAssetError) -> AssetFailure {
    match e {
        TranscriptionAssetError::NotFound(id) => AssetFailure::NotFound(id@),
        TranscriptionAssetError::Refused(a) => AssetFailure::Refused(
            a.code@,
            match a.details {
                Some(JsonValue::Object(d)) => if d@.len() == 1 && d@[0].0@ == "assetIds"@ {
                    match d@[0].1 {
                        JsonValue::Array(ids) => Some(ids@.map_values(|v: JsonValue| v.str_view().unwrap())),
                        _ => None,
                    }
                } else {
                    None
                },
                _ => None,
            },
        ),
    }
}

fn refuse(code: &str, message: &str) -> (e: TranscriptionAssetError)
    ensures
        asset_failure(e) == AssetFailure::Refused(code@, None),
        e matches TranscriptionAssetError::Refused(a) && a.status == STATUS_BAD_REQUEST && a.message@ == message@,
{
    TranscriptionAssetError::Refused(ApiError::bad_request(code, message))
}

/// The asset a transcription uses (see `transcription_asset_spec`); its
/// position in `assets`.
pub fn transcription_asset(assets: &Vec<AssetFacts>, asset_id: Option<&str>) -> (r: Result<
    usize,
    TranscriptionAssetError,
>)
    ensures
        match (r, transcription_asset_spec(assets@, match asset_id {
            Some(s) => Some(s@),
            None => None,
        })) {
            (Ok(i), Ok(j)) => i == j,
            (Err(e), Err(f)) => asset_failure(e) == f,
            _ => false,
        },
        r matches Err(TranscriptionAssetError::Refused(a)) ==> a.status == STATUS_BAD_REQUEST,
{
    let ghost es = assets@;
    let picked: usize = match asset_id {
        Some(id) => {
            let mut found: Option<usize> = None;
            let mut i: usize = 0;
            while i < assets.len()
                invariant
                    i <= assets.len(),
                    es == assets@,
                    match found {
                        Some(k) => k < i && asset_position(es.subrange(0, i as int), id@) == Some(k as int),
                        None => asset_position(es.subrange(0, i as int), id@) is None,
                    },
                decreases assets.len() - i,
            {
                assert(es.subrange(0, i + 1).drop_last() =~= es.subrange(0, i as int));
                if found.is_none() && str_eq(assets[i].id.as_str(), id) {
                    found = Some(i);
                }
                i += 1;
            }
            assert(es.subrange(0, assets.len() as int) =~= es);
            match found {
                None => return Err(TranscriptionAssetError::NotFound(copy_string(id))),
                Some(k) => k,
            }
        },
        None => {
            let mut c: Vec<usize> = Vec::new();
            let mut i: usize = 0;
            while i < assets.len()
                invariant
                    i <= assets.len(),
                    es == assets@,
                    c@.map_values(|k: usize| k as int) == transcribable_positions(es.subrange(0, i as int)),
                    forall|q: int| 0 <= q < c.len() ==> #[trigger] c@[q] < i,
                decreases assets.len() - i,
            {
                let ghost pre = es.subrange(0, i as int);
                assert(es.subrange(0, i + 1).drop_last() =~= pre);
                let ghost before = c@.map_values(|k: usize| k as int);
                let a = &assets[i];
                if a.managed && (a.kind == AssetKind::Audio || (a.kind == AssetKind::Video && a.has_audio)) {
                    c.push(i);
                    assert(c@.map_values(|k: usize| k as int) =~= before.push(i as int));
                } else {
                    assert(c@.map_values(|k: usize| k as int) =~= before);
                }
                i += 1;
            }
            assert(es.subrange(0, assets.len() as int) =~= es);
            let ghost cs = transcribable_positions(es);
            if c.len() == 1 {
                c[0]
            } else if c.len() == 0 {
                return Err(
                    refuse("asset_required", "transcription requires one managed audio asset or an explicit assetId"),
                );
            } else {
                let mut ids: Vec<JsonValue> = Vec::new();
                let mut k: usize = 0;
                while k < c.len()
                    invariant
                        k <= c.len(),
                        es == assets@,
                        c@.map_values(|q: usize| q as int) == cs,
                        forall|q: int| 0 <= q < c.len() ==> #[trigger] c@[q] < assets.len(),
                        ids@.map_values(|v: JsonValue| v.str_view().unwrap()) == cs.take(k as int).map_values(
                            |q: int| es[q].id@,
                        ),
                    decreases c.len() - k,
                {
                    let ghost before = ids@.map_values(|v: JsonValue| v.str_view().unwrap());
                    let q = c[k];
                    assert(cs[k as int] == q as int);
                    let id = copy_string(assets[q].id.as_str());
                    ids.push(JsonValue::Str(id));
                    assert(ids@.map_values(|v: JsonValue| v.str_view().unwrap()) =~= before.push(es[q as int].id@));
                    assert(cs.take(k + 1).map_values(|q: int| es[q].id@) =~= cs.take(k as int).map_values(
                        |q: int| es[q].id@,
                    ).push(es[q as int].id@));
                    k += 1;
                }
                assert(cs.take(c.len() as int) =~= cs);
                let details = JsonValue::Object(vec![(copy_string("assetIds"), JsonValue::Array(ids))]);
                return Err(
                    TranscriptionAssetError::Refused(
                        ApiError::bad_request(
                            "asset_selection_required",
                            "more than one transcribable asset exists; provide assetId",
                        ).with_details(details),
                    ),
                );
            }
        },
    };
    let a = &assets[picked];
    if a.kind == AssetKind::Video && !a.has_audio {
        return Err(refuse("asset_has_no_audio", "the selected video asset has no audio stream"));
    }
    if a.kind != AssetKind::Audio && a.kind != AssetKind::Video {
        return Err(refuse("asset_not_transcribable", "transcription requires an audio or video asset"));
    }
    if !a.managed {
        return Err(refuse("asset_not_managed", "the asset has no managed content hash"));
    }
    Ok(picked)
}

/// The settings a transcription job runs with.
#[derive(Debug)]
pub struct TranscriptionOptions {
    pub engine: &'static str,
    pub diarization: bool,
    pub min_speakers: Option<u32>,
    pub max_speakers: Option<u32>,
    pub language: String,
}

pub open spec fn speakers_ok(min: Option<u64>, max: Option<u64>) -> bool {
    let in_range = |o: Option<u64>| match o {
        Some(n) => 1 <= n <= 32,
        None => true,
    };
    &&& in_range(min)
    &&& in_range(max)
    &&& match (min, max) {
        (Some(a), Some(b)) => a <= b,
        _ => true,
    }
}

/// The settings of a transcription, in the order they are checked:
/// speaker bounds that fit `u32` (400 `invalid_speaker_count`), within
/// `1..=32` with the minimum not above the maximum; an engine among
/// `auto` (the default), `faster-whisper` and `new-api-asr` (else 501
/// `capability_not_available`); `auto` is the remote engine when one is
/// registered, else `faster-whisper`; the remote engine needs registering
/// (501) and cannot diarize (501); a language hint of at most 64 bytes
/// without control characters (400 `invalid_language`, default `auto`).
/// `Ok` holds the engine, diarization, bounds and language.
pub open spec fn transcription_options_spec(input: JsonValue, remote_available: bool) -> Result<
    (Seq<char>, bool, Option<u64>, Option<u64>, Seq<char>),
    (u16, Seq<char>, Seq<char>),
> {
    let diarization = match input.field_bool("diarization"@) {
        Some(b) => b,
        None => false,
    };
    let min = input.field_u64("minSpeakers"@);
    let max = input.field_u64("maxSpeakers"@);
    let requested = match input.field_str("engine"@) {
        Some(e) => e,
        None => "auto"@,
    };
    if min matches Some(n) && n > u32::MAX {
        Err((STATUS_BAD_REQUEST, "invalid_speaker_count"@, "minSpeakers is too large"@))
    } else if max matches Some(n) && n > u32::MAX {
        Err((STATUS_BAD_REQUEST, "invalid_speaker_count"@, "maxSpeakers is too large"@))
    } else if !speakers_ok(min, max) {
        Err(
            (
                STATUS_BAD_REQUEST,
                "invalid_speaker_count"@,
                "speaker bounds must be between 1 and 32 and minSpeakers must not exceed maxSpeakers"@,
            ),
        )
    } else if !(requested == "auto"@ || requested == "faster-whisper"@ || requested == "new-api-asr"@) {
        Err((STATUS_NOT_IMPLEMENTED, "capability_not_available"@, "the requested transcription engine is not supported"@))
    } else if requested == "new-api-asr"@ && !remote_available {
        Err((STATUS_NOT_IMPLEMENTED, "capability_not_available"@, "New API ASR is not configured"@))
    } else {
        let engine = if requested == "auto"@ {
            if remote_available {
                "new-api-asr"@
            } else {
                "faster-whisper"@
            }
        } else {
            requested
        };
        if engine == "new-api-asr"@ && diarization {
            Err(
                (
                    STATUS_NOT_IMPLEMENTED,
                    "capability_not_available"@,
                    "the private New API ASR adapter does not yet expose speaker diarization; use faster-whisper with an authorized pyannote model"@,
                ),
            )
        } else {
            match input.field_str("language"@) {
                Some(l) => if vstd::utf8::encode_utf8(l).len() > 64 || !no_control(l) {
                    Err((STATUS_BAD_REQUEST, "invalid_language"@, "language must be a short BCP-47 hint"@))
                } else {
                    Ok((engine, diarization, min, max, l))
                },
                None => Ok((engine, diarization, min, max, "auto"@)),
            }
        }
    }
}

/// The settings of a transcription (see `transcription_options_spec`).
pub fn transcription_options(input: &JsonValue, remote_available: bool) -> (r: Result<TranscriptionOptions, ApiError>)
    ensures
        match (r, transcription_options_spec(*input, remote_available)) {
            (Ok(o), Ok(v)) => o.engine@ == v.0 && o.diarization == v.1 && (match o.min_speakers {
                Some(n) => Some(n as u64),
                None => None,
            }) == v.2 && (match o.max_speakers {
                Some(n) => Some(n as u64),
                None => None,
            }) == v.3 && o.language@ == v.4,
            (Err(e), Err(f)) => e.status == f.0 && e.code@ == f.1 && e.message@ == f.2,
            _ => false,
        },
{
    proof {
        reveal_strlit("auto");
        reveal_strlit("faster-whisper");
        reveal_strlit("new-api-asr");
    }
    let diarization = match input.get_bool("diarization") {
        Some(b) => b,
        None => false,
    };
    let min = input.get_u64("minSpeakers");
    let max = input.get_u64("maxSpeakers");
    let requested = match input.get_str("engine") {
        Some(e) => e,
        None => "auto",
    };
    let min_speakers: Option<u32> = match min {
        Some(n) => if n > 4294967295 {
            return Err(ApiError::bad_request("invalid_speaker_count", "minSpeakers is too large"));
        } else {
            Some(n as u32)
        },
        None => None,
    };
    let max_speakers: Option<u32> = match max {
        Some(n) => if n > 4294967295 {
            return Err(ApiError::bad_request("invalid_speaker_count", "maxSpeakers is too large"));
        } else {
            Some(n as u32)
        },
        None => None,
    };
    let bad_min = match min_speakers {
        Some(n) => n < 1 || n > 32,
        None => false,
    };
    let bad_max = match max_speakers {
        Some(n) => n < 1 || n > 32,
        None => false,
    };
    let crossed = match (min_speakers, max_speakers) {
        (Some(a), Some(b)) => a > b,
        _ => false,
    };
    if bad_min || bad_max || crossed {
        return Err(
            ApiError::bad_request(
                "invalid_speaker_count",
                "speaker bounds must be between 1 and 32 and minSpeakers must not exceed maxSpeakers",
            ),
        );
    }
    if !(str_eq(requested, "auto") || str_eq(requested, "faster-whisper") || str_eq(requested, "new-api-asr")) {
        return Err(
            ApiError::new(
                STATUS_NOT_IMPLEMENTED,
                "capability_not_available",
                "the requested transcription engine is not supported",
            ),
        );
    }
    if str_eq(requested, "new-api-asr") && !remote_available {
        let details = JsonValue::Object(vec![(copy_string("capability"), JsonValue::Str(copy_string("remoteTranscription")))]);
        return Err(
            ApiError::new(STATUS_NOT_IMPLEMENTED, "capability_not_available", "New API ASR is not configured").with_details(
                details,
            ),
        );
    }
    let engine: &'static str = if str_eq(requested, "auto") {
        if remote_available {
            "new-api-asr"
        } else {
            "faster-whisper"
        }
    } else if str_eq(requested, "faster-whisper") {
        "faster-whisper"
    } else {
        "new-api-asr"
    };
    if str_eq(engine, "new-api-asr") && diarization {
        let details = JsonValue::Object(vec![(copy_string("capability"), JsonValue::Str(copy_string("speakerDiarization")))]);
        return Err(
            ApiError::new(
                STATUS_NOT_IMPLEMENTED,
                "capability_not_available",
                "the private New API ASR adapter does not yet expose speaker diarization; use faster-whisper with an authorized pyannote model",
            ).with_details(details),
        );
    }
    let language = match input.get_str("language") {
        Some(l) => {
            let lc = chars_of(l);
            if l.as_bytes().len() > 64 || any_control(lc.as_slice()) {
                return Err(ApiError::bad_request("invalid_language", "language must be a short BCP-47 hint"));
            }
            copy_string(l)
        },
        None => copy_string("auto"),
    };
    Ok(TranscriptionOptions { engine, diarization, min_speakers, max_speakers, language })
}

} // verus!
