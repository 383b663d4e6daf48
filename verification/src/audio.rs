//! The audio-processing tool: which worker job an operation runs, the
//! named options it takes (denoise engine, crossfade curve, the second
//! asset of a sidechain or crossfade), and which assets carry audio. The
//! numeric settings of each operation are fractional and are checked by
//! the caller against the same error.
use vstd::prelude::*;
use crate::error::{ApiError, STATUS_BAD_REQUEST};
use crate::json::JsonValue;
use crate::media::AssetKind;
use crate::text::{copy_string, str_eq};

verus! {

pub const STATUS_UNPROCESSABLE: u16 = 422;

/// The named choices of an audio job.
#[derive(Debug)]
pub struct AudioPlan {
    /// The worker job kind.
    pub worker_kind: &'static str,
    /// The denoise engine, for a denoise job.
    pub engine: Option<String>,
    /// The second asset of a sidechain or crossfade job.
    pub secondary_asset_id: Option<String>,
    /// The crossfade curve, for a crossfade job.
    pub curve: Option<String>,
}

pub struct AudioPlanView {
    pub worker_kind: Seq<char>,
    pub engine: Option<Seq<char>>,
    pub secondary_asset_id: Option<Seq<char>>,
    pub curve: Option<Seq<char>>,
}

pub open spec fn opt_view(o: Option<String>) -> Option<Seq<char>> {
    match o {
        Some(s) => Some(s@),
        None => None,
    }
}

impl AudioPlan {
    pub open spec fn view(&self) -> AudioPlanView {
        AudioPlanView {
            worker_kind: self.worker_kind@,
            engine: opt_view(self.engine),
            secondary_asset_id: opt_view(self.secondary_asset_id),
            curve: opt_view(self.curve),
        }
    }
}

/// The string `options.key` of a tool input, if it is one.
pub open spec fn option_str(input: JsonValue, key: Seq<char>) -> Option<Seq<char>> {
    match input.field("options"@) {
        Some(o) => o.field_str(key),
        None => None,
    }
}

pub open spec fn or_default(o: Option<Seq<char>>, d: Seq<char>) -> Seq<char> {
    match o {
        Some(s) => s,
        None => d,
    }
}

pub open spec fn audio_refusal(code: Seq<char>, message: Seq<char>) -> Result<AudioPlanView, (u16, Seq<char>, Seq<char>)> {
    Err((STATUS_BAD_REQUEST, code, message))
}

pub open spec fn plain_job(kind: Seq<char>) -> Result<AudioPlanView, (u16, Seq<char>, Seq<char>)> {
    Ok(AudioPlanView { worker_kind: kind, engine: None, secondary_asset_id: None, curve: None })
}

/// The job an audio operation runs: `denoise` with an engine among `auto`
/// (the default), `deepfilternet`, `rnnoise` and `ffmpeg`; `normalize`,
/// `compress-dialogue` and `loop`; `duck-music` with
/// `options.sidechainAssetId`; `crossfade` with `options.secondAssetId` and
/// a curve among `tri` (the default), `qsin`, `hsin`, `exp` and `log`.
/// Anything else is refused, all with 400.
pub open spec fn audio_plan_spec(input: JsonValue) -> Result<AudioPlanView, (u16, Seq<char>, Seq<char>)> {
    match input.field_str("operation"@) {
        None => audio_refusal("missing_field"@, "operation is required"@),
        Some(op) => if op == "denoise"@ {
            let engine = or_default(option_str(input, "engine"@), "auto"@);
            if engine == "auto"@ || engine == "deepfilternet"@ || engine == "rnnoise"@ || engine == "ffmpeg"@ {
                Ok(AudioPlanView { worker_kind: "denoise"@, engine: Some(engine), secondary_asset_id: None, curve: None })
            } else {
                audio_refusal(
                    "invalid_audio_options"@,
                    "denoise engine must be auto, deepfilternet, rnnoise, or ffmpeg"@,
                )
            }
        } else if op == "normalize"@ {
            plain_job("normalize_loudness"@)
        } else if op == "compress-dialogue"@ {
            plain_job("compress_dialogue"@)
        } else if op == "duck-music"@ {
            match option_str(input, "sidechainAssetId"@) {
                None => audio_refusal("secondary_audio_required"@, "duck-music requires options.sidechainAssetId"@),
                Some(id) => Ok(
                    AudioPlanView { worker_kind: "duck_music"@, engine: None, secondary_asset_id: Some(id), curve: None },
                ),
            }
        } else if op == "loop"@ {
            plain_job("loop_audio"@)
        } else if op == "crossfade"@ {
            match option_str(input, "secondAssetId"@) {
                None => audio_refusal("secondary_audio_required"@, "crossfade requires options.secondAssetId"@),
                Some(id) => {
                    let curve = or_default(option_str(input, "curve"@), "tri"@);
                    if curve == "tri"@ || curve == "qsin"@ || curve == "hsin"@ || curve == "exp"@ || curve == "log"@ {
                        Ok(
                            AudioPlanView {
                                worker_kind: "crossfade_audio"@,
                                engine: None,
                                secondary_asset_id: Some(id),
                                curve: Some(curve),
                            },
                        )
                    } else {
                        audio_refusal("invalid_audio_options"@, "crossfade duration/curve settings are invalid"@)
                    }
                },
            }
        } else {
            audio_refusal("unsupported_audio_operation"@, "unsupported audio operation"@)
        },
    }
}

fn option_text<'a>(input: &'a JsonValue, key: &str) -> (r: Option<&'a str>)
    ensures
        match r {
            Some(s) => option_str(*input, key@) == Some(s@),
            None => option_str(*input, key@) is None,
        },
{
    match input.get("options") {
        Some(o) => o.get_str(key),
        None => None,
    }
}

fn refuse(code: &str, message: &str) -> (r: Result<AudioPlan, ApiError>)
    ensures
        r matches Err(e) && e.status == STATUS_BAD_REQUEST && e.code@ == code@ && e.message@ == message@,
{
    Err(ApiError::bad_request(code, message))
}

fn plain(kind: &'static str) -> (r: Result<AudioPlan, ApiError>)
    ensures
        r matches Ok(p) && p.view() == (AudioPlanView { worker_kind: kind@, engine: None, secondary_asset_id: None, curve: None }),
{
    Ok(AudioPlan { worker_kind: kind, engine: None, secondary_asset_id: None, curve: None })
}

/// The job an audio operation runs (see `audio_plan_spec`).
pub fn audio_plan(input: &JsonValue) -> (r: Result<AudioPlan, ApiError>)
    ensures
        match (r, audio_plan_spec(*input)) {
            (Ok(p), Ok(v)) => p.view() == v,
            (Err(e), Err(f)) => e.status == f.0 && e.code@ == f.1 && e.message@ == f.2,
            _ => false,
        },
{
    let op = match input.get_str("operation") {
        None => return refuse("missing_field", "operation is required"),
        Some(op) => op,
    };
    if str_eq(op, "denoise") {
        let engine = match option_text(input, "engine") {
            Some(e) => e,
            None => "auto",
        };
        if str_eq(engine, "auto") || str_eq(engine, "deepfilternet") || str_eq(engine, "rnnoise") || str_eq(engine, "ffmpeg") {
            Ok(AudioPlan { worker_kind: "denoise", engine: Some(copy_string(engine)), secondary_asset_id: None, curve: None })
        } else {
            refuse("invalid_audio_options", "denoise engine must be auto, deepfilternet, rnnoise, or ffmpeg")
        }
    } else if str_eq(op, "normalize") {
        plain("normalize_loudness")
    } else if str_eq(op, "compress-dialogue") {
        plain("compress_dialogue")
    } else if str_eq(op, "duck-music") {
        match option_text(input, "sidechainAssetId") {
            None => refuse("secondary_audio_required", "duck-music requires options.sidechainAssetId"),
            Some(id) => Ok(
                AudioPlan { worker_kind: "duck_music", engine: None, secondary_asset_id: Some(copy_string(id)), curve: None },
            ),
        }
    } else if str_eq(op, "loop") {
        plain("loop_audio")
    } else if str_eq(op, "crossfade") {
        match option_text(input, "secondAssetId") {
            None => refuse("secondary_audio_required", "crossfade requires options.secondAssetId"),
            Some(id) => {
                let curve = match option_text(input, "curve") {
                    Some(c) => c,
                    None => "tri",
                };
                if str_eq(curve, "tri") || str_eq(curve, "qsin") || str_eq(curve, "hsin") || str_eq(curve, "exp") || str_eq(
                    curve,
                    "log",
                ) {
                    Ok(
                        AudioPlan {
                            worker_kind: "crossfade_audio",
                            engine: None,
                            secondary_asset_id: Some(copy_string(id)),
                            curve: Some(copy_string(curve)),
                        },
                    )
                } else {
                    refuse("invalid_audio_options", "crossfade duration/curve settings are invalid")
                }
            },
        }
    } else {
        refuse("unsupported_audio_operation", "unsupported audio operation")
    }
}

/// Only an audio asset, or a video asset with an audio stream, can be
/// processed; anything else is 422 `asset_has_no_audio`.
pub fn check_audio_asset(kind: AssetKind, has_audio: bool) -> (r: Result<(), ApiError>)
    ensures
        r is Ok <==> (kind == AssetKind::Audio || (kind == AssetKind::Video && has_audio)),
        r matches Err(e) ==> e.status == STATUS_UNPROCESSABLE && e.code@ == "asset_has_no_audio"@ && e.message@
            == "the selected asset has no audio stream"@,
{
    if kind == AssetKind::Audio || (kind == AssetKind::Video && has_audio) {
        Ok(())
    } else {
        Err(ApiError::new(STATUS_UNPROCESSABLE, "asset_has_no_audio", "the selected asset has no audio stream"))
    }
}

} // verus!
