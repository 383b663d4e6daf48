//! Media classification by magic bytes and file extension, upload name and
//! metadata checks, and the rules for downloading export artifacts.
use vstd::prelude::*;
use crate::error::{ApiError, STATUS_BAD_REQUEST, STATUS_UNSUPPORTED_MEDIA_TYPE};
use crate::json::JsonValue;
use crate::paths::{extension, extension_spec};
use crate::text::{
    ascii_lower_seq, bytes_start_with, chars_of, lower_ascii, seq_eq, starts_with_spec, string_of,
};

verus! {

/// The kind of an asset, as classification assigns it.
#[derive(Debug, Clone, Copy, PartialEq, Eq, Structural)]
pub enum AssetKind {
    Video,
    Audio,
    Image,
    Font,
    Other,
}

/// The container or codec family that a file's leading bytes identify.
#[derive(Debug, Clone, Copy, PartialEq, Eq, Structural)]
pub enum MediaSignature {
    IsoBmff,
    Avif,
    Ebml,
    Avi,
    Wav,
    Mp3,
    Aac,
    Flac,
    Ogg,
    Png,
    Jpeg,
    Gif,
    Webp,
    TrueType,
    OpenType,
    Woff,
    Woff2,
    Unknown,
}

/// `b` holds `p` starting at `at`.
pub open spec fn holds_at(b: Seq<u8>, at: int, p: Seq<u8>) -> bool {
    0 <= at && at + p.len() <= b.len() && b.subrange(at, at + p.len()) == p
}

pub open spec fn sniff_spec(b: Seq<u8>) -> MediaSignature {
    if starts_with_spec(b, seq![0x89u8, 0x50, 0x4e, 0x47, 0x0d, 0x0a, 0x1a, 0x0a]) {
        MediaSignature::Png
    } else if starts_with_spec(b, seq![0xffu8, 0xd8, 0xff]) {
        MediaSignature::Jpeg
    } else if starts_with_spec(b, seq![0x47u8, 0x49, 0x46, 0x38, 0x37, 0x61]) || starts_with_spec(
        b,
        seq![0x47u8, 0x49, 0x46, 0x38, 0x39, 0x61],
    ) {
        MediaSignature::Gif
    } else if b.len() >= 12 && starts_with_spec(b, seq![0x52u8, 0x49, 0x46, 0x46]) && holds_at(
        b,
        8,
        seq![0x57u8, 0x45, 0x42, 0x50],
    ) {
        MediaSignature::Webp
    } else if b.len() >= 12 && starts_with_spec(b, seq![0x52u8, 0x49, 0x46, 0x46]) && holds_at(
        b,
        8,
        seq![0x57u8, 0x41, 0x56, 0x45],
    ) {
        MediaSignature::Wav
    } else if b.len() >= 12 && starts_with_spec(b, seq![0x52u8, 0x49, 0x46, 0x46]) && holds_at(
        b,
        8,
        seq![0x41u8, 0x56, 0x49, 0x20],
    ) {
        MediaSignature::Avi
    } else if b.len() >= 2 && b[0] == 0xff && (b[1] & 0xf6u8) == 0xf0u8 {
        MediaSignature::Aac
    } else if starts_with_spec(b, seq![0x49u8, 0x44, 0x33]) || (b.len() >= 2 && b[0] == 0xff && (
    b[1] & 0xe0u8) == 0xe0u8 && (b[1] & 0x06u8) != 0u8) {
        MediaSignature::Mp3
    } else if starts_with_spec(b, seq![0x66u8, 0x4c, 0x61, 0x43]) {
        MediaSignature::Flac
    } else if starts_with_spec(b, seq![0x4fu8, 0x67, 0x67, 0x53]) {
        MediaSignature::Ogg
    } else if starts_with_spec(b, seq![0x1au8, 0x45, 0xdf, 0xa3]) {
        MediaSignature::Ebml
    } else if b.len() >= 12 && holds_at(b, 4, seq![0x66u8, 0x74, 0x79, 0x70]) {
        if holds_at(b, 8, seq![0x61u8, 0x76, 0x69, 0x66]) || holds_at(
            b,
            8,
            seq![0x61u8, 0x76, 0x69, 0x73],
        ) {
            MediaSignature::Avif
        } else {
            MediaSignature::IsoBmff
        }
    } else if starts_with_spec(b, seq![0x00u8, 0x01, 0x00, 0x00]) || starts_with_spec(
        b,
        seq![0x74u8, 0x72, 0x75, 0x65],
    ) || starts_with_spec(b, seq![0x74u8, 0x79, 0x70, 0x31]) {
        MediaSignature::TrueType
    } else if starts_with_spec(b, seq![0x4fu8, 0x54, 0x54, 0x4f]) {
        MediaSignature::OpenType
    } else if starts_with_spec(b, seq![0x77u8, 0x4f, 0x46, 0x46]) {
        MediaSignature::Woff
    } else if starts_with_spec(b, seq![0x77u8, 0x4f, 0x46, 0x32]) {
        MediaSignature::Woff2
    } else {
        MediaSignature::Unknown
    }
}

fn bytes_at(b: &[u8], at: usize, p: &[u8]) -> (r: bool)
    ensures
        r == holds_at(b@, at as int, p@),
{
    if at > b.len() || p.len() > b.len() - at {
        return false;
    }
    let mut i: usize = 0;
    while i < p.len()
        invariant
            i <= p.len(),
            at + p.len() <= b.len(),
            forall|j: int| 0 <= j < i ==> b@[at + j] == p@[j],
        decreases p.len() - i,
    {
        if b[at + i] != p[i] {
            assert(b@.subrange(at as int, at + p.len())[i as int] != p@[i as int]);
            return false;
        }
        i += 1;
    }
    assert(b@.subrange(at as int, at + p.len()) =~= p@);
    true
}

/// The signature that a file's leading bytes carry.
pub fn sniff_media_signature(bytes: &[u8]) -> (r: MediaSignature)
    ensures
        r == sniff_spec(bytes@),
{
    let riff = bytes_start_with(bytes, &[0x52u8, 0x49, 0x46, 0x46]);
    if bytes_start_with(bytes, &[0x89u8, 0x50, 0x4e, 0x47, 0x0d, 0x0a, 0x1a, 0x0a]) {
        MediaSignature::Png
    } else if bytes_start_with(bytes, &[0xffu8, 0xd8, 0xff]) {
        MediaSignature::Jpeg
    } else if bytes_start_with(bytes, &[0x47u8, 0x49, 0x46, 0x38, 0x37, 0x61])
        || bytes_start_with(bytes, &[0x47u8, 0x49, 0x46, 0x38, 0x39, 0x61]) {
        MediaSignature::Gif
    } else if bytes.len() >= 12 && riff && bytes_at(bytes, 8, &[0x57u8, 0x45, 0x42, 0x50]) {
        MediaSignature::Webp
    } else if bytes.len() >= 12 && riff && bytes_at(bytes, 8, &[0x57u8, 0x41, 0x56, 0x45]) {
        MediaSignature::Wav
    } else if bytes.len() >= 12 && riff && bytes_at(bytes, 8, &[0x41u8, 0x56, 0x49, 0x20]) {
        MediaSignature::Avi
    } else if bytes.len() >= 2 && bytes[0] == 0xff && (bytes[1] & 0xf6u8) == 0xf0u8 {
        MediaSignature::Aac
    } else if bytes_start_with(bytes, &[0x49u8, 0x44, 0x33]) || (bytes.len() >= 2 && bytes[0]
        == 0xff && (bytes[1] & 0xe0u8) == 0xe0u8 && (bytes[1] & 0x06u8) != 0u8) {
        MediaSignature::Mp3
    } else if bytes_start_with(bytes, &[0x66u8, 0x4c, 0x61, 0x43]) {
        MediaSignature::Flac
    } else if bytes_start_with(bytes, &[0x4fu8, 0x67, 0x67, 0x53]) {
        MediaSignature::Ogg
    } else if bytes_start_with(bytes, &[0x1au8, 0x45, 0xdf, 0xa3]) {
        MediaSignature::Ebml
    } else if bytes.len() >= 12 && bytes_at(bytes, 4, &[0x66u8, 0x74, 0x79, 0x70]) {
        if bytes_at(bytes, 8, &[0x61u8, 0x76, 0x69, 0x66]) || bytes_at(
            bytes,
            8,
            &[0x61u8, 0x76, 0x69, 0x73],
        ) {
            MediaSignature::Avif
        } else {
            MediaSignature::IsoBmff
        }
    } else if bytes_start_with(bytes, &[0x00u8, 0x01, 0x00, 0x00]) || bytes_start_with(
        bytes,
        &[0x74u8, 0x72, 0x75, 0x65],
    ) || bytes_start_with(bytes, &[0x74u8, 0x79, 0x70, 0x31]) {
        MediaSignature::TrueType
    } else if bytes_start_with(bytes, &[0x4fu8, 0x54, 0x54, 0x4f]) {
        MediaSignature::OpenType
    } else if bytes_start_with(bytes, &[0x77u8, 0x4f, 0x46, 0x46]) {
        MediaSignature::Woff
    } else if bytes_start_with(bytes, &[0x77u8, 0x4f, 0x46, 0x32]) {
        MediaSignature::Woff2
    } else {
        MediaSignature::Unknown
    }
}

} // verus!

verus! {

pub open spec fn ascii_ws_byte(b: u8) -> bool {
    b == 0x09 || b == 0x0a || b == 0x0c || b == 0x0d || b == 0x20
}

/// The bytes after any leading ASCII whitespace.
pub open spec fn skip_ascii_ws(b: Seq<u8>) -> Seq<u8>
    decreases b.len(),
{
    if b.len() > 0 && ascii_ws_byte(b[0]) {
        skip_ascii_ws(b.drop_first())
    } else {
        b
    }
}

pub open spec fn lower_byte(b: u8) -> u8 {
    if 0x41 <= b && b <= 0x5a {
        (b + 32) as u8
    } else {
        b
    }
}

/// The prefix begins (after whitespace, ignoring ASCII case) with SVG, HTML
/// or XML markup.
pub open spec fn active_markup(prefix: Seq<u8>) -> bool {
    let t = skip_ascii_ws(prefix).map_values(|b: u8| lower_byte(b));
    ||| starts_with_spec(t, seq![0x3cu8, 0x73, 0x76, 0x67])
    ||| starts_with_spec(t, seq![0x3cu8, 0x68, 0x74, 0x6d, 0x6c])
    ||| starts_with_spec(t, seq![0x3cu8, 0x21, 0x64, 0x6f, 0x63, 0x74, 0x79, 0x70, 0x65, 0x20, 0x68, 0x74, 0x6d, 0x6c])
    ||| starts_with_spec(t, seq![0x3cu8, 0x3f, 0x78, 0x6d, 0x6c])
}

/// The signature, kind and MIME type that a known extension requires.
pub open spec fn extension_rule(e: Seq<char>) -> Option<(MediaSignature, AssetKind, Seq<char>)> {
    if e == "mp4"@ || e == "m4v"@ {
        Some((MediaSignature::IsoBmff, AssetKind::Video, "video/mp4"@))
    } else if e == "mov"@ {
        Some((MediaSignature::IsoBmff, AssetKind::Video, "video/quicktime"@))
    } else if e == "m4a"@ {
        Some((MediaSignature::IsoBmff, AssetKind::Audio, "audio/mp4"@))
    } else if e == "avif"@ {
        Some((MediaSignature::Avif, AssetKind::Image, "image/avif"@))
    } else if e == "webm"@ {
        Some((MediaSignature::Ebml, AssetKind::Video, "video/webm"@))
    } else if e == "mkv"@ {
        Some((MediaSignature::Ebml, AssetKind::Video, "video/x-matroska"@))
    } else if e == "avi"@ {
        Some((MediaSignature::Avi, AssetKind::Video, "video/x-msvideo"@))
    } else if e == "mp3"@ {
        Some((MediaSignature::Mp3, AssetKind::Audio, "audio/mpeg"@))
    } else if e == "wav"@ {
        Some((MediaSignature::Wav, AssetKind::Audio, "audio/wav"@))
    } else if e == "aac"@ {
        Some((MediaSignature::Aac, AssetKind::Audio, "audio/aac"@))
    } else if e == "flac"@ {
        Some((MediaSignature::Flac, AssetKind::Audio, "audio/flac"@))
    } else if e == "ogg"@ || e == "oga"@ {
        Some((MediaSignature::Ogg, AssetKind::Audio, "audio/ogg"@))
    } else if e == "png"@ {
        Some((MediaSignature::Png, AssetKind::Image, "image/png"@))
    } else if e == "jpg"@ || e == "jpeg"@ {
        Some((MediaSignature::Jpeg, AssetKind::Image, "image/jpeg"@))
    } else if e == "webp"@ {
        Some((MediaSignature::Webp, AssetKind::Image, "image/webp"@))
    } else if e == "gif"@ {
        Some((MediaSignature::Gif, AssetKind::Image, "image/gif"@))
    } else if e == "ttf"@ {
        Some((MediaSignature::TrueType, AssetKind::Font, "font/ttf"@))
    } else if e == "otf"@ {
        Some((MediaSignature::OpenType, AssetKind::Font, "font/otf"@))
    } else if e == "woff"@ {
        Some((MediaSignature::Woff, AssetKind::Font, "font/woff"@))
    } else if e == "woff2"@ {
        Some((MediaSignature::Woff2, AssetKind::Font, "font/woff2"@))
    } else {
        None
    }
}

/// Kind and MIME type of a file whose extension names no rule.
pub open spec fn signature_fallback(s: MediaSignature) -> (AssetKind, Option<Seq<char>>) {
    match s {
        MediaSignature::IsoBmff | MediaSignature::Ebml | MediaSignature::Avi => (
            AssetKind::Video,
            Some("application/octet-stream"@),
        ),
        MediaSignature::Avif => (AssetKind::Image, Some("image/avif"@)),
        MediaSignature::Wav => (AssetKind::Audio, Some("audio/wav"@)),
        MediaSignature::Mp3 => (AssetKind::Audio, Some("audio/mpeg"@)),
        MediaSignature::Aac => (AssetKind::Audio, Some("audio/aac"@)),
        MediaSignature::Flac => (AssetKind::Audio, Some("audio/flac"@)),
        MediaSignature::Ogg => (AssetKind::Audio, Some("audio/ogg"@)),
        MediaSignature::Png => (AssetKind::Image, Some("image/png"@)),
        MediaSignature::Jpeg => (AssetKind::Image, Some("image/jpeg"@)),
        MediaSignature::Gif => (AssetKind::Image, Some("image/gif"@)),
        MediaSignature::Webp => (AssetKind::Image, Some("image/webp"@)),
        MediaSignature::TrueType => (AssetKind::Font, Some("font/ttf"@)),
        MediaSignature::OpenType => (AssetKind::Font, Some("font/otf"@)),
        MediaSignature::Woff => (AssetKind::Font, Some("font/woff"@)),
        MediaSignature::Woff2 => (AssetKind::Font, Some("font/woff2"@)),
        MediaSignature::Unknown => (AssetKind::Other, None),
    }
}

/// The lowercased extension of a path.
pub open spec fn lower_extension(path: Seq<char>) -> Option<Seq<char>> {
    match extension_spec(path) {
        Some(e) => Some(ascii_lower_seq(e)),
        None => None,
    }
}

/// The outcome of classifying a file named `path` whose leading bytes are
/// `prefix`: its kind and MIME type, or the error code.
pub enum Classified {
    Media(AssetKind, Option<Seq<char>>),
    Refused(u16, Seq<char>),
}

pub open spec fn classify_spec(path: Seq<char>, prefix: Seq<u8>) -> Classified {
    let ext = lower_extension(path);
    let sig = sniff_spec(prefix);
    if prefix.len() == 0 {
        Classified::Refused(STATUS_BAD_REQUEST, "empty_media"@)
    } else if ext == Some("svg"@) || active_markup(prefix) {
        Classified::Refused(STATUS_UNSUPPORTED_MEDIA_TYPE, "unsafe_active_media"@)
    } else {
        match ext {
            Some(e) => match extension_rule(e) {
                Some(rule) => if rule.0 == sig {
                    Classified::Media(rule.1, Some(rule.2))
                } else {
                    Classified::Refused(STATUS_UNSUPPORTED_MEDIA_TYPE, "media_signature_mismatch"@)
                },
                None => Classified::Media(signature_fallback(sig).0, signature_fallback(sig).1),
            },
            None => Classified::Media(signature_fallback(sig).0, signature_fallback(sig).1),
        }
    }
}

pub open spec fn classified_view(r: Result<(AssetKind, Option<&'static str>), ApiError>) -> Classified {
    match r {
        Ok(p) => Classified::Media(p.0, match p.1 {
            Some(m) => Some(m@),
            None => None,
        }),
        Err(e) => Classified::Refused(e.status, e.code@),
    }
}

/// The characters spell the string.
pub fn word(v: &[char], w: &str) -> (r: bool)
    ensures
        r == (v@ == w@),
{
    let c = chars_of(w);
    seq_eq(v, c.as_slice())
}

fn extension_rule_of(e: &[char]) -> (r: Option<(MediaSignature, AssetKind, &'static str)>)
    ensures
        match r {
            Some(x) => extension_rule(e@) == Some((x.0, x.1, x.2@)),
            None => extension_rule(e@) is None,
        },
{
    if word(e, "mp4") || word(e, "m4v") {
        Some((MediaSignature::IsoBmff, AssetKind::Video, "video/mp4"))
    } else if word(e, "mov") {
        Some((MediaSignature::IsoBmff, AssetKind::Video, "video/quicktime"))
    } else if word(e, "m4a") {
        Some((MediaSignature::IsoBmff, AssetKind::Audio, "audio/mp4"))
    } else if word(e, "avif") {
        Some((MediaSignature::Avif, AssetKind::Image, "image/avif"))
    } else if word(e, "webm") {
        Some((MediaSignature::Ebml, AssetKind::Video, "video/webm"))
    } else if word(e, "mkv") {
        Some((MediaSignature::Ebml, AssetKind::Video, "video/x-matroska"))
    } else if word(e, "avi") {
        Some((MediaSignature::Avi, AssetKind::Video, "video/x-msvideo"))
    } else if word(e, "mp3") {
        Some((MediaSignature::Mp3, AssetKind::Audio, "audio/mpeg"))
    } else if word(e, "wav") {
        Some((MediaSignature::Wav, AssetKind::Audio, "audio/wav"))
    } else if word(e, "aac") {
        Some((MediaSignature::Aac, AssetKind::Audio, "audio/aac"))
    } else if word(e, "flac") {
        Some((MediaSignature::Flac, AssetKind::Audio, "audio/flac"))
    } else if word(e, "ogg") || word(e, "oga") {
        Some((MediaSignature::Ogg, AssetKind::Audio, "audio/ogg"))
    } else if word(e, "png") {
        Some((MediaSignature::Png, AssetKind::Image, "image/png"))
    } else if word(e, "jpg") || word(e, "jpeg") {
        Some((MediaSignature::Jpeg, AssetKind::Image, "image/jpeg"))
    } else if word(e, "webp") {
        Some((MediaSignature::Webp, AssetKind::Image, "image/webp"))
    } else if word(e, "gif") {
        Some((MediaSignature::Gif, AssetKind::Image, "image/gif"))
    } else if word(e, "ttf") {
        Some((MediaSignature::TrueType, AssetKind::Font, "font/ttf"))
    } else if word(e, "otf") {
        Some((MediaSignature::OpenType, AssetKind::Font, "font/otf"))
    } else if word(e, "woff") {
        Some((MediaSignature::Woff, AssetKind::Font, "font/woff"))
    } else if word(e, "woff2") {
        Some((MediaSignature::Woff2, AssetKind::Font, "font/woff2"))
    } else {
        None
    }
}

fn fallback_of(s: MediaSignature) -> (r: (AssetKind, Option<&'static str>))
    ensures
        signature_fallback(s) == (r.0, match r.1 {
            Some(m) => Some(m@),
            None => None,
        }),
{
    match s {
        MediaSignature::IsoBmff | MediaSignature::Ebml | MediaSignature::Avi => (
            AssetKind::Video,
            Some("application/octet-stream"),
        ),
        MediaSignature::Avif => (AssetKind::Image, Some("image/avif")),
        MediaSignature::Wav => (AssetKind::Audio, Some("audio/wav")),
        MediaSignature::Mp3 => (AssetKind::Audio, Some("audio/mpeg")),
        MediaSignature::Aac => (AssetKind::Audio, Some("audio/aac")),
        MediaSignature::Flac => (AssetKind::Audio, Some("audio/flac")),
        MediaSignature::Ogg => (AssetKind::Audio, Some("audio/ogg")),
        MediaSignature::Png => (AssetKind::Image, Some("image/png")),
        MediaSignature::Jpeg => (AssetKind::Image, Some("image/jpeg")),
        MediaSignature::Gif => (AssetKind::Image, Some("image/gif")),
        MediaSignature::Webp => (AssetKind::Image, Some("image/webp")),
        MediaSignature::TrueType => (AssetKind::Font, Some("font/ttf")),
        MediaSignature::OpenType => (AssetKind::Font, Some("font/otf")),
        MediaSignature::Woff => (AssetKind::Font, Some("font/woff")),
        MediaSignature::Woff2 => (AssetKind::Font, Some("font/woff2")),
        MediaSignature::Unknown => (AssetKind::Other, None),
    }
}

fn is_ascii_ws_byte(b: u8) -> (r: bool)
    ensures
        r == ascii_ws_byte(b),
{
    b == 0x09 || b == 0x0a || b == 0x0c || b == 0x0d || b == 0x20
}

fn has_active_markup(prefix: &[u8]) -> (r: bool)
    ensures
        r == active_markup(prefix@),
{
    let mut start: usize = 0;
    assert(prefix@.subrange(0, prefix.len() as int) =~= prefix@);
    while start < prefix.len() && is_ascii_ws_byte(prefix[start])
        invariant
            start <= prefix.len(),
            skip_ascii_ws(prefix@) == skip_ascii_ws(prefix@.subrange(start as int, prefix.len() as int)),
        decreases prefix.len() - start,
    {
        let ghost rest = prefix@.subrange(start as int, prefix.len() as int);
        assert(rest.drop_first() =~= prefix@.subrange(start + 1, prefix.len() as int));
        start += 1;
    }
    let ghost rest = prefix@.subrange(start as int, prefix.len() as int);
    assert(skip_ascii_ws(rest) == rest);
    let mut t: Vec<u8> = Vec::new();
    let mut i: usize = start;
    while i < prefix.len()
        invariant
            start <= i <= prefix.len(),
            t@ == prefix@.subrange(start as int, i as int).map_values(|b: u8| lower_byte(b)),
        decreases prefix.len() - i,
    {
        let b = prefix[i];
        let lb = if 0x41 <= b && b <= 0x5a {
            b + 32
        } else {
            b
        };
        t.push(lb);
        i += 1;
        assert(prefix@.subrange(start as int, i as int).map_values(|b: u8| lower_byte(b))
            =~= prefix@.subrange(start as int, i - 1).map_values(|b: u8| lower_byte(b)).push(
            lower_byte(b),
        ));
    }
    assert(t@ =~= skip_ascii_ws(prefix@).map_values(|b: u8| lower_byte(b)));
    bytes_start_with(t.as_slice(), &[0x3cu8, 0x73, 0x76, 0x67]) || bytes_start_with(
        t.as_slice(),
        &[0x3cu8, 0x68, 0x74, 0x6d, 0x6c],
    ) || bytes_start_with(
        t.as_slice(),
        &[0x3cu8, 0x21, 0x64, 0x6f, 0x63, 0x74, 0x79, 0x70, 0x65, 0x20, 0x68, 0x74, 0x6d, 0x6c],
    ) || bytes_start_with(t.as_slice(), &[0x3cu8, 0x3f, 0x78, 0x6d, 0x6c])
}

/// The lowercased extension of a path.
pub fn lowercase_extension(path: &str) -> (r: Option<Vec<char>>)
    ensures
        match r {
            Some(e) => lower_extension(path@) == Some(e@),
            None => lower_extension(path@) is None,
        },
{
    match extension(path) {
        Some(e) => Some(lower_ascii(e.as_slice())),
        None => None,
    }
}

/// Classifies media by its name and leading bytes: the extension must match
/// the magic bytes, active markup is refused, and unknown extensions fall
/// back to the signature.
pub fn classify_media(path: &str, prefix: &[u8]) -> (r: Result<(AssetKind, Option<&'static str>), ApiError>)
    ensures
        classified_view(r) == classify_spec(path@, prefix@),
{
    let ext = lowercase_extension(path);
    if prefix.len() == 0 {
        return Err(ApiError::bad_request("empty_media", "an empty file cannot be imported as media"));
    }
    let svg = match &ext {
        Some(e) => word(e.as_slice(), "svg"),
        None => false,
    };
    if svg || has_active_markup(prefix) {
        return Err(ApiError::new(
            STATUS_UNSUPPORTED_MEDIA_TYPE,
            "unsafe_active_media",
            "active markup media is disabled until the SVG sanitizer is available",
        ));
    }
    let signature = sniff_media_signature(prefix);
    match &ext {
        Some(e) => match extension_rule_of(e.as_slice()) {
            Some(rule) => {
                if rule.0 == signature {
                    return Ok((rule.1, Some(rule.2)));
                }
                let details = JsonValue::Object(
                    vec![(copy_str("extension"), JsonValue::Str(string_of(e.as_slice())))],
                );
                return Err(ApiError::new(
                    STATUS_UNSUPPORTED_MEDIA_TYPE,
                    "media_signature_mismatch",
                    "the file contents do not match the selected media extension",
                ).with_details(details));
            },
            None => {},
        },
        None => {},
    }
    let fallback = fallback_of(signature);
    Ok(fallback)
}

fn copy_str(s: &str) -> (r: String)
    ensures
        r@ == s@,
{
    s.to_owned()
}

} // verus!

verus! {

/// Active markup is never imported: an `.svg` name, or leading bytes that
/// open with SVG, HTML or XML markup, are refused whatever else holds.
pub proof fn lemma_active_media_refused(path: Seq<char>, prefix: Seq<u8>)
    requires
        prefix.len() > 0,
        lower_extension(path) == Some("svg"@) || active_markup(prefix),
    ensures
        classify_spec(path, prefix) == Classified::Refused(
            STATUS_UNSUPPORTED_MEDIA_TYPE,
            "unsafe_active_media"@,
        ),
{
}

/// Accepted media with a known extension really is what the extension says:
/// its leading bytes carry the extension's signature, and it gets the
/// extension's kind and MIME type.
pub proof fn lemma_accepted_media_matches_extension(path: Seq<char>, prefix: Seq<u8>, e: Seq<char>)
    requires
        lower_extension(path) == Some(e),
        extension_rule(e) is Some,
        classify_spec(path, prefix) is Media,
    ensures
        extension_rule(e) matches Some(rule) && sniff_spec(prefix) == rule.0
            && classify_spec(path, prefix) == Classified::Media(rule.1, Some(rule.2)),
{
}


/// `b` holds `p` at `at`, so its byte `at + i` is `p[i]`.
proof fn lemma_byte_at(b: Seq<u8>, at: int, p: Seq<u8>, i: int)
    requires
        holds_at(b, at, p),
        0 <= i < p.len(),
    ensures
        b[at + i] == p[i],
        starts_with_spec(b, p) <==> holds_at(b, 0, p),
{
    assert(b.subrange(at, at + p.len())[i] == b[at + i]);
}

/// A byte that differs from `q[i]` rules out `q` at `at`.
proof fn lemma_not_at(b: Seq<u8>, at: int, q: Seq<u8>, i: int, v: u8)
    requires
        0 <= at,
        0 <= i < q.len(),
        at + i < b.len(),
        b[at + i] == v,
        q[i] != v,
    ensures
        !holds_at(b, at, q),
        at == 0 ==> !starts_with_spec(b, q),
{
    if holds_at(b, at, q) {
        assert(b.subrange(at, at + q.len())[i] == b[at + i]);
    }
    if at == 0 && starts_with_spec(b, q) {
        assert(b.subrange(0, q.len() as int)[i] == b[i]);
    }
}

/// Bytes that begin with neither whitespace nor `<` are no markup.
proof fn lemma_not_markup(b: Seq<u8>)
    requires
        b.len() > 0,
        !ascii_ws_byte(b[0]),
        lower_byte(b[0]) != 0x3cu8,
    ensures
        !active_markup(b),
{
    assert(skip_ascii_ws(b) == b);
    let t = b.map_values(|x: u8| lower_byte(x));
    assert(t[0] == lower_byte(b[0]));
    assert forall|p: Seq<u8>| p.len() > 0 && p[0] == 0x3cu8 implies !starts_with_spec(t, p) by {
        if starts_with_spec(t, p) {
            assert(t.subrange(0, p.len() as int)[0] == t[0]);
        }
    }
}

proof fn lemma_rule_mp4()
    ensures
        extension_rule("mp4"@) == Some((MediaSignature::IsoBmff, AssetKind::Video, "video/mp4"@)),
        "mp4"@ != "svg"@,
{
    reveal_strlit("mp4");
    reveal_strlit("svg");
    reveal_strlit("svg");
    assert("mp4"@[0] != "svg"@[0]);
    assert("mp4"@ != "svg"@);
}

proof fn lemma_rule_m4v()
    ensures
        extension_rule("m4v"@) == Some((MediaSignature::IsoBmff, AssetKind::Video, "video/mp4"@)),
        "m4v"@ != "svg"@,
{
    reveal_strlit("m4v");
    reveal_strlit("svg");
    reveal_strlit("mp4");
    reveal_strlit("svg");
    assert("m4v"@[1] != "mp4"@[1]);
    assert("m4v"@ != "mp4"@);
    assert("m4v"@[0] != "svg"@[0]);
    assert("m4v"@ != "svg"@);
}

proof fn lemma_rule_mov()
    ensures
        extension_rule("mov"@) == Some((MediaSignature::IsoBmff, AssetKind::Video, "video/quicktime"@)),
        "mov"@ != "svg"@,
{
    reveal_strlit("mov");
    reveal_strlit("svg");
    reveal_strlit("mp4");
    reveal_strlit("m4v");
    reveal_strlit("svg");
    assert("mov"@[1] != "mp4"@[1]);
    assert("mov"@ != "mp4"@);
    assert("mov"@[1] != "m4v"@[1]);
    assert("mov"@ != "m4v"@);
    assert("mov"@[0] != "svg"@[0]);
    assert("mov"@ != "svg"@);
}

proof fn lemma_rule_m4a()
    ensures
        extension_rule("m4a"@) == Some((MediaSignature::IsoBmff, AssetKind::Audio, "audio/mp4"@)),
        "m4a"@ != "svg"@,
{
    reveal_strlit("m4a");
    reveal_strlit("svg");
    reveal_strlit("mp4");
    reveal_strlit("m4v");
    reveal_strlit("mov");
    reveal_strlit("svg");
    assert("m4a"@[1] != "mp4"@[1]);
    assert("m4a"@ != "mp4"@);
    assert("m4a"@[2] != "m4v"@[2]);
    assert("m4a"@ != "m4v"@);
    assert("m4a"@[1] != "mov"@[1]);
    assert("m4a"@ != "mov"@);
    assert("m4a"@[0] != "svg"@[0]);
    assert("m4a"@ != "svg"@);
}

proof fn lemma_rule_avif()
    ensures
        extension_rule("avif"@) == Some((MediaSignature::Avif, AssetKind::Image, "image/avif"@)),
        "avif"@ != "svg"@,
{
    reveal_strlit("avif");
    reveal_strlit("svg");
    reveal_strlit("mp4");
    reveal_strlit("m4v");
    reveal_strlit("mov");
    reveal_strlit("m4a");
    reveal_strlit("svg");
    assert("avif"@.len() != "mp4"@.len());
    assert("avif"@ != "mp4"@);
    assert("avif"@.len() != "m4v"@.len());
    assert("avif"@ != "m4v"@);
    assert("avif"@.len() != "mov"@.len());
    assert("avif"@ != "mov"@);
    assert("avif"@.len() != "m4a"@.len());
    assert("avif"@ != "m4a"@);
    assert("avif"@.len() != "svg"@.len());
    assert("avif"@ != "svg"@);
}

proof fn lemma_rule_webm()
    ensures
        extension_rule("webm"@) == Some((MediaSignature::Ebml, AssetKind::Video, "video/webm"@)),
        "webm"@ != "svg"@,
{
    reveal_strlit("webm");
    reveal_strlit("svg");
    reveal_strlit("mp4");
    reveal_strlit("m4v");
    reveal_strlit("mov");
    reveal_strlit("m4a");
    reveal_strlit("avif");
    reveal_strlit("svg");
    assert("webm"@.len() != "mp4"@.len());
    assert("webm"@ != "mp4"@);
    assert("webm"@.len() != "m4v"@.len());
    assert("webm"@ != "m4v"@);
    assert("webm"@.len() != "mov"@.len());
    assert("webm"@ != "mov"@);
    assert("webm"@.len() != "m4a"@.len());
    assert("webm"@ != "m4a"@);
    assert("webm"@[0] != "avif"@[0]);
    assert("webm"@ != "avif"@);
    assert("webm"@.len() != "svg"@.len());
    assert("webm"@ != "svg"@);
}

proof fn lemma_rule_mkv()
    ensures
        extension_rule("mkv"@) == Some((MediaSignature::Ebml, AssetKind::Video, "video/x-matroska"@)),
        "mkv"@ != "svg"@,
{
    reveal_strlit("mkv");
    reveal_strlit("svg");
    reveal_strlit("mp4");
    reveal_strlit("m4v");
    reveal_strlit("mov");
    reveal_strlit("m4a");
    reveal_strlit("avif");
    reveal_strlit("webm");
    reveal_strlit("svg");
    assert("mkv"@[1] != "mp4"@[1]);
    assert("mkv"@ != "mp4"@);
    assert("mkv"@[1] != "m4v"@[1]);
    assert("mkv"@ != "m4v"@);
    assert("mkv"@[1] != "mov"@[1]);
    assert("mkv"@ != "mov"@);
    assert("mkv"@[1] != "m4a"@[1]);
    assert("mkv"@ != "m4a"@);
    assert("mkv"@.len() != "avif"@.len());
    assert("mkv"@ != "avif"@);
    assert("mkv"@.len() != "webm"@.len());
    assert("mkv"@ != "webm"@);
    assert("mkv"@[0] != "svg"@[0]);
    assert("mkv"@ != "svg"@);
}

proof fn lemma_rule_avi()
    ensures
        extension_rule("avi"@) == Some((MediaSignature::Avi, AssetKind::Video, "video/x-msvideo"@)),
        "avi"@ != "svg"@,
{
    reveal_strlit("avi");
    reveal_strlit("svg");
    reveal_strlit("mp4");
    reveal_strlit("m4v");
    reveal_strlit("mov");
    reveal_strlit("m4a");
    reveal_strlit("avif");
    reveal_strlit("webm");
    reveal_strlit("mkv");
    reveal_strlit("svg");
    assert("avi"@[0] != "mp4"@[0]);
    assert("avi"@ != "mp4"@);
    assert("avi"@[0] != "m4v"@[0]);
    assert("avi"@ != "m4v"@);
    assert("avi"@[0] != "mov"@[0]);
    assert("avi"@ != "mov"@);
    assert("avi"@[0] != "m4a"@[0]);
    assert("avi"@ != "m4a"@);
    assert("avi"@.len() != "avif"@.len());
    assert("avi"@ != "avif"@);
    assert("avi"@.len() != "webm"@.len());
    assert("avi"@ != "webm"@);
    assert("avi"@[0] != "mkv"@[0]);
    assert("avi"@ != "mkv"@);
    assert("avi"@[0] != "svg"@[0]);
    assert("avi"@ != "svg"@);
}

proof fn lemma_rule_mp3()
    ensures
        extension_rule("mp3"@) == Some((MediaSignature::Mp3, AssetKind::Audio, "audio/mpeg"@)),
        "mp3"@ != "svg"@,
{
    reveal_strlit("mp3");
    reveal_strlit("svg");
    reveal_strlit("mp4");
    reveal_strlit("m4v");
    reveal_strlit("mov");
    reveal_strlit("m4a");
    reveal_strlit("avif");
    reveal_strlit("webm");
    reveal_strlit("mkv");
    reveal_strlit("avi");
    reveal_strlit("svg");
    assert("mp3"@[2] != "mp4"@[2]);
    assert("mp3"@ != "mp4"@);
    assert("mp3"@[1] != "m4v"@[1]);
    assert("mp3"@ != "m4v"@);
    assert("mp3"@[1] != "mov"@[1]);
    assert("mp3"@ != "mov"@);
    assert("mp3"@[1] != "m4a"@[1]);
    assert("mp3"@ != "m4a"@);
    assert("mp3"@.len() != "avif"@.len());
    assert("mp3"@ != "avif"@);
    assert("mp3"@.len() != "webm"@.len());
    assert("mp3"@ != "webm"@);
    assert("mp3"@[1] != "mkv"@[1]);
    assert("mp3"@ != "mkv"@);
    assert("mp3"@[0] != "avi"@[0]);
    assert("mp3"@ != "avi"@);
    assert("mp3"@[0] != "svg"@[0]);
    assert("mp3"@ != "svg"@);
}

proof fn lemma_rule_wav()
    ensures
        extension_rule("wav"@) == Some((MediaSignature::Wav, AssetKind::Audio, "audio/wav"@)),
        "wav"@ != "svg"@,
{
    reveal_strlit("wav");
    reveal_strlit("svg");
    reveal_strlit("mp4");
    reveal_strlit("m4v");
    reveal_strlit("mov");
    reveal_strlit("m4a");
    reveal_strlit("avif");
    reveal_strlit("webm");
    reveal_strlit("mkv");
    reveal_strlit("avi");
    reveal_strlit("mp3");
    reveal_strlit("svg");
    assert("wav"@[0] != "mp4"@[0]);
    assert("wav"@ != "mp4"@);
    assert("wav"@[0] != "m4v"@[0]);
    assert("wav"@ != "m4v"@);
    assert("wav"@[0] != "mov"@[0]);
    assert("wav"@ != "mov"@);
    assert("wav"@[0] != "m4a"@[0]);
    assert("wav"@ != "m4a"@);
    assert("wav"@.len() != "avif"@.len());
    assert("wav"@ != "avif"@);
    assert("wav"@.len() != "webm"@.len());
    assert("wav"@ != "webm"@);
    assert("wav"@[0] != "mkv"@[0]);
    assert("wav"@ != "mkv"@);
    assert("wav"@[0] != "avi"@[0]);
    assert("wav"@ != "avi"@);
    assert("wav"@[0] != "mp3"@[0]);
    assert("wav"@ != "mp3"@);
    assert("wav"@[0] != "svg"@[0]);
    assert("wav"@ != "svg"@);
}

proof fn lemma_rule_aac()
    ensures
        extension_rule("aac"@) == Some((MediaSignature::Aac, AssetKind::Audio, "audio/aac"@)),
        "aac"@ != "svg"@,
{
    reveal_strlit("aac");
    reveal_strlit("svg");
    reveal_strlit("mp4");
    reveal_strlit("m4v");
    reveal_strlit("mov");
    reveal_strlit("m4a");
    reveal_strlit("avif");
    reveal_strlit("webm");
    reveal_strlit("mkv");
    reveal_strlit("avi");
    reveal_strlit("mp3");
    reveal_strlit("wav");
    reveal_strlit("svg");
    assert("aac"@[0] != "mp4"@[0]);
    assert("aac"@ != "mp4"@);
    assert("aac"@[0] != "m4v"@[0]);
    assert("aac"@ != "m4v"@);
    assert("aac"@[0] != "mov"@[0]);
    assert("aac"@ != "mov"@);
    assert("aac"@[0] != "m4a"@[0]);
    assert("aac"@ != "m4a"@);
    assert("aac"@.len() != "avif"@.len());
    assert("aac"@ != "avif"@);
    assert("aac"@.len() != "webm"@.len());
    assert("aac"@ != "webm"@);
    assert("aac"@[0] != "mkv"@[0]);
    assert("aac"@ != "mkv"@);
    assert("aac"@[1] != "avi"@[1]);
    assert("aac"@ != "avi"@);
    assert("aac"@[0] != "mp3"@[0]);
    assert("aac"@ != "mp3"@);
    assert("aac"@[0] != "wav"@[0]);
    assert("aac"@ != "wav"@);
    assert("aac"@[0] != "svg"@[0]);
    assert("aac"@ != "svg"@);
}

proof fn lemma_rule_flac()
    ensures
        extension_rule("flac"@) == Some((MediaSignature::Flac, AssetKind::Audio, "audio/flac"@)),
        "flac"@ != "svg"@,
{
    reveal_strlit("flac");
    reveal_strlit("svg");
    reveal_strlit("mp4");
    reveal_strlit("m4v");
    reveal_strlit("mov");
    reveal_strlit("m4a");
    reveal_strlit("avif");
    reveal_strlit("webm");
    reveal_strlit("mkv");
    reveal_strlit("avi");
    reveal_strlit("mp3");
    reveal_strlit("wav");
    reveal_strlit("aac");
    reveal_strlit("svg");
    assert("flac"@.len() != "mp4"@.len());
    assert("flac"@ != "mp4"@);
    assert("flac"@.len() != "m4v"@.len());
    assert("flac"@ != "m4v"@);
    assert("flac"@.len() != "mov"@.len());
    assert("flac"@ != "mov"@);
    assert("flac"@.len() != "m4a"@.len());
    assert("flac"@ != "m4a"@);
    assert("flac"@[0] != "avif"@[0]);
    assert("flac"@ != "avif"@);
    assert("flac"@[0] != "webm"@[0]);
    assert("flac"@ != "webm"@);
    assert("flac"@.len() != "mkv"@.len());
    assert("flac"@ != "mkv"@);
    assert("flac"@.len() != "avi"@.len());
    assert("flac"@ != "avi"@);
    assert("flac"@.len() != "mp3"@.len());
    assert("flac"@ != "mp3"@);
    assert("flac"@.len() != "wav"@.len());
    assert("flac"@ != "wav"@);
    assert("flac"@.len() != "aac"@.len());
    assert("flac"@ != "aac"@);
    assert("flac"@.len() != "svg"@.len());
    assert("flac"@ != "svg"@);
}

proof fn lemma_rule_ogg()
    ensures
        extension_rule("ogg"@) == Some((MediaSignature::Ogg, AssetKind::Audio, "audio/ogg"@)),
        "ogg"@ != "svg"@,
{
    reveal_strlit("ogg");
    reveal_strlit("svg");
    reveal_strlit("mp4");
    reveal_strlit("m4v");
    reveal_strlit("mov");
    reveal_strlit("m4a");
    reveal_strlit("avif");
    reveal_strlit("webm");
    reveal_strlit("mkv");
    reveal_strlit("avi");
    reveal_strlit("mp3");
    reveal_strlit("wav");
    reveal_strlit("aac");
    reveal_strlit("flac");
    reveal_strlit("svg");
    assert("ogg"@[0] != "mp4"@[0]);
    assert("ogg"@ != "mp4"@);
    assert("ogg"@[0] != "m4v"@[0]);
    assert("ogg"@ != "m4v"@);
    assert("ogg"@[0] != "mov"@[0]);
    assert("ogg"@ != "mov"@);
    assert("ogg"@[0] != "m4a"@[0]);
    assert("ogg"@ != "m4a"@);
    assert("ogg"@.len() != "avif"@.len());
    assert("ogg"@ != "avif"@);
    assert("ogg"@.len() != "webm"@.len());
    assert("ogg"@ != "webm"@);
    assert("ogg"@[0] != "mkv"@[0]);
    assert("ogg"@ != "mkv"@);
    assert("ogg"@[0] != "avi"@[0]);
    assert("ogg"@ != "avi"@);
    assert("ogg"@[0] != "mp3"@[0]);
    assert("ogg"@ != "mp3"@);
    assert("ogg"@[0] != "wav"@[0]);
    assert("ogg"@ != "wav"@);
    assert("ogg"@[0] != "aac"@[0]);
    assert("ogg"@ != "aac"@);
    assert("ogg"@.len() != "flac"@.len());
    assert("ogg"@ != "flac"@);
    assert("ogg"@[0] != "svg"@[0]);
    assert("ogg"@ != "svg"@);
}

proof fn lemma_rule_oga()
    ensures
        extension_rule("oga"@) == Some((MediaSignature::Ogg, AssetKind::Audio, "audio/ogg"@)),
        "oga"@ != "svg"@,
{
    reveal_strlit("oga");
    reveal_strlit("svg");
    reveal_strlit("mp4");
    reveal_strlit("m4v");
    reveal_strlit("mov");
    reveal_strlit("m4a");
    reveal_strlit("avif");
    reveal_strlit("webm");
    reveal_strlit("mkv");
    reveal_strlit("avi");
    reveal_strlit("mp3");
    reveal_strlit("wav");
    reveal_strlit("aac");
    reveal_strlit("flac");
    reveal_strlit("ogg");
    reveal_strlit("svg");
    assert("oga"@[0] != "mp4"@[0]);
    assert("oga"@ != "mp4"@);
    assert("oga"@[0] != "m4v"@[0]);
    assert("oga"@ != "m4v"@);
    assert("oga"@[0] != "mov"@[0]);
    assert("oga"@ != "mov"@);
    assert("oga"@[0] != "m4a"@[0]);
    assert("oga"@ != "m4a"@);
    assert("oga"@.len() != "avif"@.len());
    assert("oga"@ != "avif"@);
    assert("oga"@.len() != "webm"@.len());
    assert("oga"@ != "webm"@);
    assert("oga"@[0] != "mkv"@[0]);
    assert("oga"@ != "mkv"@);
    assert("oga"@[0] != "avi"@[0]);
    assert("oga"@ != "avi"@);
    assert("oga"@[0] != "mp3"@[0]);
    assert("oga"@ != "mp3"@);
    assert("oga"@[0] != "wav"@[0]);
    assert("oga"@ != "wav"@);
    assert("oga"@[0] != "aac"@[0]);
    assert("oga"@ != "aac"@);
    assert("oga"@.len() != "flac"@.len());
    assert("oga"@ != "flac"@);
    assert("oga"@[2] != "ogg"@[2]);
    assert("oga"@ != "ogg"@);
    assert("oga"@[0] != "svg"@[0]);
    assert("oga"@ != "svg"@);
}

proof fn lemma_rule_png()
    ensures
        extension_rule("png"@) == Some((MediaSignature::Png, AssetKind::Image, "image/png"@)),
        "png"@ != "svg"@,
{
    reveal_strlit("png");
    reveal_strlit("svg");
    reveal_strlit("mp4");
    reveal_strlit("m4v");
    reveal_strlit("mov");
    reveal_strlit("m4a");
    reveal_strlit("avif");
    reveal_strlit("webm");
    reveal_strlit("mkv");
    reveal_strlit("avi");
    reveal_strlit("mp3");
    reveal_strlit("wav");
    reveal_strlit("aac");
    reveal_strlit("flac");
    reveal_strlit("ogg");
    reveal_strlit("oga");
    reveal_strlit("svg");
    assert("png"@[0] != "mp4"@[0]);
    assert("png"@ != "mp4"@);
    assert("png"@[0] != "m4v"@[0]);
    assert("png"@ != "m4v"@);
    assert("png"@[0] != "mov"@[0]);
    assert("png"@ != "mov"@);
    assert("png"@[0] != "m4a"@[0]);
    assert("png"@ != "m4a"@);
    assert("png"@.len() != "avif"@.len());
    assert("png"@ != "avif"@);
    assert("png"@.len() != "webm"@.len());
    assert("png"@ != "webm"@);
    assert("png"@[0] != "mkv"@[0]);
    assert("png"@ != "mkv"@);
    assert("png"@[0] != "avi"@[0]);
    assert("png"@ != "avi"@);
    assert("png"@[0] != "mp3"@[0]);
    assert("png"@ != "mp3"@);
    assert("png"@[0] != "wav"@[0]);
    assert("png"@ != "wav"@);
    assert("png"@[0] != "aac"@[0]);
    assert("png"@ != "aac"@);
    assert("png"@.len() != "flac"@.len());
    assert("png"@ != "flac"@);
    assert("png"@[0] != "ogg"@[0]);
    assert("png"@ != "ogg"@);
    assert("png"@[0] != "oga"@[0]);
    assert("png"@ != "oga"@);
    assert("png"@[0] != "svg"@[0]);
    assert("png"@ != "svg"@);
}

proof fn lemma_rule_jpg()
    ensures
        extension_rule("jpg"@) == Some((MediaSignature::Jpeg, AssetKind::Image, "image/jpeg"@)),
        "jpg"@ != "svg"@,
{
    reveal_strlit("jpg");
    reveal_strlit("svg");
    reveal_strlit("mp4");
    reveal_strlit("m4v");
    reveal_strlit("mov");
    reveal_strlit("m4a");
    reveal_strlit("avif");
    reveal_strlit("webm");
    reveal_strlit("mkv");
    reveal_strlit("avi");
    reveal_strlit("mp3");
    reveal_strlit("wav");
    reveal_strlit("aac");
    reveal_strlit("flac");
    reveal_strlit("ogg");
    reveal_strlit("oga");
    reveal_strlit("png");
    reveal_strlit("svg");
    assert("jpg"@[0] != "mp4"@[0]);
    assert("jpg"@ != "mp4"@);
    assert("jpg"@[0] != "m4v"@[0]);
    assert("jpg"@ != "m4v"@);
    assert("jpg"@[0] != "mov"@[0]);
    assert("jpg"@ != "mov"@);
    assert("jpg"@[0] != "m4a"@[0]);
    assert("jpg"@ != "m4a"@);
    assert("jpg"@.len() != "avif"@.len());
    assert("jpg"@ != "avif"@);
    assert("jpg"@.len() != "webm"@.len());
    assert("jpg"@ != "webm"@);
    assert("jpg"@[0] != "mkv"@[0]);
    assert("jpg"@ != "mkv"@);
    assert("jpg"@[0] != "avi"@[0]);
    assert("jpg"@ != "avi"@);
    assert("jpg"@[0] != "mp3"@[0]);
    assert("jpg"@ != "mp3"@);
    assert("jpg"@[0] != "wav"@[0]);
    assert("jpg"@ != "wav"@);
    assert("jpg"@[0] != "aac"@[0]);
    assert("jpg"@ != "aac"@);
    assert("jpg"@.len() != "flac"@.len());
    assert("jpg"@ != "flac"@);
    assert("jpg"@[0] != "ogg"@[0]);
    assert("jpg"@ != "ogg"@);
    assert("jpg"@[0] != "oga"@[0]);
    assert("jpg"@ != "oga"@);
    assert("jpg"@[0] != "png"@[0]);
    assert("jpg"@ != "png"@);
    assert("jpg"@[0] != "svg"@[0]);
    assert("jpg"@ != "svg"@);
}

proof fn lemma_rule_jpeg()
    ensures
        extension_rule("jpeg"@) == Some((MediaSignature::Jpeg, AssetKind::Image, "image/jpeg"@)),
        "jpeg"@ != "svg"@,
{
    reveal_strlit("jpeg");
    reveal_strlit("svg");
    reveal_strlit("mp4");
    reveal_strlit("m4v");
    reveal_strlit("mov");
    reveal_strlit("m4a");
    reveal_strlit("avif");
    reveal_strlit("webm");
    reveal_strlit("mkv");
    reveal_strlit("avi");
    reveal_strlit("mp3");
    reveal_strlit("wav");
    reveal_strlit("aac");
    reveal_strlit("flac");
    reveal_strlit("ogg");
    reveal_strlit("oga");
    reveal_strlit("png");
    reveal_strlit("jpg");
    reveal_strlit("svg");
    assert("jpeg"@.len() != "mp4"@.len());
    assert("jpeg"@ != "mp4"@);
    assert("jpeg"@.len() != "m4v"@.len());
    assert("jpeg"@ != "m4v"@);
    assert("jpeg"@.len() != "mov"@.len());
    assert("jpeg"@ != "mov"@);
    assert("jpeg"@.len() != "m4a"@.len());
    assert("jpeg"@ != "m4a"@);
    assert("jpeg"@[0] != "avif"@[0]);
    assert("jpeg"@ != "avif"@);
    assert("jpeg"@[0] != "webm"@[0]);
    assert("jpeg"@ != "webm"@);
    assert("jpeg"@.len() != "mkv"@.len());
    assert("jpeg"@ != "mkv"@);
    assert("jpeg"@.len() != "avi"@.len());
    assert("jpeg"@ != "avi"@);
    assert("jpeg"@.len() != "mp3"@.len());
    assert("jpeg"@ != "mp3"@);
    assert("jpeg"@.len() != "wav"@.len());
    assert("jpeg"@ != "wav"@);
    assert("jpeg"@.len() != "aac"@.len());
    assert("jpeg"@ != "aac"@);
    assert("jpeg"@[0] != "flac"@[0]);
    assert("jpeg"@ != "flac"@);
    assert("jpeg"@.len() != "ogg"@.len());
    assert("jpeg"@ != "ogg"@);
    assert("jpeg"@.len() != "oga"@.len());
    assert("jpeg"@ != "oga"@);
    assert("jpeg"@.len() != "png"@.len());
    assert("jpeg"@ != "png"@);
    assert("jpeg"@.len() != "jpg"@.len());
    assert("jpeg"@ != "jpg"@);
    assert("jpeg"@.len() != "svg"@.len());
    assert("jpeg"@ != "svg"@);
}

proof fn lemma_rule_webp()
    ensures
        extension_rule("webp"@) == Some((MediaSignature::Webp, AssetKind::Image, "image/webp"@)),
        "webp"@ != "svg"@,
{
    reveal_strlit("webp");
    reveal_strlit("svg");
    reveal_strlit("mp4");
    reveal_strlit("m4v");
    reveal_strlit("mov");
    reveal_strlit("m4a");
    reveal_strlit("avif");
    reveal_strlit("webm");
    reveal_strlit("mkv");
    reveal_strlit("avi");
    reveal_strlit("mp3");
    reveal_strlit("wav");
    reveal_strlit("aac");
    reveal_strlit("flac");
    reveal_strlit("ogg");
    reveal_strlit("oga");
    reveal_strlit("png");
    reveal_strlit("jpg");
    reveal_strlit("jpeg");
    reveal_strlit("svg");
    assert("webp"@.len() != "mp4"@.len());
    assert("webp"@ != "mp4"@);
    assert("webp"@.len() != "m4v"@.len());
    assert("webp"@ != "m4v"@);
    assert("webp"@.len() != "mov"@.len());
    assert("webp"@ != "mov"@);
    assert("webp"@.len() != "m4a"@.len());
    assert("webp"@ != "m4a"@);
    assert("webp"@[0] != "avif"@[0]);
    assert("webp"@ != "avif"@);
    assert("webp"@[3] != "webm"@[3]);
    assert("webp"@ != "webm"@);
    assert("webp"@.len() != "mkv"@.len());
    assert("webp"@ != "mkv"@);
    assert("webp"@.len() != "avi"@.len());
    assert("webp"@ != "avi"@);
    assert("webp"@.len() != "mp3"@.len());
    assert("webp"@ != "mp3"@);
    assert("webp"@.len() != "wav"@.len());
    assert("webp"@ != "wav"@);
    assert("webp"@.len() != "aac"@.len());
    assert("webp"@ != "aac"@);
    assert("webp"@[0] != "flac"@[0]);
    assert("webp"@ != "flac"@);
    assert("webp"@.len() != "ogg"@.len());
    assert("webp"@ != "ogg"@);
    assert("webp"@.len() != "oga"@.len());
    assert("webp"@ != "oga"@);
    assert("webp"@.len() != "png"@.len());
    assert("webp"@ != "png"@);
    assert("webp"@.len() != "jpg"@.len());
    assert("webp"@ != "jpg"@);
    assert("webp"@[0] != "jpeg"@[0]);
    assert("webp"@ != "jpeg"@);
    assert("webp"@.len() != "svg"@.len());
    assert("webp"@ != "svg"@);
}

proof fn lemma_rule_gif()
    ensures
        extension_rule("gif"@) == Some((MediaSignature::Gif, AssetKind::Image, "image/gif"@)),
        "gif"@ != "svg"@,
{
    reveal_strlit("gif");
    reveal_strlit("svg");
    reveal_strlit("mp4");
    reveal_strlit("m4v");
    reveal_strlit("mov");
    reveal_strlit("m4a");
    reveal_strlit("avif");
    reveal_strlit("webm");
    reveal_strlit("mkv");
    reveal_strlit("avi");
    reveal_strlit("mp3");
    reveal_strlit("wav");
    reveal_strlit("aac");
    reveal_strlit("flac");
    reveal_strlit("ogg");
    reveal_strlit("oga");
    reveal_strlit("png");
    reveal_strlit("jpg");
    reveal_strlit("jpeg");
    reveal_strlit("webp");
    reveal_strlit("svg");
    assert("gif"@[0] != "mp4"@[0]);
    assert("gif"@ != "mp4"@);
    assert("gif"@[0] != "m4v"@[0]);
    assert("gif"@ != "m4v"@);
    assert("gif"@[0] != "mov"@[0]);
    assert("gif"@ != "mov"@);
    assert("gif"@[0] != "m4a"@[0]);
    assert("gif"@ != "m4a"@);
    assert("gif"@.len() != "avif"@.len());
    assert("gif"@ != "avif"@);
    assert("gif"@.len() != "webm"@.len());
    assert("gif"@ != "webm"@);
    assert("gif"@[0] != "mkv"@[0]);
    assert("gif"@ != "mkv"@);
    assert("gif"@[0] != "avi"@[0]);
    assert("gif"@ != "avi"@);
    assert("gif"@[0] != "mp3"@[0]);
    assert("gif"@ != "mp3"@);
    assert("gif"@[0] != "wav"@[0]);
    assert("gif"@ != "wav"@);
    assert("gif"@[0] != "aac"@[0]);
    assert("gif"@ != "aac"@);
    assert("gif"@.len() != "flac"@.len());
    assert("gif"@ != "flac"@);
    assert("gif"@[0] != "ogg"@[0]);
    assert("gif"@ != "ogg"@);
    assert("gif"@[0] != "oga"@[0]);
    assert("gif"@ != "oga"@);
    assert("gif"@[0] != "png"@[0]);
    assert("gif"@ != "png"@);
    assert("gif"@[0] != "jpg"@[0]);
    assert("gif"@ != "jpg"@);
    assert("gif"@.len() != "jpeg"@.len());
    assert("gif"@ != "jpeg"@);
    assert("gif"@.len() != "webp"@.len());
    assert("gif"@ != "webp"@);
    assert("gif"@[0] != "svg"@[0]);
    assert("gif"@ != "svg"@);
}

proof fn lemma_rule_ttf()
    ensures
        extension_rule("ttf"@) == Some((MediaSignature::TrueType, AssetKind::Font, "font/ttf"@)),
        "ttf"@ != "svg"@,
{
    reveal_strlit("ttf");
    reveal_strlit("svg");
    reveal_strlit("mp4");
    reveal_strlit("m4v");
    reveal_strlit("mov");
    reveal_strlit("m4a");
    reveal_strlit("avif");
    reveal_strlit("webm");
    reveal_strlit("mkv");
    reveal_strlit("avi");
    reveal_strlit("mp3");
    reveal_strlit("wav");
    reveal_strlit("aac");
    reveal_strlit("flac");
    reveal_strlit("ogg");
    reveal_strlit("oga");
    reveal_strlit("png");
    reveal_strlit("jpg");
    reveal_strlit("jpeg");
    reveal_strlit("webp");
    reveal_strlit("gif");
    reveal_strlit("svg");
    assert("ttf"@[0] != "mp4"@[0]);
    assert("ttf"@ != "mp4"@);
    assert("ttf"@[0] != "m4v"@[0]);
    assert("ttf"@ != "m4v"@);
    assert("ttf"@[0] != "mov"@[0]);
    assert("ttf"@ != "mov"@);
    assert("ttf"@[0] != "m4a"@[0]);
    assert("ttf"@ != "m4a"@);
    assert("ttf"@.len() != "avif"@.len());
    assert("ttf"@ != "avif"@);
    assert("ttf"@.len() != "webm"@.len());
    assert("ttf"@ != "webm"@);
    assert("ttf"@[0] != "mkv"@[0]);
    assert("ttf"@ != "mkv"@);
    assert("ttf"@[0] != "avi"@[0]);
    assert("ttf"@ != "avi"@);
    assert("ttf"@[0] != "mp3"@[0]);
    assert("ttf"@ != "mp3"@);
    assert("ttf"@[0] != "wav"@[0]);
    assert("ttf"@ != "wav"@);
    assert("ttf"@[0] != "aac"@[0]);
    assert("ttf"@ != "aac"@);
    assert("ttf"@.len() != "flac"@.len());
    assert("ttf"@ != "flac"@);
    assert("ttf"@[0] != "ogg"@[0]);
    assert("ttf"@ != "ogg"@);
    assert("ttf"@[0] != "oga"@[0]);
    assert("ttf"@ != "oga"@);
    assert("ttf"@[0] != "png"@[0]);
    assert("ttf"@ != "png"@);
    assert("ttf"@[0] != "jpg"@[0]);
    assert("ttf"@ != "jpg"@);
    assert("ttf"@.len() != "jpeg"@.len());
    assert("ttf"@ != "jpeg"@);
    assert("ttf"@.len() != "webp"@.len());
    assert("ttf"@ != "webp"@);
    assert("ttf"@[0] != "gif"@[0]);
    assert("ttf"@ != "gif"@);
    assert("ttf"@[0] != "svg"@[0]);
    assert("ttf"@ != "svg"@);
}

proof fn lemma_rule_otf()
    ensures
        extension_rule("otf"@) == Some((MediaSignature::OpenType, AssetKind::Font, "font/otf"@)),
        "otf"@ != "svg"@,
{
    reveal_strlit("otf");
    reveal_strlit("svg");
    reveal_strlit("mp4");
    reveal_strlit("m4v");
    reveal_strlit("mov");
    reveal_strlit("m4a");
    reveal_strlit("avif");
    reveal_strlit("webm");
    reveal_strlit("mkv");
    reveal_strlit("avi");
    reveal_strlit("mp3");
    reveal_strlit("wav");
    reveal_strlit("aac");
    reveal_strlit("flac");
    reveal_strlit("ogg");
    reveal_strlit("oga");
    reveal_strlit("png");
    reveal_strlit("jpg");
    reveal_strlit("jpeg");
    reveal_strlit("webp");
    reveal_strlit("gif");
    reveal_strlit("ttf");
    reveal_strlit("svg");
    assert("otf"@[0] != "mp4"@[0]);
    assert("otf"@ != "mp4"@);
    assert("otf"@[0] != "m4v"@[0]);
    assert("otf"@ != "m4v"@);
    assert("otf"@[0] != "mov"@[0]);
    assert("otf"@ != "mov"@);
    assert("otf"@[0] != "m4a"@[0]);
    assert("otf"@ != "m4a"@);
    assert("otf"@.len() != "avif"@.len());
    assert("otf"@ != "avif"@);
    assert("otf"@.len() != "webm"@.len());
    assert("otf"@ != "webm"@);
    assert("otf"@[0] != "mkv"@[0]);
    assert("otf"@ != "mkv"@);
    assert("otf"@[0] != "avi"@[0]);
    assert("otf"@ != "avi"@);
    assert("otf"@[0] != "mp3"@[0]);
    assert("otf"@ != "mp3"@);
    assert("otf"@[0] != "wav"@[0]);
    assert("otf"@ != "wav"@);
    assert("otf"@[0] != "aac"@[0]);
    assert("otf"@ != "aac"@);
    assert("otf"@.len() != "flac"@.len());
    assert("otf"@ != "flac"@);
    assert("otf"@[1] != "ogg"@[1]);
    assert("otf"@ != "ogg"@);
    assert("otf"@[1] != "oga"@[1]);
    assert("otf"@ != "oga"@);
    assert("otf"@[0] != "png"@[0]);
    assert("otf"@ != "png"@);
    assert("otf"@[0] != "jpg"@[0]);
    assert("otf"@ != "jpg"@);
    assert("otf"@.len() != "jpeg"@.len());
    assert("otf"@ != "jpeg"@);
    assert("otf"@.len() != "webp"@.len());
    assert("otf"@ != "webp"@);
    assert("otf"@[0] != "gif"@[0]);
    assert("otf"@ != "gif"@);
    assert("otf"@[0] != "ttf"@[0]);
    assert("otf"@ != "ttf"@);
    assert("otf"@[0] != "svg"@[0]);
    assert("otf"@ != "svg"@);
}

proof fn lemma_rule_woff()
    ensures
        extension_rule("woff"@) == Some((MediaSignature::Woff, AssetKind::Font, "font/woff"@)),
        "woff"@ != "svg"@,
{
    reveal_strlit("woff");
    reveal_strlit("svg");
    reveal_strlit("mp4");
    reveal_strlit("m4v");
    reveal_strlit("mov");
    reveal_strlit("m4a");
    reveal_strlit("avif");
    reveal_strlit("webm");
    reveal_strlit("mkv");
    reveal_strlit("avi");
    reveal_strlit("mp3");
    reveal_strlit("wav");
    reveal_strlit("aac");
    reveal_strlit("flac");
    reveal_strlit("ogg");
    reveal_strlit("oga");
    reveal_strlit("png");
    reveal_strlit("jpg");
    reveal_strlit("jpeg");
    reveal_strlit("webp");
    reveal_strlit("gif");
    reveal_strlit("ttf");
    reveal_strlit("otf");
    reveal_strlit("svg");
    assert("woff"@.len() != "mp4"@.len());
    assert("woff"@ != "mp4"@);
    assert("woff"@.len() != "m4v"@.len());
    assert("woff"@ != "m4v"@);
    assert("woff"@.len() != "mov"@.len());
    assert("woff"@ != "mov"@);
    assert("woff"@.len() != "m4a"@.len());
    assert("woff"@ != "m4a"@);
    assert("woff"@[0] != "avif"@[0]);
    assert("woff"@ != "avif"@);
    assert("woff"@[1] != "webm"@[1]);
    assert("woff"@ != "webm"@);
    assert("woff"@.len() != "mkv"@.len());
    assert("woff"@ != "mkv"@);
    assert("woff"@.len() != "avi"@.len());
    assert("woff"@ != "avi"@);
    assert("woff"@.len() != "mp3"@.len());
    assert("woff"@ != "mp3"@);
    assert("woff"@.len() != "wav"@.len());
    assert("woff"@ != "wav"@);
    assert("woff"@.len() != "aac"@.len());
    assert("woff"@ != "aac"@);
    assert("woff"@[0] != "flac"@[0]);
    assert("woff"@ != "flac"@);
    assert("woff"@.len() != "ogg"@.len());
    assert("woff"@ != "ogg"@);
    assert("woff"@.len() != "oga"@.len());
    assert("woff"@ != "oga"@);
    assert("woff"@.len() != "png"@.len());
    assert("woff"@ != "png"@);
    assert("woff"@.len() != "jpg"@.len());
    assert("woff"@ != "jpg"@);
    assert("woff"@[0] != "jpeg"@[0]);
    assert("woff"@ != "jpeg"@);
    assert("woff"@[1] != "webp"@[1]);
    assert("woff"@ != "webp"@);
    assert("woff"@.len() != "gif"@.len());
    assert("woff"@ != "gif"@);
    assert("woff"@.len() != "ttf"@.len());
    assert("woff"@ != "ttf"@);
    assert("woff"@.len() != "otf"@.len());
    assert("woff"@ != "otf"@);
    assert("woff"@.len() != "svg"@.len());
    assert("woff"@ != "svg"@);
}

proof fn lemma_rule_woff2()
    ensures
        extension_rule("woff2"@) == Some((MediaSignature::Woff2, AssetKind::Font, "font/woff2"@)),
        "woff2"@ != "svg"@,
{
    reveal_strlit("woff2");
    reveal_strlit("svg");
    reveal_strlit("mp4");
    reveal_strlit("m4v");
    reveal_strlit("mov");
    reveal_strlit("m4a");
    reveal_strlit("avif");
    reveal_strlit("webm");
    reveal_strlit("mkv");
    reveal_strlit("avi");
    reveal_strlit("mp3");
    reveal_strlit("wav");
    reveal_strlit("aac");
    reveal_strlit("flac");
    reveal_strlit("ogg");
    reveal_strlit("oga");
    reveal_strlit("png");
    reveal_strlit("jpg");
    reveal_strlit("jpeg");
    reveal_strlit("webp");
    reveal_strlit("gif");
    reveal_strlit("ttf");
    reveal_strlit("otf");
    reveal_strlit("woff");
    reveal_strlit("svg");
    assert("woff2"@.len() != "mp4"@.len());
    assert("woff2"@ != "mp4"@);
    assert("woff2"@.len() != "m4v"@.len());
    assert("woff2"@ != "m4v"@);
    assert("woff2"@.len() != "mov"@.len());
    assert("woff2"@ != "mov"@);
    assert("woff2"@.len() != "m4a"@.len());
    assert("woff2"@ != "m4a"@);
    assert("woff2"@.len() != "avif"@.len());
    assert("woff2"@ != "avif"@);
    assert("woff2"@.len() != "webm"@.len());
    assert("woff2"@ != "webm"@);
    assert("woff2"@.len() != "mkv"@.len());
    assert("woff2"@ != "mkv"@);
    assert("woff2"@.len() != "avi"@.len());
    assert("woff2"@ != "avi"@);
    assert("woff2"@.len() != "mp3"@.len());
    assert("woff2"@ != "mp3"@);
    assert("woff2"@.len() != "wav"@.len());
    assert("woff2"@ != "wav"@);
    assert("woff2"@.len() != "aac"@.len());
    assert("woff2"@ != "aac"@);
    assert("woff2"@.len() != "flac"@.len());
    assert("woff2"@ != "flac"@);
    assert("woff2"@.len() != "ogg"@.len());
    assert("woff2"@ != "ogg"@);
    assert("woff2"@.len() != "oga"@.len());
    assert("woff2"@ != "oga"@);
    assert("woff2"@.len() != "png"@.len());
    assert("woff2"@ != "png"@);
    assert("woff2"@.len() != "jpg"@.len());
    assert("woff2"@ != "jpg"@);
    assert("woff2"@.len() != "jpeg"@.len());
    assert("woff2"@ != "jpeg"@);
    assert("woff2"@.len() != "webp"@.len());
    assert("woff2"@ != "webp"@);
    assert("woff2"@.len() != "gif"@.len());
    assert("woff2"@ != "gif"@);
    assert("woff2"@.len() != "ttf"@.len());
    assert("woff2"@ != "ttf"@);
    assert("woff2"@.len() != "otf"@.len());
    assert("woff2"@ != "otf"@);
    assert("woff2"@.len() != "woff"@.len());
    assert("woff2"@ != "woff"@);
    assert("woff2"@.len() != "svg"@.len());
    assert("woff2"@ != "svg"@);
}

proof fn lemma_sniff_png(b: Seq<u8>)
    requires
        starts_with_spec(b, seq![0x89u8, 0x50, 0x4e, 0x47, 0x0d, 0x0a, 0x1a, 0x0a]),
    ensures
        sniff_spec(b) == MediaSignature::Png,
        b.len() > 0 && !ascii_ws_byte(b[0]) && lower_byte(b[0]) != 0x3cu8,
{
    lemma_byte_at(b, 0, seq![0x89u8, 0x50, 0x4e, 0x47, 0x0d, 0x0a, 0x1a, 0x0a], 0);
    lemma_byte_at(b, 0, seq![0x89u8, 0x50, 0x4e, 0x47, 0x0d, 0x0a, 0x1a, 0x0a], 1);
    lemma_byte_at(b, 0, seq![0x89u8, 0x50, 0x4e, 0x47, 0x0d, 0x0a, 0x1a, 0x0a], 2);
    lemma_byte_at(b, 0, seq![0x89u8, 0x50, 0x4e, 0x47, 0x0d, 0x0a, 0x1a, 0x0a], 3);
    lemma_byte_at(b, 0, seq![0x89u8, 0x50, 0x4e, 0x47, 0x0d, 0x0a, 0x1a, 0x0a], 4);
    lemma_byte_at(b, 0, seq![0x89u8, 0x50, 0x4e, 0x47, 0x0d, 0x0a, 0x1a, 0x0a], 5);
    lemma_byte_at(b, 0, seq![0x89u8, 0x50, 0x4e, 0x47, 0x0d, 0x0a, 0x1a, 0x0a], 6);
    lemma_byte_at(b, 0, seq![0x89u8, 0x50, 0x4e, 0x47, 0x0d, 0x0a, 0x1a, 0x0a], 7);
}

proof fn lemma_sniff_jpeg(b: Seq<u8>)
    requires
        starts_with_spec(b, seq![0xffu8, 0xd8, 0xff]),
    ensures
        sniff_spec(b) == MediaSignature::Jpeg,
        b.len() > 0 && !ascii_ws_byte(b[0]) && lower_byte(b[0]) != 0x3cu8,
{
    lemma_byte_at(b, 0, seq![0xffu8, 0xd8, 0xff], 0);
    lemma_byte_at(b, 0, seq![0xffu8, 0xd8, 0xff], 1);
    lemma_byte_at(b, 0, seq![0xffu8, 0xd8, 0xff], 2);
    lemma_not_at(b, 0, seq![0x89u8, 0x50, 0x4e, 0x47, 0x0d, 0x0a, 0x1a, 0x0a], 0, 0xffu8);
}

proof fn lemma_sniff_gif(b: Seq<u8>)
    requires
        starts_with_spec(b, seq![0x47u8, 0x49, 0x46, 0x38, 0x39, 0x61]),
    ensures
        sniff_spec(b) == MediaSignature::Gif,
        b.len() > 0 && !ascii_ws_byte(b[0]) && lower_byte(b[0]) != 0x3cu8,
{
    lemma_byte_at(b, 0, seq![0x47u8, 0x49, 0x46, 0x38, 0x39, 0x61], 0);
    lemma_byte_at(b, 0, seq![0x47u8, 0x49, 0x46, 0x38, 0x39, 0x61], 1);
    lemma_byte_at(b, 0, seq![0x47u8, 0x49, 0x46, 0x38, 0x39, 0x61], 2);
    lemma_byte_at(b, 0, seq![0x47u8, 0x49, 0x46, 0x38, 0x39, 0x61], 3);
    lemma_byte_at(b, 0, seq![0x47u8, 0x49, 0x46, 0x38, 0x39, 0x61], 4);
    lemma_byte_at(b, 0, seq![0x47u8, 0x49, 0x46, 0x38, 0x39, 0x61], 5);
    lemma_not_at(b, 0, seq![0x89u8, 0x50, 0x4e, 0x47, 0x0d, 0x0a, 0x1a, 0x0a], 0, 0x47u8);
    lemma_not_at(b, 0, seq![0xffu8, 0xd8, 0xff], 0, 0x47u8);
    lemma_not_at(b, 0, seq![0x47u8, 0x49, 0x46, 0x38, 0x37, 0x61], 4, 0x39u8);
}

proof fn lemma_sniff_webp(b: Seq<u8>)
    requires
        b.len() >= 12,
        starts_with_spec(b, seq![0x52u8, 0x49, 0x46, 0x46]),
        holds_at(b, 8, seq![0x57u8, 0x45, 0x42, 0x50]),
    ensures
        sniff_spec(b) == MediaSignature::Webp,
        b.len() > 0 && !ascii_ws_byte(b[0]) && lower_byte(b[0]) != 0x3cu8,
{
    lemma_byte_at(b, 0, seq![0x52u8, 0x49, 0x46, 0x46], 0);
    lemma_byte_at(b, 0, seq![0x52u8, 0x49, 0x46, 0x46], 1);
    lemma_byte_at(b, 0, seq![0x52u8, 0x49, 0x46, 0x46], 2);
    lemma_byte_at(b, 0, seq![0x52u8, 0x49, 0x46, 0x46], 3);
    lemma_byte_at(b, 8, seq![0x57u8, 0x45, 0x42, 0x50], 0);
    lemma_byte_at(b, 8, seq![0x57u8, 0x45, 0x42, 0x50], 1);
    lemma_byte_at(b, 8, seq![0x57u8, 0x45, 0x42, 0x50], 2);
    lemma_byte_at(b, 8, seq![0x57u8, 0x45, 0x42, 0x50], 3);
    lemma_not_at(b, 0, seq![0x89u8, 0x50, 0x4e, 0x47, 0x0d, 0x0a, 0x1a, 0x0a], 0, 0x52u8);
    lemma_not_at(b, 0, seq![0xffu8, 0xd8, 0xff], 0, 0x52u8);
    lemma_not_at(b, 0, seq![0x47u8, 0x49, 0x46, 0x38, 0x37, 0x61], 0, 0x52u8);
    lemma_not_at(b, 0, seq![0x47u8, 0x49, 0x46, 0x38, 0x39, 0x61], 0, 0x52u8);
}

proof fn lemma_sniff_wav(b: Seq<u8>)
    requires
        b.len() >= 12,
        starts_with_spec(b, seq![0x52u8, 0x49, 0x46, 0x46]),
        holds_at(b, 8, seq![0x57u8, 0x41, 0x56, 0x45]),
    ensures
        sniff_spec(b) == MediaSignature::Wav,
        b.len() > 0 && !ascii_ws_byte(b[0]) && lower_byte(b[0]) != 0x3cu8,
{
    lemma_byte_at(b, 0, seq![0x52u8, 0x49, 0x46, 0x46], 0);
    lemma_byte_at(b, 0, seq![0x52u8, 0x49, 0x46, 0x46], 1);
    lemma_byte_at(b, 0, seq![0x52u8, 0x49, 0x46, 0x46], 2);
    lemma_byte_at(b, 0, seq![0x52u8, 0x49, 0x46, 0x46], 3);
    lemma_byte_at(b, 8, seq![0x57u8, 0x41, 0x56, 0x45], 0);
    lemma_byte_at(b, 8, seq![0x57u8, 0x41, 0x56, 0x45], 1);
    lemma_byte_at(b, 8, seq![0x57u8, 0x41, 0x56, 0x45], 2);
    lemma_byte_at(b, 8, seq![0x57u8, 0x41, 0x56, 0x45], 3);
    lemma_not_at(b, 0, seq![0x89u8, 0x50, 0x4e, 0x47, 0x0d, 0x0a, 0x1a, 0x0a], 0, 0x52u8);
    lemma_not_at(b, 0, seq![0xffu8, 0xd8, 0xff], 0, 0x52u8);
    lemma_not_at(b, 0, seq![0x47u8, 0x49, 0x46, 0x38, 0x37, 0x61], 0, 0x52u8);
    lemma_not_at(b, 0, seq![0x47u8, 0x49, 0x46, 0x38, 0x39, 0x61], 0, 0x52u8);
    lemma_not_at(b, 8, seq![0x57u8, 0x45, 0x42, 0x50], 1, 0x41u8);
}

proof fn lemma_sniff_avi(b: Seq<u8>)
    requires
        b.len() >= 12,
        starts_with_spec(b, seq![0x52u8, 0x49, 0x46, 0x46]),
        holds_at(b, 8, seq![0x41u8, 0x56, 0x49, 0x20]),
    ensures
        sniff_spec(b) == MediaSignature::Avi,
        b.len() > 0 && !ascii_ws_byte(b[0]) && lower_byte(b[0]) != 0x3cu8,
{
    lemma_byte_at(b, 0, seq![0x52u8, 0x49, 0x46, 0x46], 0);
    lemma_byte_at(b, 0, seq![0x52u8, 0x49, 0x46, 0x46], 1);
    lemma_byte_at(b, 0, seq![0x52u8, 0x49, 0x46, 0x46], 2);
    lemma_byte_at(b, 0, seq![0x52u8, 0x49, 0x46, 0x46], 3);
    lemma_byte_at(b, 8, seq![0x41u8, 0x56, 0x49, 0x20], 0);
    lemma_byte_at(b, 8, seq![0x41u8, 0x56, 0x49, 0x20], 1);
    lemma_byte_at(b, 8, seq![0x41u8, 0x56, 0x49, 0x20], 2);
    lemma_byte_at(b, 8, seq![0x41u8, 0x56, 0x49, 0x20], 3);
    lemma_not_at(b, 0, seq![0x89u8, 0x50, 0x4e, 0x47, 0x0d, 0x0a, 0x1a, 0x0a], 0, 0x52u8);
    lemma_not_at(b, 0, seq![0xffu8, 0xd8, 0xff], 0, 0x52u8);
    lemma_not_at(b, 0, seq![0x47u8, 0x49, 0x46, 0x38, 0x37, 0x61], 0, 0x52u8);
    lemma_not_at(b, 0, seq![0x47u8, 0x49, 0x46, 0x38, 0x39, 0x61], 0, 0x52u8);
    lemma_not_at(b, 8, seq![0x57u8, 0x45, 0x42, 0x50], 0, 0x41u8);
    lemma_not_at(b, 8, seq![0x57u8, 0x41, 0x56, 0x45], 0, 0x41u8);
}

proof fn lemma_sniff_aac(b: Seq<u8>)
    requires
        starts_with_spec(b, seq![0xffu8, 0xf1]),
    ensures
        sniff_spec(b) == MediaSignature::Aac,
        b.len() > 0 && !ascii_ws_byte(b[0]) && lower_byte(b[0]) != 0x3cu8,
{
    lemma_byte_at(b, 0, seq![0xffu8, 0xf1], 0);
    lemma_byte_at(b, 0, seq![0xffu8, 0xf1], 1);
    lemma_not_at(b, 0, seq![0x89u8, 0x50, 0x4e, 0x47, 0x0d, 0x0a, 0x1a, 0x0a], 0, 0xffu8);
    lemma_not_at(b, 0, seq![0xffu8, 0xd8, 0xff], 1, 0xf1u8);
    lemma_not_at(b, 0, seq![0x47u8, 0x49, 0x46, 0x38, 0x37, 0x61], 0, 0xffu8);
    lemma_not_at(b, 0, seq![0x47u8, 0x49, 0x46, 0x38, 0x39, 0x61], 0, 0xffu8);
    lemma_not_at(b, 0, seq![0x52u8, 0x49, 0x46, 0x46], 0, 0xffu8);
    assert((0xf1u8 & 0xf6u8) == 0xf0u8) by (bit_vector);
}

proof fn lemma_sniff_mp3(b: Seq<u8>)
    requires
        starts_with_spec(b, seq![0x49u8, 0x44, 0x33]),
    ensures
        sniff_spec(b) == MediaSignature::Mp3,
        b.len() > 0 && !ascii_ws_byte(b[0]) && lower_byte(b[0]) != 0x3cu8,
{
    lemma_byte_at(b, 0, seq![0x49u8, 0x44, 0x33], 0);
    lemma_byte_at(b, 0, seq![0x49u8, 0x44, 0x33], 1);
    lemma_byte_at(b, 0, seq![0x49u8, 0x44, 0x33], 2);
    lemma_not_at(b, 0, seq![0x89u8, 0x50, 0x4e, 0x47, 0x0d, 0x0a, 0x1a, 0x0a], 0, 0x49u8);
    lemma_not_at(b, 0, seq![0xffu8, 0xd8, 0xff], 0, 0x49u8);
    lemma_not_at(b, 0, seq![0x47u8, 0x49, 0x46, 0x38, 0x37, 0x61], 0, 0x49u8);
    lemma_not_at(b, 0, seq![0x47u8, 0x49, 0x46, 0x38, 0x39, 0x61], 0, 0x49u8);
    lemma_not_at(b, 0, seq![0x52u8, 0x49, 0x46, 0x46], 0, 0x49u8);
}

proof fn lemma_sniff_flac(b: Seq<u8>)
    requires
        starts_with_spec(b, seq![0x66u8, 0x4c, 0x61, 0x43]),
    ensures
        sniff_spec(b) == MediaSignature::Flac,
        b.len() > 0 && !ascii_ws_byte(b[0]) && lower_byte(b[0]) != 0x3cu8,
{
    lemma_byte_at(b, 0, seq![0x66u8, 0x4c, 0x61, 0x43], 0);
    lemma_byte_at(b, 0, seq![0x66u8, 0x4c, 0x61, 0x43], 1);
    lemma_byte_at(b, 0, seq![0x66u8, 0x4c, 0x61, 0x43], 2);
    lemma_byte_at(b, 0, seq![0x66u8, 0x4c, 0x61, 0x43], 3);
    lemma_not_at(b, 0, seq![0x89u8, 0x50, 0x4e, 0x47, 0x0d, 0x0a, 0x1a, 0x0a], 0, 0x66u8);
    lemma_not_at(b, 0, seq![0xffu8, 0xd8, 0xff], 0, 0x66u8);
    lemma_not_at(b, 0, seq![0x47u8, 0x49, 0x46, 0x38, 0x37, 0x61], 0, 0x66u8);
    lemma_not_at(b, 0, seq![0x47u8, 0x49, 0x46, 0x38, 0x39, 0x61], 0, 0x66u8);
    lemma_not_at(b, 0, seq![0x52u8, 0x49, 0x46, 0x46], 0, 0x66u8);
    lemma_not_at(b, 0, seq![0x49u8, 0x44, 0x33], 0, 0x66u8);
}

proof fn lemma_sniff_ogg(b: Seq<u8>)
    requires
        starts_with_spec(b, seq![0x4fu8, 0x67, 0x67, 0x53]),
    ensures
        sniff_spec(b) == MediaSignature::Ogg,
        b.len() > 0 && !ascii_ws_byte(b[0]) && lower_byte(b[0]) != 0x3cu8,
{
    lemma_byte_at(b, 0, seq![0x4fu8, 0x67, 0x67, 0x53], 0);
    lemma_byte_at(b, 0, seq![0x4fu8, 0x67, 0x67, 0x53], 1);
    lemma_byte_at(b, 0, seq![0x4fu8, 0x67, 0x67, 0x53], 2);
    lemma_byte_at(b, 0, seq![0x4fu8, 0x67, 0x67, 0x53], 3);
    lemma_not_at(b, 0, seq![0x89u8, 0x50, 0x4e, 0x47, 0x0d, 0x0a, 0x1a, 0x0a], 0, 0x4fu8);
    lemma_not_at(b, 0, seq![0xffu8, 0xd8, 0xff], 0, 0x4fu8);
    lemma_not_at(b, 0, seq![0x47u8, 0x49, 0x46, 0x38, 0x37, 0x61], 0, 0x4fu8);
    lemma_not_at(b, 0, seq![0x47u8, 0x49, 0x46, 0x38, 0x39, 0x61], 0, 0x4fu8);
    lemma_not_at(b, 0, seq![0x52u8, 0x49, 0x46, 0x46], 0, 0x4fu8);
    lemma_not_at(b, 0, seq![0x49u8, 0x44, 0x33], 0, 0x4fu8);
    lemma_not_at(b, 0, seq![0x66u8, 0x4c, 0x61, 0x43], 0, 0x4fu8);
}

proof fn lemma_sniff_ebml(b: Seq<u8>)
    requires
        starts_with_spec(b, seq![0x1au8, 0x45, 0xdf, 0xa3]),
    ensures
        sniff_spec(b) == MediaSignature::Ebml,
        b.len() > 0 && !ascii_ws_byte(b[0]) && lower_byte(b[0]) != 0x3cu8,
{
    lemma_byte_at(b, 0, seq![0x1au8, 0x45, 0xdf, 0xa3], 0);
    lemma_byte_at(b, 0, seq![0x1au8, 0x45, 0xdf, 0xa3], 1);
    lemma_byte_at(b, 0, seq![0x1au8, 0x45, 0xdf, 0xa3], 2);
    lemma_byte_at(b, 0, seq![0x1au8, 0x45, 0xdf, 0xa3], 3);
    lemma_not_at(b, 0, seq![0x89u8, 0x50, 0x4e, 0x47, 0x0d, 0x0a, 0x1a, 0x0a], 0, 0x1au8);
    lemma_not_at(b, 0, seq![0xffu8, 0xd8, 0xff], 0, 0x1au8);
    lemma_not_at(b, 0, seq![0x47u8, 0x49, 0x46, 0x38, 0x37, 0x61], 0, 0x1au8);
    lemma_not_at(b, 0, seq![0x47u8, 0x49, 0x46, 0x38, 0x39, 0x61], 0, 0x1au8);
    lemma_not_at(b, 0, seq![0x52u8, 0x49, 0x46, 0x46], 0, 0x1au8);
    lemma_not_at(b, 0, seq![0x49u8, 0x44, 0x33], 0, 0x1au8);
    lemma_not_at(b, 0, seq![0x66u8, 0x4c, 0x61, 0x43], 0, 0x1au8);
    lemma_not_at(b, 0, seq![0x4fu8, 0x67, 0x67, 0x53], 0, 0x1au8);
}

proof fn lemma_sniff_isobmff(b: Seq<u8>)
    requires
        b.len() >= 12,
        holds_at(b, 4, seq![0x66u8, 0x74, 0x79, 0x70]),
        holds_at(b, 8, seq![0x69u8, 0x73, 0x6f, 0x6d]),
        b.len() > 0 && b[0] == 0x00u8,
    ensures
        sniff_spec(b) == MediaSignature::IsoBmff,
        b.len() > 0 && !ascii_ws_byte(b[0]) && lower_byte(b[0]) != 0x3cu8,
{
    lemma_byte_at(b, 4, seq![0x66u8, 0x74, 0x79, 0x70], 0);
    lemma_byte_at(b, 4, seq![0x66u8, 0x74, 0x79, 0x70], 1);
    lemma_byte_at(b, 4, seq![0x66u8, 0x74, 0x79, 0x70], 2);
    lemma_byte_at(b, 4, seq![0x66u8, 0x74, 0x79, 0x70], 3);
    lemma_byte_at(b, 8, seq![0x69u8, 0x73, 0x6f, 0x6d], 0);
    lemma_byte_at(b, 8, seq![0x69u8, 0x73, 0x6f, 0x6d], 1);
    lemma_byte_at(b, 8, seq![0x69u8, 0x73, 0x6f, 0x6d], 2);
    lemma_byte_at(b, 8, seq![0x69u8, 0x73, 0x6f, 0x6d], 3);
    lemma_not_at(b, 0, seq![0x89u8, 0x50, 0x4e, 0x47, 0x0d, 0x0a, 0x1a, 0x0a], 0, 0x00u8);
    lemma_not_at(b, 0, seq![0xffu8, 0xd8, 0xff], 0, 0x00u8);
    lemma_not_at(b, 0, seq![0x47u8, 0x49, 0x46, 0x38, 0x37, 0x61], 0, 0x00u8);
    lemma_not_at(b, 0, seq![0x47u8, 0x49, 0x46, 0x38, 0x39, 0x61], 0, 0x00u8);
    lemma_not_at(b, 0, seq![0x52u8, 0x49, 0x46, 0x46], 0, 0x00u8);
    lemma_not_at(b, 0, seq![0x49u8, 0x44, 0x33], 0, 0x00u8);
    lemma_not_at(b, 0, seq![0x66u8, 0x4c, 0x61, 0x43], 0, 0x00u8);
    lemma_not_at(b, 0, seq![0x4fu8, 0x67, 0x67, 0x53], 0, 0x00u8);
    lemma_not_at(b, 0, seq![0x1au8, 0x45, 0xdf, 0xa3], 0, 0x00u8);
    lemma_not_at(b, 8, seq![0x61u8, 0x76, 0x69, 0x66], 0, 0x69u8);
    lemma_not_at(b, 8, seq![0x61u8, 0x76, 0x69, 0x73], 0, 0x69u8);
}

proof fn lemma_sniff_avif(b: Seq<u8>)
    requires
        b.len() >= 12,
        holds_at(b, 4, seq![0x66u8, 0x74, 0x79, 0x70]),
        holds_at(b, 8, seq![0x61u8, 0x76, 0x69, 0x66]),
        b.len() > 0 && b[0] == 0x00u8,
    ensures
        sniff_spec(b) == MediaSignature::Avif,
        b.len() > 0 && !ascii_ws_byte(b[0]) && lower_byte(b[0]) != 0x3cu8,
{
    lemma_byte_at(b, 4, seq![0x66u8, 0x74, 0x79, 0x70], 0);
    lemma_byte_at(b, 4, seq![0x66u8, 0x74, 0x79, 0x70], 1);
    lemma_byte_at(b, 4, seq![0x66u8, 0x74, 0x79, 0x70], 2);
    lemma_byte_at(b, 4, seq![0x66u8, 0x74, 0x79, 0x70], 3);
    lemma_byte_at(b, 8, seq![0x61u8, 0x76, 0x69, 0x66], 0);
    lemma_byte_at(b, 8, seq![0x61u8, 0x76, 0x69, 0x66], 1);
    lemma_byte_at(b, 8, seq![0x61u8, 0x76, 0x69, 0x66], 2);
    lemma_byte_at(b, 8, seq![0x61u8, 0x76, 0x69, 0x66], 3);
    lemma_not_at(b, 0, seq![0x89u8, 0x50, 0x4e, 0x47, 0x0d, 0x0a, 0x1a, 0x0a], 0, 0x00u8);
    lemma_not_at(b, 0, seq![0xffu8, 0xd8, 0xff], 0, 0x00u8);
    lemma_not_at(b, 0, seq![0x47u8, 0x49, 0x46, 0x38, 0x37, 0x61], 0, 0x00u8);
    lemma_not_at(b, 0, seq![0x47u8, 0x49, 0x46, 0x38, 0x39, 0x61], 0, 0x00u8);
    lemma_not_at(b, 0, seq![0x52u8, 0x49, 0x46, 0x46], 0, 0x00u8);
    lemma_not_at(b, 0, seq![0x49u8, 0x44, 0x33], 0, 0x00u8);
    lemma_not_at(b, 0, seq![0x66u8, 0x4c, 0x61, 0x43], 0, 0x00u8);
    lemma_not_at(b, 0, seq![0x4fu8, 0x67, 0x67, 0x53], 0, 0x00u8);
    lemma_not_at(b, 0, seq![0x1au8, 0x45, 0xdf, 0xa3], 0, 0x00u8);
}

proof fn lemma_sniff_ttf(b: Seq<u8>)
    requires
        starts_with_spec(b, seq![0x00u8, 0x01, 0x00, 0x00]),
        b.len() > 4 && b[4] == 0x00u8,
    ensures
        sniff_spec(b) == MediaSignature::TrueType,
        b.len() > 0 && !ascii_ws_byte(b[0]) && lower_byte(b[0]) != 0x3cu8,
{
    lemma_byte_at(b, 0, seq![0x00u8, 0x01, 0x00, 0x00], 0);
    lemma_byte_at(b, 0, seq![0x00u8, 0x01, 0x00, 0x00], 1);
    lemma_byte_at(b, 0, seq![0x00u8, 0x01, 0x00, 0x00], 2);
    lemma_byte_at(b, 0, seq![0x00u8, 0x01, 0x00, 0x00], 3);
    lemma_not_at(b, 0, seq![0x89u8, 0x50, 0x4e, 0x47, 0x0d, 0x0a, 0x1a, 0x0a], 0, 0x00u8);
    lemma_not_at(b, 0, seq![0xffu8, 0xd8, 0xff], 0, 0x00u8);
    lemma_not_at(b, 0, seq![0x47u8, 0x49, 0x46, 0x38, 0x37, 0x61], 0, 0x00u8);
    lemma_not_at(b, 0, seq![0x47u8, 0x49, 0x46, 0x38, 0x39, 0x61], 0, 0x00u8);
    lemma_not_at(b, 0, seq![0x52u8, 0x49, 0x46, 0x46], 0, 0x00u8);
    lemma_not_at(b, 0, seq![0x49u8, 0x44, 0x33], 0, 0x00u8);
    lemma_not_at(b, 0, seq![0x66u8, 0x4c, 0x61, 0x43], 0, 0x00u8);
    lemma_not_at(b, 0, seq![0x4fu8, 0x67, 0x67, 0x53], 0, 0x00u8);
    lemma_not_at(b, 0, seq![0x1au8, 0x45, 0xdf, 0xa3], 0, 0x00u8);
    lemma_not_at(b, 4, seq![0x66u8, 0x74, 0x79, 0x70], 0, 0x00u8);
}

proof fn lemma_sniff_otf(b: Seq<u8>)
    requires
        starts_with_spec(b, seq![0x4fu8, 0x54, 0x54, 0x4f]),
        b.len() > 4 && b[4] == 0x00u8,
    ensures
        sniff_spec(b) == MediaSignature::OpenType,
        b.len() > 0 && !ascii_ws_byte(b[0]) && lower_byte(b[0]) != 0x3cu8,
{
    lemma_byte_at(b, 0, seq![0x4fu8, 0x54, 0x54, 0x4f], 0);
    lemma_byte_at(b, 0, seq![0x4fu8, 0x54, 0x54, 0x4f], 1);
    lemma_byte_at(b, 0, seq![0x4fu8, 0x54, 0x54, 0x4f], 2);
    lemma_byte_at(b, 0, seq![0x4fu8, 0x54, 0x54, 0x4f], 3);
    lemma_not_at(b, 0, seq![0x89u8, 0x50, 0x4e, 0x47, 0x0d, 0x0a, 0x1a, 0x0a], 0, 0x4fu8);
    lemma_not_at(b, 0, seq![0xffu8, 0xd8, 0xff], 0, 0x4fu8);
    lemma_not_at(b, 0, seq![0x47u8, 0x49, 0x46, 0x38, 0x37, 0x61], 0, 0x4fu8);
    lemma_not_at(b, 0, seq![0x47u8, 0x49, 0x46, 0x38, 0x39, 0x61], 0, 0x4fu8);
    lemma_not_at(b, 0, seq![0x52u8, 0x49, 0x46, 0x46], 0, 0x4fu8);
    lemma_not_at(b, 0, seq![0x49u8, 0x44, 0x33], 0, 0x4fu8);
    lemma_not_at(b, 0, seq![0x66u8, 0x4c, 0x61, 0x43], 0, 0x4fu8);
    lemma_not_at(b, 0, seq![0x4fu8, 0x67, 0x67, 0x53], 1, 0x54u8);
    lemma_not_at(b, 0, seq![0x1au8, 0x45, 0xdf, 0xa3], 0, 0x4fu8);
    lemma_not_at(b, 4, seq![0x66u8, 0x74, 0x79, 0x70], 0, 0x00u8);
    lemma_not_at(b, 0, seq![0x00u8, 0x01, 0x00, 0x00], 0, 0x4fu8);
    lemma_not_at(b, 0, seq![0x74u8, 0x72, 0x75, 0x65], 0, 0x4fu8);
    lemma_not_at(b, 0, seq![0x74u8, 0x79, 0x70, 0x31], 0, 0x4fu8);
}

proof fn lemma_sniff_woff(b: Seq<u8>)
    requires
        starts_with_spec(b, seq![0x77u8, 0x4f, 0x46, 0x46]),
        b.len() > 4 && b[4] == 0x00u8,
    ensures
        sniff_spec(b) == MediaSignature::Woff,
        b.len() > 0 && !ascii_ws_byte(b[0]) && lower_byte(b[0]) != 0x3cu8,
{
    lemma_byte_at(b, 0, seq![0x77u8, 0x4f, 0x46, 0x46], 0);
    lemma_byte_at(b, 0, seq![0x77u8, 0x4f, 0x46, 0x46], 1);
    lemma_byte_at(b, 0, seq![0x77u8, 0x4f, 0x46, 0x46], 2);
    lemma_byte_at(b, 0, seq![0x77u8, 0x4f, 0x46, 0x46], 3);
    lemma_not_at(b, 0, seq![0x89u8, 0x50, 0x4e, 0x47, 0x0d, 0x0a, 0x1a, 0x0a], 0, 0x77u8);
    lemma_not_at(b, 0, seq![0xffu8, 0xd8, 0xff], 0, 0x77u8);
    lemma_not_at(b, 0, seq![0x47u8, 0x49, 0x46, 0x38, 0x37, 0x61], 0, 0x77u8);
    lemma_not_at(b, 0, seq![0x47u8, 0x49, 0x46, 0x38, 0x39, 0x61], 0, 0x77u8);
    lemma_not_at(b, 0, seq![0x52u8, 0x49, 0x46, 0x46], 0, 0x77u8);
    lemma_not_at(b, 0, seq![0x49u8, 0x44, 0x33], 0, 0x77u8);
    lemma_not_at(b, 0, seq![0x66u8, 0x4c, 0x61, 0x43], 0, 0x77u8);
    lemma_not_at(b, 0, seq![0x4fu8, 0x67, 0x67, 0x53], 0, 0x77u8);
    lemma_not_at(b, 0, seq![0x1au8, 0x45, 0xdf, 0xa3], 0, 0x77u8);
    lemma_not_at(b, 4, seq![0x66u8, 0x74, 0x79, 0x70], 0, 0x00u8);
    lemma_not_at(b, 0, seq![0x00u8, 0x01, 0x00, 0x00], 0, 0x77u8);
    lemma_not_at(b, 0, seq![0x74u8, 0x72, 0x75, 0x65], 0, 0x77u8);
    lemma_not_at(b, 0, seq![0x74u8, 0x79, 0x70, 0x31], 0, 0x77u8);
    lemma_not_at(b, 0, seq![0x4fu8, 0x54, 0x54, 0x4f], 0, 0x77u8);
}

proof fn lemma_sniff_woff2(b: Seq<u8>)
    requires
        starts_with_spec(b, seq![0x77u8, 0x4f, 0x46, 0x32]),
        b.len() > 4 && b[4] == 0x00u8,
    ensures
        sniff_spec(b) == MediaSignature::Woff2,
        b.len() > 0 && !ascii_ws_byte(b[0]) && lower_byte(b[0]) != 0x3cu8,
{
    lemma_byte_at(b, 0, seq![0x77u8, 0x4f, 0x46, 0x32], 0);
    lemma_byte_at(b, 0, seq![0x77u8, 0x4f, 0x46, 0x32], 1);
    lemma_byte_at(b, 0, seq![0x77u8, 0x4f, 0x46, 0x32], 2);
    lemma_byte_at(b, 0, seq![0x77u8, 0x4f, 0x46, 0x32], 3);
    lemma_not_at(b, 0, seq![0x89u8, 0x50, 0x4e, 0x47, 0x0d, 0x0a, 0x1a, 0x0a], 0, 0x77u8);
    lemma_not_at(b, 0, seq![0xffu8, 0xd8, 0xff], 0, 0x77u8);
    lemma_not_at(b, 0, seq![0x47u8, 0x49, 0x46, 0x38, 0x37, 0x61], 0, 0x77u8);
    lemma_not_at(b, 0, seq![0x47u8, 0x49, 0x46, 0x38, 0x39, 0x61], 0, 0x77u8);
    lemma_not_at(b, 0, seq![0x52u8, 0x49, 0x46, 0x46], 0, 0x77u8);
    lemma_not_at(b, 0, seq![0x49u8, 0x44, 0x33], 0, 0x77u8);
    lemma_not_at(b, 0, seq![0x66u8, 0x4c, 0x61, 0x43], 0, 0x77u8);
    lemma_not_at(b, 0, seq![0x4fu8, 0x67, 0x67, 0x53], 0, 0x77u8);
    lemma_not_at(b, 0, seq![0x1au8, 0x45, 0xdf, 0xa3], 0, 0x77u8);
    lemma_not_at(b, 4, seq![0x66u8, 0x74, 0x79, 0x70], 0, 0x00u8);
    lemma_not_at(b, 0, seq![0x00u8, 0x01, 0x00, 0x00], 0, 0x77u8);
    lemma_not_at(b, 0, seq![0x74u8, 0x72, 0x75, 0x65], 0, 0x77u8);
    lemma_not_at(b, 0, seq![0x74u8, 0x79, 0x70, 0x31], 0, 0x77u8);
    lemma_not_at(b, 0, seq![0x4fu8, 0x54, 0x54, 0x4f], 0, 0x77u8);
    lemma_not_at(b, 0, seq![0x77u8, 0x4f, 0x46, 0x46], 3, 0x32u8);
}

/// A file named for a known format whose leading bytes carry that format's
/// own signature is accepted, as the format's kind and MIME type: PNG,
/// JPEG, GIF (89a), WebP, WAVE and AVI in RIFF, ADTS AAC, MP3 with an ID3
/// tag, FLAC, Ogg, WebM and Matroska (EBML), MP4, M4V, QuickTime and M4A
/// (an ISO `ftyp` box of brand `isom`), AVIF, TrueType, OpenType, WOFF and
/// WOFF2.
pub proof fn lemma_files_of_their_own_format_are_accepted(path: Seq<char>, prefix: Seq<u8>)
    ensures
        (lower_extension(path) == Some("png"@) && starts_with_spec(prefix, seq![0x89u8, 0x50, 0x4e, 0x47, 0x0d, 0x0a, 0x1a, 0x0a])) ==> classify_spec(path, prefix) == Classified::Media(AssetKind::Image, Some("image/png"@)),
        (lower_extension(path) == Some("jpg"@) && starts_with_spec(prefix, seq![0xffu8, 0xd8, 0xff])) ==> classify_spec(path, prefix) == Classified::Media(AssetKind::Image, Some("image/jpeg"@)),
        (lower_extension(path) == Some("jpeg"@) && starts_with_spec(prefix, seq![0xffu8, 0xd8, 0xff])) ==> classify_spec(path, prefix) == Classified::Media(AssetKind::Image, Some("image/jpeg"@)),
        (lower_extension(path) == Some("gif"@) && starts_with_spec(prefix, seq![0x47u8, 0x49, 0x46, 0x38, 0x39, 0x61])) ==> classify_spec(path, prefix) == Classified::Media(AssetKind::Image, Some("image/gif"@)),
        (lower_extension(path) == Some("webp"@) && prefix.len() >= 12 && starts_with_spec(prefix, seq![0x52u8, 0x49, 0x46, 0x46]) && holds_at(prefix, 8, seq![0x57u8, 0x45, 0x42, 0x50])) ==> classify_spec(path, prefix) == Classified::Media(AssetKind::Image, Some("image/webp"@)),
        (lower_extension(path) == Some("wav"@) && prefix.len() >= 12 && starts_with_spec(prefix, seq![0x52u8, 0x49, 0x46, 0x46]) && holds_at(prefix, 8, seq![0x57u8, 0x41, 0x56, 0x45])) ==> classify_spec(path, prefix) == Classified::Media(AssetKind::Audio, Some("audio/wav"@)),
        (lower_extension(path) == Some("avi"@) && prefix.len() >= 12 && starts_with_spec(prefix, seq![0x52u8, 0x49, 0x46, 0x46]) && holds_at(prefix, 8, seq![0x41u8, 0x56, 0x49, 0x20])) ==> classify_spec(path, prefix) == Classified::Media(AssetKind::Video, Some("video/x-msvideo"@)),
        (lower_extension(path) == Some("aac"@) && starts_with_spec(prefix, seq![0xffu8, 0xf1])) ==> classify_spec(path, prefix) == Classified::Media(AssetKind::Audio, Some("audio/aac"@)),
        (lower_extension(path) == Some("mp3"@) && starts_with_spec(prefix, seq![0x49u8, 0x44, 0x33])) ==> classify_spec(path, prefix) == Classified::Media(AssetKind::Audio, Some("audio/mpeg"@)),
        (lower_extension(path) == Some("flac"@) && starts_with_spec(prefix, seq![0x66u8, 0x4c, 0x61, 0x43])) ==> classify_spec(path, prefix) == Classified::Media(AssetKind::Audio, Some("audio/flac"@)),
        (lower_extension(path) == Some("ogg"@) && starts_with_spec(prefix, seq![0x4fu8, 0x67, 0x67, 0x53])) ==> classify_spec(path, prefix) == Classified::Media(AssetKind::Audio, Some("audio/ogg"@)),
        (lower_extension(path) == Some("oga"@) && starts_with_spec(prefix, seq![0x4fu8, 0x67, 0x67, 0x53])) ==> classify_spec(path, prefix) == Classified::Media(AssetKind::Audio, Some("audio/ogg"@)),
        (lower_extension(path) == Some("webm"@) && starts_with_spec(prefix, seq![0x1au8, 0x45, 0xdf, 0xa3])) ==> classify_spec(path, prefix) == Classified::Media(AssetKind::Video, Some("video/webm"@)),
        (lower_extension(path) == Some("mkv"@) && starts_with_spec(prefix, seq![0x1au8, 0x45, 0xdf, 0xa3])) ==> classify_spec(path, prefix) == Classified::Media(AssetKind::Video, Some("video/x-matroska"@)),
        (lower_extension(path) == Some("mp4"@) && prefix.len() >= 12 && holds_at(prefix, 4, seq![0x66u8, 0x74, 0x79, 0x70]) && holds_at(prefix, 8, seq![0x69u8, 0x73, 0x6f, 0x6d]) && prefix.len() > 0 && prefix[0] == 0x00u8) ==> classify_spec(path, prefix) == Classified::Media(AssetKind::Video, Some("video/mp4"@)),
        (lower_extension(path) == Some("m4v"@) && prefix.len() >= 12 && holds_at(prefix, 4, seq![0x66u8, 0x74, 0x79, 0x70]) && holds_at(prefix, 8, seq![0x69u8, 0x73, 0x6f, 0x6d]) && prefix.len() > 0 && prefix[0] == 0x00u8) ==> classify_spec(path, prefix) == Classified::Media(AssetKind::Video, Some("video/mp4"@)),
        (lower_extension(path) == Some("mov"@) && prefix.len() >= 12 && holds_at(prefix, 4, seq![0x66u8, 0x74, 0x79, 0x70]) && holds_at(prefix, 8, seq![0x69u8, 0x73, 0x6f, 0x6d]) && prefix.len() > 0 && prefix[0] == 0x00u8) ==> classify_spec(path, prefix) == Classified::Media(AssetKind::Video, Some("video/quicktime"@)),
        (lower_extension(path) == Some("m4a"@) && prefix.len() >= 12 && holds_at(prefix, 4, seq![0x66u8, 0x74, 0x79, 0x70]) && holds_at(prefix, 8, seq![0x69u8, 0x73, 0x6f, 0x6d]) && prefix.len() > 0 && prefix[0] == 0x00u8) ==> classify_spec(path, prefix) == Classified::Media(AssetKind::Audio, Some("audio/mp4"@)),
        (lower_extension(path) == Some("avif"@) && prefix.len() >= 12 && holds_at(prefix, 4, seq![0x66u8, 0x74, 0x79, 0x70]) && holds_at(prefix, 8, seq![0x61u8, 0x76, 0x69, 0x66]) && prefix.len() > 0 && prefix[0] == 0x00u8) ==> classify_spec(path, prefix) == Classified::Media(AssetKind::Image, Some("image/avif"@)),
        (lower_extension(path) == Some("ttf"@) && starts_with_spec(prefix, seq![0x00u8, 0x01, 0x00, 0x00]) && prefix.len() > 4 && prefix[4] == 0x00u8) ==> classify_spec(path, prefix) == Classified::Media(AssetKind::Font, Some("font/ttf"@)),
        (lower_extension(path) == Some("otf"@) && starts_with_spec(prefix, seq![0x4fu8, 0x54, 0x54, 0x4f]) && prefix.len() > 4 && prefix[4] == 0x00u8) ==> classify_spec(path, prefix) == Classified::Media(AssetKind::Font, Some("font/otf"@)),
        (lower_extension(path) == Some("woff"@) && starts_with_spec(prefix, seq![0x77u8, 0x4f, 0x46, 0x46]) && prefix.len() > 4 && prefix[4] == 0x00u8) ==> classify_spec(path, prefix) == Classified::Media(AssetKind::Font, Some("font/woff"@)),
        (lower_extension(path) == Some("woff2"@) && starts_with_spec(prefix, seq![0x77u8, 0x4f, 0x46, 0x32]) && prefix.len() > 4 && prefix[4] == 0x00u8) ==> classify_spec(path, prefix) == Classified::Media(AssetKind::Font, Some("font/woff2"@)),
{
    if lower_extension(path) == Some("png"@) && starts_with_spec(prefix, seq![0x89u8, 0x50, 0x4e, 0x47, 0x0d, 0x0a, 0x1a, 0x0a]) {
        lemma_sniff_png(prefix);
        lemma_rule_png();
        lemma_not_markup(prefix);
    }
    if lower_extension(path) == Some("jpg"@) && starts_with_spec(prefix, seq![0xffu8, 0xd8, 0xff]) {
        lemma_sniff_jpeg(prefix);
        lemma_rule_jpg();
        lemma_not_markup(prefix);
    }
    if lower_extension(path) == Some("jpeg"@) && starts_with_spec(prefix, seq![0xffu8, 0xd8, 0xff]) {
        lemma_sniff_jpeg(prefix);
        lemma_rule_jpeg();
        lemma_not_markup(prefix);
    }
    if lower_extension(path) == Some("gif"@) && starts_with_spec(prefix, seq![0x47u8, 0x49, 0x46, 0x38, 0x39, 0x61]) {
        lemma_sniff_gif(prefix);
        lemma_rule_gif();
        lemma_not_markup(prefix);
    }
    if lower_extension(path) == Some("webp"@) && prefix.len() >= 12 && starts_with_spec(prefix, seq![0x52u8, 0x49, 0x46, 0x46]) && holds_at(prefix, 8, seq![0x57u8, 0x45, 0x42, 0x50]) {
        lemma_sniff_webp(prefix);
        lemma_rule_webp();
        lemma_not_markup(prefix);
    }
    if lower_extension(path) == Some("wav"@) && prefix.len() >= 12 && starts_with_spec(prefix, seq![0x52u8, 0x49, 0x46, 0x46]) && holds_at(prefix, 8, seq![0x57u8, 0x41, 0x56, 0x45]) {
        lemma_sniff_wav(prefix);
        lemma_rule_wav();
        lemma_not_markup(prefix);
    }
    if lower_extension(path) == Some("avi"@) && prefix.len() >= 12 && starts_with_spec(prefix, seq![0x52u8, 0x49, 0x46, 0x46]) && holds_at(prefix, 8, seq![0x41u8, 0x56, 0x49, 0x20]) {
        lemma_sniff_avi(prefix);
        lemma_rule_avi();
        lemma_not_markup(prefix);
    }
    if lower_extension(path) == Some("aac"@) && starts_with_spec(prefix, seq![0xffu8, 0xf1]) {
        lemma_sniff_aac(prefix);
        lemma_rule_aac();
        lemma_not_markup(prefix);
    }
    if lower_extension(path) == Some("mp3"@) && starts_with_spec(prefix, seq![0x49u8, 0x44, 0x33]) {
        lemma_sniff_mp3(prefix);
        lemma_rule_mp3();
        lemma_not_markup(prefix);
    }
    if lower_extension(path) == Some("flac"@) && starts_with_spec(prefix, seq![0x66u8, 0x4c, 0x61, 0x43]) {
        lemma_sniff_flac(prefix);
        lemma_rule_flac();
        lemma_not_markup(prefix);
    }
    if lower_extension(path) == Some("ogg"@) && starts_with_spec(prefix, seq![0x4fu8, 0x67, 0x67, 0x53]) {
        lemma_sniff_ogg(prefix);
        lemma_rule_ogg();
        lemma_not_markup(prefix);
    }
    if lower_extension(path) == Some("oga"@) && starts_with_spec(prefix, seq![0x4fu8, 0x67, 0x67, 0x53]) {
        lemma_sniff_ogg(prefix);
        lemma_rule_oga();
        lemma_not_markup(prefix);
    }
    if lower_extension(path) == Some("webm"@) && starts_with_spec(prefix, seq![0x1au8, 0x45, 0xdf, 0xa3]) {
        lemma_sniff_ebml(prefix);
        lemma_rule_webm();
        lemma_not_markup(prefix);
    }
    if lower_extension(path) == Some("mkv"@) && starts_with_spec(prefix, seq![0x1au8, 0x45, 0xdf, 0xa3]) {
        lemma_sniff_ebml(prefix);
        lemma_rule_mkv();
        lemma_not_markup(prefix);
    }
    if lower_extension(path) == Some("mp4"@) && prefix.len() >= 12 && holds_at(prefix, 4, seq![0x66u8, 0x74, 0x79, 0x70]) && holds_at(prefix, 8, seq![0x69u8, 0x73, 0x6f, 0x6d]) && prefix.len() > 0 && prefix[0] == 0x00u8 {
        lemma_sniff_isobmff(prefix);
        lemma_rule_mp4();
        lemma_not_markup(prefix);
    }
    if lower_extension(path) == Some("m4v"@) && prefix.len() >= 12 && holds_at(prefix, 4, seq![0x66u8, 0x74, 0x79, 0x70]) && holds_at(prefix, 8, seq![0x69u8, 0x73, 0x6f, 0x6d]) && prefix.len() > 0 && prefix[0] == 0x00u8 {
        lemma_sniff_isobmff(prefix);
        lemma_rule_m4v();
        lemma_not_markup(prefix);
    }
    if lower_extension(path) == Some("mov"@) && prefix.len() >= 12 && holds_at(prefix, 4, seq![0x66u8, 0x74, 0x79, 0x70]) && holds_at(prefix, 8, seq![0x69u8, 0x73, 0x6f, 0x6d]) && prefix.len() > 0 && prefix[0] == 0x00u8 {
        lemma_sniff_isobmff(prefix);
        lemma_rule_mov();
        lemma_not_markup(prefix);
    }
    if lower_extension(path) == Some("m4a"@) && prefix.len() >= 12 && holds_at(prefix, 4, seq![0x66u8, 0x74, 0x79, 0x70]) && holds_at(prefix, 8, seq![0x69u8, 0x73, 0x6f, 0x6d]) && prefix.len() > 0 && prefix[0] == 0x00u8 {
        lemma_sniff_isobmff(prefix);
        lemma_rule_m4a();
        lemma_not_markup(prefix);
    }
    if lower_extension(path) == Some("avif"@) && prefix.len() >= 12 && holds_at(prefix, 4, seq![0x66u8, 0x74, 0x79, 0x70]) && holds_at(prefix, 8, seq![0x61u8, 0x76, 0x69, 0x66]) && prefix.len() > 0 && prefix[0] == 0x00u8 {
        lemma_sniff_avif(prefix);
        lemma_rule_avif();
        lemma_not_markup(prefix);
    }
    if lower_extension(path) == Some("ttf"@) && starts_with_spec(prefix, seq![0x00u8, 0x01, 0x00, 0x00]) && prefix.len() > 4 && prefix[4] == 0x00u8 {
        lemma_sniff_ttf(prefix);
        lemma_rule_ttf();
        lemma_not_markup(prefix);
    }
    if lower_extension(path) == Some("otf"@) && starts_with_spec(prefix, seq![0x4fu8, 0x54, 0x54, 0x4f]) && prefix.len() > 4 && prefix[4] == 0x00u8 {
        lemma_sniff_otf(prefix);
        lemma_rule_otf();
        lemma_not_markup(prefix);
    }
    if lower_extension(path) == Some("woff"@) && starts_with_spec(prefix, seq![0x77u8, 0x4f, 0x46, 0x46]) && prefix.len() > 4 && prefix[4] == 0x00u8 {
        lemma_sniff_woff(prefix);
        lemma_rule_woff();
        lemma_not_markup(prefix);
    }
    if lower_extension(path) == Some("woff2"@) && starts_with_spec(prefix, seq![0x77u8, 0x4f, 0x46, 0x32]) && prefix.len() > 4 && prefix[4] == 0x00u8 {
        lemma_sniff_woff2(prefix);
        lemma_rule_woff2();
        lemma_not_markup(prefix);
    }
}

/// A file whose bytes are PNG but whose known extension names another
/// format is refused as a signature mismatch (415).
pub proof fn lemma_png_bytes_under_another_name_are_refused(path: Seq<char>, prefix: Seq<u8>)
    requires
        starts_with_spec(prefix, seq![0x89u8, 0x50, 0x4e, 0x47, 0x0d, 0x0a, 0x1a, 0x0a]),
    ensures
        lower_extension(path) == Some("mp4"@) ==> classify_spec(path, prefix) == Classified::Refused(STATUS_UNSUPPORTED_MEDIA_TYPE, "media_signature_mismatch"@),
        lower_extension(path) == Some("m4v"@) ==> classify_spec(path, prefix) == Classified::Refused(STATUS_UNSUPPORTED_MEDIA_TYPE, "media_signature_mismatch"@),
        lower_extension(path) == Some("mov"@) ==> classify_spec(path, prefix) == Classified::Refused(STATUS_UNSUPPORTED_MEDIA_TYPE, "media_signature_mismatch"@),
        lower_extension(path) == Some("m4a"@) ==> classify_spec(path, prefix) == Classified::Refused(STATUS_UNSUPPORTED_MEDIA_TYPE, "media_signature_mismatch"@),
        lower_extension(path) == Some("avif"@) ==> classify_spec(path, prefix) == Classified::Refused(STATUS_UNSUPPORTED_MEDIA_TYPE, "media_signature_mismatch"@),
        lower_extension(path) == Some("webm"@) ==> classify_spec(path, prefix) == Classified::Refused(STATUS_UNSUPPORTED_MEDIA_TYPE, "media_signature_mismatch"@),
        lower_extension(path) == Some("mkv"@) ==> classify_spec(path, prefix) == Classified::Refused(STATUS_UNSUPPORTED_MEDIA_TYPE, "media_signature_mismatch"@),
        lower_extension(path) == Some("avi"@) ==> classify_spec(path, prefix) == Classified::Refused(STATUS_UNSUPPORTED_MEDIA_TYPE, "media_signature_mismatch"@),
        lower_extension(path) == Some("mp3"@) ==> classify_spec(path, prefix) == Classified::Refused(STATUS_UNSUPPORTED_MEDIA_TYPE, "media_signature_mismatch"@),
        lower_extension(path) == Some("wav"@) ==> classify_spec(path, prefix) == Classified::Refused(STATUS_UNSUPPORTED_MEDIA_TYPE, "media_signature_mismatch"@),
        lower_extension(path) == Some("aac"@) ==> classify_spec(path, prefix) == Classified::Refused(STATUS_UNSUPPORTED_MEDIA_TYPE, "media_signature_mismatch"@),
        lower_extension(path) == Some("flac"@) ==> classify_spec(path, prefix) == Classified::Refused(STATUS_UNSUPPORTED_MEDIA_TYPE, "media_signature_mismatch"@),
        lower_extension(path) == Some("ogg"@) ==> classify_spec(path, prefix) == Classified::Refused(STATUS_UNSUPPORTED_MEDIA_TYPE, "media_signature_mismatch"@),
        lower_extension(path) == Some("oga"@) ==> classify_spec(path, prefix) == Classified::Refused(STATUS_UNSUPPORTED_MEDIA_TYPE, "media_signature_mismatch"@),
        lower_extension(path) == Some("jpg"@) ==> classify_spec(path, prefix) == Classified::Refused(STATUS_UNSUPPORTED_MEDIA_TYPE, "media_signature_mismatch"@),
        lower_extension(path) == Some("jpeg"@) ==> classify_spec(path, prefix) == Classified::Refused(STATUS_UNSUPPORTED_MEDIA_TYPE, "media_signature_mismatch"@),
        lower_extension(path) == Some("webp"@) ==> classify_spec(path, prefix) == Classified::Refused(STATUS_UNSUPPORTED_MEDIA_TYPE, "media_signature_mismatch"@),
        lower_extension(path) == Some("gif"@) ==> classify_spec(path, prefix) == Classified::Refused(STATUS_UNSUPPORTED_MEDIA_TYPE, "media_signature_mismatch"@),
        lower_extension(path) == Some("ttf"@) ==> classify_spec(path, prefix) == Classified::Refused(STATUS_UNSUPPORTED_MEDIA_TYPE, "media_signature_mismatch"@),
        lower_extension(path) == Some("otf"@) ==> classify_spec(path, prefix) == Classified::Refused(STATUS_UNSUPPORTED_MEDIA_TYPE, "media_signature_mismatch"@),
        lower_extension(path) == Some("woff"@) ==> classify_spec(path, prefix) == Classified::Refused(STATUS_UNSUPPORTED_MEDIA_TYPE, "media_signature_mismatch"@),
        lower_extension(path) == Some("woff2"@) ==> classify_spec(path, prefix) == Classified::Refused(STATUS_UNSUPPORTED_MEDIA_TYPE, "media_signature_mismatch"@),
{
    lemma_sniff_png(prefix);
    lemma_not_markup(prefix);
    if lower_extension(path) == Some("mp4"@) {
        lemma_rule_mp4();
    }
    if lower_extension(path) == Some("m4v"@) {
        lemma_rule_m4v();
    }
    if lower_extension(path) == Some("mov"@) {
        lemma_rule_mov();
    }
    if lower_extension(path) == Some("m4a"@) {
        lemma_rule_m4a();
    }
    if lower_extension(path) == Some("avif"@) {
        lemma_rule_avif();
    }
    if lower_extension(path) == Some("webm"@) {
        lemma_rule_webm();
    }
    if lower_extension(path) == Some("mkv"@) {
        lemma_rule_mkv();
    }
    if lower_extension(path) == Some("avi"@) {
        lemma_rule_avi();
    }
    if lower_extension(path) == Some("mp3"@) {
        lemma_rule_mp3();
    }
    if lower_extension(path) == Some("wav"@) {
        lemma_rule_wav();
    }
    if lower_extension(path) == Some("aac"@) {
        lemma_rule_aac();
    }
    if lower_extension(path) == Some("flac"@) {
        lemma_rule_flac();
    }
    if lower_extension(path) == Some("ogg"@) {
        lemma_rule_ogg();
    }
    if lower_extension(path) == Some("oga"@) {
        lemma_rule_oga();
    }
    if lower_extension(path) == Some("jpg"@) {
        lemma_rule_jpg();
    }
    if lower_extension(path) == Some("jpeg"@) {
        lemma_rule_jpeg();
    }
    if lower_extension(path) == Some("webp"@) {
        lemma_rule_webp();
    }
    if lower_extension(path) == Some("gif"@) {
        lemma_rule_gif();
    }
    if lower_extension(path) == Some("ttf"@) {
        lemma_rule_ttf();
    }
    if lower_extension(path) == Some("otf"@) {
        lemma_rule_otf();
    }
    if lower_extension(path) == Some("woff"@) {
        lemma_rule_woff();
    }
    if lower_extension(path) == Some("woff2"@) {
        lemma_rule_woff2();
    }
}

/// A file whose bytes are WAVE audio but whose known extension names
/// another format is refused as a signature mismatch (415).
pub proof fn lemma_wav_bytes_under_another_name_are_refused(path: Seq<char>, prefix: Seq<u8>)
    requires
        prefix.len() >= 12,
        starts_with_spec(prefix, seq![0x52u8, 0x49, 0x46, 0x46]),
        holds_at(prefix, 8, seq![0x57u8, 0x41, 0x56, 0x45]),
    ensures
        lower_extension(path) == Some("mp4"@) ==> classify_spec(path, prefix) == Classified::Refused(STATUS_UNSUPPORTED_MEDIA_TYPE, "media_signature_mismatch"@),
        lower_extension(path) == Some("m4v"@) ==> classify_spec(path, prefix) == Classified::Refused(STATUS_UNSUPPORTED_MEDIA_TYPE, "media_signature_mismatch"@),
        lower_extension(path) == Some("mov"@) ==> classify_spec(path, prefix) == Classified::Refused(STATUS_UNSUPPORTED_MEDIA_TYPE, "media_signature_mismatch"@),
        lower_extension(path) == Some("m4a"@) ==> classify_spec(path, prefix) == Classified::Refused(STATUS_UNSUPPORTED_MEDIA_TYPE, "media_signature_mismatch"@),
        lower_extension(path) == Some("avif"@) ==> classify_spec(path, prefix) == Classified::Refused(STATUS_UNSUPPORTED_MEDIA_TYPE, "media_signature_mismatch"@),
        lower_extension(path) == Some("webm"@) ==> classify_spec(path, prefix) == Classified::Refused(STATUS_UNSUPPORTED_MEDIA_TYPE, "media_signature_mismatch"@),
        lower_extension(path) == Some("mkv"@) ==> classify_spec(path, prefix) == Classified::Refused(STATUS_UNSUPPORTED_MEDIA_TYPE, "media_signature_mismatch"@),
        lower_extension(path) == Some("avi"@) ==> classify_spec(path, prefix) == Classified::Refused(STATUS_UNSUPPORTED_MEDIA_TYPE, "media_signature_mismatch"@),
        lower_extension(path) == Some("mp3"@) ==> classify_spec(path, prefix) == Classified::Refused(STATUS_UNSUPPORTED_MEDIA_TYPE, "media_signature_mismatch"@),
        lower_extension(path) == Some("aac"@) ==> classify_spec(path, prefix) == Classified::Refused(STATUS_UNSUPPORTED_MEDIA_TYPE, "media_signature_mismatch"@),
        lower_extension(path) == Some("flac"@) ==> classify_spec(path, prefix) == Classified::Refused(STATUS_UNSUPPORTED_MEDIA_TYPE, "media_signature_mismatch"@),
        lower_extension(path) == Some("ogg"@) ==> classify_spec(path, prefix) == Classified::Refused(STATUS_UNSUPPORTED_MEDIA_TYPE, "media_signature_mismatch"@),
        lower_extension(path) == Some("oga"@) ==> classify_spec(path, prefix) == Classified::Refused(STATUS_UNSUPPORTED_MEDIA_TYPE, "media_signature_mismatch"@),
        lower_extension(path) == Some("png"@) ==> classify_spec(path, prefix) == Classified::Refused(STATUS_UNSUPPORTED_MEDIA_TYPE, "media_signature_mismatch"@),
        lower_extension(path) == Some("jpg"@) ==> classify_spec(path, prefix) == Classified::Refused(STATUS_UNSUPPORTED_MEDIA_TYPE, "media_signature_mismatch"@),
        lower_extension(path) == Some("jpeg"@) ==> classify_spec(path, prefix) == Classified::Refused(STATUS_UNSUPPORTED_MEDIA_TYPE, "media_signature_mismatch"@),
        lower_extension(path) == Some("webp"@) ==> classify_spec(path, prefix) == Classified::Refused(STATUS_UNSUPPORTED_MEDIA_TYPE, "media_signature_mismatch"@),
        lower_extension(path) == Some("gif"@) ==> classify_spec(path, prefix) == Classified::Refused(STATUS_UNSUPPORTED_MEDIA_TYPE, "media_signature_mismatch"@),
        lower_extension(path) == Some("ttf"@) ==> classify_spec(path, prefix) == Classified::Refused(STATUS_UNSUPPORTED_MEDIA_TYPE, "media_signature_mismatch"@),
        lower_extension(path) == Some("otf"@) ==> classify_spec(path, prefix) == Classified::Refused(STATUS_UNSUPPORTED_MEDIA_TYPE, "media_signature_mismatch"@),
        lower_extension(path) == Some("woff"@) ==> classify_spec(path, prefix) == Classified::Refused(STATUS_UNSUPPORTED_MEDIA_TYPE, "media_signature_mismatch"@),
        lower_extension(path) == Some("woff2"@) ==> classify_spec(path, prefix) == Classified::Refused(STATUS_UNSUPPORTED_MEDIA_TYPE, "media_signature_mismatch"@),
{
    lemma_sniff_wav(prefix);
    lemma_not_markup(prefix);
    if lower_extension(path) == Some("mp4"@) {
        lemma_rule_mp4();
    }
    if lower_extension(path) == Some("m4v"@) {
        lemma_rule_m4v();
    }
    if lower_extension(path) == Some("mov"@) {
        lemma_rule_mov();
    }
    if lower_extension(path) == Some("m4a"@) {
        lemma_rule_m4a();
    }
    if lower_extension(path) == Some("avif"@) {
        lemma_rule_avif();
    }
    if lower_extension(path) == Some("webm"@) {
        lemma_rule_webm();
    }
    if lower_extension(path) == Some("mkv"@) {
        lemma_rule_mkv();
    }
    if lower_extension(path) == Some("avi"@) {
        lemma_rule_avi();
    }
    if lower_extension(path) == Some("mp3"@) {
        lemma_rule_mp3();
    }
    if lower_extension(path) == Some("aac"@) {
        lemma_rule_aac();
    }
    if lower_extension(path) == Some("flac"@) {
        lemma_rule_flac();
    }
    if lower_extension(path) == Some("ogg"@) {
        lemma_rule_ogg();
    }
    if lower_extension(path) == Some("oga"@) {
        lemma_rule_oga();
    }
    if lower_extension(path) == Some("png"@) {
        lemma_rule_png();
    }
    if lower_extension(path) == Some("jpg"@) {
        lemma_rule_jpg();
    }
    if lower_extension(path) == Some("jpeg"@) {
        lemma_rule_jpeg();
    }
    if lower_extension(path) == Some("webp"@) {
        lemma_rule_webp();
    }
    if lower_extension(path) == Some("gif"@) {
        lemma_rule_gif();
    }
    if lower_extension(path) == Some("ttf"@) {
        lemma_rule_ttf();
    }
    if lower_extension(path) == Some("otf"@) {
        lemma_rule_otf();
    }
    if lower_extension(path) == Some("woff"@) {
        lemma_rule_woff();
    }
    if lower_extension(path) == Some("woff2"@) {
        lemma_rule_woff2();
    }
}

} // verus!
