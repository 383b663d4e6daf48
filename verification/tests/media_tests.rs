use openchatcut_daemon::media::{classify_media, sniff_media_signature, AssetKind, MediaSignature};

#[test]
fn sniffs_common_signatures() {
    assert_eq!(sniff_media_signature(b"\x89PNG\r\n\x1a\nrest"), MediaSignature::Png);
    assert_eq!(sniff_media_signature(b"\xff\xd8\xff\xe0"), MediaSignature::Jpeg);
    assert_eq!(sniff_media_signature(b"GIF89a"), MediaSignature::Gif);
    assert_eq!(sniff_media_signature(b"RIFF\0\0\0\0WEBPVP8 "), MediaSignature::Webp);
    assert_eq!(sniff_media_signature(b"RIFF\0\0\0\0WAVEfmt "), MediaSignature::Wav);
    assert_eq!(sniff_media_signature(b"ID3\x04"), MediaSignature::Mp3);
    assert_eq!(sniff_media_signature(b"\xff\xf1\x50"), MediaSignature::Aac);
    assert_eq!(sniff_media_signature(b"\xff\xfb\x90"), MediaSignature::Mp3);
    assert_eq!(sniff_media_signature(b"fLaC"), MediaSignature::Flac);
    assert_eq!(sniff_media_signature(b"OggS"), MediaSignature::Ogg);
    assert_eq!(sniff_media_signature(b"\x1aE\xdf\xa3"), MediaSignature::Ebml);
    assert_eq!(sniff_media_signature(b"\0\0\0\x18ftypisom"), MediaSignature::IsoBmff);
    assert_eq!(sniff_media_signature(b"\0\0\0\x18ftypavif"), MediaSignature::Avif);
    assert_eq!(sniff_media_signature(b"wOF2"), MediaSignature::Woff2);
    assert_eq!(sniff_media_signature(b"hello"), MediaSignature::Unknown);
}

#[test]
fn classification_matches_extension_and_magic_bytes() {
    let (kind, mime) = classify_media("clip.MP4", b"\0\0\0\x18ftypisom").unwrap();
    assert_eq!(kind, AssetKind::Video);
    assert_eq!(mime, Some("video/mp4"));
    let error = classify_media("photo.png", b"\xff\xd8\xff\xe0").unwrap_err();
    assert_eq!(error.status, 415);
    assert_eq!(error.code, "media_signature_mismatch");
    assert!(error.details.is_some());
}

#[test]
fn classification_refuses_empty_and_active_media() {
    let empty = classify_media("a.png", b"").unwrap_err();
    assert_eq!((empty.status, empty.code.as_str()), (400, "empty_media"));
    let svg = classify_media("logo.svg", b"<svg></svg>").unwrap_err();
    assert_eq!(svg.code, "unsafe_active_media");
    let html = classify_media("notes.bin", b"  \n<!DOCTYPE HTML><html>").unwrap_err();
    assert_eq!(html.code, "unsafe_active_media");
}

#[test]
fn unknown_extensions_fall_back_to_the_signature() {
    let (kind, mime) = classify_media("file.dat", b"OggS....").unwrap();
    assert_eq!(kind, AssetKind::Audio);
    assert_eq!(mime, Some("audio/ogg"));
    let (kind, mime) = classify_media("file", b"plain text").unwrap();
    assert_eq!(kind, AssetKind::Other);
    assert_eq!(mime, None);
}
