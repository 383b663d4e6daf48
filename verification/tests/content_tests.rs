use openchatcut_daemon::content::{
    check_single_link, check_stored_digest, check_stored_metadata, classify_gc_inventory,
    digest_path, inventory_digest, is_fanout_directory, validate_digest, ContentError, DataLayout,
    HashedSource, ImportHash, MediaInventoryEntry,
};
use openchatcut_daemon::encoding::{constant_time_equal, hex_encode, random_secret, sha256_hex};

const ABC_SHA256: &str = "ba7816bf8f01cfea414140de5dae2223b00361a396177a9cb410ff61f20015ad";

#[test]
fn hashing_matches_sha256() {
    assert_eq!(sha256_hex(b"abc"), ABC_SHA256);
    assert_eq!(hex_encode(&[0x00, 0xab, 0xff]), "00abff");
    assert!(constant_time_equal("secret", "secret"));
    assert!(!constant_time_equal("secret", "secreT"));
    let secret = random_secret();
    assert_eq!(secret.len(), 64);
    assert_ne!(secret, random_secret());
}

#[test]
fn digests_and_paths() {
    assert!(validate_digest(ABC_SHA256).is_ok());
    assert_eq!(validate_digest("ABC"), Err(ContentError::MalformedDigest));
    assert_eq!(
        digest_path("/media", ABC_SHA256),
        format!("/media/ba/{}", &ABC_SHA256[2..])
    );
    assert!(is_fanout_directory("ba"));
    assert!(!is_fanout_directory("BA"));
    assert_eq!(inventory_digest("ba", &ABC_SHA256[2..]), Some(ABC_SHA256.to_string()));
    assert_eq!(inventory_digest("ba", ".partial"), None);
    assert_eq!(inventory_digest("ba", "xyz"), None);
    let layout = DataLayout::for_root("/data");
    assert_eq!(layout.media, "/data/media/sha256");
    assert_eq!(layout.export_destination("cut.mp4"), "/data/exports/cut.mp4");
    assert!(layout.media_path("nope").is_err());
}

#[test]
fn streaming_import_hash() {
    let mut h = ImportHash::start(true, 3, 10).unwrap();
    h.absorb(b"ab").unwrap();
    h.absorb(b"c").unwrap();
    let hashed = h.finish(3).unwrap();
    assert_eq!(hashed.sha256, ABC_SHA256);
    assert_eq!(hashed.size, 3);
    assert_eq!(hashed.prefix, b"abc".to_vec());
    assert!(matches!(ImportHash::start(true, 11, 10), Err(ContentError::TooLarge { size: 11, maximum: 10 })));
    assert_eq!(
        ContentError::TooLarge { size: 11, maximum: 10 }.message(),
        "import source is 11 bytes, exceeding the 10 byte limit"
    );
    let mut small = ImportHash::new(2);
    assert!(matches!(small.absorb(b"abc"), Err(ContentError::GrewBeyondLimit { maximum: 2 })));
    let mut copy = ImportHash::new(10);
    copy.absorb(b"abd").unwrap();
    let expected = HashedSource { sha256: ABC_SHA256.to_string(), size: 3, prefix: b"abc".to_vec() };
    assert_eq!(copy.finish_copy(&expected), Err(ContentError::ChangedContentWhileCopied));
}

#[test]
fn stored_content_checks() {
    assert!(check_stored_metadata(true, 3, 3, ABC_SHA256).is_ok());
    assert!(check_stored_metadata(true, 4, 3, ABC_SHA256).is_err());
    assert!(check_single_link(true, ABC_SHA256).is_ok());
    assert!(check_single_link(false, ABC_SHA256).unwrap_err().message().contains("unsafe hard link"));
    let actual = HashedSource { sha256: ABC_SHA256.to_string(), size: 3, prefix: Vec::new() };
    assert!(check_stored_digest(&actual, ABC_SHA256).is_ok());
    assert!(check_stored_digest(&actual, &"0".repeat(64)).unwrap_err().message().contains("SHA-256 integrity"));
}

#[test]
fn gc_partitions_the_inventory() {
    let entry = |sha: &str, size: u64, at: i128| MediaInventoryEntry {
        sha256: sha.to_string(),
        path: format!("/m/{sha}"),
        size,
        modified_at: at,
    };
    let inventory = vec![entry("a", 1, 0), entry("b", 2, 100), entry("c", 4, 0), entry("d", u64::MAX, 0)];
    let referenced = vec!["a".to_string()];
    let gc = classify_gc_inventory(&inventory, &referenced, 50);
    assert_eq!((gc.referenced_count, gc.referenced_bytes), (1, 1));
    assert_eq!((gc.protected_recent_count, gc.protected_recent_bytes), (1, 2));
    assert_eq!(gc.candidate_count, 2);
    assert_eq!(gc.candidate_bytes, u64::MAX);
    assert_eq!(gc.candidate_hashes, vec!["c".to_string(), "d".to_string()]);
    assert!(!gc.candidate_hashes_truncated);
}
