//! Content-addressed media rules: digests, fan-out paths, the streaming
//! import hash, stored-content integrity and asset garbage collection.
use vstd::prelude::*;
use sha2::Digest;
use crate::encoding::{hex_lower, is_lower_hex_char, sha256, hex_encode, lemma_hex_lower_shape};

verus! {

/// An incremental SHA-256 hasher holding a `sha2::Sha256` (an alias of a
/// generic wrapper type). The hasher is kept opaque, in a private field;
/// what it has absorbed is named by `hasher_input`.
#[verifier::external_body]
pub struct Sha256Hasher {
    inner: sha2::Sha256,
}

/// The byte stream a SHA-256 hasher has absorbed so far.
pub uninterp spec fn hasher_input(h: Sha256Hasher) -> Seq<u8>;

/// `Sha256::new`: a hasher that has absorbed nothing.
#[verifier::external_body]
pub fn hasher_new() -> (h: Sha256Hasher)
    ensures
        hasher_input(h) == Seq::<u8>::empty(),
{
    Sha256Hasher { inner: sha2::Sha256::new() }
}

/// `Digest::update`: absorbs more data.
#[verifier::external_body]
pub fn hasher_update(h: &mut Sha256Hasher, data: &[u8])
    ensures
        hasher_input(*final(h)) == hasher_input(*old(h)) + data@,
{
    h.inner.update(data)
}

/// `Digest::finalize`: the SHA-256 of everything absorbed.
#[verifier::external_body]
pub fn hasher_finalize(h: Sha256Hasher) -> (r: Vec<u8>)
    ensures
        r@ == sha256(hasher_input(h)),
        r@.len() == 32,
{
    h.inner.finalize().to_vec()
}

} // verus!

verus! {

use crate::paths::{join, join_spec};
use crate::text::{chars_of, push_str, push_decimal, string_of, decimal};

pub const COPY_BUFFER_BYTES: usize = 1048576;
pub const SNIFF_BYTES: usize = 512;

/// A lowercase hexadecimal SHA-256 digest.
pub open spec fn is_digest(d: Seq<char>) -> bool {
    d.len() == 64 && forall|i: int| 0 <= i < d.len() ==> is_lower_hex_char(#[trigger] d[i])
}

/// Content is addressed by its digest: the bytes fix the stored name, so
/// equal bytes share one location and the name of any 32-byte digest is a
/// valid content address.
pub proof fn lemma_content_addressing(a: Seq<u8>, b: Seq<u8>, root: Seq<char>)
    requires
        sha256(a).len() == 32,
    ensures
        is_digest(hex_lower(sha256(a))),
        a == b ==> digest_path_spec(root, hex_lower(sha256(a))) == digest_path_spec(
            root,
            hex_lower(sha256(b)),
        ),
{
    lemma_hex_lower_shape(sha256(a));
}

/// Why a content-store operation was refused.
#[derive(Debug, Clone, PartialEq, Eq)]
pub enum ContentError {
    MalformedDigest,
    NotRegularFile,
    TooLarge { size: u64, maximum: u64 },
    SizeOverflow,
    GrewBeyondLimit { maximum: u64 },
    ChangedSizeWhileRead,
    ChangedSizeWhileCopied,
    ChangedContentWhileCopied,
    IntegrityFailed { digest: String },
    UnsafeHardLink { digest: String },
    DigestMismatch { digest: String },
}

impl ContentError {
    /// The error message shown to callers.
    pub fn message(&self) -> (r: String)
        ensures
            match self {
                ContentError::TooLarge { size, maximum } => r@ == "import source is "@ + decimal(
                    *size as nat,
                ) + " bytes, exceeding the "@ + decimal(*maximum as nat) + " byte limit"@,
                ContentError::IntegrityFailed { digest } => r@ == "managed content at digest "@
                    + digest@ + " failed its integrity check"@,
                ContentError::UnsafeHardLink { digest } => r@ == "managed content at digest "@
                    + digest@ + " has an unsafe hard link"@,
                ContentError::DigestMismatch { digest } => r@ == "managed content at digest "@
                    + digest@ + " failed its SHA-256 integrity check"@,
                _ => true,
            },
    {
        let mut v: Vec<char> = Vec::new();
        match self {
            ContentError::MalformedDigest => push_str(
                &mut v,
                "managed content digest is not lowercase SHA-256",
            ),
            ContentError::NotRegularFile => push_str(&mut v, "import source is not a regular file"),
            ContentError::TooLarge { size, maximum } => {
                push_str(&mut v, "import source is ");
                push_decimal(&mut v, *size);
                push_str(&mut v, " bytes, exceeding the ");
                push_decimal(&mut v, *maximum);
                push_str(&mut v, " byte limit");
            },
            ContentError::SizeOverflow => push_str(&mut v, "import source size overflow"),
            ContentError::GrewBeyondLimit { maximum } => {
                push_str(&mut v, "import source grew beyond the ");
                push_decimal(&mut v, *maximum);
                push_str(&mut v, " byte limit");
            },
            ContentError::ChangedSizeWhileRead => push_str(
                &mut v,
                "import source changed size while it was being read",
            ),
            ContentError::ChangedSizeWhileCopied => push_str(
                &mut v,
                "import source changed size while it was being copied",
            ),
            ContentError::ChangedContentWhileCopied => push_str(
                &mut v,
                "import source changed content while it was being copied",
            ),
            ContentError::IntegrityFailed { digest } => {
                push_str(&mut v, "managed content at digest ");
                push_str(&mut v, digest.as_str());
                push_str(&mut v, " failed its integrity check");
            },
            ContentError::UnsafeHardLink { digest } => {
                push_str(&mut v, "managed content at digest ");
                push_str(&mut v, digest.as_str());
                push_str(&mut v, " has an unsafe hard link");
            },
            ContentError::DigestMismatch { digest } => {
                push_str(&mut v, "managed content at digest ");
                push_str(&mut v, digest.as_str());
                push_str(&mut v, " failed its SHA-256 integrity check");
            },
        }
        proof {
            match self {
                ContentError::TooLarge { .. } => {
                    assert(Seq::<char>::empty() + "import source is "@ =~= "import source is "@);
                },
                ContentError::IntegrityFailed { .. } | ContentError::UnsafeHardLink { .. }
                | ContentError::DigestMismatch { .. } => {
                    assert(Seq::<char>::empty() + "managed content at digest "@
                        =~= "managed content at digest "@);
                },
                _ => {},
            }
        }
        string_of(v.as_slice())
    }
}

fn is_hex_char(c: char) -> (r: bool)
    ensures
        r == is_lower_hex_char(c),
{
    ('0' <= c && c <= '9') || ('a' <= c && c <= 'f')
}

fn all_hex(s: &[char]) -> (r: bool)
    ensures
        r == forall|i: int| 0 <= i < s@.len() ==> is_lower_hex_char(#[trigger] s@[i]),
{
    let mut i: usize = 0;
    while i < s.len()
        invariant
            i <= s.len(),
            forall|j: int| 0 <= j < i ==> is_lower_hex_char(#[trigger] s@[j]),
        decreases s.len() - i,
    {
        if !is_hex_char(s[i]) {
            return false;
        }
        i += 1;
    }
    true
}

/// Accepts only a lowercase hexadecimal SHA-256 digest.
pub fn validate_digest(digest: &str) -> (r: Result<(), ContentError>)
    ensures
        r is Ok <==> is_digest(digest@),
        r is Err ==> r == Err::<(), ContentError>(ContentError::MalformedDigest),
{
    let d = chars_of(digest);
    if d.len() != 64 || !all_hex(d.as_slice()) {
        return Err(ContentError::MalformedDigest);
    }
    Ok(())
}

/// `root/<first two digits>/<remaining digits>`.
pub open spec fn digest_path_spec(root: Seq<char>, digest: Seq<char>) -> Seq<char> {
    join_spec(join_spec(root, digest.subrange(0, 2)), digest.subrange(2, digest.len() as int))
}

/// The two-level fan-out location of a digest under a content root.
pub fn digest_path(root: &str, digest: &str) -> (r: String)
    requires
        is_digest(digest@),
    ensures
        r@ == digest_path_spec(root@, digest@),
{
    let d = chars_of(digest);
    let head = string_of(crate::text::copy_range(d.as_slice(), 0, 2).as_slice());
    let tail = string_of(crate::text::copy_range(d.as_slice(), 2, 64).as_slice());
    let dir = join(root, head.as_str());
    join(dir.as_str(), tail.as_str())
}

/// A content-store fan-out directory name: two lowercase hex digits.
pub open spec fn is_fanout_name(name: Seq<char>) -> bool {
    name.len() == 2 && is_lower_hex_char(name[0]) && is_lower_hex_char(name[1])
}

pub fn is_fanout_directory(name: &str) -> (r: bool)
    ensures
        r == is_fanout_name(name@),
{
    let n = chars_of(name);
    n.len() == 2 && is_hex_char(n[0]) && is_hex_char(n[1])
}

/// The digest named by a file in a fan-out directory: hidden temporary files
/// and names that do not complete a digest are skipped.
pub open spec fn inventory_digest_spec(directory: Seq<char>, file: Seq<char>) -> Option<Seq<char>> {
    if file.len() > 0 && file[0] == '.' {
        None
    } else if is_digest(directory + file) {
        Some(directory + file)
    } else {
        None
    }
}

pub fn inventory_digest(directory: &str, file: &str) -> (r: Option<String>)
    ensures
        match r {
            Some(d) => inventory_digest_spec(directory@, file@) == Some(d@),
            None => inventory_digest_spec(directory@, file@) is None,
        },
{
    let f = chars_of(file);
    if f.len() > 0 && f[0] == '.' {
        return None;
    }
    let mut d = chars_of(directory);
    push_str(&mut d, file);
    if d.len() == 64 && all_hex(d.as_slice()) {
        Some(string_of(d.as_slice()))
    } else {
        None
    }
}

/// The daemon data tree below its canonical root.
#[derive(Debug, Clone)]
pub struct DataLayout {
    pub root: String,
    pub media: String,
    pub derived: String,
    pub projects: String,
    pub exports: String,
    pub temporary: String,
}

impl DataLayout {
    /// The layout below a canonical data root.
    pub fn for_root(root: &str) -> (r: DataLayout)
        ensures
            r.root@ == root@,
            r.media@ == join_spec(root@, "media/sha256"@),
            r.derived@ == join_spec(root@, "derived/sha256"@),
            r.projects@ == join_spec(root@, "projects"@),
            r.exports@ == join_spec(root@, "exports"@),
            r.temporary@ == join_spec(root@, "tmp"@),
    {
        DataLayout {
            root: root.to_owned(),
            media: join(root, "media/sha256"),
            derived: join(root, "derived/sha256"),
            projects: join(root, "projects"),
            exports: join(root, "exports"),
            temporary: join(root, "tmp"),
        }
    }

    /// Where managed media with this digest lives; malformed digests are
    /// refused.
    pub fn media_path(&self, digest: &str) -> (r: Result<String, ContentError>)
        ensures
            match r {
                Ok(p) => is_digest(digest@) && p@ == digest_path_spec(self.media@, digest@),
                Err(e) => !is_digest(digest@) && e == ContentError::MalformedDigest,
            },
    {
        validate_digest(digest)?;
        Ok(digest_path(self.media.as_str(), digest))
    }

    /// Where an export with this file name is installed.
    pub fn export_destination(&self, file_name: &str) -> (r: String)
        ensures
            r@ == join_spec(self.exports@, file_name@),
    {
        join(self.exports.as_str(), file_name)
    }
}

#[derive(Debug, Clone, PartialEq, Eq)]
pub struct StoredContent {
    pub sha256: String,
    pub path: String,
    pub size: u64,
}

#[derive(Debug, Clone, PartialEq, Eq)]
pub struct MediaInventoryEntry {
    pub sha256: String,
    pub path: String,
    pub size: u64,
    /// Modification time, nanoseconds since the Unix epoch.
    pub modified_at: i128,
}

#[derive(Debug, Clone, PartialEq, Eq)]
pub struct HashedSource {
    pub sha256: String,
    pub size: u64,
    pub prefix: Vec<u8>,
}

#[derive(Debug, Clone, PartialEq, Eq)]
pub struct InstalledContent {
    pub content: StoredContent,
    pub created: bool,
}

} // verus!

verus! {

pub open spec fn min_nat(a: nat, b: nat) -> nat {
    if a <= b {
        a
    } else {
        b
    }
}

/// The running SHA-256, size and sniffing prefix of an import source that
/// is read in chunks and must stay within a byte limit.
pub struct ImportHash {
    hasher: Sha256Hasher,
    total: u64,
    prefix: Vec<u8>,
    maximum: u64,
    absorbed: Ghost<Seq<u8>>,
}

impl ImportHash {
    /// Everything absorbed so far.
    pub closed spec fn absorbed(&self) -> Seq<u8> {
        self.absorbed@
    }

    pub closed spec fn limit(&self) -> u64 {
        self.maximum
    }

    pub closed spec fn wf(&self) -> bool {
        &&& hasher_input(self.hasher) == self.absorbed@
        &&& self.total == self.absorbed@.len()
        &&& self.total <= self.maximum
        &&& self.prefix@ == self.absorbed@.subrange(
            0,
            min_nat(SNIFF_BYTES as nat, self.absorbed@.len()) as int,
        )
    }

    /// Starts hashing a source whose metadata reports a regular file of
    /// `len` bytes; larger sources than `maximum` are refused up front.
    pub fn start(is_file: bool, len: u64, maximum: u64) -> (r: Result<ImportHash, ContentError>)
        ensures
            match r {
                Ok(h) => is_file && len <= maximum && h.wf() && h.absorbed().len() == 0
                    && h.limit() == maximum,
                Err(e) => if !is_file {
                    e == ContentError::NotRegularFile
                } else {
                    len > maximum && e == (ContentError::TooLarge { size: len, maximum })
                },
            },
    {
        if !is_file {
            return Err(ContentError::NotRegularFile);
        }
        if len > maximum {
            return Err(ContentError::TooLarge { size: len, maximum });
        }
        Ok(ImportHash::new(maximum))
    }

    /// A hash over nothing yet, with the given byte limit.
    pub fn new(maximum: u64) -> (h: ImportHash)
        ensures
            h.wf(),
            h.absorbed().len() == 0,
            h.limit() == maximum,
    {
        let h = ImportHash {
            hasher: hasher_new(),
            total: 0,
            prefix: Vec::new(),
            maximum,
            absorbed: Ghost(Seq::empty()),
        };
        assert(h.prefix@ =~= h.absorbed@.subrange(0, 0));
        h
    }

    /// Absorbs the next chunk read from the source; a source that grows past
    /// the limit is refused.
    pub fn absorb(&mut self, chunk: &[u8]) -> (r: Result<(), ContentError>)
        requires
            old(self).wf(),
        ensures
            final(self).wf(),
            final(self).limit() == old(self).limit(),
            match r {
                Ok(()) => final(self).absorbed() == old(self).absorbed() + chunk@,
                Err(e) => {
                    &&& old(self).absorbed().len() + chunk@.len() > old(self).limit()
                    &&& (if old(self).absorbed().len() + chunk@.len() > u64::MAX {
                        e == ContentError::SizeOverflow
                    } else {
                        e == (ContentError::GrewBeyondLimit { maximum: old(self).limit() })
                    })
                },
            },
    {
        let read = chunk.len() as u64;
        let total = match self.total.checked_add(read) {
            Some(t) => t,
            None => return Err(ContentError::SizeOverflow),
        };
        if total > self.maximum {
            return Err(ContentError::GrewBeyondLimit { maximum: self.maximum });
        }
        let ghost before = self.absorbed@;
        if self.prefix.len() < SNIFF_BYTES {
            let room = SNIFF_BYTES - self.prefix.len();
            let available = if room < chunk.len() {
                room
            } else {
                chunk.len()
            };
            let mut i: usize = 0;
            while i < available
                invariant
                    i <= available <= chunk.len(),
                    self.maximum == old(self).maximum,
                    self.total == old(self).total,
                    hasher_input(self.hasher) == before,
                    self.absorbed@ == before,
                    self.prefix@ == before.subrange(0, min_nat(SNIFF_BYTES as nat, before.len()) as int) + chunk@.subrange(0, i as int),
                decreases available - i,
            {
                self.prefix.push(chunk[i]);
                i += 1;
                assert(chunk@.subrange(0, i as int) =~= chunk@.subrange(0, i - 1).push(chunk@[i - 1]));
            }
        }
        hasher_update(&mut self.hasher, chunk);
        self.total = total;
        self.absorbed = Ghost(before + chunk@);
        proof {
            let after = before + chunk@;
            let k = min_nat(SNIFF_BYTES as nat, after.len()) as int;
            if before.len() < SNIFF_BYTES {
                assert(self.prefix@ =~= after.subrange(0, k));
            } else {
                assert(before.subrange(0, SNIFF_BYTES as int) =~= after.subrange(0, k));
            }
        }
        Ok(())
    }

    /// The digest, size and prefix of the source, which must have kept the
    /// size its metadata reported.
    pub fn finish(self, expected_size: u64) -> (r: Result<HashedSource, ContentError>)
        requires
            self.wf(),
        ensures
            match r {
                Ok(h) => {
                    &&& self.absorbed().len() == expected_size
                    &&& h.sha256@ == hex_lower(sha256(self.absorbed()))
                    &&& is_digest(h.sha256@)
                    &&& h.size == expected_size
                    &&& h.prefix@ == self.absorbed().subrange(
                        0,
                        min_nat(SNIFF_BYTES as nat, self.absorbed().len()) as int,
                    )
                },
                Err(e) => self.absorbed().len() != expected_size && e
                    == ContentError::ChangedSizeWhileRead,
            },
    {
        if self.total != expected_size {
            return Err(ContentError::ChangedSizeWhileRead);
        }
        let digest = hasher_finalize(self.hasher);
        proof {
            lemma_hex_lower_shape(digest@);
        }
        Ok(HashedSource { sha256: hex_encode(digest.as_slice()), size: self.total, prefix: self.prefix })
    }

    /// Completes a copy of a previously hashed source: the bytes copied must
    /// have the size and digest recorded before.
    pub fn finish_copy(self, expected: &HashedSource) -> (r: Result<u64, ContentError>)
        requires
            self.wf(),
        ensures
            match r {
                Ok(size) => size == self.absorbed().len() && size == expected.size
                    && hex_lower(sha256(self.absorbed())) == expected.sha256@,
                Err(e) => if self.absorbed().len() != expected.size {
                    e == ContentError::ChangedSizeWhileCopied
                } else {
                    hex_lower(sha256(self.absorbed())) != expected.sha256@ && e
                        == ContentError::ChangedContentWhileCopied
                },
            },
    {
        if self.total != expected.size {
            return Err(ContentError::ChangedSizeWhileCopied);
        }
        let total = self.total;
        let digest = hasher_finalize(self.hasher);
        let actual = hex_encode(digest.as_slice());
        if !crate::text::str_eq(actual.as_str(), expected.sha256.as_str()) {
            return Err(ContentError::ChangedContentWhileCopied);
        }
        Ok(total)
    }
}

/// Stored content must be a regular file of the expected size.
pub fn check_stored_metadata(is_file: bool, len: u64, expected_size: u64, digest: &str) -> (r: Result<
    (),
    ContentError,
>)
    ensures
        match r {
            Ok(()) => is_file && len == expected_size,
            Err(e) => !(is_file && len == expected_size) && e is IntegrityFailed
                && e->IntegrityFailed_digest@ == digest@,
        },
{
    if !is_file || len != expected_size {
        return Err(ContentError::IntegrityFailed { digest: digest.to_owned() });
    }
    Ok(())
}

/// Stored content must have exactly one link, so no other path can change
/// the bytes behind its address.
pub fn check_single_link(single_link: bool, digest: &str) -> (r: Result<(), ContentError>)
    ensures
        match r {
            Ok(()) => single_link,
            Err(e) => !single_link && e is UnsafeHardLink && e->UnsafeHardLink_digest@ == digest@,
        },
{
    if !single_link {
        return Err(ContentError::UnsafeHardLink { digest: digest.to_owned() });
    }
    Ok(())
}

/// The bytes stored under a digest must hash to it.
pub fn check_stored_digest(actual: &HashedSource, digest: &str) -> (r: Result<(), ContentError>)
    ensures
        match r {
            Ok(()) => actual.sha256@ == digest@,
            Err(e) => actual.sha256@ != digest@ && e is DigestMismatch && e->DigestMismatch_digest@
                == digest@,
        },
{
    if !crate::text::str_eq(actual.sha256.as_str(), digest) {
        return Err(ContentError::DigestMismatch { digest: digest.to_owned() });
    }
    Ok(())
}

} // verus!

verus! {

use vstd::hash_set::StringHashSet;

/// How asset garbage collection treats one stored file.
#[derive(Debug, Clone, Copy, PartialEq, Eq, Structural)]
pub enum GcClass {
    /// Still referenced by a revision, version or job.
    Referenced,
    /// Unreferenced but modified after the cutoff.
    Recent,
    /// Unreferenced and old enough to delete.
    Candidate,
}

pub open spec fn gc_class(e: MediaInventoryEntry, referenced: Set<Seq<char>>, cutoff: i128) -> GcClass {
    if referenced.contains(e.sha256@) {
        GcClass::Referenced
    } else if e.modified_at > cutoff {
        GcClass::Recent
    } else {
        GcClass::Candidate
    }
}

/// The (digest, size) of the entries of one class, in inventory order.
pub open spec fn class_members(
    inv: Seq<MediaInventoryEntry>,
    referenced: Set<Seq<char>>,
    cutoff: i128,
    c: GcClass,
) -> Seq<(Seq<char>, u64)>
    decreases inv.len(),
{
    if inv.len() == 0 {
        Seq::empty()
    } else {
        let rest = class_members(inv.drop_last(), referenced, cutoff, c);
        if gc_class(inv.last(), referenced, cutoff) == c {
            rest.push((inv.last().sha256@, inv.last().size))
        } else {
            rest
        }
    }
}

/// Total size of (digest, size) pairs.
pub open spec fn total_size(s: Seq<(Seq<char>, u64)>) -> nat
    decreases s.len(),
{
    if s.len() == 0 {
        0
    } else {
        total_size(s.drop_last()) + (s.last().1 as nat)
    }
}

/// A byte total that saturates at `u64::MAX`.
pub open spec fn saturated(n: nat) -> u64 {
    if n > u64::MAX {
        u64::MAX
    } else {
        n as u64
    }
}

pub const MAX_LISTED_CANDIDATES: usize = 1000;

/// The garbage-collection view of the media inventory.
#[derive(Debug)]
pub struct GcInventory {
    pub referenced_count: u64,
    pub referenced_bytes: u64,
    pub protected_recent_count: u64,
    pub protected_recent_bytes: u64,
    /// Collectible digests and sizes, in inventory order.
    pub candidates: Vec<(String, u64)>,
    pub candidate_count: u64,
    pub candidate_bytes: u64,
    /// The first thousand collectible digests.
    pub candidate_hashes: Vec<String>,
    pub candidate_hashes_truncated: bool,
}

pub open spec fn pairs_view(v: Seq<(String, u64)>) -> Seq<(Seq<char>, u64)> {
    v.map_values(|p: (String, u64)| (p.0@, p.1))
}

pub open spec fn string_seq_view(v: Seq<String>) -> Seq<Seq<char>> {
    v.map_values(|s: String| s@)
}

/// The set of the given strings.
pub fn string_set(hashes: &Vec<String>) -> (r: StringHashSet)
    ensures
        r@ == string_seq_view(hashes@).to_set(),
{
    let mut set = StringHashSet::new();
    let mut i: usize = 0;
    while i < hashes.len()
        invariant
            i <= hashes@.len(),
            set@ == string_seq_view(hashes@).subrange(0, i as int).to_set(),
        decreases hashes.len() - i,
    {
        set.insert(hashes[i].clone());
        proof {
            let s = string_seq_view(hashes@);
            assert(s.subrange(0, i + 1) =~= s.subrange(0, i as int).push(s[i as int]));
            s.subrange(0, i as int).lemma_push_to_set_commute(s[i as int]);
        }
        i += 1;
    }
    assert(string_seq_view(hashes@).subrange(0, hashes.len() as int) =~= string_seq_view(hashes@));
    set
}

proof fn lemma_total_size_push(s: Seq<(Seq<char>, u64)>, x: (Seq<char>, u64))
    ensures
        total_size(s.push(x)) == total_size(s) + x.1,
{
    assert(s.push(x).drop_last() =~= s);
}

/// Sorts the inventory into referenced, recently modified and collectible
/// files, with counts and saturating byte totals; `cutoff` is the newest
/// modification time (nanoseconds since the epoch) that may be collected.
pub fn classify_gc_inventory(
    inventory: &Vec<MediaInventoryEntry>,
    referenced: &Vec<String>,
    cutoff: i128,
) -> (r: GcInventory)
    ensures
        ({
            let refs = string_seq_view(referenced@).to_set();
            let inv = inventory@;
            let held = class_members(inv, refs, cutoff, GcClass::Referenced);
            let recent = class_members(inv, refs, cutoff, GcClass::Recent);
            let cand = class_members(inv, refs, cutoff, GcClass::Candidate);
            &&& r.referenced_count == held.len()
            &&& r.referenced_bytes == saturated(total_size(held))
            &&& r.protected_recent_count == recent.len()
            &&& r.protected_recent_bytes == saturated(total_size(recent))
            &&& pairs_view(r.candidates@) == cand
            &&& r.candidate_count == cand.len()
            &&& r.candidate_bytes == saturated(total_size(cand))
            &&& string_seq_view(r.candidate_hashes@) == cand.subrange(
                0,
                min_nat(MAX_LISTED_CANDIDATES as nat, cand.len()) as int,
            ).map_values(|p: (Seq<char>, u64)| p.0)
            &&& r.candidate_hashes_truncated == (cand.len() > MAX_LISTED_CANDIDATES)
            &&& r.referenced_count + r.protected_recent_count + r.candidate_count == inv.len()
        }),
{
    let refs = string_set(referenced);
    let ghost rs = string_seq_view(referenced@).to_set();
    let mut referenced_count: u64 = 0;
    let mut referenced_bytes: u64 = 0;
    let mut recent_count: u64 = 0;
    let mut recent_bytes: u64 = 0;
    let mut candidate_bytes: u64 = 0;
    let mut candidates: Vec<(String, u64)> = Vec::new();
    let mut candidate_hashes: Vec<String> = Vec::new();
    let mut i: usize = 0;
    while i < inventory.len()
        invariant
            i <= inventory@.len(),
            refs@ == rs,
            ({
                let inv = inventory@.subrange(0, i as int);
                let held = class_members(inv, rs, cutoff, GcClass::Referenced);
                let recent = class_members(inv, rs, cutoff, GcClass::Recent);
                let cand = class_members(inv, rs, cutoff, GcClass::Candidate);
                &&& referenced_count == held.len()
                &&& referenced_bytes == saturated(total_size(held))
                &&& recent_count == recent.len()
                &&& recent_bytes == saturated(total_size(recent))
                &&& pairs_view(candidates@) == cand
                &&& candidate_bytes == saturated(total_size(cand))
                &&& held.len() + recent.len() + cand.len() == i
                &&& string_seq_view(candidate_hashes@) == cand.subrange(
                    0,
                    min_nat(MAX_LISTED_CANDIDATES as nat, cand.len()) as int,
                ).map_values(|p: (Seq<char>, u64)| p.0)
            }),
        decreases inventory.len() - i,
    {
        let e = &inventory[i];
        let ghost prev = inventory@.subrange(0, i as int);
        let ghost next = inventory@.subrange(0, i + 1);
        proof {
            assert(next.drop_last() =~= prev);
            assert(next.last() == inventory@[i as int]);
        }
        let ghost held0 = class_members(prev, rs, cutoff, GcClass::Referenced);
        let ghost recent0 = class_members(prev, rs, cutoff, GcClass::Recent);
        let ghost cand0 = class_members(prev, rs, cutoff, GcClass::Candidate);
        if refs.contains(e.sha256.as_str()) {
            proof {
                lemma_total_size_push(held0, (e.sha256@, e.size));
            }
            referenced_count = referenced_count + 1;
            referenced_bytes = referenced_bytes.saturating_add(e.size);
        } else if e.modified_at > cutoff {
            proof {
                lemma_total_size_push(recent0, (e.sha256@, e.size));
            }
            recent_count = recent_count + 1;
            recent_bytes = recent_bytes.saturating_add(e.size);
        } else {
            proof {
                lemma_total_size_push(cand0, (e.sha256@, e.size));
            }
            candidate_bytes = candidate_bytes.saturating_add(e.size);
            candidates.push((e.sha256.clone(), e.size));
            let ghost ch0 = candidate_hashes@;
            if candidate_hashes.len() < MAX_LISTED_CANDIDATES {
                candidate_hashes.push(e.sha256.clone());
            }
            proof {
                let cand1 = cand0.push((e.sha256@, e.size));
                assert(pairs_view(candidates@) =~= cand1);
                let k0 = min_nat(MAX_LISTED_CANDIDATES as nat, cand0.len()) as int;
                let k1 = min_nat(MAX_LISTED_CANDIDATES as nat, cand1.len()) as int;
                let f = |p: (Seq<char>, u64)| p.0;
                assert(string_seq_view(ch0).len() == ch0.len());
                assert(0 <= k0 <= cand0.len());
                assert(cand0.subrange(0, k0).map_values(f).len() == k0);
                assert(ch0.len() == k0);
                if k1 > k0 {
                    assert(cand1.subrange(0, k1) =~= cand0.subrange(0, k0).push((e.sha256@, e.size)));
                    assert(cand0.subrange(0, k0).push((e.sha256@, e.size)).map_values(f)
                        =~= cand0.subrange(0, k0).map_values(f).push(e.sha256@));
                    assert(string_seq_view(ch0.push(e.sha256)) =~= string_seq_view(ch0).push(
                        e.sha256@,
                    ));
                } else {
                    assert(cand1.subrange(0, k1) =~= cand0.subrange(0, k0));
                }
                assert(string_seq_view(candidate_hashes@) =~= cand1.subrange(0, k1).map_values(
                    |p: (Seq<char>, u64)| p.0,
                ));
            }
        }
        i += 1;
    }
    assert(inventory@.subrange(0, inventory.len() as int) =~= inventory@);
    let ghost cand = class_members(inventory@, rs, cutoff, GcClass::Candidate);
    let candidate_count = candidates.len() as u64;
    let truncated = candidates.len() > MAX_LISTED_CANDIDATES;
    proof {
        assert(candidates@.len() == cand.len());
    }
    GcInventory {
        referenced_count,
        referenced_bytes,
        protected_recent_count: recent_count,
        protected_recent_bytes: recent_bytes,
        candidates,
        candidate_count,
        candidate_bytes,
        candidate_hashes,
        candidate_hashes_truncated: truncated,
    }
}

} // verus!

verus! {

/// Collection never takes referenced content: no digest among the
/// candidates is referenced, and every candidate is older than the cutoff.
pub proof fn lemma_candidates_unreferenced(inv: Seq<MediaInventoryEntry>, referenced: Set<Seq<char>>, cutoff: i128)
    ensures
        forall|i: int| 0 <= i < class_members(inv, referenced, cutoff, GcClass::Candidate).len() ==> !referenced.contains(
            #[trigger] class_members(inv, referenced, cutoff, GcClass::Candidate)[i].0,
        ),
        forall|i: int| 0 <= i < inv.len() && gc_class(#[trigger] inv[i], referenced, cutoff) == GcClass::Candidate
            ==> inv[i].modified_at <= cutoff,
    decreases inv.len(),
{
    if inv.len() > 0 {
        lemma_candidates_unreferenced(inv.drop_last(), referenced, cutoff);
        let rest = class_members(inv.drop_last(), referenced, cutoff, GcClass::Candidate);
        let all = class_members(inv, referenced, cutoff, GcClass::Candidate);
        assert forall|i: int| 0 <= i < all.len() implies !referenced.contains(#[trigger] all[i].0) by {
            if i < rest.len() {
                assert(all[i] == rest[i]);
            }
        }
    }
}

} // verus!
