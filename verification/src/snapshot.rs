use vstd::prelude::*;
use vstd::string::*;
use sha2::Digest;
use crate::error::{Error, ErrorView, fault};
use crate::text::opt_text;
use crate::model::{Evaluation, Event, FileContext, Snapshot};
use crate::paths::{path_text, split_name, stem_and_extension, FsPath};
use crate::text::{ascii_lower, to_ascii_lowercase};

verus! {

/// The lowercase hexadecimal SHA-256 digest of `bytes`.
pub uninterp spec fn sha256_hex(bytes: Seq<u8>) -> Seq<char>;

/// Hashes bytes with `sha2::Sha256::digest` and formats the digest as
/// lowercase hexadecimal. Claimed: the result is the named `sha256_hex` of the
/// bytes.
#[verifier::external_body]
pub fn hash(bytes: &[u8]) -> (r: String)
    ensures
        r@ == sha256_hex(bytes@),
{
    format!("{:x}", sha2::Sha256::digest(bytes))
}


/// The running SHA-256 state of a file's content as it is read (a
/// `sha2::Sha256` held privately).
#[verifier::external_body]
pub struct ContentHasher {
    state: sha2::Sha256,
}

/// The bytes a content hasher has been fed, in order.
pub uninterp spec fn hashed_bytes(h: ContentHasher) -> Seq<u8>;

/// A fresh hasher (`Sha256::new`). Claimed: it has been fed nothing.
#[verifier::external_body]
fn hasher_new() -> (r: ContentHasher)
    ensures
        hashed_bytes(r) == Seq::<u8>::empty(),
{
    ContentHasher { state: sha2::Sha256::new() }
}

/// Feeds bytes to a hasher (`Digest::update`). Claimed: they follow what it
/// was fed before.
#[verifier::external_body]
fn hasher_update(h: &mut ContentHasher, chunk: &[u8])
    ensures
        hashed_bytes(*final(h)) == hashed_bytes(*old(h)) + chunk@,
{
    h.state.update(chunk)
}

/// The digest of what a hasher was fed (`Digest::finalize`), as lowercase
/// hexadecimal. Claimed: it is the named `sha256_hex` of those bytes.
#[verifier::external_body]
fn hasher_finish(h: ContentHasher) -> (r: String)
    ensures
        r@ == sha256_hex(hashed_bytes(h)),
{
    format!("{:x}", h.state.finalize())
}

impl ContentHasher {
    /// A hasher that has been fed nothing.
    pub fn new() -> (r: ContentHasher)
        ensures
            hashed_bytes(r) == Seq::<u8>::empty(),
    {
        hasher_new()
    }

    /// Feeds the next chunk of content.
    pub fn feed(&mut self, chunk: &[u8])
        ensures
            hashed_bytes(*final(self)) == hashed_bytes(*old(self)) + chunk@,
    {
        hasher_update(self, chunk)
    }

    /// The lowercase hexadecimal SHA-256 digest of all content fed.
    pub fn finish(self) -> (r: String)
        ensures
            r@ == sha256_hex(hashed_bytes(self)),
    {
        hasher_finish(self)
    }
}

/// What reading a file gives: `NOT_READY` where its length, modification
/// time or identity changed while it was read, else the snapshot of the
/// values read.
pub open spec fn snapshot_outcome(
    path: FsPath,
    identity_before: Seq<char>,
    identity_after: Seq<char>,
    len_before: u64,
    len_after: u64,
    mtime_before: Seq<char>,
    mtime_after: Seq<char>,
    modified_at: Option<String>,
    created_at: Option<String>,
    digest: Seq<char>,
    r: Result<Snapshot, Error>,
) -> bool {
    if len_before != len_after || mtime_before != mtime_after || identity_before != identity_after {
        r matches Err(e) && e@ == fault("NOT_READY"@, "input changed while being read"@)
    } else {
        r matches Ok(s) && s.path@ == path@ && s.identity@ == identity_before && s.size_bytes == len_after
            && s.modified_ns@ == mtime_after && opt_text(s.modified_at) == opt_text(modified_at) && opt_text(
            s.created_at,
        ) == opt_text(created_at) && s.sha256@ == digest
    }
}

/// The snapshot of a file from what was read of it before and after hashing
/// its content; refused with `NOT_READY` where the file changed meanwhile.
pub fn snapshot_of(
    path: FsPath,
    identity_before: String,
    identity_after: String,
    len_before: u64,
    len_after: u64,
    mtime_before: String,
    mtime_after: String,
    modified_at: Option<String>,
    created_at: Option<String>,
    digest: String,
) -> (r: Result<Snapshot, Error>)
    ensures
        snapshot_outcome(
            path,
            identity_before@,
            identity_after@,
            len_before,
            len_after,
            mtime_before@,
            mtime_after@,
            modified_at,
            created_at,
            digest@,
            r,
        ),
{
    if len_before != len_after || mtime_before != mtime_after || identity_before != identity_after {
        return Err(Error::new("NOT_READY", "input changed while being read"));
    }
    Ok(
        Snapshot {
            path,
            identity: identity_before,
            size_bytes: len_after,
            modified_ns: mtime_after,
            modified_at,
            created_at,
            sha256: digest,
        },
    )
}

/// Checks a copy against its source: the same content hash and size.
pub fn check_copy(source: &Snapshot, copy: &Snapshot) -> (r: Result<(), Error>)
    ensures
        match r {
            Ok(()) => copy.sha256@ == source.sha256@ && copy.size_bytes == source.size_bytes,
            Err(e) => !(copy.sha256@ == source.sha256@ && copy.size_bytes == source.size_bytes) && e@ == fault(
                "COPY_VERIFY_FAILED"@,
                "copy verification failed; source retained"@,
            ),
        },
{
    if copy.sha256 != source.sha256 || copy.size_bytes != source.size_bytes {
        return Err(Error::new("COPY_VERIFY_FAILED", "copy verification failed; source retained"));
    }
    Ok(())
}

/// Byte chunks one after another.
pub open spec fn concat(chunks: Seq<Seq<u8>>) -> Seq<u8>
    decreases chunks.len(),
{
    if chunks.len() == 0 {
        seq![]
    } else {
        concat(chunks.drop_last()) + chunks.last()
    }
}

/// The hash of serialized parts taken together, in order: a configuration's
/// revision covers its document, its source roots and every rule package.
pub fn digest_parts(chunks: &Vec<Vec<u8>>) -> (r: String)
    ensures
        r@ == sha256_hex(concat(chunks@.map_values(|c: Vec<u8>| c@))),
{
    let ghost views = chunks@.map_values(|c: Vec<u8>| c@);
    let mut all: Vec<u8> = Vec::new();
    let mut i: usize = 0;
    assert(views.take(0) =~= seq![]);
    while i < chunks.len()
        invariant
            i <= chunks.len(),
            views == chunks@.map_values(|c: Vec<u8>| c@),
            all@ == concat(views.take(i as int)),
        decreases chunks.len() - i,
    {
        let chunk = &chunks[i];
        let ghost before = all@;
        let mut j: usize = 0;
        while j < chunk.len()
            invariant
                j <= chunk.len(),
                all@ == before + chunk@.take(j as int),
            decreases chunk.len() - j,
        {
            all.push(chunk[j]);
            assert(chunk@.take(j + 1) =~= chunk@.take(j as int).push(chunk@[j as int]));
            j = j + 1;
        }
        assert(chunk@.take(chunk.len() as int) =~= chunk@);
        assert(views.take(i + 1).drop_last() =~= views.take(i as int));
        i = i + 1;
    }
    assert(views.take(chunks.len() as int) =~= views);
    hash(all.as_slice())
}

/// Two snapshots are the same version of a file: same native identity, size,
/// modification time, creation time and content hash.
pub open spec fn same_version_spec(a: Snapshot, b: Snapshot) -> bool {
    &&& a.identity@ == b.identity@
    &&& a.size_bytes == b.size_bytes
    &&& a.modified_ns@ == b.modified_ns@
    &&& opt_text(a.created_at) == opt_text(b.created_at)
    &&& a.sha256@ == b.sha256@
}

fn same_opt_text(a: &Option<String>, b: &Option<String>) -> (r: bool)
    ensures
        r == (opt_text(*a) == opt_text(*b)),
{
    match (a, b) {
        (Some(x), Some(y)) => *x == *y,
        (None, None) => true,
        _ => false,
    }
}

pub fn same_version(a: &Snapshot, b: &Snapshot) -> (r: bool)
    ensures
        r == same_version_spec(*a, *b),
{
    a.identity == b.identity && a.size_bytes == b.size_bytes && a.modified_ns == b.modified_ns
        && same_opt_text(&a.created_at, &b.created_at) && a.sha256 == b.sha256
}

/// The error a failed snapshot becomes when a plan's input is rechecked: its
/// code and message (`code: message`) under the code `PLAN_STALE`.
pub open spec fn stale_from(e: ErrorView) -> ErrorView {
    fault("PLAN_STALE"@, e.code + ": "@ + e.message)
}

/// What rechecking an expected input against a fresh snapshot of its path
/// gives.
pub open spec fn verify_outcome(expected: Snapshot, actual: Result<Snapshot, Error>) -> Option<ErrorView> {
    match actual {
        Err(e) => Some(stale_from(e@)),
        Ok(s) => if same_version_spec(expected, s) {
            None
        } else {
            Some(fault("PLAN_STALE"@, "input changed: "@ + path_text(expected.path@)))
        },
    }
}

/// Checks that a file is still the version a plan was made from, given a fresh
/// snapshot of its path (or the error taking it gave).
pub fn verify(expected: &Snapshot, actual: Result<Snapshot, Error>) -> (r: Result<(), Error>)
    ensures
        match r {
            Ok(()) => verify_outcome(*expected, actual) is None,
            Err(e) => verify_outcome(*expected, actual) == Some(e@),
        },
{
    match actual {
        Err(e) => {
            let mut m = e.code.clone();
            m.append(": ");
            m.append(e.message.as_str());
            Err(Error::with_message("PLAN_STALE", m))
        },
        Ok(s) => {
            if same_version(expected, &s) {
                Ok(())
            } else {
                let p = expected.path.display();
                Err(Error::detailed("PLAN_STALE", "input changed: ", p.as_str()))
            }
        },
    }
}

/// Rechecking a file that has not changed passes.
pub proof fn law_unchanged_input_verifies(s: Snapshot)
    ensures
        verify_outcome(s, Ok(s)) is None,
{
}

/// Changed content makes a plan stale even when size and modification time
/// are unchanged.
pub proof fn law_changed_content_is_stale(expected: Snapshot, actual: Snapshot)
    requires
        actual.sha256@ != expected.sha256@,
    ensures
        verify_outcome(expected, Ok(actual)) matches Some(e) && e.code == "PLAN_STALE"@,
{
}

/// The largest integer that JavaScript represents exactly.
pub const MAX_SAFE_INTEGER: u64 = 9_007_199_254_740_991;

/// What rules see of a snapshot: the file name, its stem, its lower-case
/// extension (empty where it has none), size, timestamps and path.
pub open spec fn context_fits(s: Snapshot, reason: Seq<char>, now: Seq<char>, ev: Evaluation) -> bool {
    let name = s.path@.last();
    let split = stem_and_extension(name);
    &&& ev.file.file_ref@ == "input"@
    &&& ev.file.name@ == name
    &&& ev.file.stem@ == split.0
    &&& ev.file.extension@ == match split.1 {
        Some(x) => ascii_lower(x),
        None => seq![],
    }
    &&& ev.file.size_bytes == s.size_bytes
    &&& opt_text(ev.file.modified_at) == opt_text(s.modified_at)
    &&& opt_text(ev.file.created_at) == opt_text(s.created_at)
    &&& opt_text(ev.file.path) == Some(path_text(s.path@))
    &&& ev.event.reason@ == reason
    &&& ev.now@ == now
}

fn clone_text(o: &Option<String>) -> (r: Option<String>)
    ensures
        opt_text(r) == opt_text(*o),
{
    match o {
        Some(s) => Some(s.clone()),
        None => None,
    }
}

/// Builds the evaluation input of a snapshot; `now` is the evaluation time as
/// RFC 3339 text.
pub fn context(s: &Snapshot, reason: &str, now: String) -> (r: Result<Evaluation, Error>)
    ensures
        match r {
            Ok(ev) => s.path@.len() > 0 && s.size_bytes <= MAX_SAFE_INTEGER && context_fits(*s, reason@, now@, ev),
            Err(e) => if s.path@.len() == 0 {
                e@ == fault("NON_UTF8_PATH"@, "file name is not valid Unicode"@)
            } else {
                s.size_bytes > MAX_SAFE_INTEGER && e@ == fault(
                    "INTEGER_RANGE"@,
                    "file size exceeds JavaScript safe integer range"@,
                )
            },
        },
{
    let name = match s.path.file_name() {
        Some(n) => n,
        None => {
            return Err(Error::new("NON_UTF8_PATH", "file name is not valid Unicode"));
        },
    };
    let (stem, ext) = split_name(name.as_str());
    let extension = match ext {
        Some(x) => to_ascii_lowercase(x.as_str()),
        None => String::new(),
    };
    if s.size_bytes > MAX_SAFE_INTEGER {
        return Err(Error::new("INTEGER_RANGE", "file size exceeds JavaScript safe integer range"));
    }
    Ok(Evaluation {
        file: FileContext {
            file_ref: "input".to_owned(),
            name,
            stem,
            extension,
            size_bytes: s.size_bytes,
            modified_at: clone_text(&s.modified_at),
            created_at: clone_text(&s.created_at),
            path: Some(s.path.display()),
        },
        event: Event { reason: reason.to_owned() },
        now,
    })
}

} // verus!
