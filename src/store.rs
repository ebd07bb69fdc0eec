//! The store on disk: where each record lives, how HEAD and branch refs are
//! read and rewritten, and the content store's write-once objects.
//!
//! The functions here decide; the caller performs the reads and writes that
//! they name, each write atomically (temporary file, then rename).

use vstd::prelude::*;
use crate::digest::{sha256_hex, sha256_hex_of, zstd_encode, zstd_encoded, zstd_decode, zstd_decoded, zstd_decodes};
use crate::text::{count_lines_bytes, line_count, strip_prefix, strip_prefix_str, trim, trim_str};
use crate::types::{FileEntry, Manifest, PassengerConfig, PassengerError};

verus! {

/// A store rooted at a directory; its metadata lives under `.passenger`.
#[derive(Debug, Clone)]
pub struct PassengerStore {
    pub root: String,
}

/// Whether HEAD names a branch or a commit.
#[derive(Debug, Clone, Copy, PartialEq, Eq, Structural)]
pub enum HeadKind {
    Ref,
    Detached,
}

/// HEAD, resolved.
#[derive(Debug, Clone)]
pub struct HeadInfo {
    pub passenger_version: String,
    pub version_dir: String,
    pub head_kind: HeadKind,
    /// The branch HEAD names, or `(detached)`.
    pub branch: String,
    /// The commit HEAD stands on; none on a branch without commits.
    pub head_commit: Option<String>,
}

/// A whole-file write for the caller to perform atomically.
#[derive(Debug, Clone)]
pub struct FileWrite {
    pub path: String,
    pub contents: String,
}

/// A compressed object for the caller to write atomically, once.
#[derive(Debug, Clone)]
pub struct ObjectWrite {
    pub path: String,
    pub data: Vec<u8>,
}

/// `b` appended to the directory `a`.
pub open spec fn join(a: Seq<char>, b: Seq<char>) -> Seq<char> {
    a + seq!['/'] + b
}

pub proof fn lemma_join_injective(a: Seq<char>, b: Seq<char>, c: Seq<char>)
    ensures
        join(a, b) == join(a, c) ==> b == c,
{
    if join(a, b) == join(a, c) {
        assert(b =~= join(a, b).subrange(a.len() as int + 1, join(a, b).len() as int));
        assert(c =~= join(a, c).subrange(a.len() as int + 1, join(a, c).len() as int));
    }
}

pub(crate) fn join_str(a: &str, b: &str) -> (r: String)
    ensures
        r@ == join(a@, b@),
{
    let s = String::from_str(a).concat("/");
    proof {
        reveal_strlit("/");
    }
    s.concat(b)
}

pub open spec fn passenger_dir_of(root: Seq<char>) -> Seq<char> {
    join(root, ".passenger"@)
}

pub open spec fn version_dir_of(root: Seq<char>, version: Seq<char>) -> Seq<char> {
    join(join(passenger_dir_of(root), "snapshots"@), seq!['V'] + version)
}

pub open spec fn head_path_of(vd: Seq<char>) -> Seq<char> {
    join(vd, "HEAD"@)
}

pub open spec fn ref_path_of(vd: Seq<char>, branch: Seq<char>) -> Seq<char> {
    join(join(vd, "refs"@), branch)
}

pub open spec fn commit_path_of(vd: Seq<char>, id: Seq<char>) -> Seq<char> {
    join(join(vd, "commits"@), id + ".json"@)
}

pub open spec fn objects_dir_of(root: Seq<char>) -> Seq<char> {
    join(passenger_dir_of(root), "objects/sha256"@)
}

/// Objects are sharded by the first two and the next two hex digits.
pub open spec fn object_path_of(root: Seq<char>, hash: Seq<char>) -> Seq<char> {
    join(join(join(objects_dir_of(root), hash.subrange(0, 2)), hash.subrange(2, 4)), hash + ".zst"@)
}

/// HEAD text that names a branch.
pub open spec fn symbolic_head(branch: Seq<char>) -> Seq<char> {
    "ref: refs/"@ + branch
}

/// The branch that a HEAD text names, if it names one.
pub open spec fn head_branch_of(head_txt: Seq<char>) -> Option<Seq<char>> {
    match strip_prefix(trim(head_txt), "ref: "@) {
        Some(rest) => {
            let r = trim(rest);
            Some(
                match strip_prefix(r, "refs/"@) {
                    Some(b) => b,
                    None => r,
                },
            )
        },
        None => None,
    }
}

/// The commit a ref or a detached HEAD holds: its trimmed text, if non-empty.
pub open spec fn commit_of(txt: Option<Seq<char>>) -> Option<Seq<char>> {
    match txt {
        Some(t) => if trim(t).len() == 0 {
            None
        } else {
            Some(trim(t))
        },
        None => None,
    }
}

/// Views of an optional string.
pub open spec fn opt_view(o: Option<String>) -> Option<Seq<char>> {
    match o {
        Some(s) => Some(s@),
        None => None,
    }
}

/// Views of an optional string slice.
pub open spec fn opt_str_view(o: Option<&str>) -> Option<Seq<char>> {
    match o {
        Some(s) => Some(s@),
        None => None,
    }
}

/// The label of a detached HEAD.
pub open spec fn detached_label() -> Seq<char> {
    "(detached)"@
}

fn commit_of_text(txt: Option<&str>) -> (r: Option<String>)
    ensures
        opt_view(r) == commit_of(opt_str_view(txt)),
{
    match txt {
        Some(t) => {
            let s = trim_str(t);
            if s.unicode_len() == 0 {
                None
            } else {
                Some(s)
            }
        },
        None => None,
    }
}

impl PassengerStore {
    /// The metadata directory of a store rooted at `root`.
    pub fn passenger_dir(root: &str) -> (r: String)
        ensures
            r@ == passenger_dir_of(root@),
    {
        join_str(root, ".passenger")
    }

    /// Opens the store at `root`; it must have been initialised, which the
    /// caller tells by whether the metadata directory exists.
    pub fn open(root: &str, metadata_dir_exists: bool) -> (r: Result<Self, PassengerError>)
        ensures
            metadata_dir_exists <==> r is Ok,
            r is Ok ==> r->Ok_0.root@ == root@,
            r is Err ==> r->Err_0 is NotInitialized,
    {
        if !metadata_dir_exists {
            return Err(PassengerError::NotInitialized);
        }
        Ok(PassengerStore { root: String::from_str(root) })
    }

    pub fn config_path(&self) -> (r: String)
        ensures
            r@ == join(passenger_dir_of(self.root@), "config.toml"@),
    {
        join_str(Self::passenger_dir(self.root.as_str()).as_str(), "config.toml")
    }

    pub fn state_path(&self) -> (r: String)
        ensures
            r@ == join(passenger_dir_of(self.root@), "state.json"@),
    {
        join_str(Self::passenger_dir(self.root.as_str()).as_str(), "state.json")
    }

    pub fn objects_dir(&self) -> (r: String)
        ensures
            r@ == objects_dir_of(self.root@),
    {
        join_str(Self::passenger_dir(self.root.as_str()).as_str(), "objects/sha256")
    }

    /// The directory of one store-format version's snapshots.
    pub fn version_dir(&self, passenger_version: &str) -> (r: String)
        ensures
            r@ == version_dir_of(self.root@, passenger_version@),
    {
        let snapshots = join_str(Self::passenger_dir(self.root.as_str()).as_str(), "snapshots");
        let v = String::from_str("V").concat(passenger_version);
        proof {
            reveal_strlit("V");
        }
        join_str(snapshots.as_str(), v.as_str())
    }

    pub fn head_path(version_dir: &str) -> (r: String)
        ensures
            r@ == head_path_of(version_dir@),
    {
        join_str(version_dir, "HEAD")
    }

    pub fn ref_path(version_dir: &str, branch: &str) -> (r: String)
        ensures
            r@ == ref_path_of(version_dir@, branch@),
    {
        join_str(join_str(version_dir, "refs").as_str(), branch)
    }

    pub fn commit_path(version_dir: &str, id: &str) -> (r: String)
        ensures
            r@ == commit_path_of(version_dir@, id@),
    {
        let file = String::from_str(id).concat(".json");
        join_str(join_str(version_dir, "commits").as_str(), file.as_str())
    }

    /// Where a stored object lives.
    pub fn object_path(&self, hash: &str) -> (r: String)
        requires
            hash@.len() >= 4,
        ensures
            r@ == object_path_of(self.root@, hash@),
    {
        let a = hash.substring_char(0, 2);
        let b = hash.substring_char(2, 4);
        let file = String::from_str(hash).concat(".zst");
        let d = join_str(join_str(self.objects_dir().as_str(), a).as_str(), b);
        join_str(d.as_str(), file.as_str())
    }

    /// The branch that a HEAD text names, if it names one.
    pub fn head_branch(head_txt: &str) -> (r: Option<String>)
        ensures
            opt_view(r) == head_branch_of(head_txt@),
    {
        let t = trim_str(head_txt);
        match strip_prefix_str(t.as_str(), "ref: ") {
            Some(rest) => {
                let r = trim_str(rest.as_str());
                match strip_prefix_str(r.as_str(), "refs/") {
                    Some(b) => Some(b),
                    None => Some(r),
                }
            },
            None => None,
        }
    }

    /// Resolves HEAD from its text and, when it names a branch, the text of
    /// that branch's ref file (none when the file is missing).
    pub fn resolve_head(&self, cfg: &PassengerConfig, head_txt: &str, ref_txt: Option<&str>) -> (r: HeadInfo)
        ensures
            r.passenger_version@ == cfg.passenger_version@,
            r.version_dir@ == version_dir_of(self.root@, cfg.passenger_version@),
            match head_branch_of(head_txt@) {
                Some(b) => {
                    &&& r.head_kind == HeadKind::Ref
                    &&& r.branch@ == b
                    &&& opt_view(r.head_commit) == commit_of(opt_str_view(ref_txt))
                },
                None => {
                    &&& r.head_kind == HeadKind::Detached
                    &&& r.branch@ == detached_label()
                    &&& opt_view(r.head_commit) == commit_of(Some(head_txt@))
                },
            },
    {
        let vd = self.version_dir(cfg.passenger_version.as_str());
        match Self::head_branch(head_txt) {
            Some(branch) => {
                HeadInfo {
                    passenger_version: cfg.passenger_version.clone(),
                    version_dir: vd,
                    head_kind: HeadKind::Ref,
                    branch,
                    head_commit: commit_of_text(ref_txt),
                }
            },
            None => {
                HeadInfo {
                    passenger_version: cfg.passenger_version.clone(),
                    version_dir: vd,
                    head_kind: HeadKind::Detached,
                    branch: String::from_str("(detached)"),
                    head_commit: commit_of_text(Some(head_txt)),
                }
            },
        }
    }

    /// Creates branch `name` at `from`, or else at HEAD's commit, or empty.
    /// Fails when the branch's ref file exists.
    pub fn create_branch(&self, head: &HeadInfo, name: &str, from: Option<&str>, ref_exists: bool) -> (r: Result<FileWrite, PassengerError>)
        ensures
            ref_exists <==> r is Err,
            r is Err ==> r->Err_0 is AlreadyExists,
            r is Ok ==> r->Ok_0.path@ == ref_path_of(head.version_dir@, name@),
            r is Ok ==> r->Ok_0.contents@ == match from {
                Some(id) => id@,
                None => match head.head_commit {
                    Some(c) => c@,
                    None => Seq::<char>::empty(),
                },
            },
    {
        if ref_exists {
            return Err(PassengerError::AlreadyExists(String::from_str(name)));
        }
        let contents = match from {
            Some(id) => String::from_str(id),
            None => match &head.head_commit {
                Some(c) => c.clone(),
                None => String::new(),
            },
        };
        Ok(FileWrite { path: Self::ref_path(head.version_dir.as_str(), name), contents })
    }

    /// Points HEAD at branch `name`; fails when the branch's ref file is missing.
    pub fn checkout_branch(&self, head: &HeadInfo, name: &str, ref_exists: bool) -> (r: Result<FileWrite, PassengerError>)
        ensures
            ref_exists <==> r is Ok,
            r is Err ==> r->Err_0 is NotFound,
            r is Ok ==> r->Ok_0.path@ == head_path_of(head.version_dir@),
            r is Ok ==> r->Ok_0.contents@ == symbolic_head(name@),
    {
        if !ref_exists {
            return Err(PassengerError::NotFound(String::from_str(name)));
        }
        let contents = String::from_str("ref: refs/").concat(name);
        Ok(FileWrite { path: Self::head_path(head.version_dir.as_str()), contents })
    }

    /// Points HEAD directly at a commit.
    pub fn detach_head(&self, head: &HeadInfo, snapshot_id: &str) -> (r: FileWrite)
        ensures
            r.path@ == head_path_of(head.version_dir@),
            r.contents@ == snapshot_id@,
    {
        FileWrite { path: Self::head_path(head.version_dir.as_str()), contents: String::from_str(snapshot_id) }
    }
}

/// The compression level of stored objects.
pub const OBJECT_LEVEL: i32 = 3;

/// Whether a path, given by its components, lies in the store's own
/// metadata directory or in a build-output directory, which are never tracked.
pub open spec fn is_ignored(components: Seq<Seq<char>>) -> bool {
    exists|k: int| 0 <= k < components.len() && (#[trigger] components[k] == ".passenger"@ || components[k] == "target"@)
}

/// What `put` yields for `bytes`: their hash, and the object to write
/// unless one is present at their path.
pub open spec fn put_outcome(
    root: Seq<char>,
    bytes: Seq<u8>,
    present: bool,
    r: Result<(String, Option<ObjectWrite>), PassengerError>,
) -> bool {
    &&& (r is Ok ==> r->Ok_0.0@ == sha256_hex(bytes))
    &&& (present ==> r is Ok && r->Ok_0.1 is None)
    &&& (r is Err ==> !present && r->Err_0 is Io)
    &&& (!present && r is Ok ==> r->Ok_0.1 is Some
        && r->Ok_0.1->Some_0.path@ == object_path_of(root, sha256_hex(bytes))
        && r->Ok_0.1->Some_0.data@ == zstd_encoded(bytes, OBJECT_LEVEL as int)
        && zstd_decodes(r->Ok_0.1->Some_0.data@) && zstd_decoded(r->Ok_0.1->Some_0.data@) == bytes)
}

impl PassengerStore {
    /// Whether a path, given by its components, is skipped by the manifest builder.
    pub fn is_ignored_path(components: &Vec<String>) -> (r: bool)
        ensures
            r == is_ignored(components@.map_values(|c: String| c@)),
    {
        let ghost cs = components@.map_values(|c: String| c@);
        let n = components.len();
        let mut i: usize = 0;
        while i < n
            invariant
                n == components@.len(),
                cs == components@.map_values(|c: String| c@),
                i <= n,
                forall|k: int| 0 <= k < i ==> !(#[trigger] cs[k] == ".passenger"@ || cs[k] == "target"@),
            decreases n - i,
        {
            if crate::text::str_eq(components[i].as_str(), ".passenger") || crate::text::str_eq(components[i].as_str(), "target") {
                assert(cs[i as int] == components@[i as int]@);
                return true;
            }
            i = i + 1;
        }
        false
    }

    /// The manifest entry of a file's bytes: digest, length and line count.
    pub fn ingest_file(&self, bytes: &[u8]) -> (r: FileEntry)
        ensures
            r.hash@ == sha256_hex(bytes@),
            r.hash@.len() == 64,
            r.bytes == bytes@.len(),
            r.lines == line_count(bytes@),
    {
        let hash = sha256_hex_of(bytes);
        let lines = count_lines_bytes(bytes);
        FileEntry { hash, bytes: bytes.len() as u64, lines: lines as u64 }
    }

    /// Where the object holding `bytes` lives.
    pub fn object_path_for(&self, bytes: &[u8]) -> (r: String)
        ensures
            r@ == object_path_of(self.root@, sha256_hex(bytes@)),
    {
        let hash = sha256_hex_of(bytes);
        self.object_path(hash.as_str())
    }

    /// The object to write for `bytes` under `hash`: none when one is
    /// present already (objects are write-once), else the compressed bytes.
    pub fn write_object_if_missing(&self, hash: &str, bytes: &[u8], present: bool) -> (r: Result<Option<ObjectWrite>, PassengerError>)
        requires
            hash@.len() >= 4,
        ensures
            present ==> r is Ok && r->Ok_0 is None,
            r is Err ==> !present && r->Err_0 is Io,
            !present && r is Ok ==> r->Ok_0 is Some
                && r->Ok_0->Some_0.path@ == object_path_of(self.root@, hash@)
                && r->Ok_0->Some_0.data@ == zstd_encoded(bytes@, OBJECT_LEVEL as int)
                && zstd_decodes(r->Ok_0->Some_0.data@) && zstd_decoded(r->Ok_0->Some_0.data@) == bytes@,
    {
        if present {
            return Ok(None);
        }
        let path = self.object_path(hash);
        match zstd_encode(bytes, OBJECT_LEVEL) {
            Ok(data) => Ok(Some(ObjectWrite { path, data })),
            Err(e) => Err(PassengerError::Io(e.to_string())),
        }
    }

    /// Stores `bytes` in the content store: their hash, and the object to
    /// write unless one is `present` at their path already.
    pub fn put(&self, bytes: &[u8], present: bool) -> (r: Result<(String, Option<ObjectWrite>), PassengerError>)
        ensures
            put_outcome(self.root@, bytes@, present, r),
    {
        let hash = sha256_hex_of(bytes);
        let w = self.write_object_if_missing(hash.as_str(), bytes, present)?;
        Ok((hash, w))
    }

    /// The bytes of a stored object from its compressed form.
    pub fn read_object(&self, compressed: &[u8]) -> (r: Result<Vec<u8>, PassengerError>)
        ensures
            r is Ok <==> zstd_decodes(compressed@),
            r is Ok ==> r->Ok_0@ == zstd_decoded(compressed@),
            r is Err ==> r->Err_0 is Io,
    {
        match zstd_decode(compressed) {
            Ok(b) => Ok(b),
            Err(e) => Err(PassengerError::Io(e.to_string())),
        }
    }

    /// Records a tracked file in `manifest` under its path relative to the
    /// store root, and yields the object to write for its bytes, if any.
    pub fn record_file(&self, manifest: &mut Manifest, rel: String, bytes: &[u8], present: bool) -> (r: Result<Option<ObjectWrite>, PassengerError>)
        requires
            old(manifest).wf(),
        ensures
            r is Ok ==> final(manifest).wf() && final(manifest).kind == old(manifest).kind
                && final(manifest).base == old(manifest).base && final(manifest).deleted == old(manifest).deleted,
            r is Ok ==> final(manifest).entry(rel@) is Some && ({
                let e = final(manifest).entry(rel@)->Some_0;
                &&& e.hash@ == sha256_hex(bytes@)
                &&& e.bytes == bytes@.len()
                &&& e.lines == line_count(bytes@)
            }),
            r is Ok ==> forall|q: Seq<char>| q != rel@ ==> #[trigger] final(manifest).entry(q) == old(manifest).entry(q),
            r is Ok ==> (r->Ok_0 is None <==> present),
            r is Ok && r->Ok_0 is Some ==> r->Ok_0->Some_0.path@ == object_path_of(self.root@, sha256_hex(bytes@))
                && r->Ok_0->Some_0.data@ == zstd_encoded(bytes@, OBJECT_LEVEL as int)
                && zstd_decodes(r->Ok_0->Some_0.data@) && zstd_decoded(r->Ok_0->Some_0.data@) == bytes@,
            r is Err ==> !present && r->Err_0 is Io && *final(manifest) == *old(manifest),
    {
        let entry = self.ingest_file(bytes);
        let w = self.write_object_if_missing(entry.hash.as_str(), bytes, present)?;
        manifest.insert_file(rel, entry);
        Ok(w)
    }
}

} // verus!
