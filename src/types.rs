//! The store's records: configuration, mutable state, manifests and commits.

use vstd::prelude::*;

verus! {

/// Errors of the store.
#[derive(Debug, Clone)]
pub enum PassengerError {
    /// A read, write, compression or decompression failed.
    Io(String),
    /// A record could not be encoded or decoded.
    Serialization(String),
    /// The store's metadata directory is missing.
    NotInitialized,
    /// A branch, commit or object is missing.
    NotFound(String),
    /// A branch of that name exists already.
    AlreadyExists(String),
    /// A manifest kind or plan that this store does not handle.
    Unsupported(String),
    /// A counter would leave its integer range.
    Overflow,
}

/// Store configuration, written once when the store is created.
#[derive(Debug, Clone)]
pub struct PassengerConfig {
    pub schema: u32,
    /// The store-format version; snapshots live in a directory per version.
    pub passenger_version: String,
    pub default_branch: String,
    pub hash_algo: String,
    pub compress: bool,
    /// Paths, relative to the store root, that a checkpoint records.
    pub track_roots: Vec<String>,
}

/// Mutable store state: the next sequence number of each store-format version.
#[derive(Debug, Clone)]
pub struct PassengerState {
    pub schema: u32,
    pub created_ms: i64,
    /// Store-format version and its next sequence number; the first entry
    /// of a version holds its counter.
    pub next_seq: Vec<(String, u64)>,
}

/// One tracked file of a manifest.
#[derive(Debug, Clone)]
pub struct FileEntry {
    /// Hex digest of the file's bytes; the key of its stored object.
    pub hash: String,
    pub bytes: u64,
    pub lines: u64,
}

#[derive(Debug, Clone, Copy, PartialEq, Eq, Structural)]
pub enum ManifestKind {
    Full,
    Delta,
}

/// The tracked files of one commit, by path, in increasing path order.
#[derive(Debug, Clone)]
pub struct Manifest {
    pub kind: ManifestKind,
    pub base: Option<String>,
    pub files: Vec<(String, FileEntry)>,
    pub deleted: Vec<String>,
}

/// What a commit changed against its parent.
#[derive(Debug, Clone, Copy, PartialEq, Eq, Structural)]
pub struct CommitStats {
    pub changed_files: usize,
    pub added_lines: usize,
    pub removed_lines: usize,
    /// Reserved; always zero.
    pub paste_score: u32,
}

/// An immutable, hash-chained record of one checkpoint.
#[derive(Debug, Clone)]
pub struct PassengerCommit {
    pub schema: u32,
    /// `S` followed by the sequence number in at least six digits.
    pub id: String,
    pub ts_ms: i64,
    pub passenger_version: String,
    pub branch: String,
    pub parents: Vec<String>,
    pub manifest: Manifest,
    pub stats: CommitStats,
    pub note: Option<String>,
    pub prev_hash: Option<String>,
    pub hash: String,
}

impl PassengerConfig {
    /// Whether this is the configuration a new store starts with.
    pub open spec fn is_default(&self) -> bool {
        &&& self.schema == 1
        &&& self.passenger_version@ == seq!['0', '.', '1', '.', '0']
        &&& self.default_branch@ == seq!['m', 'a', 'i', 'n']
        &&& self.hash_algo@ == seq!['s', 'h', 'a', '2', '5', '6']
        &&& self.compress
        &&& self.track_roots@.len() == 2
        &&& self.track_roots@[0]@ == seq!['s', 'r', 'c']
        &&& self.track_roots@[1]@ == seq!['C', 'a', 'r', 'g', 'o', '.', 't', 'o', 'm', 'l']
    }

    /// The configuration a new store starts with.
    pub fn default() -> (r: Self)
        ensures
            r.is_default(),
    {
        proof {
            reveal_strlit("0.1.0");
            reveal_strlit("main");
            reveal_strlit("sha256");
            reveal_strlit("src");
            reveal_strlit("Cargo.toml");
        }
        let r = PassengerConfig {
            schema: 1,
            passenger_version: String::from_str("0.1.0"),
            default_branch: String::from_str("main"),
            hash_algo: String::from_str("sha256"),
            compress: true,
            track_roots: vec![String::from_str("src"), String::from_str("Cargo.toml")],
        };
        assert(r.passenger_version@ =~= seq!['0', '.', '1', '.', '0']);
        assert(r.default_branch@ =~= seq!['m', 'a', 'i', 'n']);
        assert(r.hash_algo@ =~= seq!['s', 'h', 'a', '2', '5', '6']);
        assert(r.track_roots@[0]@ =~= seq!['s', 'r', 'c']);
        assert(r.track_roots@[1]@ =~= seq!['C', 'a', 'r', 'g', 'o', '.', 't', 'o', 'm', 'l']);
        r
    }
}

} // verus!
