//! The commit chain and the checkpoint sequence: target branch, parent,
//! sequence id, stats, a hash chained to the parent's, and the ref advance.
//! Also the store's lifecycle: what `init` writes and the per-version layout.

use vstd::prelude::*;
use crate::digest::{sha256_hex, sha256_hex_of};
use crate::store::{
    FileWrite, HeadInfo, HeadKind, PassengerStore, commit_of, head_path_of, opt_view,
    ref_path_of, symbolic_head, version_dir_of, join,
};
use crate::stats::views;
use crate::types::{CommitStats, Manifest, PassengerCommit, PassengerConfig, PassengerError, PassengerState};

verus! {

/// Options of one checkpoint.
#[derive(Debug, Clone)]
pub struct CheckpointOptions {
    pub note: Option<String>,
    /// The branch to checkpoint on, instead of HEAD's.
    pub branch: Option<String>,
    /// Whether to keep the scan and analysis artifacts beside the commit.
    pub include_artifacts: bool,
    /// Roots to track instead of the configured ones.
    pub track_roots: Option<Vec<String>>,
}

impl CheckpointOptions {
    pub fn default() -> (r: Self)
        ensures
            r.note is None,
            r.branch is None,
            r.include_artifacts,
            r.track_roots is None,
    {
        CheckpointOptions { note: None, branch: None, include_artifacts: true, track_roots: None }
    }
}

/// The hash of a commit: SHA-256 over its serialised content (hash cleared),
/// followed by the UTF-8 bytes of the previous commit's hash when there is one.
pub open spec fn chain_hash(content: Seq<u8>, prev: Option<Seq<char>>) -> Seq<char> {
    match prev {
        Some(p) => sha256_hex(content + vstd::utf8::encode_utf8(p)),
        None => sha256_hex(content),
    }
}

/// Computes the chained hash of a commit from its serialised content.
pub fn compute_commit_hash(content: &[u8], prev_hash: Option<&String>) -> (r: String)
    ensures
        r@ == chain_hash(content@, match prev_hash {
            Some(p) => Some(p@),
            None => None,
        }),
{
    let mut buf: Vec<u8> = Vec::new();
    let n = content.len();
    let mut i: usize = 0;
    while i < n
        invariant
            n == content@.len(),
            i <= n,
            buf@ == content@.subrange(0, i as int),
        decreases n - i,
    {
        buf.push(content[i]);
        i = i + 1;
    }
    assert(content@.subrange(0, n as int) =~= content@);
    match prev_hash {
        Some(p) => {
            let pb = p.as_str().as_bytes();
            let m = pb.len();
            let mut k: usize = 0;
            while k < m
                invariant
                    m == pb@.len(),
                    k <= m,
                    buf@ == content@ + pb@.subrange(0, k as int),
                decreases m - k,
            {
                buf.push(pb[k]);
                k = k + 1;
                assert(buf@ =~= content@ + pb@.subrange(0, k as int));
            }
            assert(pb@.subrange(0, m as int) =~= pb@);
            sha256_hex_of(buf.as_slice())
        },
        None => sha256_hex_of(buf.as_slice()),
    }
}

/// The fields of two commits agree, but for the hash.
pub open spec fn same_but_hash(a: PassengerCommit, b: PassengerCommit) -> bool {
    &&& a.schema == b.schema
    &&& a.id == b.id
    &&& a.ts_ms == b.ts_ms
    &&& a.passenger_version == b.passenger_version
    &&& a.branch == b.branch
    &&& a.parents == b.parents
    &&& a.manifest == b.manifest
    &&& a.stats == b.stats
    &&& a.note == b.note
    &&& a.prev_hash == b.prev_hash
}

/// `new` is `old` with its hash set from `content` and its previous hash.
pub open spec fn sealed(old: PassengerCommit, content: Seq<u8>, new: PassengerCommit) -> bool {
    &&& same_but_hash(old, new)
    &&& new.hash@ == chain_hash(content, opt_view(old.prev_hash))
}

impl PassengerCommit {
    /// The parent that a log walk follows.
    pub fn first_parent(&self) -> (r: Option<String>)
        ensures
            self.parents@.len() == 0 ==> r is None,
            self.parents@.len() > 0 ==> r == Some(self.parents@[0]),
    {
        if self.parents.len() == 0 {
            None
        } else {
            Some(self.parents[0].clone())
        }
    }

    /// Sets the hash from the commit's serialised content, written while its
    /// hash was still empty.
    pub fn seal(&mut self, content: &[u8])
        ensures
            sealed(*old(self), content@, *final(self)),
    {
        let h = compute_commit_hash(content, self.prev_hash.as_ref());
        self.hash = h;
    }

    /// Whether the stored hash is the one its content and previous hash give.
    pub fn hash_matches(&self, content: &[u8]) -> (r: bool)
        ensures
            r == (self.hash@ == chain_hash(content@, opt_view(self.prev_hash))),
    {
        let h = compute_commit_hash(content, self.prev_hash.as_ref());
        crate::text::str_eq(h.as_str(), self.hash.as_str())
    }
}

/// The branch a checkpoint lands on: the override, else HEAD's branch, else
/// (HEAD detached) the configured default branch.
pub open spec fn target_branch_of(head: HeadInfo, cfg: PassengerConfig, branch: Option<String>) -> Seq<char> {
    match branch {
        Some(b) => b@,
        None => if head.head_kind == HeadKind::Ref {
            head.branch@
        } else {
            cfg.default_branch@
        },
    }
}

/// What the first steps of a checkpoint decided.
#[derive(Debug, Clone)]
pub struct CheckpointStart {
    pub target_branch: String,
    /// The ref file of the target branch.
    pub ref_path: String,
    /// The ref to create first, when the target branch has none yet.
    pub create_ref: Option<FileWrite>,
    pub parent_id: Option<String>,
    pub id: String,
}

impl PassengerStore {
    /// The branch a checkpoint lands on.
    pub fn target_branch(head: &HeadInfo, cfg: &PassengerConfig, opts: &CheckpointOptions) -> (r: String)
        ensures
            r@ == target_branch_of(*head, *cfg, opts.branch),
    {
        match &opts.branch {
            Some(b) => b.clone(),
            None => if head.head_kind == HeadKind::Ref {
                head.branch.clone()
            } else {
                cfg.default_branch.clone()
            },
        }
    }

    /// The roots a checkpoint tracks: the override, else the configured ones.
    pub fn effective_track_roots(cfg: &PassengerConfig, opts: &CheckpointOptions) -> (r: Vec<String>)
        ensures
            views(r@) == views(match opts.track_roots {
                Some(t) => t@,
                None => cfg.track_roots@,
            }),
    {
        let src = match &opts.track_roots {
            Some(t) => t,
            None => &cfg.track_roots,
        };
        let mut out: Vec<String> = Vec::new();
        let n = src.len();
        let mut i: usize = 0;
        while i < n
            invariant
                n == src@.len(),
                i <= n,
                views(out@) == views(src@.subrange(0, i as int)),
            decreases n - i,
        {
            let ghost before = out@;
            let c = src[i].clone();
            out.push(c);
            assert(views(out@) =~= views(before).push(src@[i as int]@));
            assert(src@.subrange(0, i + 1) =~= src@.subrange(0, i as int).push(src@[i as int]));
            assert(views(src@.subrange(0, i + 1)) =~= views(src@.subrange(0, i as int)).push(src@[i as int]@));
            i = i + 1;
        }
        assert(src@.subrange(0, n as int) =~= src@);
        out
    }

    /// First steps of a checkpoint, given HEAD and the target branch's ref
    /// file (whether it exists, and its text). The branch is created at
    /// HEAD's commit when it has no ref; the parent is the commit the branch
    /// stands on; the next sequence number of the configured version is
    /// taken from `st`.
    pub fn begin_checkpoint(
        &self,
        cfg: &PassengerConfig,
        st: &mut PassengerState,
        head: &HeadInfo,
        opts: &CheckpointOptions,
        ref_exists: bool,
        ref_txt: Option<&str>,
    ) -> (r: Result<CheckpointStart, PassengerError>)
        ensures
            r is Err <==> old(st).next_of(cfg.passenger_version@) >= u64::MAX,
            r is Err ==> r->Err_0 is Overflow && *final(st) == *old(st),
            r is Ok ==> ({
                let s = r->Ok_0;
                let target = target_branch_of(*head, *cfg, opts.branch);
                &&& s.target_branch@ == target
                &&& s.ref_path@ == ref_path_of(head.version_dir@, target)
                &&& (ref_exists <==> s.create_ref is None)
                &&& (!ref_exists ==> s.create_ref->Some_0.path@ == s.ref_path@
                    && s.create_ref->Some_0.contents@ == match head.head_commit {
                        Some(c) => c@,
                        None => Seq::<char>::empty(),
                    })
                &&& opt_view(s.parent_id) == (if ref_exists {
                    match ref_txt {
                        Some(t) => commit_of(Some(t@)),
                        None => None,
                    }
                } else {
                    opt_view(head.head_commit)
                })
                &&& PassengerState::allocates(*old(st), cfg.passenger_version@, *final(st), s.id@)
            }),
    {
        let target = Self::target_branch(head, cfg, opts);
        let ref_path = Self::ref_path(head.version_dir.as_str(), target.as_str());
        let (create_ref, parent_id) = if ref_exists {
            let p = match ref_txt {
                Some(t) => {
                    let c = crate::text::trim_str(t);
                    if c.unicode_len() == 0 {
                        None
                    } else {
                        Some(c)
                    }
                },
                None => None,
            };
            (None, p)
        } else {
            let w = match self.create_branch(head, target.as_str(), None, false) {
                Ok(w) => w,
                Err(e) => {
                    return Err(e);
                },
            };
            (Some(w), head.head_commit.clone())
        };
        let id = match st.allocate_id(cfg.passenger_version.as_str()) {
            Some(id) => id,
            None => {
                return Err(PassengerError::Overflow);
            },
        };
        Ok(CheckpointStart { target_branch: target, ref_path, create_ref, parent_id, id })
    }

    /// The commit of a checkpoint taken at `ts_ms`, unsealed: its parent is
    /// the one the start decided, and its previous hash is that parent's
    /// hash. Fails when the parent commit could not be read.
    pub fn finish_checkpoint(
        &self,
        cfg: &PassengerConfig,
        start: &CheckpointStart,
        ts_ms: i64,
        manifest: Manifest,
        stats: CommitStats,
        note: Option<String>,
        parent: Option<&PassengerCommit>,
    ) -> (r: Result<PassengerCommit, PassengerError>)
        ensures
            r is Err <==> (start.parent_id is Some && parent is None),
            r is Err ==> r->Err_0 is NotFound,
            r is Ok ==> ({
                let c = r->Ok_0;
                &&& c.schema == 1
                &&& c.ts_ms == ts_ms
                &&& c.id@ == start.id@
                &&& c.passenger_version@ == cfg.passenger_version@
                &&& c.branch@ == start.target_branch@
                &&& c.manifest == manifest
                &&& c.stats == stats
                &&& c.note == note
                &&& c.hash@.len() == 0
                &&& (start.parent_id is None ==> c.parents@.len() == 0 && c.prev_hash is None)
                &&& (start.parent_id is Some ==> views(c.parents@) == seq![start.parent_id->Some_0@]
                    && opt_view(c.prev_hash) == Some(parent->Some_0.hash@))
            }),
    {
        let (parents, prev_hash) = match &start.parent_id {
            None => (Vec::new(), None),
            Some(pid) => match parent {
                None => {
                    return Err(PassengerError::NotFound(pid.clone()));
                },
                Some(p) => {
                    let v = vec![pid.clone()];
                    assert(views(v@) =~= seq![pid@]);
                    (v, Some(p.hash.clone()))
                },
            },
        };
        Ok(PassengerCommit {
            schema: 1,
            id: start.id.clone(),
            ts_ms,
            passenger_version: cfg.passenger_version.clone(),
            branch: start.target_branch.clone(),
            parents,
            manifest,
            stats,
            note,
            prev_hash,
            hash: String::new(),
        })
    }

    /// The last step of a checkpoint: the target branch's ref moves to the commit.
    pub fn advance_ref(start: &CheckpointStart, commit: &PassengerCommit) -> (r: FileWrite)
        ensures
            r.path@ == start.ref_path@,
            r.contents@ == commit.id@,
    {
        FileWrite { path: start.ref_path.clone(), contents: commit.id.clone() }
    }

    /// The directories of the store and of the configured version.
    pub fn layout_dirs(&self, cfg: &PassengerConfig) -> (r: Vec<String>)
        ensures
            r@.len() == 5,
            r@[0]@ == crate::store::objects_dir_of(self.root@),
            r@[1]@ == join(version_dir_of(self.root@, cfg.passenger_version@), "refs"@),
            r@[2]@ == join(version_dir_of(self.root@, cfg.passenger_version@), "commits"@),
            r@[3]@ == join(version_dir_of(self.root@, cfg.passenger_version@), "artifacts"@),
            r@[4]@ == join(version_dir_of(self.root@, cfg.passenger_version@), "index"@),
    {
        let vd = self.version_dir(cfg.passenger_version.as_str());
        let mut out: Vec<String> = Vec::new();
        out.push(self.objects_dir());
        out.push(crate::store::join_str(vd.as_str(), "refs"));
        out.push(crate::store::join_str(vd.as_str(), "commits"));
        out.push(crate::store::join_str(vd.as_str(), "artifacts"));
        out.push(crate::store::join_str(vd.as_str(), "index"));
        out
    }

    /// The files the per-version layout still lacks: the default branch's
    /// ref (empty: no commits yet) and HEAD (naming the default branch).
    pub fn ensure_version_layout(&self, cfg: &PassengerConfig, default_ref_exists: bool, head_exists: bool) -> (r: Vec<FileWrite>)
        ensures
            layout_outcome(self.root@, *cfg, default_ref_exists, head_exists, r@),
    {
        let vd = self.version_dir(cfg.passenger_version.as_str());
        let mut out: Vec<FileWrite> = Vec::new();
        if !default_ref_exists {
            out.push(FileWrite { path: Self::ref_path(vd.as_str(), cfg.default_branch.as_str()), contents: String::new() });
        }
        if !head_exists {
            let contents = String::from_str("ref: refs/").concat(cfg.default_branch.as_str());
            out.push(FileWrite { path: Self::head_path(vd.as_str()), contents });
        }
        out
    }

    /// What `init` at `now_ms` writes: the default configuration when none
    /// exists, and a fresh state, seeded for the configuration in force, when
    /// none exists. Existing records are kept as they are.
    pub fn init(existing_config: Option<PassengerConfig>, state_exists: bool, now_ms: i64) -> (r: InitPlan)
        ensures
            init_outcome(existing_config, state_exists, now_ms, r),
    {
        let (config, write_config) = match existing_config {
            Some(c) => (c, false),
            None => (PassengerConfig::default(), true),
        };
        let state = if state_exists {
            None
        } else {
            Some(PassengerState::initial(&config, now_ms))
        };
        InitPlan { config, write_config, state }
    }
}

/// What `init` decides at `now_ms`, given the configuration on disk (if
/// any) and whether a state file exists.
pub open spec fn init_outcome(existing_config: Option<PassengerConfig>, state_exists: bool, now_ms: i64, r: InitPlan) -> bool {
    &&& (r.write_config <==> existing_config is None)
    &&& (existing_config is Some ==> r.config == existing_config->Some_0)
    &&& (existing_config is None ==> r.config.is_default())
    &&& (state_exists <==> r.state is None)
    &&& (r.state is Some ==> r.state->Some_0.is_fresh(r.config.passenger_version@, now_ms))
}

/// The writes that complete a version's layout: the default branch's empty
/// ref when missing, then HEAD naming the default branch when missing.
pub open spec fn layout_outcome(root: Seq<char>, cfg: PassengerConfig, ref_exists: bool, head_exists: bool, r: Seq<FileWrite>) -> bool {
    &&& r.len() == (if ref_exists { 0int } else { 1int }) + (if head_exists { 0int } else { 1int })
    &&& (!ref_exists ==> r[0].path@ == ref_path_of(version_dir_of(root, cfg.passenger_version@), cfg.default_branch@)
        && r[0].contents@.len() == 0)
    &&& (!head_exists ==> r.last().path@ == head_path_of(version_dir_of(root, cfg.passenger_version@))
        && r.last().contents@ == symbolic_head(cfg.default_branch@))
}

/// The records `init` writes.
#[derive(Debug, Clone)]
pub struct InitPlan {
    /// The configuration in force after `init`.
    pub config: PassengerConfig,
    /// Whether `config` must be written (none existed).
    pub write_config: bool,
    /// The state to write, when none existed.
    pub state: Option<PassengerState>,
}


} // verus!
