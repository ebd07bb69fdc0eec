//! Properties that relate several operations of the store.

use vstd::prelude::*;
use crate::checkpoint::{CheckpointStart, InitPlan, chain_hash, init_outcome, layout_outcome, sealed};
use crate::state::commit_id;
use crate::digest::{zstd_decoded, zstd_decodes};
use crate::stats::{changed_paths_of, law_changed_paths_exact};
use crate::types::Manifest;
use crate::store::{
    FileWrite, ObjectWrite, commit_of, head_branch_of, join, lemma_join_injective, object_path_of, opt_view,
    put_outcome, ref_path_of,
};
use crate::text::{is_white_space, strip_prefix, trim, trim_end, trim_start};
use crate::types::{PassengerCommit, PassengerError, PassengerState};

verus! {

/// Running `init` twice yields the configuration and state of the first
/// run: the second run finds them on disk and writes neither, and finding
/// the default ref and HEAD in place it rewrites no ref and no HEAD.
pub proof fn law_init_idempotent(
    root: Seq<char>,
    t1: i64,
    t2: i64,
    first: InitPlan,
    second: InitPlan,
    writes: Seq<FileWrite>,
)
    requires
        init_outcome(None, false, t1, first),
        init_outcome(Some(first.config), true, t2, second),
        layout_outcome(root, second.config, true, true, writes),
    ensures
        first.write_config,
        first.state is Some,
        !second.write_config,
        second.config == first.config,
        second.state is None,
        writes.len() == 0,
{
}

/// Putting the same bytes twice yields the same hash both times; once the
/// first put's object is written at its path, the second writes nothing.
pub proof fn law_put_writes_once(
    root: Seq<char>,
    bytes: Seq<u8>,
    first: Result<(String, Option<ObjectWrite>), PassengerError>,
    second: Result<(String, Option<ObjectWrite>), PassengerError>,
)
    requires
        put_outcome(root, bytes, false, first),
        first is Ok,
        put_outcome(root, bytes, true, second),
    ensures
        second is Ok,
        second->Ok_0.0@ == first->Ok_0.0@,
        first->Ok_0.1->Some_0.path@ == object_path_of(root, second->Ok_0.0@),
        second->Ok_0.1 is None,
{
}

/// Reading back the object that a put wrote gives the bytes put: its
/// stored form decodes, to exactly those bytes.
pub proof fn law_get_after_put(
    root: Seq<char>,
    bytes: Seq<u8>,
    r: Result<(String, Option<ObjectWrite>), PassengerError>,
)
    requires
        put_outcome(root, bytes, false, r),
        r is Ok,
    ensures
        zstd_decodes(r->Ok_0.1->Some_0.data@),
        zstd_decoded(r->Ok_0.1->Some_0.data@) == bytes,
{
}

/// When a manifest of one file is followed by one of the same single path
/// whose contents hash differently, exactly one path has changed.
pub proof fn law_single_file_edit_changes_one(old: Manifest, new: Manifest)
    requires
        old.wf(),
        new.wf(),
        old.files@.len() == 1,
        new.files@.len() == 1,
        old.files@[0].0@ == new.files@[0].0@,
        old.files@[0].1.hash@ != new.files@[0].1.hash@,
    ensures
        changed_paths_of(old, new).len() == 1,
        changed_paths_of(old, new)[0] == new.files@[0].0@,
{
    let p = new.files@[0].0@;
    law_changed_paths_exact(old, new);
    crate::manifest::lemma_find_at(old.files@, 0);
    crate::manifest::lemma_find_at(new.files@, 0);
    let t = changed_paths_of(old, new);
    assert(t.contains(p));
    assert forall|k: int| 0 <= k < t.len() implies t[k] == p by {
        assert(t.contains(t[k]));
        if t[k] != p {
            crate::manifest::lemma_find_absent(old.files@, t[k]);
            crate::manifest::lemma_find_absent(new.files@, t[k]);
        }
    }
    if t.len() >= 2 {
        assert(t[0] == t[1]);
    }
}

/// A commit built on a parent and then sealed carries the parent's hash as
/// its previous hash, and recomputing its hash from its content (hash
/// cleared) and that previous hash gives the stored hash.
pub proof fn law_commit_chain(parent: PassengerCommit, built: PassengerCommit, content: Seq<u8>, commit: PassengerCommit)
    requires
        opt_view(built.prev_hash) == Some(parent.hash@),
        sealed(built, content, commit),
    ensures
        opt_view(commit.prev_hash) == Some(parent.hash@),
        commit.hash@ == chain_hash(content, Some(parent.hash@)),
        commit.hash@ == chain_hash(content, opt_view(commit.prev_hash)),
{
}

/// Two ids handed out one after the other on a version are consecutive,
/// and handing one out on another version leaves the version's counter.
pub proof fn law_sequence_consecutive(
    s0: PassengerState,
    s1: PassengerState,
    s2: PassengerState,
    v: Seq<char>,
    id1: Seq<char>,
    id2: Seq<char>,
)
    requires
        PassengerState::allocates(s0, v, s1, id1),
        PassengerState::allocates(s1, v, s2, id2),
    ensures
        id1 == commit_id(s0.next_of(v)),
        id2 == commit_id(s0.next_of(v) + 1),
        s2.next_of(v) == s0.next_of(v) + 2,
{
}

/// Handing out an id on version `w` leaves the counter of version `v`.
pub proof fn law_sequence_per_version(s0: PassengerState, s1: PassengerState, v: Seq<char>, w: Seq<char>, id: Seq<char>)
    requires
        PassengerState::allocates(s0, w, s1, id),
        v != w,
    ensures
        s1.next_of(v) == s0.next_of(v),
{
}

/// A checkpoint on one branch writes only that branch's ref: the ref of any
/// other branch is not its target.
pub proof fn law_checkpoint_keeps_other_refs(vd: Seq<char>, target: Seq<char>, other: Seq<char>, start: CheckpointStart)
    requires
        start.ref_path@ == ref_path_of(vd, target),
        target != other,
    ensures
        start.ref_path@ != ref_path_of(vd, other),
{
    lemma_join_injective(join(vd, "refs"@), target, other);
}

/// After HEAD is detached at commit id `x`, resolving HEAD finds no branch
/// in it and stands on `x`; ids with white space at either end, empty ids,
/// and ids starting `ref: ` are left out.
pub proof fn law_detach_resolves(x: Seq<char>)
    requires
        x.len() > 0,
        !is_white_space(x[0]),
        !is_white_space(x.last()),
        strip_prefix(x, "ref: "@) is None,
    ensures
        head_branch_of(x) is None,
        commit_of(Some(x)) == Some(x),
{
    assert(trim_start(x) == x);
    assert(trim_end(x) == x);
    assert(trim(x) == x);
}

} // verus!
