//! The stats engine: which paths changed between two manifests, and how many
//! lines were added and removed, from the stored contents of those paths.

use vstd::prelude::*;
use crate::digest::{LineTag, diff_line_tags, line_diff, lossy_text, utf8_lossy};
use crate::manifest::{find, lemma_find_at, lemma_find_present, paths_sorted};
use crate::text::{lemma_seq_lt_irreflexive, seq_lt};
use crate::text::{count_lines_bytes, line_count, str_eq};
use crate::types::{CommitStats, FileEntry, Manifest, ManifestKind, PassengerError};

verus! {

/// A path of the new manifest is changed when the old one lacks it or
/// records other contents under it.
pub open spec fn changed_against(e: (String, FileEntry), old: Seq<(String, FileEntry)>) -> bool {
    match find(old, e.0@) {
        None => true,
        Some(o) => o.hash@ != e.1.hash@,
    }
}

/// Changed paths of `s` (the new side), in order.
pub open spec fn changed_in_new(s: Seq<(String, FileEntry)>, old: Seq<(String, FileEntry)>) -> Seq<Seq<char>>
    decreases s.len(),
{
    if s.len() == 0 {
        Seq::empty()
    } else {
        let r = changed_in_new(s.drop_last(), old);
        if changed_against(s.last(), old) {
            r.push(s.last().0@)
        } else {
            r
        }
    }
}

/// Paths of `s` (the old side) that the new side lacks, in order.
pub open spec fn removed_in_new(s: Seq<(String, FileEntry)>, new: Seq<(String, FileEntry)>) -> Seq<Seq<char>>
    decreases s.len(),
{
    if s.len() == 0 {
        Seq::empty()
    } else {
        let r = removed_in_new(s.drop_last(), new);
        if find(new, s.last().0@) is None {
            r.push(s.last().0@)
        } else {
            r
        }
    }
}

/// The changed paths between two manifests: those of the new one that are
/// new or differ, then those of the old one that are gone.
pub open spec fn changed_paths_of(old: Manifest, new: Manifest) -> Seq<Seq<char>> {
    changed_in_new(new.files@, old.files@) + removed_in_new(old.files@, new.files@)
}

/// A path is changed when its contents differ or only one side has it.
pub open spec fn is_changed(old: Manifest, new: Manifest, p: Seq<char>) -> bool {
    match (old.entry(p), new.entry(p)) {
        (Some(o), Some(n)) => o.hash@ != n.hash@,
        (None, Some(_)) => true,
        (Some(_), None) => true,
        (None, None) => false,
    }
}

/// The stored contents under hash `h`, among fetched objects.
pub open spec fn blob(blobs: Seq<(String, Vec<u8>)>, h: Seq<char>) -> Option<Seq<u8>>
    decreases blobs.len(),
{
    if blobs.len() == 0 {
        None
    } else if blobs.last().0@ == h {
        Some(blobs.last().1@)
    } else {
        blob(blobs.drop_last(), h)
    }
}

/// How often `g` occurs in `t`.
pub open spec fn count_tag(t: Seq<LineTag>, g: LineTag) -> nat
    decreases t.len(),
{
    if t.len() == 0 {
        0
    } else {
        count_tag(t.drop_last(), g) + if t.last() == g { 1nat } else { 0nat }
    }
}

/// Added and removed lines between two contents of one path.
pub open spec fn content_delta(old: Option<Seq<u8>>, new: Option<Seq<u8>>) -> (nat, nat) {
    match (old, new) {
        (Some(o), Some(n)) => {
            let t = line_diff(lossy_text(o), lossy_text(n));
            (count_tag(t, LineTag::Insert), count_tag(t, LineTag::Delete))
        },
        (None, Some(n)) => (line_count(n), 0),
        (Some(o), None) => (0, line_count(o)),
        (None, None) => (0, 0),
    }
}

/// Whether every object that path `p` needs has been fetched.
pub open spec fn blobs_present(old: Manifest, new: Manifest, blobs: Seq<(String, Vec<u8>)>, p: Seq<char>) -> bool {
    &&& (old.entry(p) is Some ==> blob(blobs, old.entry(p)->Some_0.hash@) is Some)
    &&& (new.entry(p) is Some ==> blob(blobs, new.entry(p)->Some_0.hash@) is Some)
}

/// Added and removed lines of path `p`.
pub open spec fn path_delta(old: Manifest, new: Manifest, blobs: Seq<(String, Vec<u8>)>, p: Seq<char>) -> (nat, nat) {
    let ob = match old.entry(p) {
        Some(e) => blob(blobs, e.hash@),
        None => None,
    };
    let nb = match new.entry(p) {
        Some(e) => blob(blobs, e.hash@),
        None => None,
    };
    content_delta(ob, nb)
}

/// Sum of the added lines over `ps`.
pub open spec fn added_total(old: Manifest, new: Manifest, blobs: Seq<(String, Vec<u8>)>, ps: Seq<Seq<char>>) -> nat
    decreases ps.len(),
{
    if ps.len() == 0 {
        0
    } else {
        added_total(old, new, blobs, ps.drop_last()) + path_delta(old, new, blobs, ps.last()).0
    }
}

/// Sum of the removed lines over `ps`.
pub open spec fn removed_total(old: Manifest, new: Manifest, blobs: Seq<(String, Vec<u8>)>, ps: Seq<Seq<char>>) -> nat
    decreases ps.len(),
{
    if ps.len() == 0 {
        0
    } else {
        removed_total(old, new, blobs, ps.drop_last()) + path_delta(old, new, blobs, ps.last()).1
    }
}

/// Views of a list of strings.
pub open spec fn views(v: Seq<String>) -> Seq<Seq<char>> {
    v.map_values(|s: String| s@)
}

/// The paths that changed from `old` to `new`.
pub fn changed_paths(old: &Manifest, new: &Manifest) -> (r: Vec<String>)
    requires
        old.wf(),
        new.wf(),
    ensures
        views(r@) == changed_paths_of(*old, *new),
{
    let mut out: Vec<String> = Vec::new();
    let n = new.files.len();
    let mut i: usize = 0;
    while i < n
        invariant
            n == new.files@.len(),
            i <= n,
            old.wf(),
            views(out@) == changed_in_new(new.files@.subrange(0, i as int), old.files@),
        decreases n - i,
    {
        let ghost pre = new.files@.subrange(0, i as int);
        let ghost cur = new.files@.subrange(0, i + 1);
        assert(cur.drop_last() =~= pre);
        let e = &new.files[i];
        let changed = match old.get(e.0.as_str()) {
            None => true,
            Some(o) => !str_eq(o.hash.as_str(), e.1.hash.as_str()),
        };
        if changed {
            out.push(e.0.clone());
        }
        assert(views(out@) =~= changed_in_new(cur, old.files@));
        i = i + 1;
    }
    assert(new.files@.subrange(0, n as int) =~= new.files@);
    let ghost first = views(out@);
    let m = old.files.len();
    let mut j: usize = 0;
    while j < m
        invariant
            m == old.files@.len(),
            j <= m,
            new.wf(),
            views(out@) == first + removed_in_new(old.files@.subrange(0, j as int), new.files@),
        decreases m - j,
    {
        let ghost pre = old.files@.subrange(0, j as int);
        let ghost cur = old.files@.subrange(0, j + 1);
        assert(cur.drop_last() =~= pre);
        let e = &old.files[j];
        assert(cur.last() == old.files@[j as int]);
        let gone = new.get(e.0.as_str()).is_none();
        let ghost before = out@;
        if gone {
            out.push(e.0.clone());
            assert(views(out@) =~= views(before).push(e.0@));
        }
        assert(views(out@) =~= first + removed_in_new(cur, new.files@));
        j = j + 1;
    }
    assert(old.files@.subrange(0, m as int) =~= old.files@);
    out
}


fn find_blob<'a>(blobs: &'a Vec<(String, Vec<u8>)>, h: &str) -> (r: Option<&'a Vec<u8>>)
    ensures
        r is Some == blob(blobs@, h@) is Some,
        r is Some ==> r->Some_0@ == blob(blobs@, h@)->Some_0,
{
    let mut i: usize = blobs.len();
    assert(blobs@.subrange(0, i as int) =~= blobs@);
    while i > 0
        invariant
            i <= blobs@.len(),
            blob(blobs@, h@) == blob(blobs@.subrange(0, i as int), h@),
        decreases i,
    {
        let ghost cur = blobs@.subrange(0, i as int);
        assert(cur.drop_last() =~= blobs@.subrange(0, i - 1));
        assert(cur.last() == blobs@[i - 1]);
        if str_eq(blobs[i - 1].0.as_str(), h) {
            return Some(&blobs[i - 1].1);
        }
        i = i - 1;
    }
    None
}

proof fn lemma_count_tag_bound(t: Seq<LineTag>, g: LineTag)
    ensures
        count_tag(t, g) <= t.len(),
    decreases t.len(),
{
    if t.len() > 0 {
        lemma_count_tag_bound(t.drop_last(), g);
    }
}

fn count_tags(t: &Vec<LineTag>) -> (r: (usize, usize))
    ensures
        r.0 == count_tag(t@, LineTag::Insert),
        r.1 == count_tag(t@, LineTag::Delete),
{
    let n = t.len();
    let mut add: usize = 0;
    let mut rem: usize = 0;
    let mut i: usize = 0;
    while i < n
        invariant
            n == t@.len(),
            i <= n,
            add == count_tag(t@.subrange(0, i as int), LineTag::Insert),
            rem == count_tag(t@.subrange(0, i as int), LineTag::Delete),
        decreases n - i,
    {
        let ghost cur = t@.subrange(0, i + 1);
        assert(cur.drop_last() =~= t@.subrange(0, i as int));
        proof {
            lemma_count_tag_bound(t@.subrange(0, i as int), LineTag::Insert);
            lemma_count_tag_bound(t@.subrange(0, i as int), LineTag::Delete);
        }
        match t[i] {
            LineTag::Insert => add = add + 1,
            LineTag::Delete => rem = rem + 1,
            LineTag::Equal => {},
        }
        i = i + 1;
    }
    assert(t@.subrange(0, n as int) =~= t@);
    (add, rem)
}

/// Lines inserted and deleted by a line diff from `old_txt` to `new_txt`.
pub fn diff_line_counts(old_txt: &str, new_txt: &str) -> (r: (usize, usize))
    ensures
        r.0 == count_tag(line_diff(old_txt@, new_txt@), LineTag::Insert),
        r.1 == count_tag(line_diff(old_txt@, new_txt@), LineTag::Delete),
{
    let tags = diff_line_tags(old_txt, new_txt);
    count_tags(&tags)
}

fn path_delta_of(old: &Manifest, new: &Manifest, blobs: &Vec<(String, Vec<u8>)>, p: &str) -> (r: Option<(usize, usize)>)
    requires
        old.wf(),
        new.wf(),
    ensures
        r is Some == blobs_present(*old, *new, blobs@, p@),
        r is Some ==> r->Some_0.0 == path_delta(*old, *new, blobs@, p@).0
            && r->Some_0.1 == path_delta(*old, *new, blobs@, p@).1,
{
    let ob: Option<&Vec<u8>> = match old.get(p) {
        Some(e) => {
            let b = find_blob(blobs, e.hash.as_str());
            if b.is_none() {
                return None;
            }
            b
        },
        None => None,
    };
    let nb: Option<&Vec<u8>> = match new.get(p) {
        Some(e) => {
            let b = find_blob(blobs, e.hash.as_str());
            if b.is_none() {
                return None;
            }
            b
        },
        None => None,
    };
    match (ob, nb) {
        (Some(o), Some(n)) => {
            let ot = utf8_lossy(o.as_slice());
            let nt = utf8_lossy(n.as_slice());
            Some(diff_line_counts(ot.as_str(), nt.as_str()))
        },
        (None, Some(n)) => Some((count_lines_bytes(n.as_slice()), 0)),
        (Some(o), None) => Some((0, count_lines_bytes(o.as_slice()))),
        (None, None) => Some((0, 0)),
    }
}

proof fn lemma_totals_grow(old: Manifest, new: Manifest, blobs: Seq<(String, Vec<u8>)>, ps: Seq<Seq<char>>, k: int)
    requires
        0 <= k <= ps.len(),
    ensures
        added_total(old, new, blobs, ps.subrange(0, k)) <= added_total(old, new, blobs, ps),
        removed_total(old, new, blobs, ps.subrange(0, k)) <= removed_total(old, new, blobs, ps),
    decreases ps.len() - k,
{
    if k < ps.len() {
        let a = ps.subrange(0, k + 1);
        assert(a.drop_last() =~= ps.subrange(0, k));
        lemma_totals_grow(old, new, blobs, ps, k + 1);
    } else {
        assert(ps.subrange(0, k) =~= ps);
    }
}

/// Whether `h` is the hash of the old or new contents of a changed path.
pub open spec fn needed_hash(old: Manifest, new: Manifest, h: Seq<char>) -> bool {
    exists|k: int| 0 <= k < changed_paths_of(old, new).len() && {
        let p = #[trigger] changed_paths_of(old, new)[k];
        ||| (old.entry(p) is Some && old.entry(p)->Some_0.hash@ == h)
        ||| (new.entry(p) is Some && new.entry(p)->Some_0.hash@ == h)
    }
}

/// The hashes of the objects that the stats of `new` against `old` read:
/// for each changed path, its old and its new contents, and nothing else.
pub fn stats_objects(old: &Manifest, new: &Manifest) -> (r: Vec<String>)
    requires
        old.wf(),
        new.wf(),
    ensures
        forall|k: int| 0 <= k < changed_paths_of(*old, *new).len() ==> {
            let p = #[trigger] changed_paths_of(*old, *new)[k];
            &&& (old.entry(p) is Some ==> views(r@).contains(old.entry(p)->Some_0.hash@))
            &&& (new.entry(p) is Some ==> views(r@).contains(new.entry(p)->Some_0.hash@))
        },
        forall|j: int| 0 <= j < r@.len() ==> needed_hash(*old, *new, #[trigger] r@[j]@),
{
    let ps = changed_paths(old, new);
    let ghost pv = views(ps@);
    assert(pv == changed_paths_of(*old, *new));
    let mut out: Vec<String> = Vec::new();
    let n = ps.len();
    let mut i: usize = 0;
    while i < n
        invariant
            n == ps@.len(),
            pv == views(ps@),
            pv == changed_paths_of(*old, *new),
            old.wf(),
            new.wf(),
            i <= n,
            forall|k: int| 0 <= k < i ==> {
                let p = #[trigger] pv[k];
                &&& (old.entry(p) is Some ==> views(out@).contains(old.entry(p)->Some_0.hash@))
                &&& (new.entry(p) is Some ==> views(out@).contains(new.entry(p)->Some_0.hash@))
            },
            forall|j: int| 0 <= j < out@.len() ==> needed_hash(*old, *new, #[trigger] out@[j]@),
        decreases n - i,
    {
        let ghost before = views(out@);
        let ghost p = pv[i as int];
        assert(ps@[i as int]@ == p);
        assert(changed_paths_of(*old, *new)[i as int] == p);
        if let Some(e) = old.get(ps[i].as_str()) {
            out.push(e.hash.clone());
            assert(needed_hash(*old, *new, out@[out@.len() - 1]@));
        }
        if let Some(e) = new.get(ps[i].as_str()) {
            out.push(e.hash.clone());
            assert(needed_hash(*old, *new, out@[out@.len() - 1]@));
        }
        proof {
            assert forall|x: Seq<char>| before.contains(x) implies views(out@).contains(x) by {
                let j = choose|j: int| 0 <= j < before.len() && before[j] == x;
                assert(views(out@)[j] == x);
            }
            let p = pv[i as int];
            if old.entry(p) is Some {
                let h = old.entry(p)->Some_0.hash@;
                assert(views(out@)[before.len() as int] == h);
            }
            if new.entry(p) is Some {
                let h = new.entry(p)->Some_0.hash@;
                assert(views(out@)[views(out@).len() - 1] == h);
            }
        }
        i = i + 1;
    }
    out
}

/// Every object that the paths `ps` need has been fetched.
pub open spec fn all_blobs_present(old: Manifest, new: Manifest, blobs: Seq<(String, Vec<u8>)>, ps: Seq<Seq<char>>) -> bool {
    forall|k: int| 0 <= k < ps.len() ==> blobs_present(old, new, blobs, #[trigger] ps[k])
}

/// What a commit changed against its parent's manifest. Without a parent
/// every file counts as changed and no lines are counted. With one, the
/// changed paths count, and each contributes the lines that its fetched
/// contents add and remove. Only full parent manifests are handled.
pub fn compute_stats_delta(parent: Option<&Manifest>, new_manifest: &Manifest, blobs: &Vec<(String, Vec<u8>)>) -> (r: Result<CommitStats, PassengerError>)
    requires
        new_manifest.wf(),
        parent is Some ==> parent->Some_0.wf(),
    ensures
        parent is None ==> r == Ok::<CommitStats, PassengerError>(
            CommitStats { changed_files: new_manifest.files@.len() as usize, added_lines: 0, removed_lines: 0, paste_score: 0 },
        ),
        parent is Some ==> ({
            let old = *parent->Some_0;
            let ps = changed_paths_of(old, *new_manifest);
            let added = added_total(old, *new_manifest, blobs@, ps);
            let removed = removed_total(old, *new_manifest, blobs@, ps);
            &&& (old.kind == ManifestKind::Delta ==> r is Err && r->Err_0 is Unsupported)
            &&& old.kind == ManifestKind::Full ==> {
            &&& (!all_blobs_present(old, *new_manifest, blobs@, ps) ==> r is Err && r->Err_0 is NotFound)
            &&& (all_blobs_present(old, *new_manifest, blobs@, ps) && (added > usize::MAX || removed > usize::MAX)
                ==> r is Err && r->Err_0 is Overflow)
            &&& (all_blobs_present(old, *new_manifest, blobs@, ps) && added <= usize::MAX && removed <= usize::MAX
                ==> r == Ok::<CommitStats, PassengerError>(
                CommitStats { changed_files: ps.len() as usize, added_lines: added as usize, removed_lines: removed as usize, paste_score: 0 },
            ))
            }
        }),
{
    if parent.is_none() {
        return Ok(CommitStats { changed_files: new_manifest.len(), added_lines: 0, removed_lines: 0, paste_score: 0 });
    }
    let old = parent.unwrap();
    if old.kind == ManifestKind::Delta {
        return Err(PassengerError::Unsupported(String::from_str("unsupported manifest kind")));
    }
    let ps = changed_paths(old, new_manifest);
    let ghost pv = views(ps@);
    let n = ps.len();
    let mut deltas: Vec<(usize, usize)> = Vec::new();
    let mut i: usize = 0;
    while i < n
        invariant
            n == ps@.len(),
            pv == views(ps@),
            pv == changed_paths_of(*old, *new_manifest),
            parent == Some(old),
            old.kind == ManifestKind::Full,
            i <= n,
            old.wf(),
            new_manifest.wf(),
            deltas@.len() == i,
            forall|k: int| 0 <= k < i ==> blobs_present(*old, *new_manifest, blobs@, #[trigger] pv[k]),
            forall|k: int| 0 <= k < i ==> (#[trigger] deltas@[k]).0 == path_delta(*old, *new_manifest, blobs@, pv[k]).0
                && deltas@[k].1 == path_delta(*old, *new_manifest, blobs@, pv[k]).1,
        decreases n - i,
    {
        match path_delta_of(old, new_manifest, blobs, ps[i].as_str()) {
            None => {
                assert(!blobs_present(*old, *new_manifest, blobs@, pv[i as int]));
                return Err(PassengerError::NotFound(ps[i].clone()));
            },
            Some(d) => {
                deltas.push(d);
            },
        }
        i = i + 1;
    }
    assert(all_blobs_present(*old, *new_manifest, blobs@, pv));
    let mut added: usize = 0;
    let mut removed: usize = 0;
    let mut k: usize = 0;
    while k < n
        invariant
            n == ps@.len(),
            pv == views(ps@),
            pv == changed_paths_of(*old, *new_manifest),
            parent == Some(old),
            old.kind == ManifestKind::Full,
            all_blobs_present(*old, *new_manifest, blobs@, pv),
            k <= n,
            deltas@.len() == n,
            forall|q: int| 0 <= q < n ==> (#[trigger] deltas@[q]).0 == path_delta(*old, *new_manifest, blobs@, pv[q]).0
                && deltas@[q].1 == path_delta(*old, *new_manifest, blobs@, pv[q]).1,
            added == added_total(*old, *new_manifest, blobs@, pv.subrange(0, k as int)),
            removed == removed_total(*old, *new_manifest, blobs@, pv.subrange(0, k as int)),
        decreases n - k,
    {
        let ghost cur = pv.subrange(0, k + 1);
        assert(cur.drop_last() =~= pv.subrange(0, k as int));
        proof {
            lemma_totals_grow(*old, *new_manifest, blobs@, pv, k + 1);
        }
        let (a, d) = deltas[k];
        assert(cur.last() == pv[k as int]);
        if a > usize::MAX - added || d > usize::MAX - removed {
            return Err(PassengerError::Overflow);
        }
        added = added + a;
        removed = removed + d;
        k = k + 1;
    }
    assert(pv.subrange(0, n as int) =~= pv);
    Ok(CommitStats { changed_files: n, added_lines: added, removed_lines: removed, paste_score: 0 })
}


proof fn lemma_changed_in_new_members(s: Seq<(String, FileEntry)>, old: Seq<(String, FileEntry)>)
    ensures
        forall|x: Seq<char>| changed_in_new(s, old).contains(x) <==> exists|k: int|
            0 <= k < s.len() && (#[trigger] s[k]).0@ == x && changed_against(s[k], old),
    decreases s.len(),
{
    if s.len() > 0 {
        let d = s.drop_last();
        lemma_changed_in_new_members(d, old);
        let r = changed_in_new(d, old);
        assert forall|x: Seq<char>| changed_in_new(s, old).contains(x) <==> exists|k: int|
            0 <= k < s.len() && (#[trigger] s[k]).0@ == x && changed_against(s[k], old) by {
            if changed_in_new(s, old).contains(x) {
                if r.contains(x) {
                    let k = choose|k: int| 0 <= k < d.len() && (#[trigger] d[k]).0@ == x && changed_against(d[k], old);
                    assert(s[k] == d[k]);
                } else {
                    assert(s[s.len() - 1] == s.last());
                }
            }
            if exists|k: int| 0 <= k < s.len() && (#[trigger] s[k]).0@ == x && changed_against(s[k], old) {
                let k = choose|k: int| 0 <= k < s.len() && (#[trigger] s[k]).0@ == x && changed_against(s[k], old);
                if k < s.len() - 1 {
                    assert(d[k] == s[k]);
                    assert(r.contains(x));
                    let j = choose|j: int| 0 <= j < r.len() && r[j] == x;
                    if changed_against(s.last(), old) {
                        assert(r.push(s.last().0@)[j] == x);
                    }
                } else {
                    assert(s[k] == s.last());
                    assert(r.push(s.last().0@)[r.len() as int] == x);
                }
            }
        }
    }
}

proof fn lemma_removed_in_new_members(s: Seq<(String, FileEntry)>, new: Seq<(String, FileEntry)>)
    ensures
        forall|x: Seq<char>| removed_in_new(s, new).contains(x) <==> exists|k: int|
            0 <= k < s.len() && (#[trigger] s[k]).0@ == x && find(new, x) is None,
    decreases s.len(),
{
    if s.len() > 0 {
        let d = s.drop_last();
        lemma_removed_in_new_members(d, new);
        let r = removed_in_new(d, new);
        assert forall|x: Seq<char>| removed_in_new(s, new).contains(x) <==> exists|k: int|
            0 <= k < s.len() && (#[trigger] s[k]).0@ == x && find(new, x) is None by {
            if removed_in_new(s, new).contains(x) {
                if r.contains(x) {
                    let k = choose|k: int| 0 <= k < d.len() && (#[trigger] d[k]).0@ == x && find(new, x) is None;
                    assert(s[k] == d[k]);
                } else {
                    assert(s[s.len() - 1] == s.last());
                }
            }
            if exists|k: int| 0 <= k < s.len() && (#[trigger] s[k]).0@ == x && find(new, x) is None {
                let k = choose|k: int| 0 <= k < s.len() && (#[trigger] s[k]).0@ == x && find(new, x) is None;
                if k < s.len() - 1 {
                    assert(d[k] == s[k]);
                    assert(r.contains(x));
                    let j = choose|j: int| 0 <= j < r.len() && r[j] == x;
                    if find(new, s.last().0@) is None {
                        assert(r.push(s.last().0@)[j] == x);
                    }
                } else {
                    assert(s[k] == s.last());
                    assert(r.push(s.last().0@)[r.len() as int] == x);
                }
            }
        }
    }
}

/// Elements of `changed_in_new(s, old)` strictly increase when the paths of `s` do.
proof fn lemma_changed_in_new_sorted(s: Seq<(String, FileEntry)>, old: Seq<(String, FileEntry)>)
    requires
        paths_sorted(s),
    ensures
        forall|i: int, j: int| 0 <= i < j < changed_in_new(s, old).len() ==>
            seq_lt(#[trigger] changed_in_new(s, old)[i], #[trigger] changed_in_new(s, old)[j]),
    decreases s.len(),
{
    if s.len() > 0 {
        let d = s.drop_last();
        assert(paths_sorted(d)) by {
            assert forall|a: int, b: int| 0 <= a < b < d.len() implies seq_lt(#[trigger] d[a].0@, #[trigger] d[b].0@) by {
                assert(d[a] == s[a] && d[b] == s[b]);
            }
        }
        lemma_changed_in_new_sorted(d, old);
        lemma_changed_in_new_members(d, old);
        let r = changed_in_new(d, old);
        if changed_against(s.last(), old) {
            let t = r.push(s.last().0@);
            assert forall|i: int, j: int| 0 <= i < j < t.len() implies seq_lt(#[trigger] t[i], #[trigger] t[j]) by {
                if j == t.len() - 1 {
                    assert(r.contains(t[i]));
                    let k = choose|k: int| 0 <= k < d.len() && (#[trigger] d[k]).0@ == t[i] && changed_against(d[k], old);
                    assert(d[k] == s[k]);
                    assert(s[s.len() - 1] == s.last());
                } else {
                    assert(t[i] == r[i] && t[j] == r[j]);
                }
            }
        }
    }
}

proof fn lemma_sorted_no_duplicates(t: Seq<Seq<char>>)
    requires
        forall|i: int, j: int| 0 <= i < j < t.len() ==> seq_lt(#[trigger] t[i], #[trigger] t[j]),
    ensures
        t.no_duplicates(),
{
    assert forall|i: int, j: int| 0 <= i < t.len() && 0 <= j < t.len() && i != j implies t[i] != t[j] by {
        if i < j {
            assert(seq_lt(t[i], t[j]));
            lemma_seq_lt_irreflexive(t[i]);
        } else {
            assert(seq_lt(t[j], t[i]));
            lemma_seq_lt_irreflexive(t[j]);
        }
    }
}

/// Elements of `removed_in_new(s, new)` are distinct when the paths of `s` are sorted.
proof fn lemma_removed_in_new_sorted(s: Seq<(String, FileEntry)>, new: Seq<(String, FileEntry)>)
    requires
        paths_sorted(s),
    ensures
        forall|i: int, j: int| 0 <= i < j < removed_in_new(s, new).len() ==>
            seq_lt(#[trigger] removed_in_new(s, new)[i], #[trigger] removed_in_new(s, new)[j]),
    decreases s.len(),
{
    if s.len() > 0 {
        let d = s.drop_last();
        assert(paths_sorted(d)) by {
            assert forall|a: int, b: int| 0 <= a < b < d.len() implies seq_lt(#[trigger] d[a].0@, #[trigger] d[b].0@) by {
                assert(d[a] == s[a] && d[b] == s[b]);
            }
        }
        lemma_removed_in_new_sorted(d, new);
        lemma_removed_in_new_members(d, new);
        let r = removed_in_new(d, new);
        if find(new, s.last().0@) is None {
            let t = r.push(s.last().0@);
            assert forall|i: int, j: int| 0 <= i < j < t.len() implies seq_lt(#[trigger] t[i], #[trigger] t[j]) by {
                if j == t.len() - 1 {
                    assert(r.contains(t[i]));
                    let k = choose|k: int| 0 <= k < d.len() && (#[trigger] d[k]).0@ == t[i] && find(new, t[i]) is None;
                    assert(d[k] == s[k]);
                    assert(s[s.len() - 1] == s.last());
                } else {
                    assert(t[i] == r[i] && t[j] == r[j]);
                }
            }
        }
    }
}

/// The changed paths between two well-formed manifests are each listed
/// once, and they are exactly the paths whose contents differ or that only
/// one side has; so a commit's changed-file count is the size of that set.
pub proof fn law_changed_paths_exact(old: Manifest, new: Manifest)
    requires
        old.wf(),
        new.wf(),
    ensures
        changed_paths_of(old, new).no_duplicates(),
        forall|x: Seq<char>| #[trigger] changed_paths_of(old, new).contains(x) <==> is_changed(old, new, x),
{
    let a = changed_in_new(new.files@, old.files@);
    let b = removed_in_new(old.files@, new.files@);
    lemma_changed_in_new_members(new.files@, old.files@);
    lemma_removed_in_new_members(old.files@, new.files@);
    lemma_changed_in_new_sorted(new.files@, old.files@);
    lemma_removed_in_new_sorted(old.files@, new.files@);
    lemma_sorted_no_duplicates(a);
    lemma_sorted_no_duplicates(b);
    let t = a + b;
    assert forall|i: int, j: int| 0 <= i < t.len() && 0 <= j < t.len() && i != j implies t[i] != t[j] by {
        if i < a.len() && j < a.len() {
            assert(t[i] == a[i] && t[j] == a[j]);
        } else if i >= a.len() && j >= a.len() {
            assert(t[i] == b[i - a.len()] && t[j] == b[j - a.len()]);
        } else {
            let (p, q) = if i < a.len() { (i, j - a.len()) } else { (j, i - a.len()) };
            assert(a.contains(a[p]));
            assert(b.contains(b[q]));
            let k = choose|k: int| 0 <= k < new.files@.len() && (#[trigger] new.files@[k]).0@ == a[p] && changed_against(new.files@[k], old.files@);
            lemma_find_at(new.files@, k);
            assert(find(new.files@, b[q]) is None);
        }
    }
    assert forall|x: Seq<char>| #[trigger] t.contains(x) <==> is_changed(old, new, x) by {
        assert(t.contains(x) <==> (a.contains(x) || b.contains(x))) by {
            if t.contains(x) {
                let i = choose|i: int| 0 <= i < t.len() && t[i] == x;
                if i < a.len() {
                    assert(a[i] == x);
                } else {
                    assert(b[i - a.len()] == x);
                }
            }
            if a.contains(x) {
                let i = choose|i: int| 0 <= i < a.len() && a[i] == x;
                assert(t[i] == x);
            }
            if b.contains(x) {
                let i = choose|i: int| 0 <= i < b.len() && b[i] == x;
                assert(t[a.len() + i] == x);
            }
        }
        if a.contains(x) {
            let k = choose|k: int| 0 <= k < new.files@.len() && (#[trigger] new.files@[k]).0@ == x && changed_against(new.files@[k], old.files@);
            lemma_find_at(new.files@, k);
        }
        if b.contains(x) {
            let k = choose|k: int| 0 <= k < old.files@.len() && (#[trigger] old.files@[k]).0@ == x && find(new.files@, x) is None;
            lemma_find_at(old.files@, k);
        }
        if is_changed(old, new, x) {
            if new.entry(x) is Some {
                lemma_find_present(new.files@, x);
                let k = choose|k: int| 0 <= k < new.files@.len() && (#[trigger] new.files@[k]).0@ == x;
                lemma_find_at(new.files@, k);
                assert(changed_against(new.files@[k], old.files@));
            } else {
                lemma_find_present(old.files@, x);
                let k = choose|k: int| 0 <= k < old.files@.len() && (#[trigger] old.files@[k]).0@ == x;
            }
        }
    }
}

} // verus!
