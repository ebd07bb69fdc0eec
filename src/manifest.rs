//! Manifests: the tracked files of a commit, kept in increasing path order so
//! that a manifest never depends on the order in which files were visited.

use vstd::prelude::*;
use crate::text::{seq_lt, str_eq, str_lt, lemma_seq_lt_irreflexive, lemma_seq_lt_transitive, lemma_seq_lt_total};
use crate::types::{FileEntry, Manifest, ManifestKind};

verus! {

/// Paths of `s` strictly increase.
pub open spec fn paths_sorted(s: Seq<(String, FileEntry)>) -> bool {
    forall|i: int, j: int| 0 <= i < j < s.len() ==> seq_lt(#[trigger] s[i].0@, #[trigger] s[j].0@)
}

/// The entry recorded under path `p` in `s`, if any.
pub open spec fn find(s: Seq<(String, FileEntry)>, p: Seq<char>) -> Option<FileEntry>
    decreases s.len(),
{
    if s.len() == 0 {
        None
    } else if s.last().0@ == p {
        Some(s.last().1)
    } else {
        find(s.drop_last(), p)
    }
}

pub proof fn lemma_find_absent(s: Seq<(String, FileEntry)>, p: Seq<char>)
    requires
        forall|k: int| 0 <= k < s.len() ==> (#[trigger] s[k]).0@ != p,
    ensures
        find(s, p) is None,
    decreases s.len(),
{
    if s.len() > 0 {
        assert(s.last() == s[s.len() - 1]);
        lemma_find_absent(s.drop_last(), p);
    }
}

pub proof fn lemma_find_present(s: Seq<(String, FileEntry)>, p: Seq<char>)
    requires
        find(s, p) is Some,
    ensures
        exists|k: int| 0 <= k < s.len() && (#[trigger] s[k]).0@ == p,
    decreases s.len(),
{
    if s.last().0@ == p {
        assert(s[s.len() - 1].0@ == p);
    } else {
        lemma_find_present(s.drop_last(), p);
        let k = choose|k: int| 0 <= k < s.drop_last().len() && (#[trigger] s.drop_last()[k]).0@ == p;
        assert(s[k] == s.drop_last()[k]);
    }
}

pub proof fn lemma_find_at(s: Seq<(String, FileEntry)>, i: int)
    requires
        paths_sorted(s),
        0 <= i < s.len(),
    ensures
        find(s, s[i].0@) == Some(s[i].1),
    decreases s.len(),
{
    if i < s.len() - 1 {
        assert(seq_lt(s[i].0@, s[s.len() - 1].0@));
        lemma_seq_lt_irreflexive(s[i].0@);
        assert(s.drop_last()[i] == s[i]);
        lemma_find_at(s.drop_last(), i);
    }
}

pub proof fn lemma_find_concat(a: Seq<(String, FileEntry)>, b: Seq<(String, FileEntry)>, q: Seq<char>)
    ensures
        find(a + b, q) == (if find(b, q) is Some { find(b, q) } else { find(a, q) }),
    decreases b.len(),
{
    if b.len() == 0 {
        assert(a + b =~= a);
    } else {
        assert((a + b).drop_last() =~= a + b.drop_last());
        assert((a + b).last() == b.last());
        lemma_find_concat(a, b.drop_last(), q);
    }
}

pub proof fn lemma_find_single(x: (String, FileEntry), q: Seq<char>)
    ensures
        find(seq![x], q) == (if x.0@ == q { Some(x.1) } else { None }),
{
    assert(seq![x].drop_last() =~= Seq::<(String, FileEntry)>::empty());
    assert(seq![x].last() == x);
    assert(find(Seq::<(String, FileEntry)>::empty(), q) is None);
}

proof fn lemma_sorted_drop_last(s: Seq<(String, FileEntry)>)
    requires
        paths_sorted(s),
        s.len() > 0,
    ensures
        paths_sorted(s.drop_last()),
        forall|q: Seq<char>| q != s.last().0@ ==> #[trigger] find(s.drop_last(), q) == find(s, q),
        find(s.drop_last(), s.last().0@) is None,
{
    let d = s.drop_last();
    assert forall|a: int, b: int| 0 <= a < b < d.len() implies seq_lt(#[trigger] d[a].0@, #[trigger] d[b].0@) by {
        assert(d[a] == s[a] && d[b] == s[b]);
    }
    assert forall|k: int| 0 <= k < d.len() implies (#[trigger] d[k]).0@ != s.last().0@ by {
        assert(d[k] == s[k]);
        assert(s[s.len() - 1] == s.last());
        assert(seq_lt(s[k].0@, s[s.len() - 1].0@));
        lemma_seq_lt_irreflexive(s.last().0@);
    }
    lemma_find_absent(d, s.last().0@);
}

proof fn lemma_last_is_greatest(s: Seq<(String, FileEntry)>, q: Seq<char>)
    requires
        paths_sorted(s),
        find(s, q) is Some,
    ensures
        q == s.last().0@ || seq_lt(q, s.last().0@),
{
    lemma_find_present(s, q);
    let k = choose|k: int| 0 <= k < s.len() && (#[trigger] s[k]).0@ == q;
    assert(s[s.len() - 1] == s.last());
    if k < s.len() - 1 {
        assert(seq_lt(s[k].0@, s[s.len() - 1].0@));
    }
}

proof fn lemma_sorted_extensional(a: Seq<(String, FileEntry)>, b: Seq<(String, FileEntry)>)
    requires
        paths_sorted(a),
        paths_sorted(b),
        forall|q: Seq<char>| #[trigger] find(a, q) == find(b, q),
    ensures
        a.len() == b.len(),
        forall|i: int| 0 <= i < a.len() ==> (#[trigger] a[i]).0@ == b[i].0@ && a[i].1 == b[i].1,
    decreases a.len() + b.len(),
{
    if a.len() == 0 && b.len() == 0 {
    } else if a.len() == 0 {
        lemma_find_at(b, b.len() - 1);
        lemma_find_absent(a, b[b.len() - 1].0@);
        assert(find(a, b[b.len() - 1].0@) == find(b, b[b.len() - 1].0@));
    } else if b.len() == 0 {
        lemma_find_at(a, a.len() - 1);
        lemma_find_absent(b, a[a.len() - 1].0@);
        assert(find(a, a[a.len() - 1].0@) == find(b, a[a.len() - 1].0@));
    } else {
        let la = a.last().0@;
        let lb = b.last().0@;
        assert(a[a.len() - 1] == a.last());
        assert(b[b.len() - 1] == b.last());
        lemma_find_at(a, a.len() - 1);
        lemma_find_at(b, b.len() - 1);
        assert(find(b, la) == find(a, la));
        assert(find(a, lb) == find(b, lb));
        lemma_last_is_greatest(b, la);
        lemma_last_is_greatest(a, lb);
        if la != lb {
            lemma_seq_lt_transitive(la, lb, la);
            lemma_seq_lt_irreflexive(la);
        }
        assert(a.last().1 == b.last().1);
        lemma_sorted_drop_last(a);
        lemma_sorted_drop_last(b);
        assert forall|q: Seq<char>| #[trigger] find(a.drop_last(), q) == find(b.drop_last(), q) by {
            if q != la {
                assert(find(a.drop_last(), q) == find(a, q));
                assert(find(b.drop_last(), q) == find(b, q));
            }
        }
        lemma_sorted_extensional(a.drop_last(), b.drop_last());
        assert forall|i: int| 0 <= i < a.len() implies (#[trigger] a[i]).0@ == b[i].0@ && a[i].1 == b[i].1 by {
            if i < a.len() - 1 {
                assert(a.drop_last()[i] == a[i]);
                assert(b.drop_last()[i] == b[i]);
            }
        }
    }
}

/// Two well-formed manifests that record the same entry under every path
/// list the same files in the same order: a manifest's order does not
/// depend on the order in which its files were recorded.
pub proof fn law_manifest_order_independent(a: Manifest, b: Manifest)
    requires
        a.wf(),
        b.wf(),
        forall|q: Seq<char>| #[trigger] a.entry(q) == b.entry(q),
    ensures
        a.files@.len() == b.files@.len(),
        forall|i: int| 0 <= i < a.files@.len() ==> (#[trigger] a.files@[i]).0@ == b.files@[i].0@
            && a.files@[i].1 == b.files@[i].1,
{
    assert forall|q: Seq<char>| #[trigger] find(a.files@, q) == find(b.files@, q) by {
        assert(a.entry(q) == b.entry(q));
    }
    lemma_sorted_extensional(a.files@, b.files@);
}

impl Manifest {
    /// Well-formed: paths strictly increase, so each path occurs once.
    pub open spec fn wf(&self) -> bool {
        paths_sorted(self.files@)
    }

    /// The entry recorded under path `p`.
    pub open spec fn entry(&self, p: Seq<char>) -> Option<FileEntry> {
        find(self.files@, p)
    }

    /// An empty full manifest.
    pub fn full() -> (r: Self)
        ensures
            r.wf(),
            r.kind == ManifestKind::Full,
            r.base is None,
            r.files@.len() == 0,
            r.deleted@.len() == 0,
    {
        Manifest { kind: ManifestKind::Full, base: None, files: Vec::new(), deleted: Vec::new() }
    }

    /// Number of tracked files.
    pub fn len(&self) -> (n: usize)
        ensures
            n == self.files@.len(),
    {
        self.files.len()
    }

    /// The entry recorded under `path`.
    pub fn get(&self, path: &str) -> (r: Option<&FileEntry>)
        requires
            self.wf(),
        ensures
            r is Some == self.entry(path@) is Some,
            r is Some ==> *r->Some_0 == self.entry(path@)->Some_0,
    {
        let n = self.files.len();
        let mut i: usize = 0;
        while i < n
            invariant
                n == self.files@.len(),
                i <= n,
                self.wf(),
                forall|k: int| 0 <= k < i ==> (#[trigger] self.files@[k]).0@ != path@,
            decreases n - i,
        {
            if str_eq(self.files[i].0.as_str(), path) {
                proof {
                    lemma_find_at(self.files@, i as int);
                }
                return Some(&self.files[i].1);
            }
            i = i + 1;
        }
        proof {
            lemma_find_absent(self.files@, path@);
        }
        None
    }

    /// Records `entry` under `path`, replacing an entry recorded there before.
    pub fn insert_file(&mut self, path: String, entry: FileEntry)
        requires
            old(self).wf(),
        ensures
            final(self).wf(),
            final(self).kind == old(self).kind,
            final(self).base == old(self).base,
            final(self).deleted == old(self).deleted,
            forall|q: Seq<char>|
                #[trigger] final(self).entry(q) == (if q == path@ {
                    Some(entry)
                } else {
                    old(self).entry(q)
                }),
    {
        let n = self.files.len();
        let mut i: usize = 0;
        while i < n && str_lt(self.files[i].0.as_str(), path.as_str())
            invariant
                n == self.files@.len(),
                i <= n,
                forall|k: int| 0 <= k < i ==> seq_lt((#[trigger] self.files@[k]).0@, path@),
            decreases n - i,
        {
            i = i + 1;
        }
        let ghost s = self.files@;
        let ghost p = path@;
        proof {
            lemma_seq_lt_irreflexive(p);
        }
        if i < n && str_eq(self.files[i].0.as_str(), path.as_str()) {
            self.files.set(i, (path, entry));
            proof {
                let t = self.files@;
                assert(s[i as int].0@ == p);
                assert forall|a: int, b: int| 0 <= a < b < t.len() implies seq_lt(#[trigger] t[a].0@, #[trigger] t[b].0@) by {
                    assert(t[a].0@ == s[a].0@);
                    assert(t[b].0@ == s[b].0@);
                }
                let pre = s.subrange(0, i as int);
                let post = s.subrange(i + 1, n as int);
                assert(s =~= pre + seq![s[i as int]] + post);
                assert(t =~= pre + seq![(path, entry)] + post);
                assert forall|k: int| 0 <= k < post.len() implies (#[trigger] post[k]).0@ != p by {
                    assert(post[k] == s[i + 1 + k]);
                    assert(seq_lt(s[i as int].0@, s[i + 1 + k].0@));
                }
                lemma_find_absent(post, p);
                assert forall|q: Seq<char>| #[trigger] find(t, q) == (if q == p { Some(entry) } else { find(s, q) }) by {
                    lemma_find_concat(pre + seq![(path, entry)], post, q);
                    lemma_find_concat(pre, seq![(path, entry)], q);
                    lemma_find_concat(pre + seq![s[i as int]], post, q);
                    lemma_find_concat(pre, seq![s[i as int]], q);
                    lemma_find_single((path, entry), q);
                    lemma_find_single(s[i as int], q);
                }
            }
        } else {
            proof {
                if i < n {
                    assert(s[i as int].0@ != p);
                    lemma_seq_lt_total(s[i as int].0@, p);
                }
            }
            self.files.insert(i, (path, entry));
            proof {
                let t = self.files@;
                let pre = s.subrange(0, i as int);
                let post = s.subrange(i as int, n as int);
                assert(s =~= pre + post);
                assert(t =~= pre + seq![(path, entry)] + post);
                assert forall|k: int| 0 <= k < post.len() implies seq_lt(p, (#[trigger] post[k]).0@) by {
                    assert(post[k] == s[i + k]);
                    if k > 0 {
                        assert(seq_lt(s[i as int].0@, s[i + k].0@));
                        lemma_seq_lt_transitive(p, s[i as int].0@, s[i + k].0@);
                    }
                }
                assert forall|a: int, b: int| 0 <= a < b < t.len() implies seq_lt(#[trigger] t[a].0@, #[trigger] t[b].0@) by {
                    if b < i {
                        assert(t[a] == s[a] && t[b] == s[b]);
                    } else if b == i {
                        assert(t[a] == s[a]);
                    } else if a == i {
                        assert(t[b] == post[b - i - 1]);
                    } else if a < i {
                        assert(t[a] == s[a] && t[b] == s[b - 1]);
                        assert(seq_lt(s[a].0@, p));
                        assert(seq_lt(p, post[b - i - 1].0@));
                        lemma_seq_lt_transitive(s[a].0@, p, s[b - 1].0@);
                    } else {
                        assert(t[a] == s[a - 1] && t[b] == s[b - 1]);
                    }
                }
                assert forall|k: int| 0 <= k < post.len() implies (#[trigger] post[k]).0@ != p by {
                    lemma_seq_lt_irreflexive(p);
                }
                lemma_find_absent(post, p);
                let x = t[i as int];
                assert(t =~= pre + seq![x] + post);
                assert(x.0@ == p && x.1 == entry);
                assert forall|q: Seq<char>| #[trigger] find(t, q) == (if q == p { Some(entry) } else { find(s, q) }) by {
                    lemma_find_concat(pre + seq![x], post, q);
                    lemma_find_concat(pre, seq![x], q);
                    lemma_find_concat(pre, post, q);
                    lemma_find_single(x, q);
                }
            }
        }
    }
}

} // verus!
