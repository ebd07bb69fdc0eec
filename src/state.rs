//! Sequence numbers: one counter per store-format version, read, used and
//! advanced by every checkpoint, whatever its branch.

use vstd::prelude::*;
use crate::text::{decimal, format_padded, str_eq, zero_pad};
use crate::types::{PassengerConfig, PassengerState};

verus! {

/// The counter recorded for version `v`: the first entry under it.
pub open spec fn counter(s: Seq<(String, u64)>, v: Seq<char>) -> Option<u64>
    decreases s.len(),
{
    if s.len() == 0 {
        None
    } else if s[0].0@ == v {
        Some(s[0].1)
    } else {
        counter(s.drop_first(), v)
    }
}

/// The commit id of sequence number `n`: `S` and at least six digits.
pub open spec fn commit_id(n: nat) -> Seq<char> {
    seq!['S'] + zero_pad(decimal(n), 6)
}

impl PassengerState {
    /// The next sequence number of version `v`; a version not seen yet starts at 1.
    pub open spec fn next_of(&self, v: Seq<char>) -> nat {
        match counter(self.next_seq@, v) {
            Some(n) => n as nat,
            None => 1,
        }
    }

    /// A fresh state: schema 1, created at `created_ms`, one counter, for
    /// version `v`, at 1.
    pub open spec fn is_fresh(&self, v: Seq<char>, created_ms: i64) -> bool {
        &&& self.schema == 1
        &&& self.created_ms == created_ms
        &&& self.next_seq@.len() == 1
        &&& self.next_seq@[0].0@ == v
        &&& self.next_seq@[0].1 == 1
        &&& self.next_of(v) == 1
    }

    /// `new` is `old` after handing out id `id` on version `v`.
    pub open spec fn allocates(old: PassengerState, v: Seq<char>, new: PassengerState, id: Seq<char>) -> bool {
        &&& id == commit_id(old.next_of(v))
        &&& new.next_of(v) == old.next_of(v) + 1
        &&& forall|w: Seq<char>| w != v ==> #[trigger] new.next_of(w) == old.next_of(w)
        &&& new.schema == old.schema
        &&& new.created_ms == old.created_ms
    }

    /// A fresh state, created at `created_ms`, whose only counter is the
    /// configured version's, starting at 1.
    pub fn initial(cfg: &PassengerConfig, created_ms: i64) -> (r: Self)
        ensures
            r.is_fresh(cfg.passenger_version@, created_ms),
    {
        PassengerState { schema: 1, created_ms, next_seq: vec![(cfg.passenger_version.clone(), 1u64)] }
    }

    fn find_counter(&self, v: &str) -> (r: Option<usize>)
        ensures
            r is Some ==> r->Some_0 < self.next_seq@.len() && self.next_seq@[r->Some_0 as int].0@ == v@
                && counter(self.next_seq@, v@) == Some(self.next_seq@[r->Some_0 as int].1)
                && forall|k: int| 0 <= k < r->Some_0 ==> (#[trigger] self.next_seq@[k]).0@ != v@,
            r is None ==> counter(self.next_seq@, v@) is None,
    {
        let n = self.next_seq.len();
        let mut i: usize = 0;
        while i < n
            invariant
                n == self.next_seq@.len(),
                i <= n,
                forall|k: int| 0 <= k < i ==> (#[trigger] self.next_seq@[k]).0@ != v@,
            decreases n - i,
        {
            if str_eq(self.next_seq[i].0.as_str(), v) {
                proof {
                    lemma_counter_at(self.next_seq@, v@, i as int);
                }
                return Some(i);
            }
            i = i + 1;
        }
        proof {
            lemma_counter_at(self.next_seq@, v@, n as int);
        }
        None
    }

    /// Hands out the next commit id of version `v` and advances its counter;
    /// the counters of other versions stay. None, with the state unchanged,
    /// when the counter is exhausted.
    pub fn allocate_id(&mut self, v: &str) -> (r: Option<String>)
        ensures
            r is Some <==> old(self).next_of(v@) < u64::MAX,
            r is Some ==> PassengerState::allocates(*old(self), v@, *final(self), r->Some_0@),
            r is None ==> *final(self) == *old(self),
    {
        let ghost s0 = self.next_seq@;
        match self.find_counter(v) {
            Some(i) => {
                let n = self.next_seq[i].1;
                if n == u64::MAX {
                    return None;
                }
                let name = self.next_seq[i].0.clone();
                self.next_seq.set(i, (name, n + 1));
                proof {
                    assert forall|w: Seq<char>| w != v@ implies #[trigger] counter(self.next_seq@, w) == counter(s0, w) by {
                        lemma_counter_update(s0, i as int, (name, (n + 1) as u64), w);
                    }
                    lemma_counter_update(s0, i as int, (name, (n + 1) as u64), v@);
                }
                Some(format_commit_id(n))
            },
            None => {
                let entry = (String::from_str(v), 2u64);
                let ghost x = entry;
                self.next_seq.push(entry);
                proof {
                    assert forall|w: Seq<char>| #[trigger] counter(self.next_seq@, w) == (if w == v@ { Some(2u64) } else { counter(s0, w) }) by {
                        lemma_counter_push(s0, x, w);
                    }
                }
                Some(format_commit_id(1))
            },
        }
    }
}

proof fn lemma_counter_at(s: Seq<(String, u64)>, v: Seq<char>, i: int)
    requires
        0 <= i <= s.len(),
        forall|k: int| 0 <= k < i ==> (#[trigger] s[k]).0@ != v,
        i < s.len() ==> s[i].0@ == v,
    ensures
        i < s.len() ==> counter(s, v) == Some(s[i].1),
        i == s.len() ==> counter(s, v) is None,
    decreases i,
{
    if i > 0 {
        assert(s[0].0@ != v);
        assert forall|k: int| 0 <= k < i - 1 implies (#[trigger] s.drop_first()[k]).0@ != v by {
            assert(s.drop_first()[k] == s[k + 1]);
        }
        lemma_counter_at(s.drop_first(), v, i - 1);
    }
}

proof fn lemma_counter_update(s: Seq<(String, u64)>, i: int, x: (String, u64), w: Seq<char>)
    requires
        0 <= i < s.len(),
        x.0@ == s[i].0@,
        forall|k: int| 0 <= k < i ==> (#[trigger] s[k]).0@ != s[i].0@,
    ensures
        counter(s.update(i, x), w) == (if w == s[i].0@ { Some(x.1) } else { counter(s, w) }),
    decreases i,
{
    if i == 0 {
        assert(s.update(i, x).drop_first() =~= s.drop_first());
    } else {
        assert(s.update(i, x)[0] == s[0]);
        assert(s.update(i, x).drop_first() =~= s.drop_first().update(i - 1, x));
        assert forall|k: int| 0 <= k < i - 1 implies (#[trigger] s.drop_first()[k]).0@ != s.drop_first()[i - 1].0@ by {
            assert(s.drop_first()[k] == s[k + 1]);
        }
        lemma_counter_update(s.drop_first(), i - 1, x, w);
    }
}

proof fn lemma_counter_push(s: Seq<(String, u64)>, x: (String, u64), w: Seq<char>)
    requires
        counter(s, x.0@) is None,
    ensures
        counter(s.push(x), w) == (if w == x.0@ { Some(x.1) } else { counter(s, w) }),
    decreases s.len(),
{
    if s.len() == 0 {
        assert(s.push(x).drop_first() =~= Seq::<(String, u64)>::empty());
        assert(s.push(x)[0] == x);
        assert(counter(Seq::<(String, u64)>::empty(), w) is None);
    } else {
        assert(s.push(x)[0] == s[0]);
        assert(s[0].0@ != x.0@);
        assert(counter(s.drop_first(), x.0@) is None);
        assert(s.push(x).drop_first() =~= s.drop_first().push(x));
        lemma_counter_push(s.drop_first(), x, w);
    }
}

/// Writes the commit id of sequence number `n`.
pub fn format_commit_id(n: u64) -> (r: String)
    ensures
        r@ == commit_id(n as nat),
{
    let digits = format_padded(n, 6);
    proof {
        reveal_strlit("S");
    }
    let r = String::from_str("S").concat(digits.as_str());
    assert(r@ =~= commit_id(n as nat));
    r
}

} // verus!
