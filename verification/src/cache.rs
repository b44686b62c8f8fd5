//! The dataset-path cache.
//!
//! Raster dataset handles are never shared between requests: each request
//! reopens its dataset from a stored path. This cache maps an opaque id to
//! that path with least-recently-used eviction. It holds plain strings
//! only; the shell guards one instance with a mutual-exclusion lock.
//!
//! The view is the sequence of (id, path) pairs from most to least recently
//! used; keys are distinct and the length never exceeds the capacity.

use vstd::prelude::*;

verus! {

/// (id, path) entries, most recently used first.
pub struct DatasetCache {
    entries: Vec<(String, String)>,
    capacity: usize,
}

/// No two entries share a key.
pub open spec fn distinct_keys(s: Seq<(Seq<char>, Seq<char>)>) -> bool {
    forall|i: int, j: int| 0 <= i < j < s.len() ==> s[i].0 != s[j].0
}

/// Some entry has key `k`.
pub open spec fn has_key(s: Seq<(Seq<char>, Seq<char>)>, k: Seq<char>) -> bool {
    exists|i: int| 0 <= i < s.len() && s[i].0 == k
}

/// The index of the entry with key `k`, where one exists.
pub open spec fn index_of_key(s: Seq<(Seq<char>, Seq<char>)>, k: Seq<char>) -> int {
    choose|i: int| 0 <= i < s.len() && s[i].0 == k
}

/// The sequence with the entry at `i` moved to the front.
pub open spec fn promote(s: Seq<(Seq<char>, Seq<char>)>, i: int) -> Seq<(Seq<char>, Seq<char>)> {
    seq![s[i]] + s.subrange(0, i) + s.subrange(i + 1, s.len() as int)
}

/// The sequence without the entry at `i`.
pub open spec fn remove_at(s: Seq<(Seq<char>, Seq<char>)>, i: int) -> Seq<(Seq<char>, Seq<char>)> {
    s.subrange(0, i) + s.subrange(i + 1, s.len() as int)
}

/// What storing (k, v) does: an existing key is updated and moved to the
/// front; a new key enters at the front, evicting the least recently used
/// entry if the cache is full.
pub open spec fn spec_put(
    s: Seq<(Seq<char>, Seq<char>)>,
    k: Seq<char>,
    v: Seq<char>,
    cap: nat,
) -> Seq<(Seq<char>, Seq<char>)> {
    if has_key(s, k) {
        seq![(k, v)] + remove_at(s, index_of_key(s, k))
    } else if s.len() >= cap {
        seq![(k, v)] + s.drop_last()
    } else {
        seq![(k, v)] + s
    }
}

impl DatasetCache {
    /// The entries from most to least recently used.
    pub closed spec fn view(&self) -> Seq<(Seq<char>, Seq<char>)> {
        Seq::new(self.entries@.len(), |i: int| (self.entries@[i].0@, self.entries@[i].1@))
    }

    /// The fixed capacity.
    pub closed spec fn spec_capacity(&self) -> nat {
        self.capacity as nat
    }

    /// Keys distinct, size within capacity.
    pub open spec fn wf(&self) -> bool {
        &&& self.spec_capacity() >= 1
        &&& self@.len() <= self.spec_capacity()
        &&& distinct_keys(self@)
    }

    /// An empty cache; a zero capacity falls back to the default of 10.
    pub fn new(capacity: usize) -> (c: Self)
        ensures
            c.wf(),
            c@ == Seq::<(Seq<char>, Seq<char>)>::empty(),
            c.spec_capacity() == if capacity >= 1 {
                capacity as nat
            } else {
                10nat
            },
    {
        let cap = if capacity >= 1 {
            capacity
        } else {
            10
        };
        let c = DatasetCache { entries: Vec::new(), capacity: cap };
        proof {
            assert(c@ =~= Seq::<(Seq<char>, Seq<char>)>::empty());
        }
        c
    }

    /// The index of the entry with key `id`, scanning from the front.
    fn find(&self, id: &String) -> (r: Option<usize>)
        ensures
            r is Some <==> has_key(self@, id@),
            r is Some ==> 0 <= r.unwrap() < self@.len() && self@[r.unwrap() as int].0 == id@,
    {
        let n = self.entries.len();
        let mut j: usize = 0;
        while j < n
            invariant
                j <= n,
                n == self.entries@.len(),
                n == self@.len(),
                forall|m: int| 0 <= m < j ==> self@[m].0 != id@,
            decreases n - j,
        {
            assert(self@[j as int].0 == self.entries@[j as int].0@);
            if self.entries[j].0 == *id {
                return Some(j);
            }
            j = j + 1;
        }
        None
    }

    /// Look an id up; a hit hands the path back and marks the entry most
    /// recently used. A missing id (never stored, or evicted) is a miss,
    /// not an error.
    pub fn get_path(&mut self, id: &String) -> (r: Option<String>)
        requires
            old(self).wf(),
        ensures
            final(self).wf(),
            final(self).spec_capacity() == old(self).spec_capacity(),
            r is Some <==> has_key(old(self)@, id@),
            r is None ==> final(self)@ == old(self)@,
            r is Some ==> {
                let i = index_of_key(old(self)@, id@);
                &&& r.unwrap()@ == old(self)@[i].1
                &&& final(self)@ == promote(old(self)@, i)
            },
    {
        match self.find(id) {
            None => {
                assert(self@ =~= old(self)@);
                None
            },
            Some(j) => {
                let ghost s0 = self@;
                proof {
                    assert(index_of_key(s0, id@) == j as int) by {
                        let w = index_of_key(s0, id@);
                        assert(0 <= w < s0.len() && s0[w].0 == id@);
                    }
                }
                let entry = self.entries.remove(j);
                let path = entry.1.clone();
                self.entries.insert(0, entry);
                proof {
                    assert(self@ =~= promote(s0, j as int));
                    assert forall|a: int, b: int| 0 <= a < b < self@.len() implies self@[a].0
                        != self@[b].0 by {
                        lemma_promote_keys(s0, j as int, a, b);
                    }
                }
                Some(path)
            },
        }
    }

    /// Store an id → path entry at the front, updating and promoting an
    /// existing id, and evicting the least recently used entry when a new
    /// id would exceed the capacity.
    pub fn add(&mut self, id: String, path: String)
        requires
            old(self).wf(),
        ensures
            final(self).wf(),
            final(self).spec_capacity() == old(self).spec_capacity(),
            final(self)@ == spec_put(old(self)@, id@, path@, old(self).spec_capacity()),
    {
        let ghost s0 = self@;
        match self.find(&id) {
            Some(j) => {
                proof {
                    assert(index_of_key(s0, id@) == j as int) by {
                        let w = index_of_key(s0, id@);
                        assert(0 <= w < s0.len() && s0[w].0 == id@);
                    }
                }
                let _ = self.entries.remove(j);
                self.entries.insert(0, (id, path));
                proof {
                    assert(self@ =~= seq![(id@, path@)] + remove_at(s0, j as int));
                    assert(distinct_keys(self@)) by {
                        lemma_put_keys(s0, j as int, id@, path@, self@);
                    }
                }
            },
            None => {
                if self.entries.len() >= self.capacity {
                    let ghost n = self.entries@.len();
                    let _ = self.entries.remove(self.entries.len() - 1);
                    proof {
                        assert(self@ =~= s0.drop_last());
                    }
                }
                let ghost s1 = self@;
                self.entries.insert(0, (id, path));
                proof {
                    assert(self@ =~= seq![(id@, path@)] + s1);
                    assert forall|a: int, b: int| 0 <= a < b < self@.len() implies self@[a].0
                        != self@[b].0 by {
                        if a == 0 {
                            assert(s1[b - 1].0 != id@);
                        } else {
                            assert(self@[a] == s1[a - 1] && self@[b] == s1[b - 1]);
                        }
                    }
                }
            },
        }
    }

    /// Drop the entry with this id, if any.
    pub fn remove(&mut self, id: &String)
        requires
            old(self).wf(),
        ensures
            final(self).wf(),
            final(self).spec_capacity() == old(self).spec_capacity(),
            !has_key(old(self)@, id@) ==> final(self)@ == old(self)@,
            has_key(old(self)@, id@) ==> final(self)@ == remove_at(
                old(self)@,
                index_of_key(old(self)@, id@),
            ),
    {
        let ghost s0 = self@;
        match self.find(id) {
            None => {
                assert(self@ =~= s0);
            },
            Some(j) => {
                proof {
                    assert(index_of_key(s0, id@) == j as int) by {
                        let w = index_of_key(s0, id@);
                        assert(0 <= w < s0.len() && s0[w].0 == id@);
                    }
                }
                let _ = self.entries.remove(j);
                proof {
                    assert(self@ =~= remove_at(s0, j as int));
                    assert forall|a: int, b: int| 0 <= a < b < self@.len() implies self@[a].0
                        != self@[b].0 by {
                        lemma_remove_at_keys(s0, j as int, a, b);
                    }
                }
            },
        }
    }

    /// How many entries the cache currently holds.
    pub fn len(&self) -> (r: usize)
        ensures
            r == self@.len(),
    {
        self.entries.len()
    }
}

proof fn lemma_promote_keys(s: Seq<(Seq<char>, Seq<char>)>, i: int, a: int, b: int)
    requires
        distinct_keys(s),
        0 <= i < s.len(),
        0 <= a < b < promote(s, i).len(),
    ensures
        promote(s, i)[a].0 != promote(s, i)[b].0,
{
    let p = promote(s, i);
    assert(p.len() == s.len());
    assert(p[a] == s[orig_index(i, a)] && p[b] == s[orig_index(i, b)]);
    assert(orig_index(i, a) != orig_index(i, b));
}

/// Where element `a` of `promote(s, i)` came from in `s`.
spec fn orig_index(i: int, a: int) -> int {
    if a == 0 {
        i
    } else if a <= i {
        a - 1
    } else {
        a
    }
}

proof fn lemma_remove_at_keys(s: Seq<(Seq<char>, Seq<char>)>, i: int, a: int, b: int)
    requires
        distinct_keys(s),
        0 <= i < s.len(),
        0 <= a < b < remove_at(s, i).len(),
    ensures
        remove_at(s, i)[a].0 != remove_at(s, i)[b].0,
{
    let p = remove_at(s, i);
    let oa = if a < i {
        a
    } else {
        a + 1
    };
    let ob = if b < i {
        b
    } else {
        b + 1
    };
    assert(p[a] == s[oa] && p[b] == s[ob]);
}

proof fn lemma_put_keys(
    s: Seq<(Seq<char>, Seq<char>)>,
    i: int,
    k: Seq<char>,
    v: Seq<char>,
    r: Seq<(Seq<char>, Seq<char>)>,
)
    requires
        distinct_keys(s),
        0 <= i < s.len(),
        s[i].0 == k,
        r == seq![(k, v)] + remove_at(s, i),
    ensures
        distinct_keys(r),
{
    assert forall|a: int, b: int| 0 <= a < b < r.len() implies r[a].0 != r[b].0 by {
        let p = remove_at(s, i);
        if a == 0 {
            let ob = if b - 1 < i {
                b - 1
            } else {
                b
            };
            assert(r[b] == p[b - 1] && p[b - 1] == s[ob]);
            assert(s[ob].0 != s[i].0);
        } else {
            lemma_remove_at_keys(s, i, a - 1, b - 1);
            assert(r[a] == p[a - 1] && r[b] == p[b - 1]);
        }
    }
}

} // verus!
