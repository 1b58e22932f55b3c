//! The aggregate table: a mapping from child name to its running byte total.
//!
//! Deltas arrive as `(name, bytes)` pairs and are merged additively: an
//! existing key is increased, an unknown key is inserted. Values never
//! decrease during a scan. The table is backed by a vector of pairs with
//! pairwise-distinct keys and is viewed, for specification purposes, as a
//! mathematical map from character sequences to byte counts.

use vstd::prelude::*;

verus! {

/// Clamp a mathematical byte count to the range of `u64`.
pub open spec fn clip(n: int) -> int {
    if n > u64::MAX {
        u64::MAX as int
    } else {
        n
    }
}

/// Saturating addition on byte counts.
pub fn sat_add(a: u64, b: u64) -> (r: u64)
    ensures
        r == clip(a + b),
{
    if a <= u64::MAX - b {
        a + b
    } else {
        u64::MAX
    }
}

/// Do the pairs `s` hold an entry whose key reads `k`?
pub open spec fn has_key(s: Seq<(String, u64)>, k: Seq<char>) -> bool {
    exists|i: int| 0 <= i < s.len() && s[i].0@ == k
}

/// The index of the entry for `k`; meaningful only when `has_key(s, k)`.
pub open spec fn idx_of(s: Seq<(String, u64)>, k: Seq<char>) -> int {
    choose|i: int| 0 <= i < s.len() && s[i].0@ == k
}

/// The value stored for `k`; meaningful only when `has_key(s, k)`.
pub open spec fn val_of(s: Seq<(String, u64)>, k: Seq<char>) -> u64 {
    s[idx_of(s, k)].1
}

/// No two entries share a key.
pub open spec fn distinct_keys(s: Seq<(String, u64)>) -> bool {
    forall|i: int, j: int| 0 <= i < j < s.len() ==> s[i].0@ != s[j].0@
}

/// The map a sequence of pairs with distinct keys stands for.
pub open spec fn map_of(s: Seq<(String, u64)>) -> Map<Seq<char>, u64> {
    Map::new(|k: Seq<char>| has_key(s, k), |k: Seq<char>| val_of(s, k))
}

/// Under distinct keys, any entry whose key reads `k` is the entry for `k`.
pub proof fn lemma_val_at(s: Seq<(String, u64)>, i: int)
    requires
        distinct_keys(s),
        0 <= i < s.len(),
    ensures
        has_key(s, s[i].0@),
        idx_of(s, s[i].0@) == i,
        val_of(s, s[i].0@) == s[i].1,
{
    assert(has_key(s, s[i].0@));
    let j = idx_of(s, s[i].0@);
    assert(0 <= j < s.len() && s[j].0@ == s[i].0@);
    if i < j {
        assert(s[i].0@ != s[j].0@);
    } else if j < i {
        assert(s[j].0@ != s[i].0@);
    }
}

/// Replacing the entry at `i` by one with the same key updates exactly that
/// key's value in the map.
proof fn lemma_update_entry(s: Seq<(String, u64)>, i: int, p: (String, u64))
    requires
        distinct_keys(s),
        0 <= i < s.len(),
        p.0@ == s[i].0@,
    ensures
        distinct_keys(s.update(i, p)),
        map_of(s.update(i, p)) =~= map_of(s).insert(p.0@, p.1),
{
    let s2 = s.update(i, p);
    assert forall|a: int, b: int| 0 <= a < b < s2.len() implies s2[a].0@ != s2[b].0@ by {
        assert(s2[a].0@ == s[a].0@ && s2[b].0@ == s[b].0@);
    }
    assert forall|x: Seq<char>| has_key(s2, x) <==> has_key(s, x) by {
        if has_key(s, x) {
            let j = idx_of(s, x);
            assert(s2[j].0@ == x);
        }
        if has_key(s2, x) {
            let j = idx_of(s2, x);
            assert(s[j].0@ == x);
        }
    }
    assert forall|x: Seq<char>| has_key(s2, x) implies val_of(s2, x) == (if x == p.0@ {
        p.1
    } else {
        val_of(s, x)
    }) by {
        if x == p.0@ {
            lemma_val_at(s2, i);
        } else {
            let j = idx_of(s, x);
            assert(s[j].0@ == x);
            assert(j != i);
            assert(s2[j] == s[j]);
            lemma_val_at(s2, j);
        }
    }
}

/// Appending an entry with a fresh key inserts exactly that key into the map.
proof fn lemma_push_entry(s: Seq<(String, u64)>, p: (String, u64))
    requires
        distinct_keys(s),
        !has_key(s, p.0@),
    ensures
        distinct_keys(s.push(p)),
        map_of(s.push(p)) =~= map_of(s).insert(p.0@, p.1),
{
    let s2 = s.push(p);
    assert forall|a: int, b: int| 0 <= a < b < s2.len() implies s2[a].0@ != s2[b].0@ by {
        if b < s.len() {
            assert(s2[a] == s[a] && s2[b] == s[b]);
        } else {
            assert(s2[b].0@ == p.0@);
            assert(s2[a] == s[a]);
            assert(has_key(s, s[a].0@));
        }
    }
    assert forall|x: Seq<char>| has_key(s2, x) <==> (has_key(s, x) || x == p.0@) by {
        if has_key(s, x) {
            let j = idx_of(s, x);
            assert(s2[j].0@ == x);
        }
        if has_key(s2, x) {
            let j = idx_of(s2, x);
            if j < s.len() {
                assert(s[j].0@ == x);
            }
        }
        assert(s2[s.len() as int].0@ == p.0@);
    }
    assert forall|x: Seq<char>| has_key(s2, x) implies val_of(s2, x) == (if x == p.0@ {
        p.1
    } else {
        val_of(s, x)
    }) by {
        if x == p.0@ {
            lemma_val_at(s2, s.len() as int);
        } else {
            let j = idx_of(s2, x);
            assert(j < s.len() && s[j].0@ == x);
            lemma_val_at(s2, j);
            lemma_val_at(s, j);
        }
    }
}

/// Merging one delta into the map: add to an existing key, insert a new one.
pub open spec fn merge_one(m: Map<Seq<char>, u64>, k: Seq<char>, v: u64) -> Map<Seq<char>, u64> {
    if m.dom().contains(k) {
        m.insert(k, clip(m[k] + v) as u64)
    } else {
        m.insert(k, v)
    }
}

/// The view of a delta batch: each pair keyed by the characters of its name.
pub open spec fn deltas_view(b: Seq<(String, u64)>) -> Seq<(Seq<char>, u64)> {
    b.map_values(|p: (String, u64)| (p.0@, p.1))
}

/// Merging a whole batch of deltas, in order.
pub open spec fn merge_batch(m: Map<Seq<char>, u64>, b: Seq<(Seq<char>, u64)>) -> Map<
    Seq<char>,
    u64,
>
    decreases b.len(),
{
    if b.len() == 0 {
        m
    } else {
        merge_one(merge_batch(m, b.drop_last()), b.last().0, b.last().1)
    }
}

/// Merging a delta never shrinks the value of any tracked key.
pub proof fn lemma_merge_one_monotone(m: Map<Seq<char>, u64>, k: Seq<char>, v: u64)
    ensures
        forall|x: Seq<char>| m.dom().contains(x) ==> merge_one(m, k, v).dom().contains(x),
        forall|x: Seq<char>|
            m.dom().contains(x) ==> #[trigger] merge_one(m, k, v)[x] >= m[x],
{
}

/// Merging a batch never shrinks the value of any tracked key (monotone
/// growth of the aggregate).
pub proof fn lemma_merge_batch_monotone(m: Map<Seq<char>, u64>, b: Seq<(Seq<char>, u64)>)
    ensures
        forall|x: Seq<char>| m.dom().contains(x) ==> merge_batch(m, b).dom().contains(x),
        forall|x: Seq<char>|
            m.dom().contains(x) ==> #[trigger] merge_batch(m, b)[x] >= m[x],
    decreases b.len(),
{
    if b.len() > 0 {
        lemma_merge_batch_monotone(m, b.drop_last());
        lemma_merge_one_monotone(merge_batch(m, b.drop_last()), b.last().0, b.last().1);
    }
}

/// A table freshly seeded for a scan: one zero entry per child name.
pub open spec fn is_seeded(c: Cache, keys: Seq<String>) -> bool {
    &&& c.pairs().len() == keys.len()
    &&& forall|i: int| 0 <= i < keys.len() ==> c.pairs()[i].0@ == keys[i]@ && c.pairs()[i].1 == 0
}

/// Every child of a freshly seeded table is tracked, at zero. This is the
/// state `start` establishes, and the starting point of the conservation
/// guarantee.
pub proof fn lemma_seeded_tracks_zero(c: Cache, keys: Seq<String>, i: int)
    requires
        c.wf(),
        is_seeded(c, keys),
        0 <= i < keys.len(),
    ensures
        c.as_map().dom().contains(keys[i]@),
        c.as_map()[keys[i]@] == 0,
{
    assert(c.pairs()[i].0@ == keys[i]@);
    lemma_val_at(c.pairs(), i);
}

/// Running per-child byte totals, keyed by child name.
pub struct Cache {
    entries: Vec<(String, u64)>,
}

impl Cache {
    /// The underlying pairs, in insertion order.
    pub closed spec fn pairs(self) -> Seq<(String, u64)> {
        self.entries@
    }

    /// Well-formed: no two entries share a key.
    pub open spec fn wf(self) -> bool {
        distinct_keys(self.pairs())
    }

    /// The mapping from child name to running total.
    pub open spec fn as_map(self) -> Map<Seq<char>, u64> {
        map_of(self.pairs())
    }

    /// An empty table.
    pub fn new() -> (r: Cache)
        ensures
            r.wf(),
            r.pairs() =~= Seq::<(String, u64)>::empty(),
            r.as_map() =~= Map::<Seq<char>, u64>::empty(),
    {
        let r = Cache { entries: Vec::new() };
        proof {
            assert forall|k: Seq<char>| !has_key(r.entries@, k) by {}
        }
        r
    }

    /// How many children are tracked.
    pub fn len(&self) -> (n: usize)
        ensures
            n == self.pairs().len(),
    {
        self.entries.len()
    }

    /// The position of the entry for `key`, if one exists.
    fn find(&self, key: &String) -> (r: Option<usize>)
        requires
            self.wf(),
        ensures
            match r {
                Some(i) => i < self.pairs().len() && self.pairs()[i as int].0@ == key@ && idx_of(
                    self.pairs(),
                    key@,
                ) == i,
                None => !has_key(self.pairs(), key@),
            },
    {
        let n = self.entries.len();
        let mut i: usize = 0;
        while i < n
            invariant
                n == self.entries@.len(),
                i <= n,
                self.wf(),
                forall|j: int| 0 <= j < i ==> self.entries@[j].0@ != key@,
            decreases n - i,
        {
            if self.entries[i].0 == *key {
                proof {
                    lemma_val_at(self.entries@, i as int);
                }
                return Some(i);
            }
            i += 1;
        }
        None
    }

    /// Additive merge of one delta: an existing key is
    /// increased, saturating at `u64::MAX`; an unknown key is inserted.
    pub fn add_delta(&mut self, key: &String, v: u64)
        requires
            old(self).wf(),
        ensures
            final(self).wf(),
            final(self).as_map() == merge_one(old(self).as_map(), key@, v),
            final(self).pairs().len() == old(self).pairs().len() + (
            if old(self).as_map().dom().contains(key@) {
                0int
            } else {
                1int
            }),
    {
        let ghost s = self.entries@;
        match self.find(key) {
            Some(i) => {
                let k = self.entries[i].0.clone();
                let v0 = self.entries[i].1;
                let sum = sat_add(v0, v);
                self.entries[i] = (k, sum);
                proof {
                    assert(self.entries@ =~= s.update(i as int, (k, sum)));
                    lemma_val_at(s, i as int);
                    lemma_update_entry(s, i as int, (k, sum));
                }
            },
            None => {
                let kc = key.clone();
                self.entries.push((kc, v));
                proof {
                    assert(self.entries@ =~= s.push((kc, v)));
                    lemma_push_entry(s, (kc, v));
                }
            },
        }
    }

    /// Store `v` for `key`, overwriting any previous value.
    pub fn insert(&mut self, key: &String, v: u64)
        requires
            old(self).wf(),
        ensures
            final(self).wf(),
            final(self).as_map() == old(self).as_map().insert(key@, v),
    {
        let ghost s = self.entries@;
        match self.find(key) {
            Some(i) => {
                let k = self.entries[i].0.clone();
                self.entries[i] = (k, v);
                proof {
                    assert(self.entries@ =~= s.update(i as int, (k, v)));
                    lemma_update_entry(s, i as int, (k, v));
                }
            },
            None => {
                let kc = key.clone();
                self.entries.push((kc, v));
                proof {
                    assert(self.entries@ =~= s.push((kc, v)));
                    lemma_push_entry(s, (kc, v));
                }
            },
        }
    }

    /// The running total for `key`, if the key is tracked.
    pub fn get(&self, key: &String) -> (r: Option<u64>)
        requires
            self.wf(),
        ensures
            r == (if self.as_map().dom().contains(key@) {
                Some(self.as_map()[key@])
            } else {
                None
            }),
    {
        match self.find(key) {
            Some(i) => {
                proof {
                    lemma_val_at(self.entries@, i as int);
                }
                Some(self.entries[i].1)
            },
            None => None,
        }
    }

    /// Merge a whole batch of deltas, in order.
    pub fn apply_batch(&mut self, batch: &Vec<(String, u64)>)
        requires
            old(self).wf(),
        ensures
            final(self).wf(),
            final(self).as_map() == merge_batch(old(self).as_map(), deltas_view(batch@)),
    {
        let ghost m0 = self.as_map();
        let ghost d = deltas_view(batch@);
        let n = batch.len();
        let mut i: usize = 0;
        while i < n
            invariant
                n == batch@.len(),
                i <= n,
                self.wf(),
                d == deltas_view(batch@),
                self.as_map() == merge_batch(m0, d.take(i as int)),
            decreases n - i,
        {
            let p = &batch[i];
            self.add_delta(&p.0, p.1);
            proof {
                assert(d.take(i + 1).drop_last() =~= d.take(i as int));
                assert(d.take(i + 1).last() == (batch@[i as int].0@, batch@[i as int].1));
            }
            i += 1;
        }
        proof {
            assert(d.take(n as int) =~= d);
        }
    }

    /// Seed a table with one zero entry per child name.
    pub fn from_keys(keys: &Vec<String>) -> (r: Cache)
        requires
            forall|i: int, j: int| 0 <= i < j < keys@.len() ==> keys@[i]@ != keys@[j]@,
        ensures
            r.wf(),
            is_seeded(r, keys@),
            r.pairs().len() == keys@.len(),
            forall|i: int|
                0 <= i < keys@.len() ==> r.pairs()[i].0@ == keys@[i]@ && r.pairs()[i].1 == 0,
            forall|k: Seq<char>|
                r.as_map().dom().contains(k) <==> exists|i: int|
                    0 <= i < keys@.len() && keys@[i]@ == k,
            forall|k: Seq<char>| r.as_map().dom().contains(k) ==> r.as_map()[k] == 0,
    {
        let mut r = Cache { entries: Vec::new() };
        let n = keys.len();
        let mut i: usize = 0;
        while i < n
            invariant
                n == keys@.len(),
                i <= n,
                forall|a: int, b: int| 0 <= a < b < n ==> keys@[a]@ != keys@[b]@,
                r.entries@.len() == i,
                forall|j: int| 0 <= j < i ==> #[trigger] r.entries@[j].0@ == keys@[j]@,
                forall|j: int| 0 <= j < i ==> #[trigger] r.entries@[j].1 == 0,
            decreases n - i,
        {
            let kc = keys[i].clone();
            r.entries.push((kc, 0));
            i += 1;
        }
        proof {
            assert forall|a: int, b: int| 0 <= a < b < r.entries@.len() implies r.entries@[a].0@
                != r.entries@[b].0@ by {
                assert(r.entries@[a].0@ == keys@[a]@);
                assert(r.entries@[b].0@ == keys@[b]@);
            }
            assert forall|k: Seq<char>| has_key(r.entries@, k) implies val_of(r.entries@, k)
                == 0 by {
                let j = idx_of(r.entries@, k);
                assert(0 <= j < r.entries@.len());
                assert(r.entries@[j].1 == 0);
            }
            assert forall|k: Seq<char>|
                has_key(r.entries@, k) <==> exists|i: int|
                    0 <= i < keys@.len() && keys@[i]@ == k by {
                if has_key(r.entries@, k) {
                    let j = idx_of(r.entries@, k);
                    assert(keys@[j]@ == k);
                }
                if exists|i: int| 0 <= i < keys@.len() && keys@[i]@ == k {
                    let j = choose|i: int| 0 <= i < keys@.len() && keys@[i]@ == k;
                    assert(r.entries@[j].0@ == k);
                }
            }
        }
        r
    }
}

/// The sum of the byte counts held in `s`.
pub open spec fn sum_pairs(s: Seq<(String, u64)>) -> int
    decreases s.len(),
{
    if s.len() == 0 {
        0
    } else {
        sum_pairs(s.drop_last()) + s.last().1
    }
}

/// Byte sums are never negative.
pub proof fn lemma_sum_pairs_nonneg(s: Seq<(String, u64)>)
    ensures
        sum_pairs(s) >= 0,
    decreases s.len(),
{
    if s.len() > 0 {
        lemma_sum_pairs_nonneg(s.drop_last());
    }
}

impl Cache {
    /// The total over all tracked children, saturating at `u64::MAX`.
    pub fn total(&self) -> (r: u64)
        ensures
            r == clip(sum_pairs(self.pairs())),
    {
        let ghost s = self.entries@;
        let n = self.entries.len();
        let mut acc: u64 = 0;
        let mut i: usize = 0;
        while i < n
            invariant
                n == s.len(),
                s == self.entries@,
                i <= n,
                acc == clip(sum_pairs(s.take(i as int))),
            decreases n - i,
        {
            let v = self.entries[i].1;
            proof {
                assert(s.take(i + 1).drop_last() =~= s.take(i as int));
                assert(s.take(i + 1).last() == s[i as int]);
                lemma_sum_pairs_nonneg(s.take(i as int));
            }
            acc = sat_add(acc, v);
            i += 1;
        }
        proof {
            assert(s.take(n as int) =~= s);
        }
        acc
    }

    /// A copy of the tracked pairs, in insertion order.
    pub fn entries_cloned(&self) -> (r: Vec<(String, u64)>)
        ensures
            r@ == self.pairs(),
    {
        let ghost s = self.entries@;
        let n = self.entries.len();
        let mut r: Vec<(String, u64)> = Vec::new();
        let mut i: usize = 0;
        while i < n
            invariant
                n == s.len(),
                s == self.entries@,
                i <= n,
                r@.len() == i,
                forall|j: int| 0 <= j < i ==> r@[j] == s[j],
            decreases n - i,
        {
            let k = self.entries[i].0.clone();
            let v = self.entries[i].1;
            r.push((k, v));
            i += 1;
        }
        proof {
            assert(r@ =~= s);
        }
        r
    }
}

} // verus!
