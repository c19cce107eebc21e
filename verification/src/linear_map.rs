//! A small map that keeps its entries in the order in which their keys first
//! came.
use vstd::prelude::*;

verus! {

/// Keys that can be told apart by their view.
pub trait KeyEq: View + Sized {
    /// Whether two keys are the same key.
    fn key_eq(&self, other: &Self) -> (same: bool)
        ensures
            same == (self@ == other@),
    ;
}

impl KeyEq for String {
    fn key_eq(&self, other: &Self) -> (same: bool) {
        *self == *other
    }
}

impl KeyEq for u32 {
    fn key_eq(&self, other: &Self) -> (same: bool) {
        *self == *other
    }
}

impl KeyEq for u64 {
    fn key_eq(&self, other: &Self) -> (same: bool) {
        *self == *other
    }
}

impl KeyEq for Vec<u8> {
    fn key_eq(&self, other: &Self) -> (same: bool) {
        bytes_eq(self.as_slice(), other.as_slice())
    }
}

/// Whether two byte strings are the same.
pub fn bytes_eq(a: &[u8], b: &[u8]) -> (same: bool)
    ensures
        same == (a@ == b@),
{
    if a.len() != b.len() {
        return false;
    }
    let mut i: usize = 0;
    while i < a.len()
        invariant
            i <= a@.len(),
            a@.len() == b@.len(),
            forall|j: int| 0 <= j < i ==> a@[j] == b@[j],
        decreases a@.len() - i,
    {
        if a[i] != b[i] {
            return false;
        }
        i += 1;
    }
    assert(a@ =~= b@);
    true
}

/// The map that a sequence of entries stands for; a later entry wins.
pub open spec fn entries_map<K: View, V>(s: Seq<(K, V)>) -> Map<K::V, V>
    decreases s.len(),
{
    if s.len() == 0 {
        Map::empty()
    } else {
        entries_map(s.drop_last()).insert(s.last().0@, s.last().1)
    }
}

/// No key occurs twice.
pub open spec fn distinct_keys<K: View, V>(s: Seq<(K, V)>) -> bool {
    forall|i: int, j: int| 0 <= i < j < s.len() ==> #[trigger] s[i].0@ != #[trigger] s[j].0@
}

/// A key is in the map if and only if an entry has it.
pub proof fn lemma_entries_contains<K: View, V>(s: Seq<(K, V)>, k: K::V)
    ensures
        entries_map(s).dom().contains(k) <==> exists|i: int| 0 <= i < s.len() && #[trigger] s[i].0@ == k,
    decreases s.len(),
{
    if s.len() > 0 {
        let p = s.drop_last();
        lemma_entries_contains(p, k);
        if entries_map(s).dom().contains(k) {
            if s.last().0@ == k {
                assert(s[s.len() - 1].0@ == k);
            } else {
                let i = choose|i: int| 0 <= i < p.len() && #[trigger] p[i].0@ == k;
                assert(s[i].0@ == k);
            }
        }
        if exists|i: int| 0 <= i < s.len() && #[trigger] s[i].0@ == k {
            let i = choose|i: int| 0 <= i < s.len() && #[trigger] s[i].0@ == k;
            if i < s.len() - 1 {
                assert(p[i].0@ == k);
            }
        }
    }
}

/// With distinct keys, the map holds under a key the value of its entry.
pub proof fn lemma_entries_value<K: View, V>(s: Seq<(K, V)>, i: int)
    requires
        distinct_keys(s),
        0 <= i < s.len(),
    ensures
        entries_map(s).dom().contains(s[i].0@),
        entries_map(s)[s[i].0@] == s[i].1,
    decreases s.len(),
{
    if i < s.len() - 1 {
        let p = s.drop_last();
        assert(distinct_keys(p)) by {
            assert forall|a: int, b: int| 0 <= a < b < p.len() implies #[trigger] p[a].0@
                != #[trigger] p[b].0@ by {
                assert(p[a] == s[a] && p[b] == s[b]);
            }
        }
        lemma_entries_value(p, i);
        assert(p[i] == s[i]);
        assert(s[i].0@ != s[s.len() - 1].0@);
    }
}

/// With distinct keys, the map has as many keys as there are entries.
pub proof fn lemma_entries_len<K: View, V>(s: Seq<(K, V)>)
    requires
        distinct_keys(s),
    ensures
        entries_map(s).dom().finite(),
        entries_map(s).dom().len() == s.len(),
    decreases s.len(),
{
    if s.len() > 0 {
        let p = s.drop_last();
        assert(distinct_keys(p)) by {
            assert forall|a: int, b: int| 0 <= a < b < p.len() implies #[trigger] p[a].0@
                != #[trigger] p[b].0@ by {
                assert(p[a] == s[a] && p[b] == s[b]);
            }
        }
        lemma_entries_len(p);
        lemma_entries_contains(p, s.last().0@);
        assert(!entries_map(p).dom().contains(s.last().0@)) by {
            if entries_map(p).dom().contains(s.last().0@) {
                let i = choose|i: int| 0 <= i < p.len() && #[trigger] p[i].0@ == s.last().0@;
                assert(s[i].0@ == s[s.len() - 1].0@);
            }
        }
    }
}

/// Two sequences of entries with distinct keys that agree on every key stand
/// for the same map.
pub proof fn lemma_entries_ext<K: View, V>(s: Seq<(K, V)>, m: Map<K::V, V>)
    requires
        distinct_keys(s),
        forall|i: int| #![trigger s[i]] 0 <= i < s.len() ==> m.dom().contains(s[i].0@) && m[s[i].0@] == s[i].1,
        forall|k: K::V| #[trigger] m.dom().contains(k) ==> exists|i: int| 0 <= i < s.len() && #[trigger] s[i].0@ == k,
    ensures
        entries_map(s) == m,
{
    assert forall|k: K::V| #[trigger] entries_map(s).dom().contains(k) <==> m.dom().contains(k) by {
        lemma_entries_contains(s, k);
        if entries_map(s).dom().contains(k) {
            let i = choose|i: int| 0 <= i < s.len() && #[trigger] s[i].0@ == k;
            assert(s[i].0@ == k);
        }
    }
    assert forall|k: K::V| #[trigger] m.dom().contains(k) implies entries_map(s)[k] == m[k] by {
        let i = choose|i: int| 0 <= i < s.len() && #[trigger] s[i].0@ == k;
        lemma_entries_value(s, i);
    }
    assert(entries_map(s) =~= m);
}

/// Another value in one entry is another value under its key.
pub proof fn lemma_set_value<K: View, V>(s: Seq<(K, V)>, i: int)
    requires
        distinct_keys(s),
        0 <= i < s.len(),
    ensures
        forall|e: (K, V)| #![trigger s.update(i, e)] e.0 == s[i].0 ==> {
            &&& distinct_keys(s.update(i, e))
            &&& entries_map(s.update(i, e)) == entries_map(s).insert(e.0@, e.1)
        },
{
    assert forall|e: (K, V)| #![trigger s.update(i, e)] e.0 == s[i].0 implies {
        &&& distinct_keys(s.update(i, e))
        &&& entries_map(s.update(i, e)) == entries_map(s).insert(e.0@, e.1)
    } by {
        let t = s.update(i, e);
        let m = entries_map(s).insert(e.0@, e.1);
        assert forall|j: int|
            #![trigger t[j]]
            0 <= j < t.len() implies m.dom().contains(t[j].0@) && m[t[j].0@] == t[j].1 by {
            lemma_entries_value(s, j);
            if j < i {
                assert(s[j].0@ != s[i].0@);
            } else if i < j {
                assert(s[i].0@ != s[j].0@);
            }
        }
        assert forall|q: K::V| #[trigger] m.dom().contains(q) implies exists|j: int|
            0 <= j < t.len() && #[trigger] t[j].0@ == q by {
            if q == e.0@ {
                assert(t[i].0@ == q);
            } else {
                lemma_entries_contains(s, q);
                let j = choose|j: int| 0 <= j < s.len() && #[trigger] s[j].0@ == q;
                assert(t[j].0@ == q);
            }
        }
        assert(distinct_keys(t));
        lemma_entries_ext(t, m);
    }
}

/// A map from keys to values, held as a list of entries.
#[derive(Debug)]
pub struct LinearMap<K, V> {
    pub entries: Vec<(K, V)>,
}

impl<K: KeyEq, V> View for LinearMap<K, V> {
    type V = Map<K::V, V>;

    open spec fn view(&self) -> Map<K::V, V> {
        entries_map(self.entries@)
    }
}

impl<K: KeyEq, V> LinearMap<K, V> {
    /// No key occurs twice.
    pub open spec fn wf(&self) -> bool {
        distinct_keys(self.entries@)
    }

    /// An empty map.
    pub fn new() -> (m: Self)
        ensures
            m.wf(),
            m@ == Map::<K::V, V>::empty(),
            m.entries@.len() == 0,
    {
        LinearMap { entries: Vec::new() }
    }

    /// The number of keys.
    pub fn len(&self) -> (n: usize)
        requires
            self.wf(),
        ensures
            n == self.entries@.len(),
            n == self@.dom().len(),
    {
        proof {
            lemma_entries_len(self.entries@);
        }
        self.entries.len()
    }

    /// Where the entry of a key stands.
    pub fn index_of(&self, k: &K) -> (r: Option<usize>)
        requires
            self.wf(),
        ensures
            r is Some <==> self@.dom().contains(k@),
            r is Some ==> {
                &&& r->0 < self.entries@.len()
                &&& self.entries@[r->0 as int].0@ == k@
                &&& self.entries@[r->0 as int].1 == self@[k@]
            },
    {
        let mut i: usize = 0;
        while i < self.entries.len()
            invariant
                i <= self.entries@.len(),
                self.wf(),
                forall|j: int| 0 <= j < i ==> #[trigger] self.entries@[j].0@ != k@,
            decreases self.entries@.len() - i,
        {
            if self.entries[i].0.key_eq(k) {
                proof {
                    lemma_entries_value(self.entries@, i as int);
                }
                return Some(i);
            }
            i += 1;
        }
        proof {
            lemma_entries_contains(self.entries@, k@);
        }
        None
    }

    /// Whether a key is in the map.
    pub fn contains_key(&self, k: &K) -> (b: bool)
        requires
            self.wf(),
        ensures
            b == self@.dom().contains(k@),
    {
        self.index_of(k).is_some()
    }

    /// The value of a key.
    pub fn get(&self, k: &K) -> (r: Option<&V>)
        requires
            self.wf(),
        ensures
            r is Some <==> self@.dom().contains(k@),
            r is Some ==> *r->0 == self@[k@],
    {
        match self.index_of(k) {
            Some(i) => Some(&self.entries[i].1),
            None => None,
        }
    }

    /// The value of a key, to be changed in place.
    pub fn get_mut(&mut self, k: &K) -> (r: Option<&mut V>)
        requires
            old(self).wf(),
        ensures
            final(self).wf(),
            r is Some <==> old(self)@.dom().contains(k@),
            match r {
                Some(v) => {
                    &&& *v == old(self)@[k@]
                    &&& final(self)@ == old(self)@.insert(k@, *final(v))
                },
                None => *final(self) == *old(self),
            },
    {
        match self.index_of(k) {
            Some(i) => {
                proof {
                    lemma_set_value(self.entries@, i as int);
                }
                let e = &mut self.entries[i];
                Some(&mut e.1)
            },
            None => None,
        }
    }

    /// Sets the value of a key, and gives the value that it had.
    pub fn insert(&mut self, k: K, v: V) -> (r: Option<V>)
        requires
            old(self).wf(),
        ensures
            final(self).wf(),
            final(self)@ == old(self)@.insert(k@, v),
            r == (if old(self)@.dom().contains(k@) {
                Some(old(self)@[k@])
            } else {
                None
            }),
            final(self).entries@.len() == (if old(self)@.dom().contains(k@) {
                old(self).entries@.len()
            } else {
                old(self).entries@.len() + 1
            }),
    {
        match self.index_of(&k) {
            Some(i) => {
                let ghost before = self.entries@;
                let ghost pos = i as int;
                self.entries.push((k, v));
                let old_entry = self.entries.swap_remove(i);
                let ghost after = self.entries@;
                proof {
                    let m = entries_map(before).insert(k@, v);
                    assert(after =~= before.update(pos, (k, v)));
                    assert(distinct_keys(after));
                    assert forall|j: int|
                        #![trigger after[j]]
                        0 <= j < after.len() implies m.dom().contains(
                        after[j].0@,
                    ) && m[after[j].0@] == after[j].1 by {
                        if j != pos {
                            lemma_entries_value(before, j);
                            assert(before[j].0@ != before[pos].0@);
                        }
                    }
                    assert forall|q: K::V| #[trigger]
                        m.dom().contains(q) implies exists|j: int|
                        0 <= j < after.len() && #[trigger] after[j].0@ == q by {
                        if q == k@ {
                            assert(after[pos].0@ == q);
                        } else {
                            lemma_entries_contains(before, q);
                            let j = choose|j: int|
                                0 <= j < before.len() && #[trigger] before[j].0@ == q;
                            assert(after[j].0@ == q);
                        }
                    }
                    lemma_entries_ext(after, m);
                }
                Some(old_entry.1)
            },
            None => {
                let ghost before = self.entries@;
                self.entries.push((k, v));
                proof {
                    lemma_entries_contains(before, k@);
                    assert(self.entries@.drop_last() =~= before);
                    assert(distinct_keys(self.entries@));
                }
                None
            },
        }
    }

    /// Sets the value of the entry at a position.
    pub fn set_at(&mut self, i: usize, v: V)
        requires
            old(self).wf(),
            i < old(self).entries@.len(),
        ensures
            final(self).wf(),
            final(self).entries@ == old(self).entries@.update(
                i as int,
                (old(self).entries@[i as int].0, v),
            ),
            final(self)@ == old(self)@.insert(old(self).entries@[i as int].0@, v),
            old(self)@.dom().contains(old(self).entries@[i as int].0@),
            old(self)@[old(self).entries@[i as int].0@] == old(self).entries@[i as int].1,
    {
        proof {
            lemma_set_value(self.entries@, i as int);
            lemma_entries_value(self.entries@, i as int);
        }
        let e = &mut self.entries[i];
        e.1 = v;
    }

    /// Takes the entry at a position out of the map.
    pub fn remove_at(&mut self, i: usize) -> (entry: (K, V))
        requires
            old(self).wf(),
            i < old(self).entries@.len(),
        ensures
            final(self).wf(),
            entry == old(self).entries@[i as int],
            final(self).entries@ == old(self).entries@.remove(i as int),
            final(self)@ == old(self)@.remove(entry.0@),
            old(self)@.dom().contains(entry.0@),
            old(self)@[entry.0@] == entry.1,
    {
        let ghost before = self.entries@;
        let ghost pos = i as int;
        let entry = self.entries.remove(i);
        let ghost after = self.entries@;
        proof {
            lemma_entries_value(before, pos);
            assert(after =~= before.remove(pos));
            assert forall|a: int, b: int| 0 <= a < b < after.len() implies #[trigger]
                after[a].0@ != #[trigger] after[b].0@ by {
                let x = if a < pos { a } else { a + 1 };
                let y = if b < pos { b } else { b + 1 };
                assert(after[a] == before[x] && after[b] == before[y]);
                assert(before[x].0@ != before[y].0@);
            }
            let m = entries_map(before).remove(entry.0@);
            assert forall|j: int|
                #![trigger after[j]]
                0 <= j < after.len() implies m.dom().contains(after[j].0@)
                && m[after[j].0@] == after[j].1 by {
                let x = if j < pos { j } else { j + 1 };
                assert(after[j] == before[x]);
                lemma_entries_value(before, x);
                if x < pos {
                    assert(before[x].0@ != before[pos].0@);
                } else {
                    assert(before[pos].0@ != before[x].0@);
                }
            }
            assert forall|q: K::V| #[trigger] m.dom().contains(q) implies exists|j: int|
                0 <= j < after.len() && #[trigger] after[j].0@ == q by {
                lemma_entries_contains(before, q);
                let x = choose|x: int| 0 <= x < before.len() && #[trigger] before[x].0@ == q;
                let j = if x < pos { x } else { x - 1 };
                assert(after[j] == before[x]);
                assert(after[j].0@ == q);
            }
            lemma_entries_ext(after, m);
        }
        entry
    }

    /// Takes a key out of the map, and gives the value that it had.
    pub fn remove(&mut self, k: &K) -> (r: Option<V>)
        requires
            old(self).wf(),
        ensures
            final(self).wf(),
            final(self)@ == old(self)@.remove(k@),
            r == (if old(self)@.dom().contains(k@) {
                Some(old(self)@[k@])
            } else {
                None
            }),
            final(self).entries@.len() == (if old(self)@.dom().contains(k@) {
                (old(self).entries@.len() - 1) as nat
            } else {
                old(self).entries@.len()
            }),
    {
        match self.index_of(k) {
            Some(i) => Some(self.remove_at(i).1),
            None => {
                assert(self@.remove(k@) =~= self@);
                None
            },
        }
    }
}

} // verus!
