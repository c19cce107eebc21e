//! Stable sorting by rank.
use crate::ml::float_bits::F32Bits;
use vstd::prelude::*;

verus! {

/// Things that have a rank.
pub trait Ranked: Sized {
    spec fn rank_spec(&self) -> int;

    fn rank_of(&self) -> (r: i64)
        ensures
            r == self.rank_spec(),
    ;
}

impl Ranked for F32Bits {
    open spec fn rank_spec(&self) -> int {
        self.rank()
    }

    fn rank_of(&self) -> (r: i64) {
        self.signed()
    }
}

/// An element put into a sorted sequence, behind those of equal rank.
pub open spec fn sorted_insert<T: Ranked>(s: Seq<T>, x: T) -> Seq<T>
    decreases s.len(),
{
    if s.len() == 0 || s.last().rank_spec() <= x.rank_spec() {
        s.push(x)
    } else {
        sorted_insert(s.drop_last(), x).push(s.last())
    }
}

/// The elements of a sequence in the order of their ranks; those of equal rank
/// keep their order.
pub open spec fn stable_sorted<T: Ranked>(s: Seq<T>) -> Seq<T>
    decreases s.len(),
{
    if s.len() == 0 {
        s
    } else {
        sorted_insert(stable_sorted(s.drop_last()), s.last())
    }
}

/// Ranks do not fall along the sequence.
pub open spec fn is_sorted<T: Ranked>(s: Seq<T>) -> bool {
    forall|i: int, j: int|
        0 <= i <= j < s.len() ==> (#[trigger] s[i]).rank_spec() <= (#[trigger] s[j]).rank_spec()
}

proof fn lemma_insert_position<T: Ranked>(s: Seq<T>, x: T, pos: int)
    requires
        0 <= pos <= s.len(),
        forall|j: int| pos <= j < s.len() ==> (#[trigger] s[j]).rank_spec() > x.rank_spec(),
        pos > 0 ==> s[pos - 1].rank_spec() <= x.rank_spec(),
    ensures
        sorted_insert(s, x) == s.insert(pos, x),
    decreases s.len(),
{
    if pos == s.len() {
        assert(s.insert(pos, x) =~= s.push(x));
    } else {
        let p = s.drop_last();
        assert forall|j: int| pos <= j < p.len() implies (#[trigger] p[j]).rank_spec()
            > x.rank_spec() by {
            assert(p[j] == s[j]);
        }
        lemma_insert_position(p, x, pos);
        assert(s[s.len() - 1].rank_spec() > x.rank_spec());
        assert(s.insert(pos, x) =~= p.insert(pos, x).push(s.last()));
    }
}

proof fn lemma_insert_sorted<T: Ranked>(s: Seq<T>, x: T)
    requires
        is_sorted(s),
    ensures
        is_sorted(sorted_insert(s, x)),
        sorted_insert(s, x).len() == s.len() + 1,
        sorted_insert(s, x).to_multiset() =~= s.to_multiset().insert(x),
        forall|j: int|
            0 <= j < s.len() + 1 ==> (#[trigger] sorted_insert(s, x)[j] == x || s.contains(
                sorted_insert(s, x)[j],
            )),
    decreases s.len(),
{
    broadcast use vstd::seq_lib::group_to_multiset_ensures;

    if s.len() == 0 || s.last().rank_spec() <= x.rank_spec() {
        let r = s.push(x);
        assert(sorted_insert(s, x) == r);
        assert forall|i: int, j: int| 0 <= i <= j < r.len() implies (#[trigger] r[i]).rank_spec()
            <= (#[trigger] r[j]).rank_spec() by {
            if j == s.len() && i < s.len() {
                assert(s[i].rank_spec() <= s[s.len() - 1].rank_spec());
            }
        }
        assert forall|j: int| 0 <= j < s.len() + 1 implies (#[trigger] r[j] == x || s.contains(
            r[j],
        )) by {
            if j < s.len() {
                assert(s[j] == r[j]);
            }
        }
    } else {
        let p = s.drop_last();
        assert(s =~= p.push(s.last()));
        lemma_insert_sorted(p, x);
        let q = sorted_insert(p, x);
        let r = q.push(s.last());
        assert(sorted_insert(s, x) == r);
        assert forall|i: int, j: int| 0 <= i <= j < r.len() implies (#[trigger] r[i]).rank_spec()
            <= (#[trigger] r[j]).rank_spec() by {
            if j == q.len() && i < q.len() {
                assert(q[i] == x || p.contains(q[i]));
                if q[i] != x {
                    let k = choose|k: int| 0 <= k < p.len() && p[k] == q[i];
                    assert(s[k].rank_spec() <= s[s.len() - 1].rank_spec());
                }
            }
        }
        assert forall|j: int| 0 <= j < s.len() + 1 implies (#[trigger] r[j] == x || s.contains(
            r[j],
        )) by {
            if j < q.len() {
                assert(r[j] == q[j]);
                assert(q[j] == x || p.contains(q[j]));
                if q[j] != x {
                    let k = choose|k: int| 0 <= k < p.len() && p[k] == q[j];
                    assert(s[k] == r[j]);
                }
            } else {
                assert(s[s.len() - 1] == r[j]);
            }
        }
        assert(r.to_multiset() =~= s.to_multiset().insert(x));
    }
}

/// Sorting loses nothing, adds nothing, and puts lower ranks first.
pub proof fn sorting_permutes<T: Ranked>(s: Seq<T>)
    ensures
        is_sorted(stable_sorted(s)),
        stable_sorted(s).len() == s.len(),
        stable_sorted(s).to_multiset() == s.to_multiset(),
    decreases s.len(),
{
    broadcast use vstd::seq_lib::group_to_multiset_ensures;

    if s.len() > 0 {
        let p = s.drop_last();
        sorting_permutes(p);
        lemma_insert_sorted(stable_sorted(p), s.last());
        assert(s =~= p.push(s.last()));
        assert(stable_sorted(s).to_multiset() =~= s.to_multiset());
    }
}

/// Sorts by rank; what has equal rank keeps its order.
pub fn stable_sort<T: Ranked>(v: Vec<T>) -> (r: Vec<T>)
    ensures
        r@ == stable_sorted(v@),
        r@.len() == v@.len(),
{
    let mut rest = v;
    let mut reversed: Vec<T> = Vec::new();
    let ghost all = v@;
    while rest.len() > 0
        invariant
            rest@.len() + reversed@.len() == all.len(),
            rest@ == all.subrange(0, rest@.len() as int),
            forall|j: int|
                0 <= j < reversed@.len() ==> #[trigger] reversed@[j] == all[all.len() - 1 - j],
        decreases rest@.len(),
    {
        let last = rest.pop();
        match last {
            Some(x) => {
                reversed.push(x);
            },
            None => {},
        }
        assert(rest@ =~= all.subrange(0, rest@.len() as int));
    }
    let mut out: Vec<T> = Vec::new();
    let ghost mut done: int = 0;
    assert(all.subrange(0, 0) =~= Seq::<T>::empty());
    while reversed.len() > 0
        invariant
            0 <= done <= all.len(),
            reversed@.len() + done == all.len(),
            forall|j: int|
                0 <= j < reversed@.len() ==> #[trigger] reversed@[j] == all[all.len() - 1 - j],
            out@ == stable_sorted(all.subrange(0, done)),
            out@.len() == done,
        decreases reversed@.len(),
    {
        match reversed.pop() {
            Some(x) => {
                let mut pos: usize = out.len();
                while pos > 0 && out[pos - 1].rank_of() > x.rank_of()
                    invariant
                        pos <= out@.len(),
                        forall|j: int|
                            pos <= j < out@.len() ==> (#[trigger] out@[j]).rank_spec()
                                > x.rank_spec(),
                    decreases pos,
                {
                    pos -= 1;
                }
                proof {
                    lemma_insert_position(out@, x, pos as int);
                    let t = all.subrange(0, done + 1);
                    assert(t.drop_last() =~= all.subrange(0, done));
                    assert(t.last() == x);
                    done = done + 1;
                }
                out.insert(pos, x);
            },
            None => {},
        }
    }
    assert(all.subrange(0, all.len() as int) =~= all);
    out
}

proof fn lemma_insert_keeps_equals<T: Ranked>(s: Seq<T>, x: T, rank: int)
    requires
        is_sorted(s),
    ensures
        sorted_insert(s, x).filter(|y: T| y.rank_spec() == rank) == (if x.rank_spec() == rank {
            s.filter(|y: T| y.rank_spec() == rank).push(x)
        } else {
            s.filter(|y: T| y.rank_spec() == rank)
        }),
    decreases s.len(),
{
    broadcast use Seq::<_>::lemma_filter_push;

    let f = |y: T| y.rank_spec() == rank;
    if s.len() == 0 || s.last().rank_spec() <= x.rank_spec() {
    } else {
        let p = s.drop_last();
        lemma_insert_keeps_equals(p, x, rank);
        assert(s =~= p.push(s.last()));
    }
}

/// Sorting keeps the order of what has the same rank: for every rank, the elements that
/// have it come out as they went in.
pub proof fn sorting_is_stable<T: Ranked>(s: Seq<T>, rank: int)
    ensures
        stable_sorted(s).filter(|y: T| y.rank_spec() == rank) == s.filter(
            |y: T| y.rank_spec() == rank,
        ),
    decreases s.len(),
{
    broadcast use Seq::<_>::lemma_filter_push;

    if s.len() > 0 {
        let p = s.drop_last();
        sorting_is_stable(p, rank);
        sorting_permutes(p);
        lemma_insert_keeps_equals(stable_sorted(p), s.last(), rank);
        assert(s =~= p.push(s.last()));
    }
}

} // verus!
