//! Stable sorting by a key, with the exact meaning of `slice::sort_by_key`
//! and `slice::sort_by`: the result is ordered by key, and items whose keys
//! are equal keep the order they had.
use vstd::prelude::*;

verus! {

/// A type whose values are ordered by a key. `key_before(a, b)` says that the
/// key of `a` is strictly smaller than the key of `b`; it is a strict weak order.
pub trait SortKey: Sized {
    spec fn key_before(&self, other: &Self) -> bool;

    proof fn lemma_key_before_asymmetric(a: &Self, b: &Self)
        ensures
            a.key_before(b) ==> !b.key_before(a),
    ;

    /// Negative transitivity: if `a` is before `c`, any `b` is after `a` or before `c`.
    proof fn lemma_key_before_splits(a: &Self, b: &Self, c: &Self)
        requires
            a.key_before(c),
        ensures
            a.key_before(b) || b.key_before(c),
    ;

    fn before(&self, other: &Self) -> (r: bool)
        ensures
            r == self.key_before(other),
    ;
}

/// `v` is among the values of `p`.
pub open spec fn hits(p: Seq<int>, v: int) -> bool {
    exists|k: int| 0 <= k < p.len() && #[trigger] p[k] == v
}

/// `out` is `inp` rearranged by `p` (`out[k] == inp[p[k]]`, `p` one-to-one),
/// ordered by key, with items of equal key in their original order.
pub open spec fn is_stable_arrangement<T: SortKey>(inp: Seq<T>, out: Seq<T>, p: Seq<int>) -> bool {
    &&& p.len() == inp.len()
    &&& out.len() == inp.len()
    &&& forall|k: int| 0 <= k < p.len() ==> 0 <= #[trigger] p[k] < inp.len()
    &&& forall|k: int| 0 <= k < p.len() ==> #[trigger] out[k] == inp[p[k]]
    &&& forall|a: int, b: int| 0 <= a < b < p.len() ==> #[trigger] p[a] != #[trigger] p[b]
    &&& forall|v: int| 0 <= v < inp.len() ==> #[trigger] hits(p, v)
    &&& forall|a: int, b: int|
        #![trigger out[a], out[b]]
        0 <= a < b < out.len() ==> !out[b].key_before(&out[a])
    &&& forall|a: int, b: int|
        #![trigger out[a], out[b]]
        0 <= a < b < out.len() && !out[a].key_before(&out[b]) ==> p[a] < p[b]
}

/// `out` is `inp` rearranged by `p`, ordered by `before`, with items that
/// `before` does not separate in their original order.
pub open spec fn is_stable_arrangement_by<V>(
    inp: Seq<V>,
    out: Seq<V>,
    p: Seq<int>,
    before: spec_fn(V, V) -> bool,
) -> bool {
    &&& p.len() == inp.len()
    &&& out.len() == inp.len()
    &&& forall|k: int| 0 <= k < p.len() ==> 0 <= #[trigger] p[k] < inp.len()
    &&& forall|k: int| 0 <= k < p.len() ==> #[trigger] out[k] == inp[p[k]]
    &&& forall|a: int, b: int| 0 <= a < b < p.len() ==> #[trigger] p[a] != #[trigger] p[b]
    &&& forall|v: int| 0 <= v < inp.len() ==> #[trigger] hits(p, v)
    &&& forall|a: int, b: int|
        #![trigger out[a], out[b]]
        0 <= a < b < out.len() ==> !before(out[b], out[a])
    &&& forall|a: int, b: int|
        #![trigger out[a], out[b]]
        0 <= a < b < out.len() && !before(out[a], out[b]) ==> p[a] < p[b]
}

/// `out` is the stable sort of `inp` by the strict order `before`.
pub open spec fn is_stable_sort_by<V>(inp: Seq<V>, out: Seq<V>, before: spec_fn(V, V) -> bool) -> bool {
    exists|p: Seq<int>| is_stable_arrangement_by(inp, out, p, before)
}

/// A stable sort of values is a stable sort of their images, when the order
/// of the values is the order of their images.
pub proof fn lemma_stable_sort_map<T: SortKey, V>(
    inp: Seq<T>,
    out: Seq<T>,
    f: spec_fn(T) -> V,
    before: spec_fn(V, V) -> bool,
)
    requires
        is_stable_sort_of(inp, out),
        forall|a: T, b: T| #[trigger] before(f(a), f(b)) == a.key_before(&b),
    ensures
        is_stable_sort_by(inp.map_values(f), out.map_values(f), before),
{
    let p = choose|p: Seq<int>| is_stable_arrangement(inp, out, p);
    let mi = inp.map_values(f);
    let mo = out.map_values(f);
    assert forall|k: int| 0 <= k < p.len() implies #[trigger] mo[k] == mi[p[k]] by {
        assert(out[k] == inp[p[k]]);
    }
    assert forall|a: int, b: int|
        #![trigger mo[a], mo[b]]
        0 <= a < b < mo.len() implies !before(mo[b], mo[a]) by {
        assert(!out[b].key_before(&out[a]));
        assert(before(f(out[b]), f(out[a])) == out[b].key_before(&out[a]));
    }
    assert forall|a: int, b: int|
        #![trigger mo[a], mo[b]]
        0 <= a < b < mo.len() && !before(mo[a], mo[b]) implies p[a] < p[b] by {
        assert(before(f(out[a]), f(out[b])) == out[a].key_before(&out[b]));
    }
    assert(is_stable_arrangement_by(mi, mo, p, before));
}

/// `out` is the stable sort of `inp` by key.
pub open spec fn is_stable_sort_of<T: SortKey>(inp: Seq<T>, out: Seq<T>) -> bool {
    exists|p: Seq<int>| is_stable_arrangement(inp, out, p)
}

/// `s` is ordered by key.
pub open spec fn sorted_by_key<T: SortKey>(s: Seq<T>) -> bool {
    forall|a: int, b: int| #![trigger s[a], s[b]] 0 <= a < b < s.len() ==> !s[b].key_before(&s[a])
}

proof fn lemma_arrangement_sorted<T: SortKey>(inp: Seq<T>, out: Seq<T>, p: Seq<int>)
    requires
        is_stable_arrangement(inp, out, p),
    ensures
        sorted_by_key(out),
{
}

/// A stable sort is ordered by key.
pub proof fn lemma_stable_sort_sorted<T: SortKey>(inp: Seq<T>, out: Seq<T>)
    requires
        is_stable_sort_of(inp, out),
    ensures
        sorted_by_key(out),
        out.len() == inp.len(),
{
    let p = choose|p: Seq<int>| is_stable_arrangement(inp, out, p);
    lemma_arrangement_sorted(inp, out, p);
}

proof fn lemma_arrangements_agree_upto<T: SortKey>(
    inp: Seq<T>,
    out1: Seq<T>,
    p1: Seq<int>,
    out2: Seq<T>,
    p2: Seq<int>,
    k: int,
)
    requires
        is_stable_arrangement(inp, out1, p1),
        is_stable_arrangement(inp, out2, p2),
        0 <= k <= p1.len(),
    ensures
        forall|i: int| 0 <= i < k ==> p1[i] == p2[i],
    decreases k,
{
    if k > 0 {
        lemma_arrangements_agree_upto(inp, out1, p1, out2, p2, k - 1);
        let m = k - 1;
        let a = p1[m];
        let b = p2[m];
        if a != b {
            assert(hits(p2, a));
            let j = choose|j: int| 0 <= j < p2.len() && #[trigger] p2[j] == a;
            assert(hits(p1, b));
            let i = choose|i: int| 0 <= i < p1.len() && #[trigger] p1[i] == b;
            if j < m {
                assert(p1[j] == p2[j]);
                assert(p1[j] != p1[m]);
            }
            if i < m {
                assert(p2[i] == p1[i]);
                assert(p2[i] != p2[m]);
            }
            assert(m < j && m < i);
            assert(!out2[j].key_before(&out2[m]));
            assert(!out1[i].key_before(&out1[m]));
            assert(out1[m] == inp[a] && out1[i] == inp[b]);
            assert(out2[m] == inp[b] && out2[j] == inp[a]);
            assert(p1[m] < p1[i]);
            assert(p2[m] < p2[j]);
        }
    }
}

/// A stable sort has one result: two stable sorts of the same sequence by
/// the same key are equal.
pub proof fn lemma_stable_sort_unique<T: SortKey>(inp: Seq<T>, out1: Seq<T>, out2: Seq<T>)
    requires
        is_stable_sort_of(inp, out1),
        is_stable_sort_of(inp, out2),
    ensures
        out1 == out2,
{
    let p1 = choose|p: Seq<int>| is_stable_arrangement(inp, out1, p);
    let p2 = choose|p: Seq<int>| is_stable_arrangement(inp, out2, p);
    lemma_arrangements_agree_upto(inp, out1, p1, out2, p2, p1.len() as int);
    assert forall|k: int| 0 <= k < out1.len() implies out1[k] == out2[k] by {
        assert(out1[k] == inp[p1[k]]);
        assert(out2[k] == inp[p2[k]]);
    }
    assert(out1 =~= out2);
}

proof fn lemma_arrangements_by_agree_upto<V>(
    inp: Seq<V>,
    out1: Seq<V>,
    p1: Seq<int>,
    out2: Seq<V>,
    p2: Seq<int>,
    before: spec_fn(V, V) -> bool,
    k: int,
)
    requires
        is_stable_arrangement_by(inp, out1, p1, before),
        is_stable_arrangement_by(inp, out2, p2, before),
        0 <= k <= p1.len(),
    ensures
        forall|i: int| 0 <= i < k ==> p1[i] == p2[i],
    decreases k,
{
    if k > 0 {
        lemma_arrangements_by_agree_upto(inp, out1, p1, out2, p2, before, k - 1);
        let m = k - 1;
        let a = p1[m];
        let b = p2[m];
        if a != b {
            assert(hits(p2, a));
            let j = choose|j: int| 0 <= j < p2.len() && #[trigger] p2[j] == a;
            assert(hits(p1, b));
            let i = choose|i: int| 0 <= i < p1.len() && #[trigger] p1[i] == b;
            if j < m {
                assert(p1[j] == p2[j]);
                assert(p1[j] != p1[m]);
            }
            if i < m {
                assert(p2[i] == p1[i]);
                assert(p2[i] != p2[m]);
            }
            assert(m < j && m < i);
            assert(!before(out2[j], out2[m]));
            assert(!before(out1[i], out1[m]));
            assert(out1[m] == inp[a] && out1[i] == inp[b]);
            assert(out2[m] == inp[b] && out2[j] == inp[a]);
            assert(p1[m] < p1[i]);
            assert(p2[m] < p2[j]);
        }
    }
}

/// A stable sort by an order has one result: two stable sorts of the same
/// sequence by the same order are equal.
pub proof fn lemma_stable_sort_by_unique<V>(
    inp: Seq<V>,
    out1: Seq<V>,
    out2: Seq<V>,
    before: spec_fn(V, V) -> bool,
)
    requires
        is_stable_sort_by(inp, out1, before),
        is_stable_sort_by(inp, out2, before),
    ensures
        out1 == out2,
{
    let p1 = choose|p: Seq<int>| is_stable_arrangement_by(inp, out1, p, before);
    let p2 = choose|p: Seq<int>| is_stable_arrangement_by(inp, out2, p, before);
    lemma_arrangements_by_agree_upto(inp, out1, p1, out2, p2, before, p1.len() as int);
    assert forall|k: int| 0 <= k < out1.len() implies out1[k] == out2[k] by {
        assert(out1[k] == inp[p1[k]]);
        assert(out2[k] == inp[p2[k]]);
    }
    assert(out1 =~= out2);
}

/// Sorts `items` stably by key (insertion sort).
pub fn stable_sort<T: SortKey>(items: Vec<T>) -> (out: Vec<T>)
    ensures
        is_stable_sort_of(items@, out@),
        sorted_by_key(out@),
{
    let ghost inp = items@;
    assert(inp.len() == items.len());
    let mut rest = items;
    let mut out: Vec<T> = Vec::new();
    let ghost mut p: Seq<int> = Seq::empty();
    let mut n: usize = 0;
    while rest.len() > 0
        invariant
            n <= inp.len(),
            inp.len() <= usize::MAX,
            rest@ == inp.skip(n as int),
            is_stable_arrangement(inp.take(n as int), out@, p),
        decreases rest.len(),
    {
        let x = rest.remove(0);
        proof {
            assert(x == inp[n as int]);
            assert(rest@ =~= inp.skip(n + 1));
        }
        let ghost pre = out@;
        let ghost pre_in = inp.take(n as int);
        let mut j: usize = 0;
        while j < out.len() && !x.before(&out[j])
            invariant
                j <= out.len(),
                out@ == pre,
                forall|k: int| 0 <= k < j ==> !x.key_before(&#[trigger] pre[k]),
            decreases out.len() - j,
        {
            j = j + 1;
        }
        proof {
            // Every item from position j on comes strictly after x.
            assert forall|m: int| j <= m < pre.len() implies x.key_before(&#[trigger] pre[m]) by {
                if m > j {
                    T::lemma_key_before_splits(&x, &pre[m], &pre[j as int]);
                    assert(!pre[m].key_before(&pre[j as int]));
                }
            }
        }
        out.insert(j, x);
        proof {
            let q = p.insert(j as int, n as int);
            let new_in = inp.take(n + 1);
            assert(new_in =~= pre_in.push(x));
            let o = out@;
            assert(o =~= pre.insert(j as int, x));
            assert forall|k: int| 0 <= k < q.len() implies 0 <= #[trigger] q[k] < new_in.len() by {
                if k < j {
                    assert(q[k] == p[k]);
                } else if k > j {
                    assert(q[k] == p[k - 1]);
                }
            }
            assert forall|k: int| 0 <= k < q.len() implies #[trigger] o[k] == new_in[q[k]] by {
                if k < j {
                    assert(q[k] == p[k]);
                    assert(o[k] == pre[k]);
                } else if k > j {
                    assert(q[k] == p[k - 1]);
                    assert(o[k] == pre[k - 1]);
                }
            }
            assert forall|v: int| 0 <= v < new_in.len() implies #[trigger] hits(q, v) by {
                if v == n {
                    assert(q[j as int] == v);
                } else {
                    assert(hits(p, v));
                    let k0 = choose|k: int| 0 <= k < p.len() && #[trigger] p[k] == v;
                    if k0 < j {
                        assert(q[k0] == v);
                    } else {
                        assert(q[k0 + 1] == v);
                    }
                }
            }
            assert forall|a: int, b: int| 0 <= a < b < q.len() implies #[trigger] q[a]
                != #[trigger] q[b] by {
                let pa = if a < j {
                    a
                } else {
                    a - 1
                };
                let pb = if b < j {
                    b
                } else {
                    b - 1
                };
                if a != j && b != j {
                    assert(q[a] == p[pa] && q[b] == p[pb]);
                    assert(pa < pb);
                } else if a == j {
                    assert(q[b] == p[pb]);
                } else {
                    assert(q[a] == p[pa]);
                }
            }
            assert forall|a: int, b: int|
                #![trigger o[a], o[b]]
                0 <= a < b < o.len() implies !o[b].key_before(&o[a]) by {
                if a == j {
                    assert(o[b] == pre[b - 1]);
                    T::lemma_key_before_asymmetric(&x, &pre[b - 1]);
                } else if b == j {
                    assert(o[a] == pre[a]);
                } else {
                    let pa = if a < j {
                        a
                    } else {
                        a - 1
                    };
                    let pb = if b < j {
                        b
                    } else {
                        b - 1
                    };
                    assert(o[a] == pre[pa] && o[b] == pre[pb]);
                }
            }
            assert forall|a: int, b: int|
                #![trigger o[a], o[b]]
                0 <= a < b < o.len() && !o[a].key_before(&o[b]) implies q[a] < q[b] by {
                if a == j {
                    assert(o[b] == pre[b - 1]);
                } else if b == j {
                    assert(q[a] == p[a]);
                } else {
                    let pa = if a < j {
                        a
                    } else {
                        a - 1
                    };
                    let pb = if b < j {
                        b
                    } else {
                        b - 1
                    };
                    assert(o[a] == pre[pa] && o[b] == pre[pb]);
                    assert(q[a] == p[pa] && q[b] == p[pb]);
                }
            }
            p = q;
        }
        n = n + 1;
    }
    proof {
        assert(inp.take(n as int) =~= inp);
        lemma_arrangement_sorted(inp, out@, p);
    }
    out
}

} // verus!

verus! {

/// A position in some sequence together with the timestamp it is ordered by.
#[derive(Debug, Clone, Copy)]
pub struct TimedIndex {
    pub ts_unix_ms: i64,
    pub index: usize,
}

impl SortKey for TimedIndex {
    open spec fn key_before(&self, other: &Self) -> bool {
        self.ts_unix_ms < other.ts_unix_ms
    }

    proof fn lemma_key_before_asymmetric(a: &Self, b: &Self) {
    }

    proof fn lemma_key_before_splits(a: &Self, b: &Self, c: &Self) {
    }

    fn before(&self, other: &Self) -> (r: bool) {
        self.ts_unix_ms < other.ts_unix_ms
    }
}

} // verus!
