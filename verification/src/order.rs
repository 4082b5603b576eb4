//! Lexicographic order of character sequences and a stable sort of indices
//! by such keys.

use vstd::prelude::*;
use vstd::set_lib::{lemma_int_range, lemma_len_subset, set_int_range};

verus! {

/// `a` comes before `b` or equals it, comparing code points from the start
/// (a proper prefix comes first). This is the order of `String`'s `Ord`,
/// since UTF-8 keeps the order of code points.
pub open spec fn seq_le(a: Seq<char>, b: Seq<char>) -> bool
    decreases a.len(),
{
    if a.len() == 0 {
        true
    } else if b.len() == 0 {
        false
    } else if a[0] != b[0] {
        (a[0] as u32) < (b[0] as u32)
    } else {
        seq_le(a.drop_first(), b.drop_first())
    }
}

/// Distinct characters have distinct code points.
proof fn lemma_code_points_differ(c: char, d: char)
    requires
        c != d,
    ensures
        (c as u32) != (d as u32),
{
}

pub proof fn lemma_seq_le_total(a: Seq<char>, b: Seq<char>)
    ensures
        seq_le(a, b) || seq_le(b, a),
    decreases a.len(),
{
    if a.len() > 0 && b.len() > 0 {
        if a[0] == b[0] {
            lemma_seq_le_total(a.drop_first(), b.drop_first());
        } else {
            lemma_code_points_differ(a[0], b[0]);
        }
    }
}

pub proof fn lemma_seq_le_trans(a: Seq<char>, b: Seq<char>, c: Seq<char>)
    requires
        seq_le(a, b),
        seq_le(b, c),
    ensures
        seq_le(a, c),
    decreases a.len(),
{
    if a.len() > 0 && b.len() > 0 && c.len() > 0 && a[0] == b[0] && b[0] == c[0] {
        lemma_seq_le_trans(a.drop_first(), b.drop_first(), c.drop_first());
    }
}

pub proof fn lemma_seq_le_antisym(a: Seq<char>, b: Seq<char>)
    requires
        seq_le(a, b),
        seq_le(b, a),
    ensures
        a == b,
    decreases a.len(),
{
    if a.len() > 0 && b.len() > 0 {
        lemma_seq_le_antisym(a.drop_first(), b.drop_first());
        assert(a =~= seq![a[0]] + a.drop_first());
        assert(b =~= seq![b[0]] + b.drop_first());
    }
}

/// Compares two character sequences.
pub fn chars_le(a: &[char], b: &[char]) -> (r: bool)
    ensures
        r == seq_le(a@, b@),
{
    let mut i: usize = 0;
    assert(a@.skip(0) =~= a@);
    assert(b@.skip(0) =~= b@);
    while i < a.len() && i < b.len() && a[i] == b[i]
        invariant
            i <= a.len(),
            i <= b.len(),
            seq_le(a@, b@) == seq_le(a@.skip(i as int), b@.skip(i as int)),
        decreases a.len() - i,
    {
        assert(a@.skip(i + 1) =~= a@.skip(i as int).drop_first());
        assert(b@.skip(i + 1) =~= b@.skip(i as int).drop_first());
        i += 1;
    }
    if i == a.len() {
        true
    } else if i == b.len() {
        false
    } else {
        (a[i] as u32) < (b[i] as u32)
    }
}

/// `order` lists indices below `n`, each at most once.
pub open spec fn distinct_below(order: Seq<usize>, n: int) -> bool {
    &&& forall|i: int| 0 <= i < order.len() ==> order[i] < n
    &&& forall|i: int, j: int| 0 <= i < j < order.len() ==> order[i] != order[j]
}

/// A list of distinct indices below `n` has at most `n` entries.
pub proof fn lemma_distinct_len(s: Seq<usize>, n: int)
    requires
        distinct_below(s, n),
        n >= 0,
    ensures
        s.len() <= n,
{
    let t = s.map_values(|x: usize| x as int);
    assert(t.no_duplicates()) by {
        assert forall|i: int, j: int| 0 <= i < t.len() && 0 <= j < t.len() && i != j implies t[i]
            != t[j] by {
            if i < j {
                assert(s[i] != s[j]);
            } else {
                assert(s[j] != s[i]);
            }
        }
    }
    t.unique_seq_to_set();
    lemma_int_range(0, n);
    assert(t.to_set().subset_of(set_int_range(0, n)));
    lemma_len_subset(t.to_set(), set_int_range(0, n));
}

/// The keys of the listed indices never decrease, and indices with equal
/// keys keep their relative order.
pub open spec fn sorted_stably(order: Seq<usize>, keys: Seq<Seq<char>>) -> bool {
    &&& forall|i: int, j: int|
        0 <= i < j < order.len() ==> seq_le(keys[order[i] as int], keys[order[j] as int])
    &&& forall|i: int, j: int|
        0 <= i < j < order.len() && keys[order[i] as int] == keys[order[j] as int] ==> order[i]
            < order[j]
}

proof fn lemma_stable_tail(o: Seq<usize>, keys: Seq<Seq<char>>, n: int)
    requires
        o.len() > 0,
        distinct_below(o, n),
        sorted_stably(o, keys),
    ensures
        distinct_below(o.drop_first(), n),
        sorted_stably(o.drop_first(), keys),
        !o.drop_first().contains(o[0]),
        forall|z: usize| #[trigger] o.drop_first().contains(z) <==> (o.contains(z) && z != o[0]),
{
    let d = o.drop_first();
    assert forall|i: int, j: int| 0 <= i < j < d.len() implies seq_le(
        keys[d[i] as int],
        keys[d[j] as int],
    ) by {
        assert(d[i] == o[i + 1] && d[j] == o[j + 1]);
    }
    assert forall|i: int, j: int|
        0 <= i < j < d.len() && keys[d[i] as int] == keys[d[j] as int] implies d[i] < d[j] by {
        assert(d[i] == o[i + 1] && d[j] == o[j + 1]);
    }
    assert forall|i: int, j: int| 0 <= i < j < d.len() implies d[i] != d[j] by {
        assert(d[i] == o[i + 1] && d[j] == o[j + 1]);
    }
    if d.contains(o[0]) {
        let k = choose|k: int| 0 <= k < d.len() && d[k] == o[0];
        assert(o[k + 1] == o[0]);
    }
    assert forall|z: usize| #[trigger] d.contains(z) <==> (o.contains(z) && z != o[0]) by {
        if d.contains(z) {
            let k = choose|k: int| 0 <= k < d.len() && d[k] == z;
            assert(o[k + 1] == z);
        }
        if o.contains(z) && z != o[0] {
            let k = choose|k: int| 0 <= k < o.len() && o[k] == z;
            assert(d[k - 1] == z);
        }
    }
}

/// Two lists of the same indices, each in a stable order of the same keys,
/// are the same list: a stable sort by key has exactly one outcome.
pub proof fn law_stable_order_unique(o1: Seq<usize>, o2: Seq<usize>, keys: Seq<Seq<char>>)
    requires
        o1.to_set() == o2.to_set(),
        distinct_below(o1, keys.len() as int),
        distinct_below(o2, keys.len() as int),
        sorted_stably(o1, keys),
        sorted_stably(o2, keys),
    ensures
        o1 == o2,
    decreases o1.len(),
{
    if o1.len() == 0 {
        if o2.len() > 0 {
            assert(o2.to_set().contains(o2[0]));
            assert(o1.to_set().contains(o2[0]));
        }
        assert(o1 =~= o2);
    } else {
        let x = o1[0];
        assert(o1.to_set().contains(x));
        assert(o2.to_set().contains(x));
        let j = choose|j: int| 0 <= j < o2.len() && o2[j] == x;
        if j > 0 {
            let y = o2[0];
            assert(o2.to_set().contains(y));
            assert(o1.to_set().contains(y));
            let i = choose|i: int| 0 <= i < o1.len() && o1[i] == y;
            assert(y != x);
            assert(i != 0);
            assert(seq_le(keys[x as int], keys[y as int]));
            assert(seq_le(keys[y as int], keys[x as int]));
            lemma_seq_le_antisym(keys[x as int], keys[y as int]);
            assert(x < y);
            assert(y < x);
        }
        assert(o2[0] == x);
        lemma_stable_tail(o1, keys, keys.len() as int);
        lemma_stable_tail(o2, keys, keys.len() as int);
        let d1 = o1.drop_first();
        let d2 = o2.drop_first();
        assert(d1.to_set() =~= d2.to_set()) by {
            assert forall|z: usize| d1.to_set().contains(z) <==> d2.to_set().contains(z) by {
                assert(d1.contains(z) <==> (o1.contains(z) && z != x));
                assert(d2.contains(z) <==> (o2.contains(z) && z != x));
                assert(o1.contains(z) <==> o1.to_set().contains(z));
                assert(o2.contains(z) <==> o2.to_set().contains(z));
            }
        }
        law_stable_order_unique(d1, d2, keys);
        assert(o1 =~= seq![x] + d1);
        assert(o2 =~= seq![x] + d2);
    }
}

/// The indices `i` in `pick`, in a stable order of their keys: each picked
/// index exactly once, keys not decreasing, ties in index order.
pub fn sort_indices(pick: &Vec<usize>, keys: &Vec<Vec<char>>) -> (order: Vec<usize>)
    requires
        forall|i: int| 0 <= i < pick@.len() ==> pick@[i] < keys@.len(),
        forall|i: int, j: int| 0 <= i < j < pick@.len() ==> pick@[i] < pick@[j],
    ensures
        order@.to_set() == pick@.to_set(),
        order@.len() == pick@.len(),
        distinct_below(order@, keys@.len() as int),
        sorted_stably(order@, keys@.map_values(|k: Vec<char>| k@)),
{
    let ghost kv = keys@.map_values(|k: Vec<char>| k@);
    let mut order: Vec<usize> = Vec::new();
    let mut t: usize = 0;
    while t < pick.len()
        invariant
            t <= pick.len(),
            kv == keys@.map_values(|k: Vec<char>| k@),
            forall|i: int| 0 <= i < pick@.len() ==> pick@[i] < keys@.len(),
            forall|i: int, j: int| 0 <= i < j < pick@.len() ==> pick@[i] < pick@[j],
            order@.len() == t,
            order@.to_set() == pick@.take(t as int).to_set(),
            distinct_below(order@, keys@.len() as int),
            sorted_stably(order@, kv),
            forall|i: int, j: int|
                0 <= i < order@.len() && t <= j < pick@.len() ==> #[trigger] order@[i]
                    < #[trigger] pick@[j],
        decreases pick.len() - t,
    {
        let k = pick[t];
        let key = &keys[k];
        let mut p: usize = 0;
        while p < order.len() && chars_le(keys[order[p]].as_slice(), key.as_slice())
            invariant
                p <= order@.len(),
                kv == keys@.map_values(|k: Vec<char>| k@),
                k < keys@.len(),
                key@ == kv[k as int],
                distinct_below(order@, keys@.len() as int),
                forall|i: int| 0 <= i < p ==> seq_le(#[trigger] kv[order@[i] as int], kv[k as int]),
            decreases order.len() - p,
        {
            p += 1;
        }
        proof {
            assert forall|i: int| p <= i < order@.len() implies !seq_le(
                #[trigger] kv[order@[i] as int],
                kv[k as int],
            ) by {
                if p < order@.len() {
                    assert(!seq_le(kv[order@[p as int] as int], kv[k as int]));
                    if i > p && seq_le(kv[order@[i] as int], kv[k as int]) {
                        lemma_seq_le_trans(
                            kv[order@[p as int] as int],
                            kv[order@[i] as int],
                            kv[k as int],
                        );
                    }
                }
            }
        }
        let ghost o0 = order@;
        order.insert(p, k);
        proof {
            assert(order@ == o0.insert(p as int, k));
            assert forall|i: int, j: int| 0 <= i < j < order@.len() implies seq_le(
                kv[order@[i] as int],
                kv[order@[j] as int],
            ) by {
                if j == p {
                    assert(order@[i] == o0[i]);
                } else if i == p {
                    assert(order@[j] == o0[j - 1]);
                    lemma_seq_le_total(kv[k as int], kv[o0[j - 1] as int]);
                } else {
                    let ii = if i < p {
                        i
                    } else {
                        i - 1
                    };
                    let jj = if j < p {
                        j
                    } else {
                        j - 1
                    };
                    assert(order@[i] == o0[ii]);
                    assert(order@[j] == o0[jj]);
                }
            }
            assert forall|i: int, j: int|
                0 <= i < j < order@.len() && kv[order@[i] as int] == kv[order@[j] as int] implies order@[i]
                < order@[j] by {
                if j == p {
                    assert(order@[i] == o0[i]);
                } else if i == p {
                    assert(order@[j] == o0[j - 1]);
                    assert(!seq_le(kv[o0[j - 1] as int], kv[k as int]));
                } else {
                    let ii = if i < p {
                        i
                    } else {
                        i - 1
                    };
                    let jj = if j < p {
                        j
                    } else {
                        j - 1
                    };
                    assert(order@[i] == o0[ii]);
                    assert(order@[j] == o0[jj]);
                }
            }
            assert forall|i: int, j: int| 0 <= i < j < order@.len() implies order@[i] != order@[j] by {
                if i == p {
                    assert(order@[j] == o0[j - 1]);
                } else if j == p {
                    assert(order@[i] == o0[i]);
                } else {
                    let ii = if i < p {
                        i
                    } else {
                        i - 1
                    };
                    let jj = if j < p {
                        j
                    } else {
                        j - 1
                    };
                    assert(order@[i] == o0[ii]);
                    assert(order@[j] == o0[jj]);
                }
            }
            assert forall|i: int| 0 <= i < order@.len() implies order@[i] < keys@.len() by {
                if i < p {
                    assert(order@[i] == o0[i]);
                } else if i > p {
                    assert(order@[i] == o0[i - 1]);
                }
            }
            assert(pick@.take(t + 1) == pick@.take(t as int).push(k));
            assert(order@.to_set() =~= o0.to_set().insert(k)) by {
                assert forall|x: usize| order@.to_set().contains(x) implies o0.to_set().insert(
                    k,
                ).contains(x) by {
                    let i = choose|i: int| 0 <= i < order@.len() && order@[i] == x;
                    if i < p {
                        assert(order@[i] == o0[i]);
                    } else if i > p {
                        assert(order@[i] == o0[i - 1]);
                    }
                }
                assert forall|x: usize| o0.to_set().insert(k).contains(x) implies order@.to_set().contains(
                    x,
                ) by {
                    if x == k {
                        assert(order@[p as int] == k);
                    } else {
                        let i = choose|i: int| 0 <= i < o0.len() && o0[i] == x;
                        if i < p {
                            assert(order@[i] == x);
                        } else {
                            assert(order@[i + 1] == x);
                        }
                    }
                }
            }
            pick@.take(t as int).lemma_push_to_set_commute(k);
            assert forall|i: int, j: int|
                0 <= i < order@.len() && t + 1 <= j < pick@.len() implies #[trigger] order@[i]
                < #[trigger] pick@[j] by {
                if i == p {
                    assert(order@[i] == k);
                    assert(pick@[t as int] < pick@[j]);
                } else if i < p {
                    assert(order@[i] == o0[i]);
                } else if i > p {
                    assert(order@[i] == o0[i - 1]);
                }
            }
        }
        t += 1;
    }
    assert(pick@.take(pick.len() as int) == pick@);
    order
}

} // verus!
