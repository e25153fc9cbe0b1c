//! Stable ordering by keys.
//!
//! Lists shown to the user are sorted by a key (class and name, rank and
//! name, signal strength …) with ties kept in the order the system gave
//! them. Each key is written as a sequence of `u64` compared
//! lexicographically; the ordering returned is the positions of the
//! records in their new order.

use vstd::prelude::*;

use crate::text::chars_of;

verus! {

/// Lexicographic "less than" of key sequences (a proper prefix comes
/// first).
pub open spec fn key_lt(a: Seq<u64>, b: Seq<u64>) -> bool
    decreases a.len(),
{
    if a.len() == 0 {
        b.len() > 0
    } else if b.len() == 0 {
        false
    } else if a[0] != b[0] {
        a[0] < b[0]
    } else {
        key_lt(a.drop_first(), b.drop_first())
    }
}

/// Record `x` comes before record `y`: a smaller key, or the same key
/// and an earlier position.
pub open spec fn precedes(keys: Seq<Seq<u64>>, x: int, y: int) -> bool {
    key_lt(keys[x], keys[y]) || (keys[x] == keys[y] && x < y)
}

/// `p` lists every position of `keys` once, by increasing key, ties in
/// their original order.
pub open spec fn is_stable_order(keys: Seq<Seq<u64>>, p: Seq<usize>) -> bool {
    &&& p.len() == keys.len()
    &&& forall|i: int| 0 <= i < p.len() ==> (#[trigger] p[i]) < keys.len()
    &&& forall|i: int, j: int| 0 <= i < j < p.len() ==> precedes(keys, #[trigger] p[i] as int, #[trigger] p[j] as int)
}

pub proof fn lemma_key_lt_irreflexive(a: Seq<u64>)
    ensures
        !key_lt(a, a),
    decreases a.len(),
{
    if a.len() > 0 {
        lemma_key_lt_irreflexive(a.drop_first());
    }
}

pub proof fn lemma_key_lt_transitive(a: Seq<u64>, b: Seq<u64>, c: Seq<u64>)
    requires
        key_lt(a, b),
        key_lt(b, c),
    ensures
        key_lt(a, c),
    decreases a.len(),
{
    if a.len() > 0 && b.len() > 0 && c.len() > 0 {
        if a[0] == b[0] && b[0] == c[0] {
            lemma_key_lt_transitive(a.drop_first(), b.drop_first(), c.drop_first());
        }
    }
}

pub proof fn lemma_key_lt_total(a: Seq<u64>, b: Seq<u64>)
    ensures
        key_lt(a, b) || key_lt(b, a) || a == b,
    decreases a.len(),
{
    if a.len() == 0 {
        if b.len() == 0 {
            assert(a =~= b);
        }
    } else if b.len() > 0 && a[0] == b[0] {
        lemma_key_lt_total(a.drop_first(), b.drop_first());
        if a.drop_first() == b.drop_first() {
            assert(a =~= seq![a[0]] + a.drop_first());
            assert(b =~= seq![b[0]] + b.drop_first());
        }
    }
}

/// Two records never both precede each other, and a record does not
/// precede itself.
pub proof fn lemma_precedes_strict(keys: Seq<Seq<u64>>, x: int, y: int)
    requires
        0 <= x < keys.len(),
        0 <= y < keys.len(),
        precedes(keys, x, y),
    ensures
        !precedes(keys, y, x),
        x != y,
{
    lemma_key_lt_irreflexive(keys[x]);
    lemma_key_lt_irreflexive(keys[y]);
    if key_lt(keys[x], keys[y]) && key_lt(keys[y], keys[x]) {
        lemma_key_lt_transitive(keys[x], keys[y], keys[x]);
    }
}

/// Position `x` appears in `p`.
spec fn covered(p: Seq<usize>, x: int) -> bool {
    exists|i: int| 0 <= i < p.len() && p[i] as int == x
}

/// Every position appears in a stable order.
proof fn lemma_stable_order_covers(keys: Seq<Seq<u64>>, p: Seq<usize>)
    requires
        is_stable_order(keys, p),
    ensures
        forall|x: int| 0 <= x < keys.len() ==> #[trigger] covered(p, x),
{
    let s = Seq::new(p.len(), |i: int| p[i] as int);
    assert forall|i: int, j: int| 0 <= i < s.len() && 0 <= j < s.len() && i != j implies s[i] != s[j] by {
        if i < j {
            lemma_precedes_strict(keys, p[i] as int, p[j] as int);
        } else {
            lemma_precedes_strict(keys, p[j] as int, p[i] as int);
        }
    }
    assert(s.no_duplicates());
    s.unique_seq_to_set();
    let r = vstd::set_lib::set_int_range(0, keys.len() as int);
    vstd::set_lib::lemma_int_range(0, keys.len() as int);
    assert forall|x: int| s.to_set().contains(x) implies r.contains(x) by {
        let i = choose|i: int| 0 <= i < s.len() && s[i] == x;
        assert(p[i] < keys.len());
    }
    assert(s.to_set().subset_of(r));
    vstd::set_lib::lemma_subset_equality(s.to_set(), r);
    assert forall|x: int| 0 <= x < keys.len() implies #[trigger] covered(p, x) by {
        assert(r.contains(x));
        assert(s.to_set().contains(x));
        let i = choose|i: int| 0 <= i < s.len() && s[i] == x;
        assert(p[i] as int == x);
    }
}

/// Two stable orders of the same keys agree on their first `k` places.
proof fn lemma_stable_prefix_agrees(keys: Seq<Seq<u64>>, p: Seq<usize>, q: Seq<usize>, k: int)
    requires
        is_stable_order(keys, p),
        is_stable_order(keys, q),
        0 <= k <= p.len(),
        forall|x: int| 0 <= x < keys.len() ==> #[trigger] covered(p, x),
        forall|x: int| 0 <= x < keys.len() ==> #[trigger] covered(q, x),
    ensures
        forall|m: int| 0 <= m < k ==> p[m] == q[m],
    decreases k,
{
    if k > 0 {
        lemma_stable_prefix_agrees(keys, p, q, k - 1);
        let m = k - 1;
        if p[m] != q[m] {
            let x = p[m] as int;
            let y = q[m] as int;
            assert(0 <= x < keys.len());
            assert(0 <= y < keys.len());
            assert(covered(q, x));
            assert(covered(p, y));
            let j = choose|j: int| 0 <= j < q.len() && q[j] as int == x;
            let i = choose|i: int| 0 <= i < p.len() && p[i] as int == y;
            if j < m {
                assert(p[j] == q[j]);
                assert(precedes(keys, p[j] as int, p[m] as int));
                lemma_precedes_strict(keys, p[j] as int, p[m] as int);
            }
            if i < m {
                assert(p[i] == q[i]);
                assert(precedes(keys, q[i] as int, q[m] as int));
                lemma_precedes_strict(keys, q[i] as int, q[m] as int);
            }
            assert(j != m);
            assert(i != m);
            assert(precedes(keys, q[m] as int, q[j] as int));
            assert(precedes(keys, p[m] as int, p[i] as int));
            lemma_precedes_strict(keys, x, y);
        }
    }
}

/// A stable order is unique: two orders of the same keys that both put
/// smaller keys first and keep ties in their original order are the same.
pub proof fn lemma_stable_order_unique(keys: Seq<Seq<u64>>, p: Seq<usize>, q: Seq<usize>)
    requires
        is_stable_order(keys, p),
        is_stable_order(keys, q),
    ensures
        p == q,
{
    lemma_stable_order_covers(keys, p);
    lemma_stable_order_covers(keys, q);
    lemma_stable_prefix_agrees(keys, p, q, p.len() as int);
    assert(p =~= q);
}

/// `key_lt` of two keys.
pub fn key_less(a: &[u64], b: &[u64]) -> (r: bool)
    ensures
        r == key_lt(a@, b@),
{
    let mut i: usize = 0;
    assert(a@.skip(0) =~= a@);
    assert(b@.skip(0) =~= b@);
    while i < a.len() && i < b.len()
        invariant
            i <= a.len(),
            i <= b.len(),
            key_lt(a@, b@) == key_lt(a@.skip(i as int), b@.skip(i as int)),
        decreases a.len() - i,
    {
        if a[i] != b[i] {
            assert(a@.skip(i as int)[0] == a@[i as int]);
            assert(b@.skip(i as int)[0] == b@[i as int]);
            return a[i] < b[i];
        }
        assert(a@.skip(i as int).drop_first() =~= a@.skip(i as int + 1));
        assert(b@.skip(i as int).drop_first() =~= b@.skip(i as int + 1));
        i = i + 1;
    }
    i == a.len() && i < b.len()
}

pub open spec fn key_views(keys: Seq<Vec<u64>>) -> Seq<Seq<u64>> {
    keys.map_values(|k: Vec<u64>| k@)
}

/// The positions of `keys` in stable order: increasing key, ties in
/// their original order (an insertion sort).
pub fn stable_order(keys: &[Vec<u64>]) -> (p: Vec<usize>)
    ensures
        is_stable_order(key_views(keys@), p@),
{
    let ghost ks = key_views(keys@);
    let mut p: Vec<usize> = Vec::new();
    let mut x: usize = 0;
    while x < keys.len()
        invariant
            x <= keys.len(),
            ks == key_views(keys@),
            p@.len() == x,
            forall|i: int| 0 <= i < p@.len() ==> (#[trigger] p@[i]) < x,
            forall|i: int, j: int| 0 <= i < j < p@.len() ==> precedes(ks, #[trigger] p@[i] as int, #[trigger] p@[j] as int),
        decreases keys.len() - x,
    {
        let kx = keys[x].as_slice();
        let mut j: usize = 0;
        while j < p.len() && !key_less(kx, keys[p[j]].as_slice())
            invariant
                j <= p@.len(),
                x < keys.len(),
                ks == key_views(keys@),
                kx@ == ks[x as int],
                forall|i: int| 0 <= i < p@.len() ==> (#[trigger] p@[i]) < x,
                forall|k: int| 0 <= k < j ==> !key_lt(ks[x as int], ks[#[trigger] p@[k] as int]),
            decreases p@.len() - j,
        {
            j = j + 1;
        }
        let ghost old_p = p@;
        let ghost stop = j < p@.len();
        proof {
            if stop {
                assert(key_lt(ks[x as int], ks[old_p[j as int] as int]));
            }
        }
        p.insert(j, x);
        proof {
            let q = p@;
            assert(q == old_p.insert(j as int, x));
            assert forall|i: int| 0 <= i < q.len() implies (#[trigger] q[i]) < x + 1 by {
                if i < j {
                    assert(q[i] == old_p[i]);
                } else if i > j {
                    assert(q[i] == old_p[i - 1]);
                }
            }
            assert forall|a: int, b: int| 0 <= a < b < q.len() implies precedes(ks, #[trigger] q[a] as int, #[trigger] q[b] as int) by {
                if b < j {
                    assert(q[a] == old_p[a] && q[b] == old_p[b]);
                } else if b == j {
                    assert(q[a] == old_p[a]);
                    assert(!key_lt(ks[x as int], ks[old_p[a] as int]));
                    lemma_key_lt_total(ks[x as int], ks[old_p[a] as int]);
                } else if a > j {
                    assert(q[a] == old_p[a - 1] && q[b] == old_p[b - 1]);
                } else if a == j {
                    assert(q[b] == old_p[b - 1]);
                    let pj = old_p[j as int] as int;
                    let pb = old_p[b - 1] as int;
                    assert(key_lt(ks[x as int], ks[pj]));
                    if b - 1 > j {
                        assert(precedes(ks, pj, pb));
                        if key_lt(ks[pj], ks[pb]) {
                            lemma_key_lt_transitive(ks[x as int], ks[pj], ks[pb]);
                        }
                    }
                } else {
                    assert(q[a] == old_p[a] && q[b] == old_p[b - 1]);
                }
            }
        }
        x = x + 1;
    }
    p
}

/// The code of a character in a sort key (0 is kept as a separator).
pub open spec fn text_key(s: Seq<char>) -> Seq<u64> {
    s.map_values(|c: char| (c as u32 + 1) as u64)
}

/// The sort key of a text.
pub fn text_key_of(s: &str) -> (k: Vec<u64>)
    ensures
        k@ == text_key(s@),
{
    let cs = chars_of(s);
    let mut k: Vec<u64> = Vec::new();
    let mut i: usize = 0;
    while i < cs.len()
        invariant
            i <= cs.len(),
            cs@ == s@,
            k@ == text_key(cs@.take(i as int)),
        decreases cs.len() - i,
    {
        let c = cs[i] as u32 as u64;
        k.push(c + 1);
        i = i + 1;
        assert(k@ =~= text_key(cs@.take(i as int)));
    }
    assert(cs@.take(cs@.len() as int) =~= cs@);
    k
}

} // verus!
