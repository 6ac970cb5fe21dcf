//! The order in which generated items are emitted: texts by `str`'s order,
//! and (name, flag) pairs by name, then flag.
use vstd::prelude::*;
use crate::text::chars_of;

verus! {

/// Whether a text comes before another in `str`'s order: lexicographic on
/// code points, a proper prefix first (the same order as on UTF-8 bytes).
pub open spec fn chars_lt(a: Seq<char>, b: Seq<char>) -> bool
    decreases a.len(),
{
    if a.len() == 0 {
        b.len() > 0
    } else if b.len() == 0 {
        false
    } else if a[0] != b[0] {
        (a[0] as u32) < (b[0] as u32)
    } else {
        chars_lt(a.drop_first(), b.drop_first())
    }
}

/// No text comes before itself.
pub proof fn lemma_chars_lt_irreflexive(a: Seq<char>)
    ensures
        !chars_lt(a, a),
    decreases a.len(),
{
    if a.len() > 0 {
        lemma_chars_lt_irreflexive(a.drop_first());
    }
}

/// The order on texts is transitive.
pub proof fn lemma_chars_lt_transitive(a: Seq<char>, b: Seq<char>, c: Seq<char>)
    requires
        chars_lt(a, b),
        chars_lt(b, c),
    ensures
        chars_lt(a, c),
    decreases a.len(),
{
    if a.len() > 0 && b.len() > 0 && c.len() > 0 && a[0] == b[0] && b[0] == c[0] {
        lemma_chars_lt_transitive(a.drop_first(), b.drop_first(), c.drop_first());
    }
}

/// Of two different texts, one comes before the other.
pub proof fn lemma_chars_lt_total(a: Seq<char>, b: Seq<char>)
    ensures
        a == b || chars_lt(a, b) || chars_lt(b, a),
    decreases a.len(),
{
    if a.len() > 0 && b.len() > 0 && a[0] == b[0] {
        lemma_chars_lt_total(a.drop_first(), b.drop_first());
        if a.drop_first() == b.drop_first() {
            assert(a =~= seq![a[0]] + a.drop_first());
            assert(b =~= seq![b[0]] + b.drop_first());
        }
    } else if a.len() > 0 && b.len() > 0 {
        vstd::utf8::char_u32_cast(a[0], a[0] as u32);
        vstd::utf8::char_u32_cast(b[0], b[0] as u32);
        assert((a[0] as u32) != (b[0] as u32));
    } else if a.len() == 0 && b.len() == 0 {
        assert(a =~= b);
    }
}

proof fn lemma_chars_lt_skip(a: Seq<char>, b: Seq<char>, i: int)
    requires
        0 <= i <= a.len(),
        i <= b.len(),
        a.take(i) == b.take(i),
    ensures
        chars_lt(a, b) == chars_lt(a.skip(i), b.skip(i)),
    decreases i,
{
    if i > 0 {
        assert(a[0] == a.take(i)[0]);
        assert(b[0] == b.take(i)[0]);
        assert(a.drop_first().take(i - 1) =~= a.take(i).drop_first());
        assert(b.drop_first().take(i - 1) =~= b.take(i).drop_first());
        lemma_chars_lt_skip(a.drop_first(), b.drop_first(), i - 1);
        assert(a.drop_first().skip(i - 1) =~= a.skip(i));
        assert(b.drop_first().skip(i - 1) =~= b.skip(i));
    } else {
        assert(a.skip(0) =~= a);
        assert(b.skip(0) =~= b);
    }
}

/// Decides `chars_lt`.
pub fn chars_less(a: &Vec<char>, b: &Vec<char>) -> (r: bool)
    ensures
        r == chars_lt(a@, b@),
{
    let mut i: usize = 0;
    while i < a.len() && i < b.len() && a[i] == b[i]
        invariant
            i <= a@.len(),
            i <= b@.len(),
            a@.take(i as int) == b@.take(i as int),
        decreases a.len() - i,
    {
        assert(a@.take(i + 1) =~= a@.take(i as int).push(a@[i as int]));
        assert(b@.take(i + 1) =~= b@.take(i as int).push(b@[i as int]));
        i = i + 1;
    }
    proof {
        lemma_chars_lt_skip(a@, b@, i as int);
    }
    if i == a.len() {
        i < b.len()
    } else if i == b.len() {
        false
    } else {
        assert(a@.skip(i as int)[0] == a@[i as int]);
        assert(b@.skip(i as int)[0] == b@[i as int]);
        (a[i] as u32) < (b[i] as u32)
    }
}

/// Whether an entry (a name and a flag) comes before another: by name,
/// then with `false` before `true`. This is the order of `(&str, bool)`.
pub open spec fn entry_lt(a: (Seq<char>, bool), b: (Seq<char>, bool)) -> bool {
    chars_lt(a.0, b.0) || (a.0 == b.0 && !a.1 && b.1)
}

proof fn lemma_entry_lt_transitive(a: (Seq<char>, bool), b: (Seq<char>, bool), c: (Seq<char>, bool))
    requires
        entry_lt(a, b),
        entry_lt(b, c),
    ensures
        entry_lt(a, c),
{
    if chars_lt(a.0, b.0) && chars_lt(b.0, c.0) {
        lemma_chars_lt_transitive(a.0, b.0, c.0);
    }
}

/// The views of entries.
pub open spec fn entry_views(s: Seq<(String, bool)>) -> Seq<(Seq<char>, bool)> {
    s.map_values(|e: (String, bool)| (e.0@, e.1))
}

/// Whether a list of indices lists each of `0..n` exactly once.
pub open spec fn is_index_permutation(order: Seq<usize>, n: nat) -> bool {
    &&& order.len() == n
    &&& order.no_duplicates()
    &&& forall|i: int| 0 <= i < order.len() ==> #[trigger] order[i] < n
}

/// Whether the entries, taken in the order of the indices, never go down.
pub open spec fn sorted_by_entries(order: Seq<usize>, entries: Seq<(Seq<char>, bool)>) -> bool {
    forall|i: int, j: int|
        0 <= i < j < order.len() ==> !entry_lt(entries[#[trigger] order[j] as int], entries[#[trigger] order[i] as int])
}

fn entry_less(a: &(String, bool), b: &(String, bool)) -> (r: bool)
    ensures
        r == entry_lt((a.0@, a.1), (b.0@, b.1)),
{
    let ca = chars_of(a.0.as_str());
    let cb = chars_of(b.0.as_str());
    if chars_less(&ca, &cb) {
        true
    } else if chars_less(&cb, &ca) {
        proof {
            lemma_chars_lt_irreflexive(ca@);
        }
        false
    } else {
        proof {
            lemma_chars_lt_total(ca@, cb@);
        }
        !a.1 && b.1
    }
}

/// The indices of the entries in ascending order (by `entry_lt`).
pub fn sorted_order(entries: &Vec<(String, bool)>) -> (r: Vec<usize>)
    ensures
        is_index_permutation(r@, entries@.len()),
        sorted_by_entries(r@, entry_views(entries@)),
{
    let ghost ev = entry_views(entries@);
    let mut order: Vec<usize> = Vec::new();
    let mut k: usize = 0;
    while k < entries.len()
        invariant
            ev == entry_views(entries@),
            k <= entries@.len(),
            is_index_permutation(order@, k as nat),
            sorted_by_entries(order@, ev),
        decreases entries.len() - k,
    {
        // the first position whose entry comes after the new one
        let mut p: usize = 0;
        while p < order.len() && !entry_less(&entries[k], &entries[order[p]])
            invariant
                ev == entry_views(entries@),
                k < entries@.len(),
                p <= order@.len(),
                is_index_permutation(order@, k as nat),
                forall|j: int| 0 <= j < p ==> !entry_lt(ev[k as int], ev[#[trigger] order@[j] as int]),
            decreases order.len() - p,
        {
            assert(ev[k as int] == (entries@[k as int].0@, entries@[k as int].1));
            assert(ev[order@[p as int] as int] == (entries@[order@[p as int] as int].0@, entries@[order@[p as int] as int].1));
            p = p + 1;
        }
        let ghost before = order@;
        proof {
            if p < order.len() {
                assert(ev[k as int] == (entries@[k as int].0@, entries@[k as int].1));
                assert(ev[order@[p as int] as int] == (entries@[order@[p as int] as int].0@, entries@[order@[p as int] as int].1));
                assert(entry_lt(ev[k as int], ev[order@[p as int] as int]));
            }
        }
        order.insert(p, k);
        proof {
            assert(order@ =~= before.take(p as int).push(k) + before.skip(p as int));
            assert forall|i: int| 0 <= i < order@.len() implies #[trigger] order@[i] < k + 1 by {
                if i < p {
                    assert(order@[i] == before[i]);
                } else if i > p {
                    assert(order@[i] == before[i - 1]);
                }
            }
            assert forall|a: int, b: int| 0 <= a < order@.len() && 0 <= b < order@.len() && a != b
                implies order@[a] != order@[b] by {
                let x = if a < p { a } else { a - 1 };
                let y = if b < p { b } else { b - 1 };
                if a != p && b != p {
                    assert(order@[a] == before[x]);
                    assert(order@[b] == before[y]);
                } else if a == p {
                    assert(order@[b] == before[y]);
                } else {
                    assert(order@[a] == before[x]);
                }
            }
            assert(order@.no_duplicates());
            assert forall|a: int, b: int| 0 <= a < b < order@.len()
                implies !entry_lt(ev[#[trigger] order@[b] as int], ev[#[trigger] order@[a] as int]) by {
                if b < p {
                    assert(order@[a] == before[a]);
                    assert(order@[b] == before[b]);
                } else if a > p {
                    assert(order@[a] == before[a - 1]);
                    assert(order@[b] == before[b - 1]);
                } else if a == p {
                    // the new entry against a later one
                    assert(order@[b] == before[b - 1]);
                    assert(order@[a] == k);
                    if entry_lt(ev[before[b - 1] as int], ev[k as int]) {
                        if b - 1 > p {
                            assert(!entry_lt(ev[before[b - 1] as int], ev[before[p as int] as int]));
                        }
                        lemma_entry_lt_transitive(ev[before[b - 1] as int], ev[k as int], ev[before[p as int] as int]);
                        lemma_chars_lt_irreflexive(ev[before[p as int] as int].0);
                    }
                } else if b == p {
                    assert(order@[a] == before[a]);
                    assert(order@[b] == k);
                } else {
                    assert(a < p && p < b);
                    assert(order@[a] == before[a]);
                    assert(order@[b] == before[b - 1]);
                }
            }
        }
        k = k + 1;
    }
    order
}

/// Each of `0..n` occurs in an index permutation of `0..n`.
pub proof fn lemma_permutation_covers(order: Seq<usize>, n: nat, x: int)
    requires
        is_index_permutation(order, n),
        0 <= x < n,
    ensures
        exists|p: int| 0 <= p < order.len() && order[p] == x,
{
    let ints = order.map_values(|v: usize| v as int);
    assert forall|a: int, b: int| 0 <= a < ints.len() && 0 <= b < ints.len() && a != b implies ints[a]
        != ints[b] by {
        assert(order[a] != order[b]);
    }
    assert(ints.no_duplicates());
    ints.unique_seq_to_set();
    let vals = ints.to_set();
    if !vals.contains(x) {
        vstd::set_lib::lemma_int_range(0, n as int);
        let range = vstd::set_lib::set_int_range(0, n as int);
        assert forall|v: int| vals.insert(x).contains(v) implies range.contains(v) by {
            if v != x {
                let k = choose|k: int| 0 <= k < ints.len() && ints[k] == v;
                assert(order[k] < n);
            }
        }
        vstd::set_lib::lemma_len_subset(vals.insert(x), range);
        assert(false);
    }
    let k = choose|k: int| 0 <= k < ints.len() && ints[k] == x;
    assert(order[k] == x);
}

/// Of two different entries, one comes before the other.
pub proof fn lemma_entry_lt_total(a: (Seq<char>, bool), b: (Seq<char>, bool))
    requires
        a != b,
    ensures
        entry_lt(a, b) || entry_lt(b, a),
{
    lemma_chars_lt_total(a.0, b.0);
}

/// When no two entries are equal, there is only one order of their
/// indices in which they never go down: what `sorted_order` gives is
/// determined by the entries.
pub proof fn lemma_sorted_order_unique(o1: Seq<usize>, o2: Seq<usize>, entries: Seq<(Seq<char>, bool)>)
    requires
        is_index_permutation(o1, entries.len()),
        is_index_permutation(o2, entries.len()),
        sorted_by_entries(o1, entries),
        sorted_by_entries(o2, entries),
        forall|i: int, j: int| 0 <= i < j < entries.len() ==> #[trigger] entries[i] != #[trigger] entries[j],
    ensures
        o1 == o2,
{
    if exists|p: int| 0 <= p < o1.len() && o1[p] != o2[p] {
        let p0 = choose|p: int| 0 <= p < o1.len() && o1[p] != o2[p];
        lemma_first_difference(o1, o2, p0);
        let p = choose|p: int|
            0 <= p < o1.len() && o1[p] != o2[p] && forall|q: int| 0 <= q < p ==> o1[q] == o2[q];
        let x = o1[p] as int;
        let y = o2[p] as int;
        lemma_permutation_covers(o1, entries.len(), y);
        lemma_permutation_covers(o2, entries.len(), x);
        let q = choose|q: int| 0 <= q < o1.len() && o1[q] == y;
        let r = choose|r: int| 0 <= r < o2.len() && o2[r] == x;
        if q < p {
            assert(o2[q] == y);
        }
        if r < p {
            assert(o1[r] == x);
        }
        assert(q != p && r != p);
        assert(!entry_lt(entries[o1[q] as int], entries[o1[p] as int]));
        assert(!entry_lt(entries[o2[r] as int], entries[o2[p] as int]));
        if x < y {
            assert(entries[x] != entries[y]);
        } else {
            assert(entries[y] != entries[x]);
        }
        lemma_entry_lt_total(entries[x], entries[y]);
    }
    assert(o1 =~= o2);
}

proof fn lemma_first_difference(o1: Seq<usize>, o2: Seq<usize>, p0: int)
    requires
        0 <= p0 < o1.len(),
        o1.len() == o2.len(),
        o1[p0] != o2[p0],
    ensures
        exists|p: int| 0 <= p < o1.len() && o1[p] != o2[p] && forall|q: int| 0 <= q < p ==> o1[q] == o2[q],
    decreases p0,
{
    if exists|q: int| 0 <= q < p0 && o1[q] != o2[q] {
        let q = choose|q: int| 0 <= q < p0 && o1[q] != o2[q];
        lemma_first_difference(o1, o2, q);
    } else {
        assert(forall|q: int| 0 <= q < p0 ==> o1[q] == o2[q]);
    }
}

} // verus!
