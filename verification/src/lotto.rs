//! The lottery draw's post-processing: remap fetched bytes into the draw
//! range, keep the first occurrence of each value, take at most six, and
//! sort ascending.

use vstd::prelude::*;

verus! {

/// How many numbers a draw presents at most.
pub const DRAW_COUNT: usize = 6;

/// The modulus of the remap step. The draw keeps this historical constant,
/// so drawn values range over one to forty-nine.
pub const REMAP_MODULUS: u8 = 49;

/// A fetched byte remapped into the draw range.
pub open spec fn remap_val(v: u8) -> u8 {
    ((v % REMAP_MODULUS) + 1) as u8
}

/// Every fetched byte remapped into the draw range, in fetch order.
pub open spec fn remap_spec(s: Seq<u8>) -> Seq<u8> {
    s.map_values(|v: u8| remap_val(v))
}

/// The first occurrence of each value of `s`, in first-seen order.
pub open spec fn dedup_spec(s: Seq<u8>) -> Seq<u8>
    decreases s.len(),
{
    if s.len() == 0 {
        Seq::<u8>::empty()
    } else if s.drop_last().contains(s.last()) {
        dedup_spec(s.drop_last())
    } else {
        dedup_spec(s.drop_last()).push(s.last())
    }
}

/// The first `n` elements of `s`, or all of them when fewer.
pub open spec fn take_first(s: Seq<u8>, n: int) -> Seq<u8> {
    if s.len() <= n {
        s
    } else {
        s.subrange(0, n)
    }
}

/// `x` inserted into the sorted sequence `s`, keeping it sorted.
pub open spec fn insert_sorted(s: Seq<u8>, x: u8) -> Seq<u8>
    decreases s.len(),
{
    if s.len() == 0 {
        seq![x]
    } else if s.last() <= x {
        s.push(x)
    } else {
        insert_sorted(s.drop_last(), x).push(s.last())
    }
}

/// `s` rearranged into ascending order by insertion.
pub open spec fn sort_spec(s: Seq<u8>) -> Seq<u8>
    decreases s.len(),
{
    if s.len() == 0 {
        Seq::<u8>::empty()
    } else {
        insert_sorted(sort_spec(s.drop_last()), s.last())
    }
}

/// Non-decreasing order.
pub open spec fn sorted(s: Seq<u8>) -> bool {
    forall|i: int, j: int| 0 <= i < j < s.len() ==> s[i] <= s[j]
}

/// The whole draw: remap, keep first occurrences, take at most
/// `DRAW_COUNT`, sort ascending.
pub open spec fn lotto_spec(s: Seq<u8>) -> Seq<u8> {
    sort_spec(take_first(dedup_spec(remap_spec(s)), DRAW_COUNT as int))
}

/// Decide whether `v` holds `x`.
fn vec_contains(v: &Vec<u8>, x: u8) -> (r: bool)
    ensures
        r == v@.contains(x),
{
    let mut i: usize = 0;
    while i < v.len()
        invariant
            i <= v@.len(),
            forall|k: int| 0 <= k < i ==> v@[k] != x,
        decreases v@.len() - i,
    {
        if v[i] == x {
            return true;
        }
        i = i + 1;
    }
    false
}

/// Remap each fetched byte into the draw range.
pub fn remap(data: &Vec<u8>) -> (r: Vec<u8>)
    ensures
        r@ == remap_spec(data@),
{
    let mut out: Vec<u8> = Vec::new();
    let mut i: usize = 0;
    while i < data.len()
        invariant
            i <= data@.len(),
            out@ == remap_spec(data@.subrange(0, i as int)),
        decreases data@.len() - i,
    {
        let v = data[i];
        out.push(v % REMAP_MODULUS + 1);
        proof {
            assert(remap_spec(data@.subrange(0, i + 1)) =~= remap_spec(
                data@.subrange(0, i as int),
            ).push(remap_val(v)));
        }
        i = i + 1;
    }
    proof {
        assert(data@.subrange(0, data@.len() as int) =~= data@);
    }
    out
}

/// Keep the first occurrence of each value, in first-seen order.
pub fn dedup_first_seen(v: &Vec<u8>) -> (r: Vec<u8>)
    ensures
        r@ == dedup_spec(v@),
{
    let mut out: Vec<u8> = Vec::new();
    let mut i: usize = 0;
    while i < v.len()
        invariant
            i <= v@.len(),
            out@ == dedup_spec(v@.subrange(0, i as int)),
        decreases v@.len() - i,
    {
        let x = v[i];
        proof {
            let prefix = v@.subrange(0, i as int);
            lemma_dedup_contains(prefix, x);
            assert(v@.subrange(0, i + 1).drop_last() =~= prefix);
            assert(v@.subrange(0, i + 1).last() == x);
        }
        if !vec_contains(&out, x) {
            out.push(x);
        }
        i = i + 1;
    }
    proof {
        assert(v@.subrange(0, v@.len() as int) =~= v@);
    }
    out
}

/// Insert `x` into the sorted vector `v`, keeping it sorted.
fn insert_sorted_exec(v: Vec<u8>, x: u8) -> (r: Vec<u8>)
    ensures
        r@ == insert_sorted(v@, x),
    decreases v@.len(),
{
    let mut v = v;
    if v.len() == 0 {
        v.push(x);
        proof {
            assert(v@ =~= seq![x]);
        }
        v
    } else {
        let last = v[v.len() - 1];
        if last <= x {
            v.push(x);
            v
        } else {
            let ghost prev = v@;
            let _ = v.pop();
            proof {
                assert(v@ =~= prev.drop_last());
            }
            let mut r = insert_sorted_exec(v, x);
            r.push(last);
            r
        }
    }
}

/// Sort the vector ascending by insertion.
pub fn sort_u8(v: Vec<u8>) -> (r: Vec<u8>)
    ensures
        r@ == sort_spec(v@),
{
    let mut out: Vec<u8> = Vec::new();
    let mut i: usize = 0;
    while i < v.len()
        invariant
            i <= v@.len(),
            out@ == sort_spec(v@.subrange(0, i as int)),
        decreases v@.len() - i,
    {
        proof {
            assert(v@.subrange(0, i + 1).drop_last() =~= v@.subrange(0, i as int));
            assert(v@.subrange(0, i + 1).last() == v@[i as int]);
        }
        out = insert_sorted_exec(out, v[i]);
        i = i + 1;
    }
    proof {
        assert(v@.subrange(0, v@.len() as int) =~= v@);
    }
    out
}

/// Derive the draw from the fetched bytes: remap into the draw range, keep
/// the first occurrence of each value, take at most `DRAW_COUNT`, and sort
/// ascending. The result is a function of the fetched bytes alone.
pub fn lotto_numbers(data: &Vec<u8>) -> (r: Vec<u8>)
    ensures
        r@ == lotto_spec(data@),
{
    let remapped = remap(data);
    let mut unique = dedup_first_seen(&remapped);
    unique.truncate(DRAW_COUNT);
    proof {
        assert(unique@ =~= take_first(dedup_spec(remap_spec(data@)), DRAW_COUNT as int));
    }
    sort_u8(unique)
}

/// A value occurs in the deduplicated sequence exactly when it occurs in
/// the original.
proof fn lemma_dedup_contains(s: Seq<u8>, x: u8)
    ensures
        dedup_spec(s).contains(x) <==> s.contains(x),
    decreases s.len(),
{
    if s.len() > 0 {
        lemma_dedup_contains(s.drop_last(), x);
        let d = dedup_spec(s);
        let dprev = dedup_spec(s.drop_last());
        if s.drop_last().contains(s.last()) {
            if s.contains(x) {
                let i = choose|i: int| 0 <= i < s.len() && s[i] == x;
                if i < s.len() - 1 {
                    assert(s.drop_last()[i] == x);
                } else {
                    assert(s.drop_last().contains(s.last()));
                }
            }
            if s.drop_last().contains(x) {
                let i = choose|i: int| 0 <= i < s.drop_last().len() && s.drop_last()[i] == x;
                assert(s[i] == x);
            }
        } else {
            if s.contains(x) {
                let i = choose|i: int| 0 <= i < s.len() && s[i] == x;
                if i < s.len() - 1 {
                    assert(s.drop_last()[i] == x);
                    assert(dprev.contains(x));
                    let j = choose|j: int| 0 <= j < dprev.len() && dprev[j] == x;
                    assert(d[j] == x);
                } else {
                    assert(d.last() == x);
                }
            }
            if d.contains(x) {
                let j = choose|j: int| 0 <= j < d.len() && d[j] == x;
                if j < d.len() - 1 {
                    assert(dprev[j] == x);
                    let i = choose|i: int| 0 <= i < s.drop_last().len() && s.drop_last()[i] == x;
                    assert(s[i] == x);
                } else {
                    assert(s.last() == x);
                    assert(s[s.len() - 1] == x);
                }
            }
        }
    }
}

/// The deduplicated sequence has no duplicate values.
proof fn lemma_dedup_no_duplicates(s: Seq<u8>)
    ensures
        dedup_spec(s).no_duplicates(),
    decreases s.len(),
{
    if s.len() > 0 {
        lemma_dedup_no_duplicates(s.drop_last());
        if !s.drop_last().contains(s.last()) {
            lemma_dedup_contains(s.drop_last(), s.last());
            let d = dedup_spec(s.drop_last());
            assert forall|i: int, j: int|
                0 <= i < dedup_spec(s).len() && 0 <= j < dedup_spec(s).len() && i
                    != j implies dedup_spec(s)[i] != dedup_spec(s)[j] by {
                if i < d.len() && j < d.len() {
                } else if i < d.len() {
                    assert(d.contains(d[i]));
                } else if j < d.len() {
                    assert(d.contains(d[j]));
                }
            }
        }
    }
}

/// The deduplicated sequence is exactly as long as the set of values.
proof fn lemma_dedup_len(s: Seq<u8>)
    ensures
        dedup_spec(s).len() == s.to_set().len(),
{
    lemma_dedup_no_duplicates(s);
    dedup_spec(s).unique_seq_to_set();
    assert(dedup_spec(s).to_set() =~= s.to_set()) by {
        assert forall|x: u8| dedup_spec(s).contains(x) <==> s.contains(x) by {
            lemma_dedup_contains(s, x);
        }
    }
}

/// Inserting into a sorted sequence keeps it sorted and adds one copy of
/// the inserted value.
proof fn lemma_insert_sorted(s: Seq<u8>, x: u8)
    requires
        sorted(s),
    ensures
        sorted(insert_sorted(s, x)),
        insert_sorted(s, x).to_multiset() == s.to_multiset().insert(x),
        insert_sorted(s, x).len() == s.len() + 1,
    decreases s.len(),
{
    broadcast use vstd::seq_lib::group_to_multiset_ensures;

    let r = insert_sorted(s, x);
    if s.len() == 0 {
        assert(r =~= Seq::<u8>::empty().push(x));
        assert(r.to_multiset() =~= s.to_multiset().insert(x));
    } else if s.last() <= x {
        assert(r == s.push(x));
        assert forall|i: int, j: int| 0 <= i < j < r.len() implies r[i] <= r[j] by {
            if j < s.len() {
            } else {
                if i < s.len() - 1 {
                    assert(s[i] <= s.last());
                }
            }
        }
        assert(r.to_multiset() =~= s.to_multiset().insert(x));
    } else {
        let head = s.drop_last();
        assert(sorted(head));
        lemma_insert_sorted(head, x);
        let inner = insert_sorted(head, x);
        assert(r == inner.push(s.last()));
        assert forall|i: int, j: int| 0 <= i < j < r.len() implies r[i] <= r[j] by {
            if j == r.len() - 1 {
                if i < inner.len() {
                    assert(inner.to_multiset().contains(inner[i]));
                    assert(head.to_multiset().insert(x).count(inner[i]) > 0);
                    if head.to_multiset().count(inner[i]) > 0 {
                        assert(head.contains(inner[i]));
                        let k = choose|k: int| 0 <= k < head.len() && head[k] == inner[i];
                        assert(s[k] <= s.last());
                    } else {
                        assert(inner[i] == x);
                    }
                }
            }
        }
        assert(s =~= head.push(s.last()));
        assert(s.to_multiset() == head.to_multiset().insert(s.last()));
        assert(r.to_multiset() =~= inner.to_multiset().insert(s.last()));
        assert(r.to_multiset() =~= s.to_multiset().insert(x));
    }
}

/// Sorting yields a sorted rearrangement of the same values.
proof fn lemma_sort_spec(s: Seq<u8>)
    ensures
        sorted(sort_spec(s)),
        sort_spec(s).to_multiset() == s.to_multiset(),
        sort_spec(s).len() == s.len(),
    decreases s.len(),
{
    broadcast use vstd::seq_lib::group_to_multiset_ensures;

    if s.len() > 0 {
        lemma_sort_spec(s.drop_last());
        lemma_insert_sorted(sort_spec(s.drop_last()), s.last());
        assert(s =~= s.drop_last().push(s.last()));
        assert(s.to_multiset() == s.drop_last().to_multiset().insert(s.last()));
    }
}

/// The law of the draw: every drawn value lies in the draw range, the draw
/// is sorted ascending with no duplicate values, and its length is the
/// smaller of `DRAW_COUNT` and the number of distinct remapped values.
pub proof fn lemma_lotto_properties(s: Seq<u8>)
    ensures
        forall|i: int| 0 <= i < lotto_spec(s).len() ==> 1 <= #[trigger] lotto_spec(s)[i]
            <= REMAP_MODULUS,
        sorted(lotto_spec(s)),
        lotto_spec(s).no_duplicates(),
        lotto_spec(s).len() == if remap_spec(s).to_set().len() < DRAW_COUNT {
            remap_spec(s).to_set().len()
        } else {
            DRAW_COUNT as nat
        },
{
    broadcast use vstd::seq_lib::group_to_multiset_ensures;

    let m = remap_spec(s);
    let d = dedup_spec(m);
    let t = take_first(d, DRAW_COUNT as int);
    let r = lotto_spec(s);
    lemma_dedup_no_duplicates(m);
    lemma_dedup_len(m);
    assert(t.no_duplicates()) by {
        if d.len() > DRAW_COUNT {
            assert forall|i: int, j: int|
                0 <= i < t.len() && 0 <= j < t.len() && i != j implies t[i] != t[j] by {
                assert(t[i] == d[i] && t[j] == d[j]);
            }
        }
    }
    lemma_sort_spec(t);
    t.lemma_multiset_has_no_duplicates();
    r.lemma_multiset_has_no_duplicates_conv();
    assert(r.len() == t.len());
    assert forall|i: int| 0 <= i < r.len() implies 1 <= #[trigger] r[i] <= REMAP_MODULUS by {
        assert(r.to_multiset().contains(r[i]));
        assert(t.to_multiset().count(r[i]) > 0);
        assert(t.contains(r[i]));
        let k = choose|k: int| 0 <= k < t.len() && t[k] == r[i];
        assert(d.contains(t[k])) by {
            if d.len() > DRAW_COUNT {
                assert(t[k] == d[k]);
            }
        }
        lemma_dedup_contains(m, t[k]);
        let q = choose|q: int| 0 <= q < m.len() && m[q] == t[k];
        assert(m[q] == remap_val(s[q]));
    }
}

/// The draw is deterministic in the fetched bytes: with the first-seen
/// deduplication order pinned, equal byte sequences yield equal draws.
pub proof fn lemma_lotto_deterministic(a: Seq<u8>, b: Seq<u8>)
    requires
        a == b,
    ensures
        lotto_spec(a) == lotto_spec(b),
{
}

} // verus!
