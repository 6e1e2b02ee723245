//! Listing records in order of a text key, the stored order breaking ties
//! (what a stable sort by that key gives).
use vstd::prelude::*;
use crate::text::{
    chars_of, eq_exec, lemma_lex_antisym, lemma_lex_total, lemma_lex_trans, lex_le, lex_le_exec,
};

verus! {

/// Record `i` comes before record `j`: a smaller key, or the same key and
/// stored first.
pub open spec fn key_before(keys: Seq<Seq<char>>, i: int, j: int) -> bool {
    (lex_le(keys[i], keys[j]) && keys[i] != keys[j]) || (keys[i] == keys[j] && i < j)
}

/// `r` lists every record (by number) once, in key order.
pub open spec fn key_order(keys: Seq<Seq<char>>, r: Seq<usize>) -> bool {
    &&& r.len() == keys.len()
    &&& forall|k: int| 0 <= k < r.len() ==> (#[trigger] r[k]) < keys.len()
    &&& forall|i: usize| i < keys.len() ==> #[trigger] r.contains(i)
    &&& forall|k1: int, k2: int| 0 <= k1 < k2 < r.len() ==> key_before(keys, #[trigger] r[k1] as int, #[trigger] r[k2] as int)
}

proof fn lemma_key_before_trans(keys: Seq<Seq<char>>, i: int, j: int, k: int)
    requires
        key_before(keys, i, j),
        key_before(keys, j, k),
    ensures
        key_before(keys, i, k),
{
    if lex_le(keys[i], keys[j]) && lex_le(keys[j], keys[k]) {
        lemma_lex_trans(keys[i], keys[j], keys[k]);
    }
    if keys[i] == keys[k] && keys[i] != keys[j] {
        lemma_lex_antisym(keys[i], keys[j]);
    }
}

pub open spec fn keys_view(keys: Seq<String>) -> Seq<Seq<char>> {
    keys.map_values(|s: String| s@)
}

/// The record numbers sorted by key, ties in stored order.
pub fn order_by_key(keys: &Vec<String>) -> (r: Vec<usize>)
    ensures
        key_order(keys_view(keys@), r@),
{
    let ghost kv = keys_view(keys@);
    let mut out: Vec<usize> = Vec::new();
    let mut i: usize = 0;
    while i < keys.len()
        invariant
            i <= keys@.len(),
            kv == keys_view(keys@),
            out@.len() == i,
            forall|k: int| 0 <= k < out@.len() ==> (#[trigger] out@[k]) < i,
            forall|q: usize| q < i ==> #[trigger] out@.contains(q),
            forall|k1: int, k2: int| 0 <= k1 < k2 < out@.len() ==> key_before(kv, #[trigger] out@[k1] as int, #[trigger] out@[k2] as int),
        decreases keys@.len() - i,
    {
        let xi = chars_of(keys[i].as_str());
        let mut p: usize = 0;
        let mut stop = false;
        while p < out.len() && !stop
            invariant
                p <= out@.len(),
                i < keys@.len(),
                kv == keys_view(keys@),
                xi@ == kv[i as int],
                forall|k: int| 0 <= k < out@.len() ==> (#[trigger] out@[k]) < i,
                forall|k: int| 0 <= k < p ==> key_before(kv, #[trigger] out@[k] as int, i as int),
                stop ==> p < out@.len() && key_before(kv, i as int, out@[p as int] as int),
            decreases out@.len() - p + if stop { 0int } else { 1int },
        {
            let q = out[p];
            let xq = chars_of(keys[q].as_str());
            assert(xq@ == kv[q as int]);
            if lex_le_exec(xi.as_slice(), xq.as_slice()) && !eq_exec(xi.as_slice(), xq.as_slice()) {
                stop = true;
            } else {
                proof {
                    lemma_lex_total(kv[i as int], kv[q as int]);
                }
                p += 1;
            }
        }
        let ghost old_out = out@;
        out.insert(p, i);
        assert(out@ =~= old_out.insert(p as int, i));
        assert forall|k1: int, k2: int| 0 <= k1 < k2 < out@.len() implies key_before(kv, #[trigger] out@[k1] as int, #[trigger] out@[k2] as int) by {
            if k2 < p {
                assert(out@[k1] == old_out[k1] && out@[k2] == old_out[k2]);
            } else if k2 == p {
                assert(out@[k1] == old_out[k1]);
            } else if k1 == p {
                assert(out@[k2] == old_out[k2 - 1]);
                if k2 - 1 > p {
                    assert(key_before(kv, old_out[p as int] as int, old_out[k2 - 1] as int));
                    lemma_key_before_trans(kv, i as int, old_out[p as int] as int, old_out[k2 - 1] as int);
                }
            } else if k1 < p {
                assert(out@[k1] == old_out[k1] && out@[k2] == old_out[k2 - 1]);
            } else {
                assert(out@[k1] == old_out[k1 - 1] && out@[k2] == old_out[k2 - 1]);
            }
        }
        assert forall|q: usize| q < i + 1 implies #[trigger] out@.contains(q) by {
            if q < i {
                assert(old_out.contains(q));
                let k = choose|k: int| 0 <= k < old_out.len() && old_out[k] == q;
                if k < p {
                    assert(out@[k] == q);
                } else {
                    assert(out@[k + 1] == q);
                }
            } else {
                assert(out@[p as int] == i);
            }
        }
        i += 1;
    }
    out
}

/// Record `i` comes before record `j` by two keys: a smaller first key, or
/// the same first key and `key_before` on the second.
pub open spec fn two_key_before(p: Seq<Seq<char>>, s: Seq<Seq<char>>, i: int, j: int) -> bool {
    (lex_le(p[i], p[j]) && p[i] != p[j]) || (p[i] == p[j] && key_before(s, i, j))
}

/// `r` lists every record (by number) once, ordered by the first key, then
/// the second, then stored order.
pub open spec fn two_key_order(p: Seq<Seq<char>>, s: Seq<Seq<char>>, r: Seq<usize>) -> bool {
    &&& r.len() == p.len()
    &&& forall|k: int| 0 <= k < r.len() ==> (#[trigger] r[k]) < p.len()
    &&& forall|i: usize| i < p.len() ==> #[trigger] r.contains(i)
    &&& forall|k1: int, k2: int|
        0 <= k1 < k2 < r.len() ==> two_key_before(p, s, #[trigger] r[k1] as int, #[trigger] r[k2] as int)
}

/// The record numbers sorted by `primary`, then by `secondary`, ties in
/// stored order (a stable sort by the second key followed by a stable sort
/// by the first).
pub fn order_by_two_keys(primary: &Vec<String>, secondary: &Vec<String>) -> (r: Vec<usize>)
    requires
        primary@.len() == secondary@.len(),
    ensures
        two_key_order(keys_view(primary@), keys_view(secondary@), r@),
{
    let ghost pv = keys_view(primary@);
    let ghost sv = keys_view(secondary@);
    let first = order_by_key(secondary);
    let mut moved: Vec<String> = Vec::new();
    let mut k: usize = 0;
    while k < first.len()
        invariant
            k <= first@.len(),
            pv == keys_view(primary@),
            sv == keys_view(secondary@),
            primary@.len() == secondary@.len(),
            key_order(sv, first@),
            moved@.len() == k,
            forall|j: int| 0 <= j < k ==> (#[trigger] moved@[j])@ == pv[first@[j] as int],
        decreases first@.len() - k,
    {
        let x = first[k];
        let t = crate::text::string_of(chars_of(primary[x].as_str()).as_slice());
        moved.push(t);
        k += 1;
    }
    let ghost mv = keys_view(moved@);
    assert forall|j: int| 0 <= j < first@.len() implies mv[j] == pv[#[trigger] first@[j] as int] by {
        assert(mv[j] == moved@[j]@);
    }
    let second = order_by_key(&moved);
    let mut out: Vec<usize> = Vec::new();
    let mut m: usize = 0;
    while m < second.len()
        invariant
            m <= second@.len(),
            second@.len() == first@.len(),
            key_order(mv, second@),
            key_order(sv, first@),
            mv.len() == first@.len(),
            out@.len() == m,
            forall|j: int| 0 <= j < m ==> out@[j] == first@[#[trigger] second@[j] as int],
        decreases second@.len() - m,
    {
        let y = second[m];
        out.push(first[y]);
        m += 1;
    }
    assert forall|k1: int, k2: int| 0 <= k1 < k2 < out@.len() implies two_key_before(
        pv,
        sv,
        #[trigger] out@[k1] as int,
        #[trigger] out@[k2] as int,
    ) by {
        let q1 = second@[k1] as int;
        let q2 = second@[k2] as int;
        assert(key_before(mv, q1, q2));
        assert(mv[q1] == pv[first@[q1] as int]);
        assert(mv[q2] == pv[first@[q2] as int]);
        if mv[q1] == mv[q2] && q1 < q2 {
            assert(key_before(sv, first@[q1] as int, first@[q2] as int));
        }
    }
    assert forall|i: usize| i < pv.len() implies #[trigger] out@.contains(i) by {
        assert(first@.contains(i));
        let j = choose|j: int| 0 <= j < first@.len() && first@[j] == i;
        assert(second@.contains(j as usize));
        let k = choose|k: int| 0 <= k < second@.len() && second@[k] == j as usize;
        assert(out@[k] == i);
    }
    assert(pv.len() == sv.len());
    assert forall|k: int| 0 <= k < out@.len() implies (#[trigger] out@[k]) < pv.len() by {
        let q = second@[k] as int;
        assert(first@[q] < sv.len());
    }
    out
}

/// Entry `a` comes before entry `b`: fewer days, or as many and a smaller index.
pub open spec fn days_before(a: (usize, i64), b: (usize, i64)) -> bool {
    a.1 < b.1 || (a.1 == b.1 && a.0 < b.0)
}

/// `r` holds exactly the entries of `e`, ordered by days, then index.
pub open spec fn days_order(e: Seq<(usize, i64)>, r: Seq<(usize, i64)>) -> bool {
    &&& r.len() == e.len()
    &&& forall|k: int| 0 <= k < r.len() ==> e.contains(#[trigger] r[k])
    &&& forall|k: int| 0 <= k < e.len() ==> r.contains(#[trigger] e[k])
    &&& forall|k1: int, k2: int| 0 <= k1 < k2 < r.len() ==> days_before(#[trigger] r[k1], #[trigger] r[k2])
}

/// Entries in the order `sort_by_key` on the days gives when they were listed
/// by increasing index: by days, equal days in index order.
pub fn sort_by_days(entries: &Vec<(usize, i64)>) -> (r: Vec<(usize, i64)>)
    requires
        forall|k1: int, k2: int| 0 <= k1 < k2 < entries@.len() ==> (#[trigger] entries@[k1]).0 < (#[trigger] entries@[k2]).0,
    ensures
        days_order(entries@, r@),
{
    let ghost e = entries@;
    let mut out: Vec<(usize, i64)> = Vec::new();
    let mut i: usize = 0;
    while i < entries.len()
        invariant
            i <= e.len(),
            e == entries@,
            forall|k1: int, k2: int| 0 <= k1 < k2 < e.len() ==> (#[trigger] e[k1]).0 < (#[trigger] e[k2]).0,
            out@.len() == i,
            forall|k: int| 0 <= k < out@.len() ==> e.take(i as int).contains(#[trigger] out@[k]),
            forall|k: int| 0 <= k < i ==> out@.contains(#[trigger] e[k]),
            forall|k1: int, k2: int| 0 <= k1 < k2 < out@.len() ==> days_before(#[trigger] out@[k1], #[trigger] out@[k2]),
        decreases e.len() - i,
    {
        let x = entries[i];
        assert forall|k: int| 0 <= k < out@.len() implies (#[trigger] out@[k]).0 < x.0 by {
            assert(e.take(i as int).contains(out@[k]));
            let j = choose|j: int| 0 <= j < i && e.take(i as int)[j] == out@[k];
            assert(e[j] == out@[k]);
        }
        let mut p: usize = 0;
        let mut stop = false;
        while p < out.len() && !stop
            invariant
                p <= out@.len(),
                forall|k: int| 0 <= k < out@.len() ==> (#[trigger] out@[k]).0 < x.0,
                forall|k: int| 0 <= k < p ==> days_before(#[trigger] out@[k], x),
                stop ==> p < out@.len() && days_before(x, out@[p as int]),
            decreases out@.len() - p + if stop { 0int } else { 1int },
        {
            let q = out[p];
            if x.1 < q.1 {
                stop = true;
            } else {
                p += 1;
            }
        }
        let ghost old_out = out@;
        out.insert(p, x);
        assert(out@ =~= old_out.insert(p as int, x));
        assert forall|k1: int, k2: int| 0 <= k1 < k2 < out@.len() implies days_before(#[trigger] out@[k1], #[trigger] out@[k2]) by {
            if k2 < p {
                assert(out@[k1] == old_out[k1] && out@[k2] == old_out[k2]);
            } else if k2 == p {
                assert(out@[k1] == old_out[k1]);
            } else if k1 == p {
                assert(out@[k2] == old_out[k2 - 1]);
                if k2 - 1 > p {
                    assert(days_before(old_out[p as int], old_out[k2 - 1]));
                }
            } else if k1 < p {
                assert(out@[k1] == old_out[k1] && out@[k2] == old_out[k2 - 1]);
            } else {
                assert(out@[k1] == old_out[k1 - 1] && out@[k2] == old_out[k2 - 1]);
            }
        }
        assert forall|k: int| 0 <= k < out@.len() implies e.take(i + 1).contains(#[trigger] out@[k]) by {
            if k == p {
                assert(e.take(i + 1)[i as int] == x);
            } else {
                let o = if k < p { old_out[k] } else { old_out[k - 1] };
                assert(out@[k] == o);
                assert(e.take(i as int).contains(o));
                let j = choose|j: int| 0 <= j < i && e.take(i as int)[j] == o;
                assert(e.take(i + 1)[j] == o);
            }
        }
        assert forall|k: int| 0 <= k < i + 1 implies out@.contains(#[trigger] e[k]) by {
            if k < i {
                assert(old_out.contains(e[k]));
                let j = choose|j: int| 0 <= j < old_out.len() && old_out[j] == e[k];
                if j < p {
                    assert(out@[j] == e[k]);
                } else {
                    assert(out@[j + 1] == e[k]);
                }
            } else {
                assert(out@[p as int] == x);
            }
        }
        i += 1;
    }
    assert(e.take(e.len() as int) =~= e);
    out
}

} // verus!
