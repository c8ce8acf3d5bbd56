//! Splitting the flattened index range into contiguous slices for independent
//! workers, and gathering their results back into index order.

use vstd::prelude::*;

verus! {

/// The first index of slice `j` when `total` indices are split into `parts`
/// slices: each slice gets `total / parts` indices, and the first
/// `total % parts` slices one more.
pub open spec fn bound(total: int, parts: int, j: int) -> int {
    j * (total / parts) + if j < total % parts { j } else { total % parts }
}

/// The slices of `total` indices split into `parts`, as half-open ranges.
pub open spec fn slices_spec(total: int, parts: int) -> Seq<(usize, usize)> {
    Seq::new(parts as nat, |j: int| (bound(total, parts, j) as usize, bound(total, parts, j + 1) as usize))
}

/// What the workers' results hold once laid end to end.
pub open spec fn concat<T>(chunks: Seq<Vec<T>>) -> Seq<T> {
    chunks.map_values(|c: Vec<T>| c@).flatten()
}

/// The bounds run from 0 to `total` without going down, and consecutive ones
/// differ by `total / parts` or one more.
pub proof fn lemma_bounds(total: int, parts: int, j: int)
    requires
        0 <= total,
        0 < parts,
        0 <= j < parts,
    ensures
        bound(total, parts, 0) == 0,
        bound(total, parts, parts) == total,
        0 <= bound(total, parts, j),
        bound(total, parts, j + 1) == bound(total, parts, j) + total / parts + if j < total % parts { 1int } else { 0 },
        bound(total, parts, j + 1) <= total,
{
    let (q, m) = (total / parts, total % parts);
    vstd::arithmetic::div_mod::lemma_fundamental_div_mod(total, parts);
    assert(total == parts * q + m);
    assert(0 <= m < parts);
    assert(q >= 0) by {
        vstd::arithmetic::div_mod::lemma_div_pos_is_pos(total, parts);
    }
    assert((j + 1) * q == j * q + q) by (nonlinear_arith);
    assert(0 <= j * q) by (nonlinear_arith)
        requires 0 <= j, 0 <= q;
    assert((j + 1) * q <= parts * q) by (nonlinear_arith)
        requires j + 1 <= parts, 0 <= q;
    assert(parts * q == q * parts) by (nonlinear_arith);
}

/// Splits the indices `[0, total)` into `parts` contiguous slices, in order,
/// whose lengths differ by at most one.
pub fn partition(total: usize, parts: usize) -> (r: Vec<(usize, usize)>)
    requires
        parts > 0,
    ensures
        r@ == slices_spec(total as int, parts as int),
{
    let q = total / parts;
    let m = total % parts;
    let mut r: Vec<(usize, usize)> = Vec::with_capacity(parts);
    let mut start: usize = 0;
    let mut j: usize = 0;
    proof {
        lemma_bounds(total as int, parts as int, 0);
    }
    while j < parts
        invariant
            0 < parts,
            q == total / parts,
            m == total % parts,
            j <= parts,
            start == bound(total as int, parts as int, j as int),
            start <= total,
            r@ == slices_spec(total as int, parts as int).take(j as int),
        decreases parts - j,
    {
        proof {
            lemma_bounds(total as int, parts as int, j as int);
        }
        let len = if j < m { q + 1 } else { q };
        let end = start + len;
        r.push((start, end));
        start = end;
        j += 1;
        assert(r@ =~= slices_spec(total as int, parts as int).take(j as int));
    }
    assert(r@ =~= slices_spec(total as int, parts as int));
    r
}

/// Lays the workers' results end to end, in the order of the slices.
pub fn gather<T: Copy>(chunks: &Vec<Vec<T>>) -> (r: Vec<T>)
    ensures
        r@ == concat(chunks@),
{
    let ghost views = chunks@.map_values(|c: Vec<T>| c@);
    let mut r: Vec<T> = Vec::new();
    let mut i: usize = 0;
    while i < chunks.len()
        invariant
            i <= chunks.len(),
            views == chunks@.map_values(|c: Vec<T>| c@),
            r@ == views.take(i as int).flatten(),
        decreases chunks.len() - i,
    {
        let chunk = &chunks[i];
        let mut j: usize = 0;
        while j < chunk.len()
            invariant
                i < chunks.len(),
                *chunk == chunks@[i as int],
                j <= chunk.len(),
                r@ == views.take(i as int).flatten() + chunk@.take(j as int),
            decreases chunk.len() - j,
        {
            r.push(chunk[j]);
            j += 1;
            assert(r@ =~= views.take(i as int).flatten() + chunk@.take(j as int));
        }
        proof {
            views.take(i as int).lemma_flatten_push(chunk@);
            assert(views.take(i as int + 1) =~= views.take(i as int).push(chunk@));
            assert(chunk@.take(j as int) =~= chunk@);
        }
        i += 1;
    }
    assert(views.take(i as int) =~= views);
    r
}

/// The slices of `s` cut as `partition` cuts its index range.
pub open spec fn pieces<T>(s: Seq<T>, parts: int) -> Seq<Seq<T>> {
    Seq::new(parts as nat, |j: int| s.subrange(
        bound(s.len() as int, parts, j),
        bound(s.len() as int, parts, j + 1),
    ))
}

proof fn lemma_prefix_restored<T>(s: Seq<T>, parts: int, i: int)
    requires
        0 < parts,
        0 <= i <= parts,
    ensures
        pieces(s, parts).take(i).flatten() == s.subrange(0, bound(s.len() as int, parts, i)),
    decreases i,
{
    let total = s.len() as int;
    lemma_bounds(total, parts, 0);
    if i == 0 {
        assert(pieces(s, parts).take(0) =~= Seq::<Seq<T>>::empty());
        assert(s.subrange(0, 0) =~= Seq::<T>::empty());
    } else {
        lemma_prefix_restored(s, parts, i - 1);
        lemma_bounds(total, parts, i - 1);
        let ps = pieces(s, parts);
        ps.take(i - 1).lemma_flatten_push(ps[i - 1]);
        assert(ps.take(i) =~= ps.take(i - 1).push(ps[i - 1]));
        assert(s.subrange(0, bound(total, parts, i)) =~= s.subrange(0, bound(total, parts, i - 1))
            + s.subrange(bound(total, parts, i - 1), bound(total, parts, i)));
    }
}

/// Cutting a sequence into the slices of `partition` and laying the slices
/// end to end gives the sequence back, in its order.
pub proof fn lemma_gather_restores_order<T>(s: Seq<T>, parts: int)
    requires
        0 < parts,
    ensures
        pieces(s, parts).flatten() == s,
{
    lemma_prefix_restored(s, parts, parts);
    lemma_bounds(s.len() as int, parts, 0);
    assert(pieces(s, parts).take(parts) =~= pieces(s, parts));
    assert(s.subrange(0, s.len() as int) =~= s);
}

} // verus!
