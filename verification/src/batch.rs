//! Batching: slicing a sequence of row indices into consecutive
//! chunks of a fixed size, the last one truncated.
//!
//! The caller supplies the order of the rows — the identity order, or
//! a permutation drawn elsewhere — and the plan chunks it.  The proofs
//! here state the batching laws: the number of chunks is the row count
//! divided by the batch size rounded up, the chunk sizes sum to the
//! row count, and a permutation's rows land in exactly one chunk each.

use vstd::arithmetic::div_mod::lemma_fundamental_div_mod;
use vstd::arithmetic::mul::lemma_mul_is_commutative;
use vstd::arithmetic::div_mod::lemma_mod_bound;
use vstd::math::min;
use vstd::prelude::*;

verus! {

/// The row count divided by the batch size, rounded up.
pub open spec fn ceil_div(r: int, b: int) -> int
    recommends
        r >= 0,
        b >= 1,
{
    if r % b == 0 {
        r / b
    } else {
        r / b + 1
    }
}

/// The planned batches: consecutive chunks of the given row indices,
/// each of the batch size, the last one truncated to what remains.
pub open spec fn batch_plan(ind: Seq<usize>, b: int) -> Seq<Seq<usize>>
    recommends
        b >= 1,
{
    Seq::new(
        ceil_div(ind.len() as int, b) as nat,
        |k: int| ind.subrange(k * b, min((k + 1) * b, ind.len() as int)),
    )
}

/// The chunk sizes added up.
pub open spec fn total_len(s: Seq<Seq<usize>>) -> int
    decreases s.len(),
{
    if s.len() == 0 {
        0
    } else {
        total_len(s.drop_last()) + s.last().len()
    }
}

/// `(k, j)` addresses an element of one of the chunks.
pub open spec fn valid_batch_pos(p: Seq<Seq<usize>>, k: int, j: int) -> bool {
    0 <= k < p.len() && 0 <= j < p[k].len()
}

/// Some chunk holds the row index `v`.
pub open spec fn covered_by(p: Seq<Seq<usize>>, v: int) -> bool {
    exists|k: int, j: int| valid_batch_pos(p, k, j) && p[k][j] == v
}

/// The row index `v` occurs somewhere in the sequence.
pub open spec fn appears(s: Seq<usize>, v: int) -> bool {
    exists|i: int| 0 <= i < s.len() && (#[trigger] s[i]) == v
}

/// The sequence lists each row index below `n` exactly once.
pub open spec fn is_permutation(s: Seq<usize>, n: int) -> bool {
    &&& s.len() == n
    &&& forall|i: int| 0 <= i < n ==> (#[trigger] s[i]) < n
    &&& forall|i: int, j: int|
        #![trigger s[i], s[j]]
        0 <= i < n && 0 <= j < n && i != j ==> s[i] != s[j]
    &&& forall|v: int| 0 <= v < n ==> #[trigger] appears(s, v)
}

/// `ceil_div` is the exact ceiling: the row count lies in the last
/// full-size window.
pub proof fn lemma_ceil_div_bounds(r: int, b: int)
    requires
        r >= 0,
        b >= 1,
    ensures
        ceil_div(r, b) >= 0,
        b * ceil_div(r, b) >= r,
        r > 0 ==> b * (ceil_div(r, b) - 1) < r,
        r == 0 ==> ceil_div(r, b) == 0,
{
    lemma_fundamental_div_mod(r, b);
    lemma_mod_bound(r, b);
    let q = r / b;
    let m = r % b;
    assert(r == b * q + m);
    assert(q >= 0) by (nonlinear_arith)
        requires
            b >= 1,
            r >= 0,
            m < b,
            0 <= m,
            r == b * q + m,
    ;
    if m == 0 {
        assert(b * q >= r && (r > 0 ==> b * (q - 1) < r)) by (nonlinear_arith)
            requires
                b >= 1,
                r == b * q,
                q >= 0,
        ;
        if r == 0 {
            assert(q == 0) by (nonlinear_arith)
                requires
                    b >= 1,
                    0 == b * q,
                    q >= 0,
            ;
        }
    } else {
        assert(b * (q + 1) >= r && b * q < r) by (nonlinear_arith)
            requires
                b >= 1,
                r == b * q + m,
                0 < m < b,
        ;
    }
}

/// Only one chunk count fits between the two window bounds.
pub proof fn lemma_ceil_div_unique(r: int, b: int, k: int)
    requires
        r >= 0,
        b >= 1,
        k >= 1,
        r <= k * b,
        (k - 1) * b < r,
    ensures
        ceil_div(r, b) == k,
{
    lemma_ceil_div_bounds(r, b);
    let c = ceil_div(r, b);
    assert(r > 0) by (nonlinear_arith)
        requires
            k >= 1,
            b >= 1,
            (k - 1) * b < r,
    ;
    if c < k {
        assert(c * b <= (k - 1) * b) by (nonlinear_arith)
            requires
                c <= k - 1,
                b >= 1,
        ;
        lemma_mul_is_commutative(b, c);
        assert(b * c >= r);
    }
    if c > k {
        assert(k * b <= (c - 1) * b) by (nonlinear_arith)
            requires
                k <= c - 1,
                b >= 1,
        ;
        lemma_mul_is_commutative(b, c - 1);
        assert(b * (c - 1) < r);
    }
}

/// Each chunk reads the row indices in order: entry `j` of chunk `k`
/// is row `k * b + j` of the given order.
pub proof fn lemma_plan_index(ind: Seq<usize>, b: int, k: int, j: int)
    requires
        b >= 1,
        valid_batch_pos(batch_plan(ind, b), k, j),
    ensures
        0 <= k * b + j < ind.len(),
        0 <= j < b,
        batch_plan(ind, b)[k][j] == ind[k * b + j],
{
    let n = ind.len() as int;
    lemma_ceil_div_bounds(n, b);
    assert(k * b <= (ceil_div(n, b) - 1) * b) by (nonlinear_arith)
        requires
            k <= ceil_div(n, b) - 1,
            b >= 1,
    ;
    lemma_mul_is_commutative(b, ceil_div(n, b) - 1);
    assert(k * b < n);
    assert(k * b >= 0) by (nonlinear_arith)
        requires
            k >= 0,
            b >= 1,
    ;
    assert(batch_plan(ind, b)[k] == ind.subrange(k * b, min((k + 1) * b, n)));
    assert((k + 1) * b == k * b + b) by (nonlinear_arith);
}

/// The chunk sizes of every prefix of the plan add up to the rows the
/// prefix spans.
proof fn lemma_plan_prefix_sizes(ind: Seq<usize>, b: int, k: int)
    requires
        b >= 1,
        0 <= k <= batch_plan(ind, b).len(),
    ensures
        total_len(batch_plan(ind, b).take(k)) == min(k * b, ind.len() as int),
    decreases k,
{
    let n = ind.len() as int;
    let plan = batch_plan(ind, b);
    lemma_ceil_div_bounds(n, b);
    if k == 0 {
        assert(plan.take(0) =~= Seq::<Seq<usize>>::empty());
        assert(min(0 * b, n) == 0) by (nonlinear_arith)
            requires
                n >= 0,
    ;
    } else {
        lemma_plan_prefix_sizes(ind, b, k - 1);
        assert(plan.take(k).drop_last() =~= plan.take(k - 1));
        assert(plan.take(k).last() == plan[k - 1]);
        assert((k - 1) * b <= (ceil_div(n, b) - 1) * b) by (nonlinear_arith)
            requires
                k - 1 <= ceil_div(n, b) - 1,
                b >= 1,
        ;
        lemma_mul_is_commutative(b, ceil_div(n, b) - 1);
        assert((k - 1) * b < n);
        assert((k - 1) * b >= 0) by (nonlinear_arith)
            requires
                k >= 1,
                b >= 1,
        ;
        assert(plan[k - 1].len() == min(k * b, n) - (k - 1) * b) by {
            assert(plan[k - 1] == ind.subrange((k - 1) * b, min(k * b, n)));
            assert(k * b == (k - 1) * b + b) by (nonlinear_arith);
        }
        assert(min((k - 1) * b, n) == (k - 1) * b);
    }
}

/// The chunk sizes sum to the row count, every chunk but the last has
/// the batch size, and the last holds what remains.
pub proof fn lemma_batch_sizes(ind: Seq<usize>, b: int)
    requires
        b >= 1,
    ensures
        total_len(batch_plan(ind, b)) == ind.len(),
        forall|k: int|
            0 <= k < batch_plan(ind, b).len() - 1 ==> (#[trigger] batch_plan(ind, b)[k]).len()
                == b,
        batch_plan(ind, b).len() >= 1 ==> batch_plan(ind, b).last().len() == ind.len() - b * (
        batch_plan(ind, b).len() - 1),
{
    let n = ind.len() as int;
    let plan = batch_plan(ind, b);
    lemma_ceil_div_bounds(n, b);
    lemma_plan_prefix_sizes(ind, b, plan.len() as int);
    assert(plan.take(plan.len() as int) =~= plan);
    lemma_mul_is_commutative(b, ceil_div(n, b));
    assert(min(plan.len() as int * b, n) == n);
    assert forall|k: int| 0 <= k < plan.len() - 1 implies (#[trigger] plan[k]).len() == b by {
        assert(plan[k] == ind.subrange(k * b, min((k + 1) * b, n)));
        assert((k + 1) * b <= (ceil_div(n, b) - 1) * b) by (nonlinear_arith)
            requires
                k + 1 <= ceil_div(n, b) - 1,
                b >= 1,
        ;
        lemma_mul_is_commutative(b, ceil_div(n, b) - 1);
        assert((k + 1) * b < n);
        assert(k * b >= 0) by (nonlinear_arith)
            requires
                k >= 0,
                b >= 1,
        ;
        assert((k + 1) * b == k * b + b) by (nonlinear_arith);
    }
    if plan.len() >= 1 {
        let k = plan.len() - 1;
        assert(plan[k] == ind.subrange(k * b, min((k + 1) * b, n)));
        assert(k * b >= 0) by (nonlinear_arith)
            requires
                k >= 0,
                b >= 1,
        ;
        assert(k * b < n) by {
            lemma_mul_is_commutative(b, k);
            assert(n > 0);
        }
        assert((k + 1) * b >= n) by {
            lemma_mul_is_commutative(b, k + 1);
            assert(k + 1 == ceil_div(n, b));
        }
        assert(plan.last().len() == n - k * b);
        lemma_mul_is_commutative(b, k);
    }
}

/// With a permutation of the rows, every row index lands in exactly
/// one place of one chunk.
pub proof fn lemma_batch_coverage(ind: Seq<usize>, b: int, n: int)
    requires
        b >= 1,
        is_permutation(ind, n),
    ensures
        forall|v: int| 0 <= v < n ==> covered_by(batch_plan(ind, b), v),
        forall|k1: int, j1: int, k2: int, j2: int|
            valid_batch_pos(batch_plan(ind, b), k1, j1) && valid_batch_pos(
                batch_plan(ind, b),
                k2,
                j2,
            ) && #[trigger] batch_plan(ind, b)[k1][j1] == #[trigger] batch_plan(ind, b)[k2][j2]
                ==> k1 == k2 && j1 == j2,
{
    let plan = batch_plan(ind, b);
    lemma_ceil_div_bounds(n, b);
    assert forall|v: int| 0 <= v < n implies covered_by(plan, v) by {
        assert(appears(ind, v));
        let i = choose|i: int| 0 <= i < ind.len() && (#[trigger] ind[i]) == v;
        lemma_fundamental_div_mod(i, b);
        lemma_mod_bound(i, b);
        let k = i / b;
        let j = i % b;
        assert(i == b * k + j);
        assert(k >= 0) by (nonlinear_arith)
            requires
                i >= 0,
                b >= 1,
                0 <= j < b,
                i == b * k + j,
        ;
        assert(k < ceil_div(n, b)) by {
            if k >= ceil_div(n, b) {
                assert(ceil_div(n, b) * b <= k * b) by (nonlinear_arith)
                    requires
                        ceil_div(n, b) <= k,
                        b >= 1,
                ;
                lemma_mul_is_commutative(b, ceil_div(n, b));
                lemma_mul_is_commutative(b, k);
                assert(i >= n);
            }
        }
        assert(plan[k] == ind.subrange(k * b, min((k + 1) * b, n)));
        assert((k + 1) * b == k * b + b) by (nonlinear_arith);
        lemma_mul_is_commutative(b, k);
        assert(j < plan[k].len());
        assert(valid_batch_pos(plan, k, j) && plan[k][j] == v);
    }
    assert forall|k1: int, j1: int, k2: int, j2: int|
        valid_batch_pos(plan, k1, j1) && valid_batch_pos(plan, k2, j2) && #[trigger] plan[k1][j1]
            == #[trigger] plan[k2][j2] implies k1 == k2 && j1 == j2 by {
        lemma_plan_index(ind, b, k1, j1);
        lemma_plan_index(ind, b, k2, j2);
        assert(ind[k1 * b + j1] == ind[k2 * b + j2]);
        assert(k1 * b + j1 == k2 * b + j2);
        assert(k1 == k2 && j1 == j2) by (nonlinear_arith)
            requires
                k1 * b + j1 == k2 * b + j2,
                0 <= j1 < b,
                0 <= j2 < b,
                b >= 1,
        ;
    }
}

/// The row indices `0, 1, .., n - 1` in their given order.
pub fn range_indices(n: usize) -> (r: Vec<usize>)
    ensures
        r@.len() == n,
        forall|i: int| 0 <= i < n ==> (#[trigger] r@[i]) == i,
{
    let mut r: Vec<usize> = Vec::with_capacity(n);
    let mut i: usize = 0;
    while i < n
        invariant
            0 <= i <= n,
            r@.len() == i,
            forall|k: int| 0 <= k < i ==> (#[trigger] r@[k]) == k,
        decreases n - i,
    {
        r.push(i);
        i += 1;
    }
    r
}

/// The identity order is a permutation.
pub proof fn lemma_identity_is_permutation(s: Seq<usize>, n: int)
    requires
        s.len() == n,
        forall|i: int| 0 <= i < n ==> (#[trigger] s[i]) == i,
    ensures
        is_permutation(s, n),
{
    assert forall|v: int| 0 <= v < n implies #[trigger] appears(s, v) by {
        assert(s[v] == v);
    }
}

/// Slice the given row order into consecutive chunks of the batch
/// size, the last truncated: exactly the spec-level `batch_plan`.
pub fn get_batches(indices: &Vec<usize>, batch_size: usize) -> (batches: Vec<Vec<usize>>)
    requires
        batch_size >= 1,
    ensures
        batches@.len() == ceil_div(indices@.len() as int, batch_size as int),
        batches@.len() == batch_plan(indices@, batch_size as int).len(),
        forall|k: int|
            0 <= k < batches@.len() ==> (#[trigger] batches@[k])@ == batch_plan(
                indices@,
                batch_size as int,
            )[k],
{
    let n = indices.len();
    let b = batch_size;
    let ghost bi = b as int;
    let ghost ni = n as int;
    let mut batches: Vec<Vec<usize>> = Vec::new();
    let mut pos: usize = 0;
    let mut k: usize = 0;
    proof {
        lemma_ceil_div_bounds(ni, bi);
    }
    while pos < n
        invariant
            b >= 1,
            bi == b as int,
            ni == n as int,
            n == indices@.len(),
            batches@.len() == k,
            k <= pos || k == 0,
            pos as int == min(k as int * bi, ni),
            k == 0 || (k as int - 1) * bi < ni,
            forall|j: int|
                0 <= j < k ==> (#[trigger] batches@[j])@ == indices@.subrange(
                    j * bi,
                    min((j + 1) * bi, ni),
                ),
        decreases n - pos,
    {
        proof {
            assert(k as int * bi >= 0) by (nonlinear_arith)
                requires
                    k >= 0,
                    bi >= 1,
            ;
            assert(pos as int == k as int * bi);
        }
        let remaining = n - pos;
        let cnt = if remaining < b {
            remaining
        } else {
            b
        };
        let mut chunk: Vec<usize> = Vec::with_capacity(cnt);
        let mut j: usize = 0;
        while j < cnt
            invariant
                pos + cnt <= n,
                0 <= j <= cnt,
                n == indices@.len(),
                chunk@.len() == j,
                forall|t: int| 0 <= t < j ==> (#[trigger] chunk@[t]) == indices@[pos + t],
            decreases cnt - j,
        {
            chunk.push(indices[pos + j]);
            j += 1;
        }
        proof {
            assert(chunk@ =~= indices@.subrange(pos as int, pos as int + cnt as int));
            assert((k as int + 1) * bi == k as int * bi + bi) by (nonlinear_arith);
            assert(pos as int + cnt as int == min((k as int + 1) * bi, ni));
        }
        batches.push(chunk);
        proof {
            assert(cnt >= 1);
            assert(k < usize::MAX);
        }
        pos += cnt;
        k += 1;
        proof {
            assert forall|j: int|
                0 <= j < k implies (#[trigger] batches@[j])@ == indices@.subrange(
                j * bi,
                min((j + 1) * bi, ni),
            ) by {}
        }
    }
    proof {
        if k == 0 {
            assert(ni <= 0);
            assert(ceil_div(ni, bi) == 0);
        } else {
            assert(ni <= k as int * bi);
            lemma_ceil_div_unique(ni, bi, k as int);
        }
        assert forall|j: int|
            0 <= j < batches@.len() implies (#[trigger] batches@[j])@ == batch_plan(indices@, bi)[j] by {}
    }
    batches
}

} // verus!
