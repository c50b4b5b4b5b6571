//! Dense tensors of fixed-point scalars.
//!
//! A tensor is a shape and its elements in row-major order; the
//! well-formedness invariant ties the element count to the product of
//! the dimensions.

use crate::fixed::SCALE;
use crate::fixed::mag;
use vstd::prelude::*;

verus! {

/// A dense tensor: a shape and the elements in row-major order.
pub struct TensorData {
    pub shape: Vec<usize>,
    pub elems: Vec<i64>,
}

/// The number of elements a shape calls for: the product of its
/// dimensions.
pub open spec fn shape_product(s: Seq<usize>) -> int
    decreases s.len(),
{
    if s.len() == 0 {
        1
    } else {
        shape_product(s.drop_last()) * s.last()
    }
}

/// Every element of the sequence is zero.
pub open spec fn all_zero(s: Seq<i64>) -> bool {
    forall|i: int| 0 <= i < s.len() ==> s[i] == 0
}

/// Every element of the sequence has magnitude at most `m`.
pub open spec fn bounded_seq(s: Seq<i64>, m: int) -> bool {
    forall|i: int| 0 <= i < s.len() ==> mag(s[i] as int) <= m
}

/// Every element of the sequence lies in the fixed-point interval
/// `[0, 1]`.
pub open spec fn in_unit(s: Seq<i64>) -> bool {
    forall|i: int| 0 <= i < s.len() ==> 0 <= s[i] && s[i] <= SCALE
}

impl TensorData {
    /// The element count matches the shape.
    pub open spec fn wf(self) -> bool {
        shape_product(self.shape@) == self.elems@.len()
    }

    /// Same dimensions, hence the same number of elements.
    pub open spec fn same_shape(self, other: TensorData) -> bool {
        self.shape@ == other.shape@ && self.elems@.len() == other.elems@.len()
    }
}

/// The two tensors hold the same dimensions and the same elements.
pub open spec fn tensor_eq(a: TensorData, b: TensorData) -> bool {
    a.shape@ == b.shape@ && a.elems@ == b.elems@
}

/// A product of dimensions that are all positive is positive, and no
/// prefix of it exceeds the whole.
proof fn lemma_product_pos(s: Seq<usize>)
    requires
        forall|i: int| 0 <= i < s.len() ==> s[i] >= 1,
    ensures
        shape_product(s) >= 1,
    decreases s.len(),
{
    if s.len() > 0 {
        lemma_product_pos(s.drop_last());
        assert(shape_product(s.drop_last()) * s.last() >= 1) by (nonlinear_arith)
            requires
                shape_product(s.drop_last()) >= 1,
                s.last() >= 1,
        ;
    }
}

/// With positive dimensions, the product of a prefix is at most the
/// product of the whole shape.
proof fn lemma_product_prefix(s: Seq<usize>, i: int)
    requires
        forall|k: int| 0 <= k < s.len() ==> s[k] >= 1,
        0 <= i <= s.len(),
    ensures
        shape_product(s.take(i)) <= shape_product(s),
        shape_product(s.take(i)) >= 1,
    decreases s.len() - i,
{
    assert(forall|k: int| 0 <= k < s.take(i).len() ==> s.take(i)[k] >= 1);
    lemma_product_pos(s.take(i));
    if i == s.len() {
        assert(s.take(i) =~= s);
    } else {
        lemma_product_prefix(s, i + 1);
        assert(s.take(i + 1).drop_last() =~= s.take(i));
        assert(shape_product(s.take(i + 1)) == shape_product(s.take(i)) * s[i]);
        assert(shape_product(s.take(i)) <= shape_product(s.take(i)) * s[i]) by (nonlinear_arith)
            requires
                shape_product(s.take(i)) >= 1,
                s[i] >= 1,
        ;
    }
}

/// A shape with a zero dimension calls for no elements.
proof fn lemma_product_zero(s: Seq<usize>, i: int)
    requires
        0 <= i < s.len(),
        s[i] == 0,
    ensures
        shape_product(s) == 0,
    decreases s.len(),
{
    if i == s.len() - 1 {
        assert(shape_product(s) == shape_product(s.drop_last()) * 0);
    } else {
        lemma_product_zero(s.drop_last(), i);
        assert(shape_product(s) == 0 * s.last());
    }
}

/// The all-zero tensor of a given shape.
pub fn zeros(shape: Vec<usize>) -> (t: TensorData)
    requires
        shape_product(shape@) <= usize::MAX as int,
    ensures
        t.wf(),
        t.shape@ == shape@,
        t.elems@.len() == shape_product(shape@),
        all_zero(t.elems@),
{
    let n = shape.len();
    let mut has_zero = false;
    let mut i: usize = 0;
    while i < n
        invariant
            n == shape@.len(),
            0 <= i <= n,
            has_zero <==> exists|k: int| 0 <= k < i && shape@[k] == 0,
        decreases n - i,
    {
        if shape[i] == 0 {
            has_zero = true;
        }
        i += 1;
    }
    let count: usize;
    if has_zero {
        proof {
            let k = choose|k: int| 0 <= k < n && shape@[k] == 0;
            lemma_product_zero(shape@, k);
        }
        count = 0;
    } else {
        assert(forall|k: int| 0 <= k < n ==> shape@[k] >= 1);
        let mut acc: usize = 1;
        let mut j: usize = 0;
        proof {
            assert(shape@.take(0) =~= Seq::<usize>::empty());
        }
        while j < n
            invariant
                n == shape@.len(),
                0 <= j <= n,
                forall|k: int| 0 <= k < n ==> shape@[k] >= 1,
                shape_product(shape@) <= usize::MAX as int,
                acc as int == shape_product(shape@.take(j as int)),
            decreases n - j,
        {
            proof {
                lemma_product_prefix(shape@, j + 1);
                assert(shape@.take(j + 1).drop_last() =~= shape@.take(j as int));
                assert(shape_product(shape@.take(j + 1)) == shape_product(
                    shape@.take(j as int),
                ) * shape@[j as int]);
            }
            acc = acc * shape[j];
            j += 1;
        }
        proof {
            assert(shape@.take(n as int) =~= shape@);
        }
        count = acc;
    }
    let elems: Vec<i64> = vec![0i64; count];
    proof {
        assert(forall|k: int| 0 <= k < elems@.len() ==> elems@[k] == 0);
    }
    TensorData { shape, elems }
}

/// A fresh vector of `n` zero scalars.
pub fn zero_elems(n: usize) -> (v: Vec<i64>)
    ensures
        v@.len() == n,
        all_zero(v@),
{
    let v: Vec<i64> = vec![0i64; n];
    proof {
        assert(forall|k: int| 0 <= k < v@.len() ==> v@[k] == 0);
    }
    v
}

/// An exact copy of a tensor.
pub fn clone_tensor(t: &TensorData) -> (r: TensorData)
    ensures
        r.shape@ == t.shape@,
        r.elems@ == t.elems@,
{
    let shape = t.shape.clone();
    let elems = t.elems.clone();
    proof {
        assert(shape@ =~= t.shape@);
        assert(elems@ =~= t.elems@);
    }
    TensorData { shape, elems }
}

/// A tensor with the dimensions of `t` and the given elements.
pub fn with_elems(t: &TensorData, elems: Vec<i64>) -> (r: TensorData)
    requires
        t.wf(),
        elems@.len() == t.elems@.len(),
    ensures
        r.wf(),
        r.shape@ == t.shape@,
        r.elems@ == elems@,
{
    let shape = t.shape.clone();
    proof {
        assert(shape@ =~= t.shape@);
    }
    TensorData { shape, elems }
}

/// The zero tensor with the dimensions of a given tensor.
pub fn zeros_like(t: &TensorData) -> (r: TensorData)
    requires
        t.wf(),
    ensures
        r.wf(),
        r.same_shape(*t),
        all_zero(r.elems@),
{
    let shape = t.shape.clone();
    proof {
        assert(shape@ =~= t.shape@);
    }
    let elems = zero_elems(t.elems.len());
    TensorData { shape, elems }
}

} // verus!
