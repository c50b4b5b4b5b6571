//! A fully-connected layer: it registers its weight and bias with the
//! registry at construction and keeps their handles.

use crate::network::Network;
use crate::tensor::all_zero;
use crate::tensor::shape_product;
use vstd::prelude::*;

verus! {

/// The handles of a fully-connected layer: `w` for the weight matrix,
/// `b` for the bias row.
pub struct Linear {
    pub w: usize,
    pub b: usize,
}

impl Linear {
    /// Register a zero-initialized `ninputs x noutputs` weight and a
    /// `1 x noutputs` bias as trainable parameters, and keep their
    /// handles.
    pub fn new(net: &mut Network, ninputs: i64, noutputs: i64) -> (l: Linear)
        requires
            old(net).wf(),
            0 <= ninputs,
            0 <= noutputs,
            ninputs as int <= usize::MAX as int,
            noutputs as int <= usize::MAX as int,
            ninputs as int * noutputs as int <= usize::MAX as int,
        ensures
            final(net).wf(),
            final(net).values@.len() == old(net).values@.len() + 2,
            l.w == old(net).values@.len(),
            l.b == old(net).values@.len() + 1,
            final(net).values@[l.w as int].shape@ == seq![ninputs as usize, noutputs as usize],
            final(net).values@[l.b as int].shape@ == seq![1usize, noutputs as usize],
            final(net).trainable@[l.w as int],
            final(net).trainable@[l.b as int],
            all_zero(final(net).values@[l.w as int].elems@),
            all_zero(final(net).values@[l.b as int].elems@),
            forall|i: int|
                0 <= i < old(net).values@.len() ==> (#[trigger] final(net).values@[i]) == old(
                    net,
                ).values@[i],
    {
        let ni = ninputs as usize;
        let no = noutputs as usize;
        let mut shape_w: Vec<usize> = Vec::new();
        shape_w.push(ni);
        shape_w.push(no);
        let mut shape_b: Vec<usize> = Vec::new();
        shape_b.push(1);
        shape_b.push(no);
        proof {
            assert(shape_w@ =~= seq![ni, no]);
            assert(shape_b@ =~= seq![1usize, no]);
            lemma_pair_product(ni, no);
            lemma_pair_product(1, no);
            assert(ni as int * no as int == ninputs as int * noutputs as int);
        }
        let w = net.new_push(shape_w, true);
        let b = net.new_push(shape_b, true);
        Linear { w, b }
    }
}

/// The element count of a two-dimensional shape is the product of its
/// two dimensions.
proof fn lemma_pair_product(a: usize, c: usize)
    ensures
        shape_product(seq![a, c]) == a as int * c as int,
{
    let s = seq![a, c];
    assert(s.drop_last() =~= seq![a]);
    assert(seq![a].drop_last() =~= Seq::<usize>::empty());
    assert(shape_product(Seq::<usize>::empty()) == 1);
    assert(shape_product(seq![a]) == 1 * a);
    assert((1 * (a as int)) * (c as int) == a as int * c as int) by (nonlinear_arith);
}

} // verus!
