//! The parameter registry.
//!
//! A `Network` is an ordered, append-only arena of parameter records.
//! Registration hands out an integer handle: the position of the
//! parameter, stable for the life of the registry.  Each record keeps
//! the parameter's value, its accumulated gradient, a trainable flag,
//! and the long-lived accumulators of the momentum and Adam rules,
//! stored as parallel vectors indexed by the handle.

use crate::fixed::MAG_LIMIT;
use crate::fixed::SCALE;
use crate::fixed::mag;
use crate::tensor::TensorData;
use crate::tensor::all_zero;
use crate::tensor::bounded_seq;
use crate::tensor::clone_tensor;
use crate::tensor::in_unit;
use crate::tensor::shape_product;
use crate::tensor::tensor_eq;
use crate::tensor::with_elems;
use crate::tensor::zeros;
use crate::tensor::zeros_like;
use crate::update::adam_seq;
use crate::update::adam_elems;
use crate::update::momentum_seq;
use crate::update::momentum_elems;
use crate::fixed::div_trunc;
use crate::update::sgd_seq;
use crate::update::sgd_elems;
use crate::update::sgd_value;
use vstd::prelude::*;

verus! {

/// What every optimizer step keeps: the number of parameters and
/// their trainable flags.
pub open spec fn frame_rel(pre: Network, post: Network) -> bool {
    &&& post.values@.len() == pre.values@.len()
    &&& post.trainable@ == pre.trainable@
}

/// The gradient at `i` was cleared to zero, keeping its shape.
pub open spec fn grads_cleared(pre: Network, post: Network, i: int) -> bool {
    &&& post.grads@[i].shape@ == pre.grads@[i].shape@
    &&& post.grads@[i].elems@.len() == pre.grads@[i].elems@.len()
    &&& all_zero(post.grads@[i].elems@)
}

/// Parameter `i` and its gradient are exactly as they were.
pub open spec fn param_untouched(pre: Network, post: Network, i: int) -> bool {
    &&& tensor_eq(post.values@[i], pre.values@[i])
    &&& tensor_eq(post.grads@[i], pre.grads@[i])
}

/// One plain SGD step over the registry: every trainable parameter is
/// updated elementwise by `sgd_value` from its own gradient and its
/// gradient is cleared; nothing else changes.
pub open spec fn sgd_step_rel(pre: Network, post: Network, lr: int) -> bool {
    &&& frame_rel(pre, post)
    &&& post.vel@ == pre.vel@
    &&& post.adam_m@ == pre.adam_m@
    &&& post.adam_v@ == pre.adam_v@
    &&& forall|i: int|
        0 <= i < pre.values@.len() && (#[trigger] pre.trainable@[i]) ==> {
            &&& post.values@[i].shape@ == pre.values@[i].shape@
            &&& sgd_seq(pre.values@[i].elems@, pre.grads@[i].elems@, lr, post.values@[i].elems@)
            &&& grads_cleared(pre, post, i)
        }
    &&& forall|i: int|
        0 <= i < pre.values@.len() && !(#[trigger] pre.trainable@[i]) ==> param_untouched(
            pre,
            post,
            i,
        )
}

/// One momentum step over the registry: every trainable parameter's
/// velocity and value are updated elementwise by `momentum_vel` and
/// `momentum_value` and its gradient is cleared; nothing else changes.
pub open spec fn momentum_step_rel(pre: Network, post: Network, lr: int) -> bool {
    &&& frame_rel(pre, post)
    &&& post.vel@.len() == pre.vel@.len()
    &&& post.adam_m@ == pre.adam_m@
    &&& post.adam_v@ == pre.adam_v@
    &&& forall|i: int|
        0 <= i < pre.values@.len() && (#[trigger] pre.trainable@[i]) ==> {
            &&& post.values@[i].shape@ == pre.values@[i].shape@
            &&& post.vel@[i].shape@ == pre.vel@[i].shape@
            &&& momentum_seq(
                pre.values@[i].elems@,
                pre.grads@[i].elems@,
                pre.vel@[i].elems@,
                lr,
                post.values@[i].elems@,
                post.vel@[i].elems@,
            )
            &&& grads_cleared(pre, post, i)
        }
    &&& forall|i: int|
        0 <= i < pre.values@.len() && !(#[trigger] pre.trainable@[i]) ==> param_untouched(
            pre,
            post,
            i,
        ) && tensor_eq(post.vel@[i], pre.vel@[i])
}

/// One Adam step over the registry: every trainable parameter's
/// moments and value are updated elementwise by `adam_mom`, `adam_vel`
/// and `adam_value` and its gradient is cleared; nothing else changes.
pub open spec fn adam_step_rel(pre: Network, post: Network, lr: int) -> bool {
    &&& frame_rel(pre, post)
    &&& post.adam_m@.len() == pre.adam_m@.len()
    &&& post.adam_v@.len() == pre.adam_v@.len()
    &&& post.vel@ == pre.vel@
    &&& forall|i: int|
        0 <= i < pre.values@.len() && (#[trigger] pre.trainable@[i]) ==> {
            &&& post.values@[i].shape@ == pre.values@[i].shape@
            &&& post.adam_m@[i].shape@ == pre.adam_m@[i].shape@
            &&& post.adam_v@[i].shape@ == pre.adam_v@[i].shape@
            &&& adam_seq(
                pre.values@[i].elems@,
                pre.grads@[i].elems@,
                pre.adam_m@[i].elems@,
                pre.adam_v@[i].elems@,
                lr,
                post.values@[i].elems@,
                post.adam_m@[i].elems@,
                post.adam_v@[i].elems@,
            )
            &&& grads_cleared(pre, post, i)
        }
    &&& forall|i: int|
        0 <= i < pre.values@.len() && !(#[trigger] pre.trainable@[i]) ==> param_untouched(
            pre,
            post,
            i,
        ) && tensor_eq(post.adam_m@[i], pre.adam_m@[i]) && tensor_eq(post.adam_v@[i], pre.adam_v@[i])
}

/// The shapes of the trainable parameters, in registration order.
pub open spec fn trainable_shapes(values: Seq<TensorData>, tr: Seq<bool>) -> Seq<Seq<usize>>
    recommends
        values.len() == tr.len(),
    decreases values.len(),
{
    if values.len() == 0 {
        Seq::empty()
    } else {
        let prefix = trainable_shapes(values.drop_last(), tr.drop_last());
        if tr[values.len() - 1] {
            prefix.push(values.last().shape@)
        } else {
            prefix
        }
    }
}

/// The parameter registry: parallel vectors indexed by handle.
pub struct Network {
    /// Parameter values.
    pub values: Vec<TensorData>,
    /// Accumulated gradients, one per parameter, shaped like it.
    pub grads: Vec<TensorData>,
    /// Whether an optimizer step may change the parameter.
    pub trainable: Vec<bool>,
    /// Velocity accumulators of the momentum rule.
    pub vel: Vec<TensorData>,
    /// First-moment accumulators of the Adam rule.
    pub adam_m: Vec<TensorData>,
    /// Second-moment accumulators of the Adam rule.
    pub adam_v: Vec<TensorData>,
}

impl Network {
    /// All vectors run in parallel; every auxiliary tensor is shaped
    /// like its parameter; the accumulators stay in the ranges the
    /// update rules keep them in.
    pub open spec fn wf(self) -> bool {
        let n = self.values@.len();
        &&& self.grads@.len() == n
        &&& self.trainable@.len() == n
        &&& self.vel@.len() == n
        &&& self.adam_m@.len() == n
        &&& self.adam_v@.len() == n
        &&& forall|i: int|
            0 <= i < n ==> {
                &&& (#[trigger] self.values@[i]).wf()
                &&& self.grads@[i].same_shape(self.values@[i])
                &&& self.vel@[i].same_shape(self.values@[i])
                &&& self.adam_m@[i].same_shape(self.values@[i])
                &&& self.adam_v@[i].same_shape(self.values@[i])
                &&& bounded_seq(self.vel@[i].elems@, MAG_LIMIT as int)
                &&& bounded_seq(self.adam_m@[i].elems@, SCALE as int)
                &&& in_unit(self.adam_v@[i].elems@)
            }
    }

    /// An empty registry.
    pub fn new() -> (net: Network)
        ensures
            net.wf(),
            net.values@.len() == 0,
    {
        Network {
            values: Vec::new(),
            grads: Vec::new(),
            trainable: Vec::new(),
            vel: Vec::new(),
            adam_m: Vec::new(),
            adam_v: Vec::new(),
        }
    }

    /// The number of registered parameters.
    pub fn size(&self) -> (n: usize)
        ensures
            n == self.values@.len(),
    {
        self.values.len()
    }

    /// Register a parameter with the given initial value.  Returns its
    /// handle; the gradient and the optimizer accumulators start at
    /// zero.
    pub fn push(&mut self, value: TensorData, trainable: bool) -> (addr: usize)
        requires
            old(self).wf(),
            value.wf(),
        ensures
            final(self).wf(),
            addr == old(self).values@.len(),
            final(self).values@ == old(self).values@.push(value),
            final(self).trainable@ == old(self).trainable@.push(trainable),
            final(self).grads@.len() == addr + 1,
            forall|i: int|
                0 <= i < addr ==> (#[trigger] final(self).grads@[i]) == old(self).grads@[i]
                    && final(self).vel@[i] == old(self).vel@[i] && final(self).adam_m@[i] == old(
                    self,
                ).adam_m@[i] && final(self).adam_v@[i] == old(self).adam_v@[i],
            all_zero(final(self).grads@[addr as int].elems@),
            all_zero(final(self).vel@[addr as int].elems@),
            all_zero(final(self).adam_m@[addr as int].elems@),
            all_zero(final(self).adam_v@[addr as int].elems@),
    {
        let addr = self.values.len();
        let g = zeros_like(&value);
        let w = zeros_like(&value);
        let m = zeros_like(&value);
        let v2 = zeros_like(&value);
        self.values.push(value);
        self.grads.push(g);
        self.trainable.push(trainable);
        self.vel.push(w);
        self.adam_m.push(m);
        self.adam_v.push(v2);
        addr
    }

    /// Register a zero-initialized parameter of the given shape.
    pub fn new_push(&mut self, shape: Vec<usize>, trainable: bool) -> (addr: usize)
        requires
            old(self).wf(),
            shape_product(shape@) <= usize::MAX as int,
        ensures
            final(self).wf(),
            addr == old(self).values@.len(),
            final(self).values@.len() == addr + 1,
            final(self).trainable@ == old(self).trainable@.push(trainable),
            forall|i: int|
                0 <= i < addr ==> (#[trigger] final(self).values@[i]) == old(self).values@[i] && (
                #[trigger] final(self).grads@[i]) == old(self).grads@[i],
            final(self).values@[addr as int].shape@ == shape@,
            all_zero(final(self).values@[addr as int].elems@),
            all_zero(final(self).grads@[addr as int].elems@),
    {
        let t = zeros(shape);
        self.push(t, trainable)
    }

    /// The parameter behind a handle.
    pub fn get(&self, addr: &usize) -> (t: &TensorData)
        requires
            *addr < self.values@.len(),
        ensures
            *t == self.values@[*addr as int],
    {
        &self.values[*addr]
    }

    /// The accumulated gradient behind a handle.
    pub fn get_grad(&self, addr: &usize) -> (t: &TensorData)
        requires
            *addr < self.grads@.len(),
        ensures
            *t == self.grads@[*addr as int],
    {
        &self.grads[*addr]
    }

    /// Overwrite the parameter behind a handle.  The gradient and the
    /// optimizer accumulators are reset to zero in the new shape.
    pub fn set(&mut self, addr: &usize, value: TensorData)
        requires
            old(self).wf(),
            *addr < old(self).values@.len(),
            value.wf(),
        ensures
            final(self).wf(),
            final(self).values@ == old(self).values@.update(*addr as int, value),
            final(self).trainable@ == old(self).trainable@,
            forall|i: int|
                0 <= i < final(self).values@.len() && i != *addr ==> (#[trigger] final(self).grads@[i]) == old(
                    self,
                ).grads@[i] && final(self).vel@[i] == old(self).vel@[i] && final(self).adam_m@[i] == old(
                    self,
                ).adam_m@[i] && final(self).adam_v@[i] == old(self).adam_v@[i],
            all_zero(final(self).grads@[*addr as int].elems@),
            all_zero(final(self).vel@[*addr as int].elems@),
            all_zero(final(self).adam_m@[*addr as int].elems@),
            all_zero(final(self).adam_v@[*addr as int].elems@),
    {
        let g = zeros_like(&value);
        let w = zeros_like(&value);
        let m = zeros_like(&value);
        let v2 = zeros_like(&value);
        self.values[*addr] = value;
        self.grads[*addr] = g;
        self.vel[*addr] = w;
        self.adam_m[*addr] = m;
        self.adam_v[*addr] = v2;
        proof {
            let a = *addr as int;
            assert forall|i: int| 0 <= i < self.values@.len() implies {
                &&& (#[trigger] self.values@[i]).wf()
                &&& self.grads@[i].same_shape(self.values@[i])
                &&& self.vel@[i].same_shape(self.values@[i])
                &&& self.adam_m@[i].same_shape(self.values@[i])
                &&& self.adam_v@[i].same_shape(self.values@[i])
                &&& bounded_seq(self.vel@[i].elems@, MAG_LIMIT as int)
                &&& bounded_seq(self.adam_m@[i].elems@, SCALE as int)
                &&& in_unit(self.adam_v@[i].elems@)
            } by {
                if i != a {
                    assert(self.values@[i] == old(self).values@[i]);
                    assert(self.grads@[i] == old(self).grads@[i]);
                    assert(self.vel@[i] == old(self).vel@[i]);
                    assert(self.adam_m@[i] == old(self).adam_m@[i]);
                    assert(self.adam_v@[i] == old(self).adam_v@[i]);
                }
            }
        }
    }

    /// Store an accumulated gradient for the parameter behind a
    /// handle, as backpropagation would.
    pub fn set_grad(&mut self, addr: usize, grad: TensorData)
        requires
            old(self).wf(),
            addr < old(self).values@.len(),
            grad.same_shape(old(self).values@[addr as int]),
        ensures
            final(self).wf(),
            final(self).grads@ == old(self).grads@.update(addr as int, grad),
            final(self).values@ == old(self).values@,
            final(self).trainable@ == old(self).trainable@,
            final(self).vel@ == old(self).vel@,
            final(self).adam_m@ == old(self).adam_m@,
            final(self).adam_v@ == old(self).adam_v@,
    {
        self.grads[addr] = grad;
    }

    /// The shapes of the trainable parameters, in registration order.
    pub fn params_info(&self) -> (r: Vec<Vec<usize>>)
        requires
            self.wf(),
        ensures
            r@.map_values(|v: Vec<usize>| v@) == trainable_shapes(self.values@, self.trainable@),
    {
        let n = self.values.len();
        let mut r: Vec<Vec<usize>> = Vec::new();
        let mut i: usize = 0;
        proof {
            assert(self.values@.take(0) =~= Seq::<TensorData>::empty());
            assert(r@.map_values(|v: Vec<usize>| v@) =~= Seq::<Seq<usize>>::empty());
        }
        while i < n
            invariant
                self.wf(),
                n == self.values@.len(),
                0 <= i <= n,
                r@.map_values(|v: Vec<usize>| v@) == trainable_shapes(
                    self.values@.take(i as int),
                    self.trainable@.take(i as int),
                ),
            decreases n - i,
        {
            let ghost prev = r@.map_values(|v: Vec<usize>| v@);
            if self.trainable[i] {
                let shp = self.values[i].shape.clone();
                proof {
                    assert(shp@ =~= self.values@[i as int].shape@);
                }
                r.push(shp);
                proof {
                    assert(r@.map_values(|v: Vec<usize>| v@) =~= prev.push(
                        self.values@[i as int].shape@,
                    ));
                }
            }
            proof {
                assert(self.values@.take(i + 1).drop_last() =~= self.values@.take(i as int));
                assert(self.trainable@.take(i + 1).drop_last() =~= self.trainable@.take(i as int));
                assert(self.values@.take(i + 1).last() == self.values@[i as int]);
            }
            i += 1;
        }
        proof {
            assert(self.values@.take(n as int) =~= self.values@);
            assert(self.trainable@.take(n as int) =~= self.trainable@);
        }
        r
    }

    /// One plain SGD step: for every trainable parameter,
    /// `value -= lr * grad` elementwise, then the gradient is cleared.
    /// Non-trainable parameters and their gradients are untouched.
    pub fn apply_grads_sgd(&mut self, learning_rate: i64)
        requires
            old(self).wf(),
            mag(learning_rate as int) <= SCALE as int,
            forall|i: int|
                0 <= i < old(self).values@.len() && (#[trigger] old(self).trainable@[i])
                    ==> bounded_seq(old(self).values@[i].elems@, MAG_LIMIT as int) && bounded_seq(
                    old(self).grads@[i].elems@,
                    MAG_LIMIT as int,
                ),
        ensures
            final(self).wf(),
            sgd_step_rel(*old(self), *final(self), learning_rate as int),
    {
        let ghost pre = *self;
        let n = self.values.len();
        let mut new_values: Vec<TensorData> = Vec::with_capacity(n);
        let mut new_grads: Vec<TensorData> = Vec::with_capacity(n);
        let mut i: usize = 0;
        while i < n
            invariant
                pre.wf(),
                *self == pre,
                n == pre.values@.len(),
                0 <= i <= n,
                mag(learning_rate as int) <= SCALE as int,
                forall|k: int|
                    0 <= k < n && (#[trigger] pre.trainable@[k]) ==> bounded_seq(
                        pre.values@[k].elems@,
                        MAG_LIMIT as int,
                    ) && bounded_seq(pre.grads@[k].elems@, MAG_LIMIT as int),
                new_values@.len() == i,
                new_grads@.len() == i,
                forall|k: int|
                    0 <= k < i ==> (#[trigger] new_values@[k]).wf() && new_values@[k].shape@
                        == pre.values@[k].shape@ && new_grads@[k].shape@ == pre.grads@[k].shape@
                        && new_grads@[k].elems@.len() == pre.grads@[k].elems@.len(),
                forall|k: int|
                    0 <= k < i && (#[trigger] pre.trainable@[k]) ==> sgd_seq(
                        pre.values@[k].elems@,
                        pre.grads@[k].elems@,
                        learning_rate as int,
                        new_values@[k].elems@,
                    ) && all_zero(new_grads@[k].elems@),
                forall|k: int|
                    0 <= k < i && !(#[trigger] pre.trainable@[k]) ==> tensor_eq(
                        new_values@[k],
                        pre.values@[k],
                    ) && tensor_eq(new_grads@[k], pre.grads@[k]),
            decreases n - i,
        {
            if self.trainable[i] {
                let nv = sgd_elems(&self.values[i].elems, &self.grads[i].elems, learning_rate);
                let t = with_elems(&self.values[i], nv);
                let zg = zeros_like(&self.grads[i]);
                new_values.push(t);
                new_grads.push(zg);
                proof {
                    assert(new_values@[i as int] == t);
                    assert(new_grads@[i as int] == zg);
                    assert(pre.trainable@[i as int]);
                    assert(sgd_seq(
                        pre.values@[i as int].elems@,
                        pre.grads@[i as int].elems@,
                        learning_rate as int,
                        new_values@[i as int].elems@,
                    ));
                    assert(all_zero(new_grads@[i as int].elems@));
                }
            } else {
                let t = clone_tensor(&self.values[i]);
                let zg = clone_tensor(&self.grads[i]);
                new_values.push(t);
                new_grads.push(zg);
                proof {
                    assert(new_values@[i as int] == t);
                    assert(new_grads@[i as int] == zg);
                    assert(!pre.trainable@[i as int]);
                    assert(tensor_eq(new_values@[i as int], pre.values@[i as int]));
                    assert(tensor_eq(new_grads@[i as int], pre.grads@[i as int]));
                }
            }
            proof {
                assert forall|k: int|
                    0 <= k < i + 1 implies (#[trigger] new_values@[k]).wf()
                    && new_values@[k].shape@ == pre.values@[k].shape@ && new_grads@[k].shape@
                    == pre.grads@[k].shape@ && new_grads@[k].elems@.len()
                    == pre.grads@[k].elems@.len() by {
                    if k == i {
                        assert(pre.values@[k].wf());
                    }
                }
            }
            i += 1;
        }
        self.values = new_values;
        self.grads = new_grads;
        proof {
            assert forall|k: int| 0 <= k < n implies {
                &&& (#[trigger] self.values@[k]).wf()
                &&& self.grads@[k].same_shape(self.values@[k])
                &&& self.vel@[k].same_shape(self.values@[k])
                &&& self.adam_m@[k].same_shape(self.values@[k])
                &&& self.adam_v@[k].same_shape(self.values@[k])
            } by {
                assert(pre.values@[k].wf());
                assert(pre.grads@[k].same_shape(pre.values@[k]));
            }
        }
    }

    /// One momentum step: for every trainable parameter, the velocity
    /// becomes a moving average of the gradients and
    /// `value -= lr * velocity` elementwise, then the gradient is
    /// cleared.  Non-trainable parameters, their gradients and their
    /// velocities are untouched.
    pub fn apply_grads_sgd_momentum(&mut self, learning_rate: i64)
        requires
            old(self).wf(),
            mag(learning_rate as int) <= SCALE as int,
            forall|i: int|
                0 <= i < old(self).values@.len() && (#[trigger] old(self).trainable@[i])
                    ==> bounded_seq(old(self).values@[i].elems@, MAG_LIMIT as int) && bounded_seq(
                    old(self).grads@[i].elems@,
                    MAG_LIMIT as int,
                ),
        ensures
            final(self).wf(),
            momentum_step_rel(*old(self), *final(self), learning_rate as int),
    {
        let ghost pre = *self;
        let n = self.values.len();
        let mut new_values: Vec<TensorData> = Vec::with_capacity(n);
        let mut new_grads: Vec<TensorData> = Vec::with_capacity(n);
        let mut new_vel: Vec<TensorData> = Vec::with_capacity(n);
        let mut i: usize = 0;
        while i < n
            invariant
                pre.wf(),
                *self == pre,
                n == pre.values@.len(),
                0 <= i <= n,
                mag(learning_rate as int) <= SCALE as int,
                forall|k: int|
                    0 <= k < n && (#[trigger] pre.trainable@[k]) ==> bounded_seq(
                        pre.values@[k].elems@,
                        MAG_LIMIT as int,
                    ) && bounded_seq(pre.grads@[k].elems@, MAG_LIMIT as int),
                new_values@.len() == i,
                new_grads@.len() == i,
                new_vel@.len() == i,
                forall|k: int|
                    0 <= k < i ==> (#[trigger] new_values@[k]).wf() && new_values@[k].shape@
                        == pre.values@[k].shape@ && new_grads@[k].shape@ == pre.grads@[k].shape@
                        && new_grads@[k].elems@.len() == pre.grads@[k].elems@.len()
                        && new_vel@[k].shape@ == pre.vel@[k].shape@ && new_vel@[k].elems@.len()
                        == pre.vel@[k].elems@.len() && bounded_seq(
                        new_vel@[k].elems@,
                        MAG_LIMIT as int,
                    ),
                forall|k: int|
                    0 <= k < i && (#[trigger] pre.trainable@[k]) ==> momentum_seq(
                        pre.values@[k].elems@,
                        pre.grads@[k].elems@,
                        pre.vel@[k].elems@,
                        learning_rate as int,
                        new_values@[k].elems@,
                        new_vel@[k].elems@,
                    ) && all_zero(new_grads@[k].elems@),
                forall|k: int|
                    0 <= k < i && !(#[trigger] pre.trainable@[k]) ==> tensor_eq(
                        new_values@[k],
                        pre.values@[k],
                    ) && tensor_eq(new_grads@[k], pre.grads@[k]) && tensor_eq(
                        new_vel@[k],
                        pre.vel@[k],
                    ),
            decreases n - i,
        {
            if self.trainable[i] {
                let r = momentum_elems(
                    &self.values[i].elems,
                    &self.grads[i].elems,
                    &self.vel[i].elems,
                    learning_rate,
                );
                let (nv, nw) = r;
                let t = with_elems(&self.values[i], nv);
                let tw = with_elems(&self.vel[i], nw);
                let zg = zeros_like(&self.grads[i]);
                new_values.push(t);
                new_grads.push(zg);
                new_vel.push(tw);
                proof {
                    assert(new_values@[i as int] == t);
                    assert(new_grads@[i as int] == zg);
                    assert(new_vel@[i as int] == tw);
                    assert(pre.trainable@[i as int]);
                    assert(pre.vel@[i as int].wf());
                }
            } else {
                let t = clone_tensor(&self.values[i]);
                let zg = clone_tensor(&self.grads[i]);
                let tw = clone_tensor(&self.vel[i]);
                new_values.push(t);
                new_grads.push(zg);
                new_vel.push(tw);
                proof {
                    assert(new_values@[i as int] == t);
                    assert(new_grads@[i as int] == zg);
                    assert(new_vel@[i as int] == tw);
                    assert(!pre.trainable@[i as int]);
                }
            }
            proof {
                assert forall|k: int|
                    0 <= k < i + 1 implies (#[trigger] new_values@[k]).wf()
                    && new_values@[k].shape@ == pre.values@[k].shape@ && new_grads@[k].shape@
                    == pre.grads@[k].shape@ && new_grads@[k].elems@.len()
                    == pre.grads@[k].elems@.len() && new_vel@[k].shape@ == pre.vel@[k].shape@
                    && new_vel@[k].elems@.len() == pre.vel@[k].elems@.len() && bounded_seq(
                    new_vel@[k].elems@,
                    MAG_LIMIT as int,
                ) by {
                    if k == i {
                        assert(pre.values@[k].wf());
                    }
                }
            }
            i += 1;
        }
        self.values = new_values;
        self.grads = new_grads;
        self.vel = new_vel;
        proof {
            assert forall|k: int| 0 <= k < n implies {
                &&& (#[trigger] self.values@[k]).wf()
                &&& self.grads@[k].same_shape(self.values@[k])
                &&& self.vel@[k].same_shape(self.values@[k])
                &&& self.adam_m@[k].same_shape(self.values@[k])
                &&& self.adam_v@[k].same_shape(self.values@[k])
            } by {
                assert(pre.values@[k].wf());
                assert(pre.grads@[k].same_shape(pre.values@[k]));
                assert(pre.vel@[k].same_shape(pre.values@[k]));
            }
        }
    }

    /// One Adam step: for every trainable parameter, the two moments
    /// become moving averages of the clamped gradient and its square,
    /// and `value -= lr * (corrected_moment / (sqrt(corrected_velocity)
    /// + eps))` elementwise, then the gradient is cleared.
    /// Non-trainable parameters, their gradients and their moments are
    /// untouched.
    pub fn apply_grads_adam(&mut self, learning_rate: i64)
        requires
            old(self).wf(),
            mag(learning_rate as int) <= SCALE as int,
            forall|i: int|
                0 <= i < old(self).values@.len() && (#[trigger] old(self).trainable@[i])
                    ==> bounded_seq(old(self).values@[i].elems@, MAG_LIMIT as int),
        ensures
            final(self).wf(),
            adam_step_rel(*old(self), *final(self), learning_rate as int),
    {
        let ghost pre = *self;
        let n = self.values.len();
        let mut new_values: Vec<TensorData> = Vec::with_capacity(n);
        let mut new_grads: Vec<TensorData> = Vec::with_capacity(n);
        let mut new_m: Vec<TensorData> = Vec::with_capacity(n);
        let mut new_w: Vec<TensorData> = Vec::with_capacity(n);
        let mut i: usize = 0;
        while i < n
            invariant
                pre.wf(),
                *self == pre,
                n == pre.values@.len(),
                0 <= i <= n,
                mag(learning_rate as int) <= SCALE as int,
                forall|k: int|
                    0 <= k < n && (#[trigger] pre.trainable@[k]) ==> bounded_seq(
                        pre.values@[k].elems@,
                        MAG_LIMIT as int,
                    ),
                new_values@.len() == i,
                new_grads@.len() == i,
                new_m@.len() == i,
                new_w@.len() == i,
                forall|k: int|
                    0 <= k < i ==> (#[trigger] new_values@[k]).wf() && new_values@[k].shape@
                        == pre.values@[k].shape@ && new_grads@[k].shape@ == pre.grads@[k].shape@
                        && new_grads@[k].elems@.len() == pre.grads@[k].elems@.len()
                        && new_m@[k].shape@ == pre.adam_m@[k].shape@ && new_m@[k].elems@.len()
                        == pre.adam_m@[k].elems@.len() && new_w@[k].shape@ == pre.adam_v@[k].shape@
                        && new_w@[k].elems@.len() == pre.adam_v@[k].elems@.len() && bounded_seq(
                        new_m@[k].elems@,
                        SCALE as int,
                    ) && in_unit(new_w@[k].elems@),
                forall|k: int|
                    0 <= k < i && (#[trigger] pre.trainable@[k]) ==> adam_seq(
                        pre.values@[k].elems@,
                        pre.grads@[k].elems@,
                        pre.adam_m@[k].elems@,
                        pre.adam_v@[k].elems@,
                        learning_rate as int,
                        new_values@[k].elems@,
                        new_m@[k].elems@,
                        new_w@[k].elems@,
                    ) && all_zero(new_grads@[k].elems@),
                forall|k: int|
                    0 <= k < i && !(#[trigger] pre.trainable@[k]) ==> tensor_eq(
                        new_values@[k],
                        pre.values@[k],
                    ) && tensor_eq(new_grads@[k], pre.grads@[k]) && tensor_eq(
                        new_m@[k],
                        pre.adam_m@[k],
                    ) && tensor_eq(new_w@[k], pre.adam_v@[k]),
            decreases n - i,
        {
            if self.trainable[i] {
                let r = adam_elems(
                    &self.values[i].elems,
                    &self.grads[i].elems,
                    &self.adam_m[i].elems,
                    &self.adam_v[i].elems,
                    learning_rate,
                );
                let (nv, nm, nw) = r;
                let t = with_elems(&self.values[i], nv);
                let tm = with_elems(&self.adam_m[i], nm);
                let tw = with_elems(&self.adam_v[i], nw);
                let zg = zeros_like(&self.grads[i]);
                new_values.push(t);
                new_grads.push(zg);
                new_m.push(tm);
                new_w.push(tw);
                proof {
                    assert(new_values@[i as int] == t);
                    assert(new_grads@[i as int] == zg);
                    assert(new_m@[i as int] == tm);
                    assert(new_w@[i as int] == tw);
                    assert(pre.trainable@[i as int]);
                    assert(pre.adam_m@[i as int].wf());
                    assert(pre.adam_v@[i as int].wf());
                }
            } else {
                let t = clone_tensor(&self.values[i]);
                let zg = clone_tensor(&self.grads[i]);
                let tm = clone_tensor(&self.adam_m[i]);
                let tw = clone_tensor(&self.adam_v[i]);
                new_values.push(t);
                new_grads.push(zg);
                new_m.push(tm);
                new_w.push(tw);
                proof {
                    assert(new_values@[i as int] == t);
                    assert(new_grads@[i as int] == zg);
                    assert(new_m@[i as int] == tm);
                    assert(new_w@[i as int] == tw);
                    assert(!pre.trainable@[i as int]);
                }
            }
            proof {
                assert forall|k: int|
                    0 <= k < i + 1 implies (#[trigger] new_values@[k]).wf()
                    && new_values@[k].shape@ == pre.values@[k].shape@ && new_grads@[k].shape@
                    == pre.grads@[k].shape@ && new_grads@[k].elems@.len()
                    == pre.grads@[k].elems@.len() && new_m@[k].shape@ == pre.adam_m@[k].shape@
                    && new_m@[k].elems@.len() == pre.adam_m@[k].elems@.len() && new_w@[k].shape@
                    == pre.adam_v@[k].shape@ && new_w@[k].elems@.len()
                    == pre.adam_v@[k].elems@.len() && bounded_seq(new_m@[k].elems@, SCALE as int)
                    && in_unit(new_w@[k].elems@) by {
                    if k == i {
                        assert(pre.values@[k].wf());
                    }
                }
            }
            i += 1;
        }
        self.values = new_values;
        self.grads = new_grads;
        self.adam_m = new_m;
        self.adam_v = new_w;
        proof {
            assert forall|k: int| 0 <= k < n implies {
                &&& (#[trigger] self.values@[k]).wf()
                &&& self.grads@[k].same_shape(self.values@[k])
                &&& self.vel@[k].same_shape(self.values@[k])
                &&& self.adam_m@[k].same_shape(self.values@[k])
                &&& self.adam_v@[k].same_shape(self.values@[k])
            } by {
                assert(pre.values@[k].wf());
                assert(pre.grads@[k].same_shape(pre.values@[k]));
                assert(pre.adam_m@[k].same_shape(pre.values@[k]));
                assert(pre.adam_v@[k].same_shape(pre.values@[k]));
            }
        }
    }

    /// Replace this registry's parameters with copies of another's.
    /// The copies are frozen: nothing is trainable, and the gradients
    /// and accumulators start over at zero.
    pub fn copy(&mut self, source: &Network)
        requires
            source.wf(),
        ensures
            final(self).wf(),
            final(self).values@.len() == source.values@.len(),
            forall|i: int|
                0 <= i < source.values@.len() ==> {
                    &&& (#[trigger] final(self).values@[i]).shape@ == source.values@[i].shape@
                    &&& final(self).values@[i].elems@ == source.values@[i].elems@
                    &&& !final(self).trainable@[i]
                    &&& all_zero(final(self).grads@[i].elems@)
                    &&& all_zero(final(self).vel@[i].elems@)
                    &&& all_zero(final(self).adam_m@[i].elems@)
                    &&& all_zero(final(self).adam_v@[i].elems@)
                },
    {
        let n = source.values.len();
        let mut values: Vec<TensorData> = Vec::with_capacity(n);
        let mut grads: Vec<TensorData> = Vec::with_capacity(n);
        let mut trainable: Vec<bool> = Vec::with_capacity(n);
        let mut vel: Vec<TensorData> = Vec::with_capacity(n);
        let mut adam_m: Vec<TensorData> = Vec::with_capacity(n);
        let mut adam_v: Vec<TensorData> = Vec::with_capacity(n);
        let mut i: usize = 0;
        while i < n
            invariant
                n == source.values@.len(),
                source.wf(),
                0 <= i <= n,
                values@.len() == i,
                grads@.len() == i,
                trainable@.len() == i,
                vel@.len() == i,
                adam_m@.len() == i,
                adam_v@.len() == i,
                forall|k: int|
                    0 <= k < i ==> {
                        &&& (#[trigger] values@[k]).wf()
                        &&& values@[k].shape@ == source.values@[k].shape@
                        &&& values@[k].elems@ == source.values@[k].elems@
                        &&& grads@[k].same_shape(values@[k])
                        &&& vel@[k].same_shape(values@[k])
                        &&& adam_m@[k].same_shape(values@[k])
                        &&& adam_v@[k].same_shape(values@[k])
                        &&& !trainable@[k]
                        &&& all_zero(grads@[k].elems@)
                        &&& all_zero(vel@[k].elems@)
                        &&& all_zero(adam_m@[k].elems@)
                        &&& all_zero(adam_v@[k].elems@)
                    },
            decreases n - i,
        {
            let c = clone_tensor(&source.values[i]);
            let g = zeros_like(&c);
            let w = zeros_like(&c);
            let m = zeros_like(&c);
            let v2 = zeros_like(&c);
            values.push(c);
            grads.push(g);
            trainable.push(false);
            vel.push(w);
            adam_m.push(m);
            adam_v.push(v2);
            proof {
                assert forall|k: int| 0 <= k < i + 1 implies {
                    &&& (#[trigger] values@[k]).wf()
                    &&& values@[k].shape@ == source.values@[k].shape@
                    &&& values@[k].elems@ == source.values@[k].elems@
                    &&& grads@[k].same_shape(values@[k])
                    &&& vel@[k].same_shape(values@[k])
                    &&& adam_m@[k].same_shape(values@[k])
                    &&& adam_v@[k].same_shape(values@[k])
                    &&& !trainable@[k]
                    &&& all_zero(grads@[k].elems@)
                    &&& all_zero(vel@[k].elems@)
                    &&& all_zero(adam_m@[k].elems@)
                    &&& all_zero(adam_v@[k].elems@)
                } by {
                    if k == i {
                        assert(values@[k] == c);
                    }
                }
            }
            i += 1;
        }
        *self = Network { values, grads, trainable, vel, adam_m, adam_v };
    }
}

/// The plain SGD law: after one SGD step, every element of every
/// trainable parameter is exactly `value_old - lr * grad`, in fixed
/// point with truncating division.
pub proof fn lemma_sgd_update_formula(pre: Network, post: Network, lr: int, i: int, j: int)
    requires
        pre.wf(),
        sgd_step_rel(pre, post, lr),
        0 <= i < pre.values@.len(),
        pre.trainable@[i],
        0 <= j < pre.values@[i].elems@.len(),
    ensures
        post.values@[i].elems@[j] as int == pre.values@[i].elems@[j] as int - div_trunc(
            lr * pre.grads@[i].elems@[j] as int,
            SCALE as int,
        ),
{
    assert(post.values@[i].elems@[j] as int == sgd_value(
        pre.values@[i].elems@[j] as int,
        pre.grads@[i].elems@[j] as int,
        lr,
    ));
}

/// An optimizer step, whichever rule, touches exactly the trainable
/// parameters: a trainable parameter's gradient is reset to zero,
/// while a non-trainable parameter and its gradient are exactly as
/// they were.
pub proof fn lemma_step_touches_only_trainable(pre: Network, post: Network, lr: int, i: int)
    requires
        sgd_step_rel(pre, post, lr) || momentum_step_rel(pre, post, lr) || adam_step_rel(
            pre,
            post,
            lr,
        ),
        0 <= i < pre.values@.len(),
    ensures
        pre.trainable@[i] ==> all_zero(post.grads@[i].elems@),
        !pre.trainable@[i] ==> tensor_eq(post.values@[i], pre.values@[i]) && tensor_eq(
            post.grads@[i],
            pre.grads@[i],
        ),
{
}

/// After one plain SGD step, every trainable parameter whose scaled
/// update is nonzero somewhere holds a new value, and its gradient is
/// reset to zero.
pub proof fn lemma_sgd_changes_trainable(pre: Network, post: Network, lr: int, i: int)
    requires
        pre.wf(),
        sgd_step_rel(pre, post, lr),
        0 <= i < pre.values@.len(),
        pre.trainable@[i],
        exists|j: int|
            0 <= j < pre.grads@[i].elems@.len() && div_trunc(
                lr * (#[trigger] pre.grads@[i].elems@[j]) as int,
                SCALE as int,
            ) != 0,
    ensures
        post.values@[i].elems@ != pre.values@[i].elems@,
        all_zero(post.grads@[i].elems@),
{
    let j = choose|j: int|
        0 <= j < pre.grads@[i].elems@.len() && div_trunc(
            lr * (#[trigger] pre.grads@[i].elems@[j]) as int,
            SCALE as int,
        ) != 0;
    assert(pre.grads@[i].same_shape(pre.values@[i]));
    assert(post.values@[i].elems@[j] as int == sgd_value(
        pre.values@[i].elems@[j] as int,
        pre.grads@[i].elems@[j] as int,
        lr,
    ));
    if post.values@[i].elems@ == pre.values@[i].elems@ {
        assert(post.values@[i].elems@[j] == pre.values@[i].elems@[j]);
        assert(false);
    }
}

} // verus!
