//! The three gradient-descent update rules, per scalar and per
//! element vector.
//!
//! Each rule has a spec form over mathematical integers and an exec
//! form whose contract says the result is exactly the spec value,
//! first for one scalar and then lifted over a tensor's elements.
//! The registry applies the lifted forms parameter by parameter.

use crate::fixed::ADAM_CORR;
use crate::fixed::ADAM_EPS;
use crate::fixed::MAG_LIMIT;
use crate::fixed::SCALE;
use crate::fixed::clamp_one;
use crate::fixed::clamp_one_exec;
use crate::fixed::div_trunc;
use crate::fixed::div_trunc_pos;
use crate::fixed::ewma;
use crate::fixed::ewma_exec;
use crate::fixed::isqrt;
use crate::fixed::lemma_abs_mul;
use crate::fixed::lemma_div_trunc_bound;
use crate::fixed::lemma_div_trunc_exact;
use crate::fixed::lemma_mul_le;
use crate::fixed::mag;
use crate::fixed::mul_div;
use crate::fixed::sqrt_floor;
use crate::tensor::bounded_seq;
use crate::tensor::in_unit;
use vstd::arithmetic::div_mod::lemma_div_pos_is_pos;
use vstd::prelude::*;

verus! {

/// Plain SGD: `value - lr * grad`.
pub open spec fn sgd_value(v: int, g: int, lr: int) -> int {
    v - div_trunc(lr * g, SCALE as int)
}

/// Exec form of `sgd_value`.
pub fn sgd_value_exec(v: i64, g: i64, lr: i64) -> (r: i64)
    requires
        mag(v as int) <= MAG_LIMIT as int,
        mag(g as int) <= MAG_LIMIT as int,
        mag(lr as int) <= SCALE as int,
    ensures
        r as int == sgd_value(v as int, g as int, lr as int),
        mag(r as int) <= 2 * (MAG_LIMIT as int),
{
    proof {
        lemma_abs_mul(lr as int, g as int);
        lemma_mul_le(mag(lr as int), SCALE as int, mag(g as int), MAG_LIMIT as int);
        lemma_div_trunc_bound((lr as int) * (g as int), SCALE as int, MAG_LIMIT as int);
    }
    let step: i64 = mul_div(lr, g, SCALE);
    v - step
}

/// The velocity kept by the momentum rule: a moving average of the
/// gradients.
pub open spec fn momentum_vel(vel: int, g: int) -> int {
    ewma(vel, g)
}

/// The momentum rule's value update: `value - lr * velocity_new`.
pub open spec fn momentum_value(v: int, vel_new: int, lr: int) -> int {
    v - div_trunc(lr * vel_new, SCALE as int)
}

/// Exec form of one momentum step on one scalar: returns the new value
/// and the new velocity.
pub fn momentum_step_exec(v: i64, g: i64, vel: i64, lr: i64) -> (r: (i64, i64))
    requires
        mag(v as int) <= MAG_LIMIT as int,
        mag(g as int) <= MAG_LIMIT as int,
        mag(vel as int) <= MAG_LIMIT as int,
        mag(lr as int) <= SCALE as int,
    ensures
        r.1 as int == momentum_vel(vel as int, g as int),
        mag(r.1 as int) <= MAG_LIMIT as int,
        r.0 as int == momentum_value(v as int, r.1 as int, lr as int),
        mag(r.0 as int) <= 2 * (MAG_LIMIT as int),
{
    let w: i64 = ewma_exec(vel, g);
    proof {
        lemma_abs_mul(lr as int, w as int);
        lemma_mul_le(mag(lr as int), SCALE as int, mag(w as int), MAG_LIMIT as int);
        lemma_div_trunc_bound((lr as int) * (w as int), SCALE as int, MAG_LIMIT as int);
    }
    let step: i64 = mul_div(lr, w, SCALE);
    (v - step, w)
}

/// Bias correction of the Adam rule: division by `(1 - BETA)^2`, a
/// fixed divisor independent of the step count.
pub open spec fn bias_corr(x: int) -> int {
    div_trunc(x * (SCALE as int), ADAM_CORR as int)
}

/// The fixed-point bias correction is an exact multiplication by 100.
pub proof fn lemma_bias_corr(x: int)
    ensures
        bias_corr(x) == 100 * x,
{
    assert(x * (SCALE as int) == (100 * x) * (ADAM_CORR as int)) by (nonlinear_arith);
    lemma_div_trunc_exact(100 * x, ADAM_CORR as int);
}

/// The Adam rule's first moment: a moving average of the clamped
/// gradient.
pub open spec fn adam_mom(m: int, g: int) -> int {
    ewma(m, clamp_one(g))
}

/// The Adam rule's second moment: a moving average of the squared
/// clamped gradient.
pub open spec fn adam_vel(w: int, g: int) -> int {
    ewma(w, div_trunc(clamp_one(g) * clamp_one(g), SCALE as int))
}

/// The Adam rule's denominator: the square root of the corrected
/// second moment, plus a small constant.
pub open spec fn adam_denom(w_new: int) -> int {
    sqrt_floor(bias_corr(w_new) * (SCALE as int)) + ADAM_EPS as int
}

/// The Adam rule's value update:
/// `value - lr * (corrected_moment / denominator)`.
pub open spec fn adam_value(v: int, m_new: int, w_new: int, lr: int) -> int {
    v - div_trunc(lr * div_trunc(bias_corr(m_new) * (SCALE as int), adam_denom(w_new)), SCALE as int)
}

/// Exec form of one Adam step on one scalar: returns the new value,
/// the new first moment and the new second moment.
pub fn adam_step_exec(v: i64, g: i64, m: i64, w: i64, lr: i64) -> (r: (i64, i64, i64))
    requires
        mag(v as int) <= MAG_LIMIT as int,
        mag(lr as int) <= SCALE as int,
        mag(m as int) <= SCALE as int,
        0 <= w && w <= SCALE,
    ensures
        r.1 as int == adam_mom(m as int, g as int),
        mag(r.1 as int) <= SCALE as int,
        r.2 as int == adam_vel(w as int, g as int),
        0 <= r.2 && r.2 <= SCALE,
        r.0 as int == adam_value(v as int, r.1 as int, r.2 as int, lr as int),
        mag(r.0 as int) <= 2 * (MAG_LIMIT as int),
{
    let gc: i64 = clamp_one_exec(g);
    proof {
        lemma_abs_mul(gc as int, gc as int);
        lemma_mul_le(mag(gc as int), SCALE as int, mag(gc as int), SCALE as int);
        assert((gc as int) * (gc as int) >= 0) by (nonlinear_arith);
        lemma_div_pos_is_pos((gc as int) * (gc as int), SCALE as int);
        lemma_div_trunc_bound((gc as int) * (gc as int), SCALE as int, SCALE as int);
    }
    let gsq: i64 = mul_div(gc, gc, SCALE);
    let m2: i64 = ewma_exec(m, gc);
    let w2: i64 = ewma_exec(w, gsq);
    proof {
        lemma_bias_corr(m2 as int);
        lemma_bias_corr(w2 as int);
    }
    let mc: i64 = m2 * 100;
    let wc: i64 = w2 * 100;
    let s: u64 = isqrt((wc as u128) * (SCALE as u128));
    proof {
        assert((s as int) * (s as int) <= (wc as int) * (SCALE as int));
        lemma_mul_le(wc as int, 100 * (SCALE as int), SCALE as int, SCALE as int);
        assert(s as int <= 10_000_000_000) by (nonlinear_arith)
            requires
                0 <= s,
                (s as int) * (s as int) <= 100_000_000_000_000_000_000,
        ;
    }
    let den: i64 = (s as i64) + ADAM_EPS;
    proof {
        lemma_abs_mul(mc as int, SCALE as int);
        lemma_mul_le(mag(mc as int), 100 * (SCALE as int), SCALE as int, SCALE as int);
        lemma_mul_le(100, den as int, MAG_LIMIT as int, MAG_LIMIT as int);
        lemma_mul_le(100, den as int, 0x7fff_ffff_ffff_ffff, 0x7fff_ffff_ffff_ffff);
        lemma_div_trunc_bound((mc as int) * (SCALE as int), den as int, MAG_LIMIT as int);
    }
    let t: i128 = (mc as i128) * (SCALE as i128);
    let upd: i64 = div_trunc_pos(t, den);
    proof {
        lemma_abs_mul(lr as int, upd as int);
        lemma_mul_le(mag(lr as int), SCALE as int, mag(upd as int), MAG_LIMIT as int);
        lemma_div_trunc_bound((lr as int) * (upd as int), SCALE as int, MAG_LIMIT as int);
    }
    let step: i64 = mul_div(lr, upd, SCALE);
    (v - step, m2, w2)
}

/// The SGD rule over whole element vectors: `nv` is the elementwise
/// update of `v` by the gradients `g`.
pub open spec fn sgd_seq(v: Seq<i64>, g: Seq<i64>, lr: int, nv: Seq<i64>) -> bool {
    nv.len() == v.len() && forall|k: int|
        0 <= k < v.len() ==> nv[k] as int == sgd_value(v[k] as int, g[k] as int, lr)
}

/// One SGD step over a tensor's elements.
pub fn sgd_elems(v: &Vec<i64>, g: &Vec<i64>, lr: i64) -> (nv: Vec<i64>)
    requires
        v@.len() == g@.len(),
        bounded_seq(v@, MAG_LIMIT as int),
        bounded_seq(g@, MAG_LIMIT as int),
        mag(lr as int) <= SCALE as int,
    ensures
        sgd_seq(v@, g@, lr as int, nv@),
{
    let n = v.len();
    let mut nv: Vec<i64> = Vec::with_capacity(n);
    let mut j: usize = 0;
    while j < n
        invariant
            n == v@.len(),
            n == g@.len(),
            0 <= j <= n,
            bounded_seq(v@, MAG_LIMIT as int),
            bounded_seq(g@, MAG_LIMIT as int),
            mag(lr as int) <= SCALE as int,
            nv@.len() == j,
            forall|k: int|
                0 <= k < j ==> nv@[k] as int == sgd_value(v@[k] as int, g@[k] as int, lr as int),
        decreases n - j,
    {
        nv.push(sgd_value_exec(v[j], g[j], lr));
        j += 1;
    }
    nv
}

/// The momentum rule over whole element vectors: `nw` is the new
/// velocity and `nv` the new value, elementwise.
pub open spec fn momentum_seq(
    v: Seq<i64>,
    g: Seq<i64>,
    w: Seq<i64>,
    lr: int,
    nv: Seq<i64>,
    nw: Seq<i64>,
) -> bool {
    &&& nv.len() == v.len()
    &&& nw.len() == v.len()
    &&& forall|k: int|
        0 <= k < v.len() ==> (#[trigger] nw[k]) as int == momentum_vel(w[k] as int, g[k] as int)
    &&& forall|k: int|
        0 <= k < v.len() ==> (#[trigger] nv[k]) as int == momentum_value(
            v[k] as int,
            nw[k] as int,
            lr,
        )
}

/// One momentum step over a tensor's elements.
pub fn momentum_elems(v: &Vec<i64>, g: &Vec<i64>, w: &Vec<i64>, lr: i64) -> (r: (Vec<i64>, Vec<
    i64,
>))
    requires
        v@.len() == g@.len(),
        v@.len() == w@.len(),
        bounded_seq(v@, MAG_LIMIT as int),
        bounded_seq(g@, MAG_LIMIT as int),
        bounded_seq(w@, MAG_LIMIT as int),
        mag(lr as int) <= SCALE as int,
    ensures
        momentum_seq(v@, g@, w@, lr as int, r.0@, r.1@),
        bounded_seq(r.1@, MAG_LIMIT as int),
{
    let n = v.len();
    let mut nv: Vec<i64> = Vec::with_capacity(n);
    let mut nw: Vec<i64> = Vec::with_capacity(n);
    let mut j: usize = 0;
    while j < n
        invariant
            n == v@.len(),
            n == g@.len(),
            n == w@.len(),
            0 <= j <= n,
            bounded_seq(v@, MAG_LIMIT as int),
            bounded_seq(g@, MAG_LIMIT as int),
            bounded_seq(w@, MAG_LIMIT as int),
            mag(lr as int) <= SCALE as int,
            nv@.len() == j,
            nw@.len() == j,
            forall|k: int|
                0 <= k < j ==> (#[trigger] nw@[k]) as int == momentum_vel(
                    w@[k] as int,
                    g@[k] as int,
                ),
            forall|k: int|
                0 <= k < j ==> (#[trigger] nv@[k]) as int == momentum_value(
                    v@[k] as int,
                    nw@[k] as int,
                    lr as int,
                ),
            bounded_seq(nw@, MAG_LIMIT as int),
        decreases n - j,
    {
        let s = momentum_step_exec(v[j], g[j], w[j], lr);
        nv.push(s.0);
        nw.push(s.1);
        j += 1;
    }
    (nv, nw)
}

/// The Adam rule over whole element vectors: `nm` and `nw` are the new
/// moments and `nv` the new value, elementwise.
pub open spec fn adam_seq(
    v: Seq<i64>,
    g: Seq<i64>,
    m: Seq<i64>,
    w: Seq<i64>,
    lr: int,
    nv: Seq<i64>,
    nm: Seq<i64>,
    nw: Seq<i64>,
) -> bool {
    &&& nv.len() == v.len()
    &&& nm.len() == v.len()
    &&& nw.len() == v.len()
    &&& forall|k: int|
        0 <= k < v.len() ==> (#[trigger] nm[k]) as int == adam_mom(m[k] as int, g[k] as int)
    &&& forall|k: int|
        0 <= k < v.len() ==> (#[trigger] nw[k]) as int == adam_vel(w[k] as int, g[k] as int)
    &&& forall|k: int|
        0 <= k < v.len() ==> (#[trigger] nv[k]) as int == adam_value(
            v[k] as int,
            nm[k] as int,
            nw[k] as int,
            lr,
        )
}

/// One Adam step over a tensor's elements.
pub fn adam_elems(v: &Vec<i64>, g: &Vec<i64>, m: &Vec<i64>, w: &Vec<i64>, lr: i64) -> (r: (
    Vec<i64>,
    Vec<i64>,
    Vec<i64>,
))
    requires
        v@.len() == g@.len(),
        v@.len() == m@.len(),
        v@.len() == w@.len(),
        bounded_seq(v@, MAG_LIMIT as int),
        bounded_seq(m@, SCALE as int),
        in_unit(w@),
        mag(lr as int) <= SCALE as int,
    ensures
        adam_seq(v@, g@, m@, w@, lr as int, r.0@, r.1@, r.2@),
        bounded_seq(r.1@, SCALE as int),
        in_unit(r.2@),
{
    let n = v.len();
    let mut nv: Vec<i64> = Vec::with_capacity(n);
    let mut nm: Vec<i64> = Vec::with_capacity(n);
    let mut nw: Vec<i64> = Vec::with_capacity(n);
    let mut j: usize = 0;
    while j < n
        invariant
            n == v@.len(),
            n == g@.len(),
            n == m@.len(),
            n == w@.len(),
            0 <= j <= n,
            bounded_seq(v@, MAG_LIMIT as int),
            bounded_seq(m@, SCALE as int),
            in_unit(w@),
            mag(lr as int) <= SCALE as int,
            nv@.len() == j,
            nm@.len() == j,
            nw@.len() == j,
            forall|k: int|
                0 <= k < j ==> (#[trigger] nm@[k]) as int == adam_mom(m@[k] as int, g@[k] as int),
            forall|k: int|
                0 <= k < j ==> (#[trigger] nw@[k]) as int == adam_vel(w@[k] as int, g@[k] as int),
            forall|k: int|
                0 <= k < j ==> (#[trigger] nv@[k]) as int == adam_value(
                    v@[k] as int,
                    nm@[k] as int,
                    nw@[k] as int,
                    lr as int,
                ),
            bounded_seq(nm@, SCALE as int),
            in_unit(nw@),
        decreases n - j,
    {
        let s = adam_step_exec(v[j], g[j], m[j], w[j], lr);
        nv.push(s.0);
        nm.push(s.1);
        nw.push(s.2);
        j += 1;
    }
    (nv, nm, nw)
}

} // verus!
