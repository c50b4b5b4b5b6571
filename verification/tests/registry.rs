//! The registry and the three update rules, on concrete values.
//!
//! Scalars are fixed point with scale 1_000_000_000: that constant is
//! one, a tenth of it is 0.1.

use rust_ml::fixed::SCALE;
use rust_ml::network::Network;
use rust_ml::tensor::TensorData;
use rust_ml::tensor::zeros;

fn tensor(shape: Vec<usize>, elems: Vec<i64>) -> TensorData {
    TensorData { shape, elems }
}

const TENTH: i64 = SCALE / 10;

#[test]
fn sgd_step_on_two_by_two() {
    // One 2x2 weight at 0.5 everywhere, gradient all ones, lr 0.1:
    // the step leaves 0.4 everywhere and clears the gradient.
    let mut net = Network::new();
    let half = SCALE / 2;
    let h = net.push(tensor(vec![2, 2], vec![half, half, half, half]), true);
    net.set_grad(h, tensor(vec![2, 2], vec![SCALE, SCALE, SCALE, SCALE]));
    net.apply_grads_sgd(TENTH);
    let expect = 400_000_000i64;
    assert_eq!(net.get(&h).elems, vec![expect, expect, expect, expect]);
    assert_eq!(net.get_grad(&h).elems, vec![0, 0, 0, 0]);
}

#[test]
fn sgd_ignores_non_trainable() {
    let mut net = Network::new();
    let a = net.push(tensor(vec![2], vec![7, 8]), false);
    let b = net.push(tensor(vec![2], vec![10, 20]), true);
    net.set_grad(a, tensor(vec![2], vec![SCALE, SCALE]));
    net.set_grad(b, tensor(vec![2], vec![SCALE, SCALE]));
    net.apply_grads_sgd(TENTH);
    // The frozen parameter and its gradient are untouched.
    assert_eq!(net.get(&a).elems, vec![7, 8]);
    assert_eq!(net.get_grad(&a).elems, vec![SCALE, SCALE]);
    // The trainable one moved by -0.1 and its gradient was cleared.
    assert_eq!(net.get(&b).elems, vec![10 - TENTH, 20 - TENTH]);
    assert_eq!(net.get_grad(&b).elems, vec![0, 0]);
}

#[test]
fn sgd_negative_gradient_moves_value_up() {
    let mut net = Network::new();
    let h = net.push(tensor(vec![1], vec![0]), true);
    net.set_grad(h, tensor(vec![1], vec![-SCALE]));
    net.apply_grads_sgd(TENTH);
    assert_eq!(net.get(&h).elems, vec![TENTH]);
}

#[test]
fn momentum_step_from_zero_velocity() {
    // value 0.5, gradient 1, lr 0.1, beta 0.9:
    // velocity becomes 0.1, value 0.5 - 0.1 * 0.1 = 0.49.
    let mut net = Network::new();
    let h = net.push(tensor(vec![1], vec![SCALE / 2]), true);
    net.set_grad(h, tensor(vec![1], vec![SCALE]));
    net.apply_grads_sgd_momentum(TENTH);
    assert_eq!(net.get(&h).elems, vec![490_000_000]);
    assert_eq!(net.get_grad(&h).elems, vec![0]);
}

#[test]
fn momentum_velocity_persists_across_steps() {
    // A second step with the same gradient uses the kept velocity:
    // velocity 0.9*0.1 + 0.1*1 = 0.19, value 0.49 - 0.019 = 0.471.
    let mut net = Network::new();
    let h = net.push(tensor(vec![1], vec![SCALE / 2]), true);
    net.set_grad(h, tensor(vec![1], vec![SCALE]));
    net.apply_grads_sgd_momentum(TENTH);
    net.set_grad(h, tensor(vec![1], vec![SCALE]));
    net.apply_grads_sgd_momentum(TENTH);
    assert_eq!(net.get(&h).elems, vec![471_000_000]);
}

#[test]
fn adam_step_clamps_large_gradient() {
    // value 0.5, gradient 2 (clamped to 1), lr 0.1.  Both moments
    // become 0.1; bias correction scales them by 100; the denominator
    // is isqrt(10 * SCALE^2) + 1e-7; the value drops by about 0.316.
    let mut net = Network::new();
    let h = net.push(tensor(vec![1], vec![SCALE / 2]), true);
    net.set_grad(h, tensor(vec![1], vec![2 * SCALE]));
    net.apply_grads_adam(TENTH);
    assert_eq!(net.get(&h).elems, vec![183_772_244]);
    assert_eq!(net.get_grad(&h).elems, vec![0]);
}

#[test]
fn momentum_ignores_non_trainable() {
    let mut net = Network::new();
    let a = net.push(tensor(vec![1], vec![55]), false);
    net.set_grad(a, tensor(vec![1], vec![SCALE]));
    net.apply_grads_sgd_momentum(TENTH);
    assert_eq!(net.get(&a).elems, vec![55]);
    assert_eq!(net.get_grad(&a).elems, vec![SCALE]);
    assert_eq!(net.vel[0].elems, vec![0]);
}

#[test]
fn adam_ignores_non_trainable() {
    let mut net = Network::new();
    let a = net.push(tensor(vec![1], vec![123]), false);
    net.set_grad(a, tensor(vec![1], vec![SCALE]));
    net.apply_grads_adam(TENTH);
    assert_eq!(net.get(&a).elems, vec![123]);
    assert_eq!(net.get_grad(&a).elems, vec![SCALE]);
}

#[test]
fn zero_gradient_leaves_value_alone() {
    let mut net = Network::new();
    let h = net.push(tensor(vec![3], vec![1, 2, 3]), true);
    net.apply_grads_sgd(TENTH);
    assert_eq!(net.get(&h).elems, vec![1, 2, 3]);
}

#[test]
fn push_hands_out_consecutive_handles() {
    let mut net = Network::new();
    assert_eq!(net.size(), 0);
    let a = net.push(tensor(vec![1], vec![5]), true);
    let b = net.push(tensor(vec![2], vec![6, 7]), false);
    assert_eq!((a, b), (0, 1));
    assert_eq!(net.size(), 2);
    assert_eq!(net.get(&a).elems, vec![5]);
    assert_eq!(net.get(&b).elems, vec![6, 7]);
}

#[test]
fn set_replaces_value_and_clears_gradient() {
    let mut net = Network::new();
    let h = net.push(tensor(vec![2], vec![1, 2]), true);
    net.set_grad(h, tensor(vec![2], vec![9, 9]));
    net.set(&h, tensor(vec![3], vec![4, 5, 6]));
    assert_eq!(net.get(&h).elems, vec![4, 5, 6]);
    assert_eq!(net.get(&h).shape, vec![3]);
    assert_eq!(net.get_grad(&h).elems, vec![0, 0, 0]);
}

#[test]
fn copy_freezes_and_clears() {
    let mut src = Network::new();
    src.push(tensor(vec![2], vec![11, 22]), true);
    src.set_grad(0, tensor(vec![2], vec![5, 5]));
    let mut dst = Network::new();
    dst.push(tensor(vec![1], vec![99]), true);
    dst.copy(&src);
    assert_eq!(dst.size(), 1);
    assert_eq!(dst.get(&0).elems, vec![11, 22]);
    assert_eq!(dst.get_grad(&0).elems, vec![0, 0]);
    assert_eq!(dst.trainable, vec![false]);
    // A step after the copy changes nothing.
    dst.apply_grads_sgd(TENTH);
    assert_eq!(dst.get(&0).elems, vec![11, 22]);
}

#[test]
fn zeros_counts_elements_from_shape() {
    let t = zeros(vec![2, 3]);
    assert_eq!(t.shape, vec![2, 3]);
    assert_eq!(t.elems, vec![0; 6]);
    let e = zeros(vec![2, 0, 5]);
    assert_eq!(e.elems.len(), 0);
    let s = zeros(vec![]);
    assert_eq!(s.elems, vec![0]);
}
