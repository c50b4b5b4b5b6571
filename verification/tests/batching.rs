//! The batching plan and the layer registration, on concrete values.

use rust_ml::batch::get_batches;
use rust_ml::batch::range_indices;
use rust_ml::fixed::SCALE;
use rust_ml::fixed::isqrt;
use rust_ml::fixed::mul_div;
use rust_ml::linear::Linear;
use rust_ml::network::Network;
use rust_ml::tensor::TensorData;

#[test]
fn ten_rows_in_batches_of_four() {
    // 10 rows, batch size 4, no shuffling: sizes [4, 4, 2] covering
    // 0..3, 4..7 and 8..9 in order.
    let batches = get_batches(&range_indices(10), 4);
    assert_eq!(batches.len(), 3);
    assert_eq!(batches[0], vec![0, 1, 2, 3]);
    assert_eq!(batches[1], vec![4, 5, 6, 7]);
    assert_eq!(batches[2], vec![8, 9]);
}

#[test]
fn batch_count_is_rounded_up() {
    assert_eq!(get_batches(&range_indices(8), 4).len(), 2);
    assert_eq!(get_batches(&range_indices(9), 4).len(), 3);
    assert_eq!(get_batches(&range_indices(1), 4).len(), 1);
    assert_eq!(get_batches(&range_indices(0), 4).len(), 0);
}

#[test]
fn batch_sizes_sum_to_row_count() {
    for rows in 0..25usize {
        for b in 1..7usize {
            let batches = get_batches(&range_indices(rows), b);
            let total: usize = batches.iter().map(|c| c.len()).sum();
            assert_eq!(total, rows);
        }
    }
}

#[test]
fn shuffled_rows_each_appear_once() {
    // A permutation of 0..7 chunked in threes: every row index
    // appears in exactly one chunk.
    let perm: Vec<usize> = vec![3, 0, 6, 2, 5, 1, 4];
    let batches = get_batches(&perm, 3);
    assert_eq!(batches.len(), 3);
    let mut seen = vec![0usize; 7];
    for chunk in &batches {
        for &row in chunk {
            seen[row] += 1;
        }
    }
    assert_eq!(seen, vec![1; 7]);
    // And the chunks keep the given order.
    assert_eq!(batches[0], vec![3, 0, 6]);
    assert_eq!(batches[1], vec![2, 5, 1]);
    assert_eq!(batches[2], vec![4]);
}

#[test]
fn linear_registers_weight_and_bias() {
    let mut net = Network::new();
    let l = Linear::new(&mut net, 784, 128);
    assert_eq!((l.w, l.b), (0, 1));
    assert_eq!(net.size(), 2);
    assert_eq!(net.get(&l.w).shape, vec![784, 128]);
    assert_eq!(net.get(&l.b).shape, vec![1, 128]);
    assert_eq!(net.get(&l.w).elems.len(), 784 * 128);
    let l2 = Linear::new(&mut net, 128, 10);
    assert_eq!((l2.w, l2.b), (2, 3));
    assert_eq!(net.params_info(), vec![
        vec![784, 128],
        vec![1, 128],
        vec![128, 10],
        vec![1, 10],
    ]);
}

#[test]
fn params_info_lists_only_trainable() {
    let mut net = Network::new();
    net.push(
        TensorData { shape: vec![2, 2], elems: vec![0, 0, 0, 0] },
        true,
    );
    net.push(TensorData { shape: vec![5], elems: vec![0; 5] }, false);
    net.push(TensorData { shape: vec![1, 3], elems: vec![0; 3] }, true);
    assert_eq!(net.params_info(), vec![vec![2, 2], vec![1, 3]]);
}

#[test]
fn fixed_point_division_truncates_toward_zero() {
    assert_eq!(mul_div(7, 1, 2), 3);
    assert_eq!(mul_div(-7, 1, 2), -3);
    assert_eq!(mul_div(SCALE / 10, SCALE, SCALE), SCALE / 10);
    assert_eq!(mul_div(-3, 5, 4), -3);
}

#[test]
fn integer_square_root_rounds_down() {
    assert_eq!(isqrt(0), 0);
    assert_eq!(isqrt(15), 3);
    assert_eq!(isqrt(16), 4);
    assert_eq!(isqrt(10_000_000_000_000_000_000), 3_162_277_660);
}
