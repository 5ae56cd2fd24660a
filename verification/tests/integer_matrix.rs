use nncore::functions::argmax;
use nncore::image::Image;
use nncore::layers::{AffineLayer, LayerError, ReluLayer, ReluLayerInner};
use nncore::matrix::Matrix;
use nncore::optimize::{AdaGrad, Momentum, Optimizer, Sgd};

fn m(rows: Vec<Vec<i64>>) -> Matrix<i64> {
    Matrix::from(rows).unwrap()
}

#[test]
fn it_works() {
    let a = m(vec![vec![1, 2], vec![3, 4]]);
    let b = m(vec![vec![5, 6], vec![7, 8]]);

    assert_eq!(
        a.dot_product(&b).unwrap().into_vec(),
        vec![vec![19, 22], vec![43, 50]]
    );
}

#[test]
fn dot_product_shape_is_rows_by_columns() {
    let a = m(vec![vec![1, 2, 3], vec![4, 5, 6]]);
    let b = m(vec![vec![1, 0, 0, 1], vec![0, 1, 0, 1], vec![0, 0, 1, 1]]);
    let p = a.dot_product(&b).unwrap();
    assert_eq!(p.shape(), (2, 4));
    assert_eq!(
        p.into_vec(),
        vec![vec![1, 2, 3, 6], vec![4, 5, 6, 15]]
    );
}

#[test]
fn dot_product_inner_mismatch_is_shape_error() {
    let a = m(vec![vec![1, 2, 3]]);
    let b = m(vec![vec![1, 2], vec![3, 4]]);
    assert!(a.dot_product(&b).is_err());
}

#[test]
fn matrix_from_rejects_unequal_rows() {
    let r = Matrix::<i64>::from(vec![vec![1, 2], vec![3]]);
    assert!(r.is_err());
}

#[test]
fn add_and_sub_are_elementwise_and_shape_checked() {
    let a = m(vec![vec![1, 2], vec![3, 4]]);
    let b = m(vec![vec![10, 20], vec![30, 40]]);
    assert_eq!(
        a.clone().add(&b).unwrap().into_vec(),
        vec![vec![11, 22], vec![33, 44]]
    );
    assert_eq!(
        b.clone().sub(&a).unwrap().into_vec(),
        vec![vec![9, 18], vec![27, 36]]
    );
    let c = m(vec![vec![1, 2, 3]]);
    assert!(a.add(&c).is_err());
}

#[test]
fn add_vector_broadcasts_one_row() {
    let a = m(vec![vec![1, 2], vec![3, 4]]);
    let b = m(vec![vec![10, 20]]);
    assert_eq!(
        a.clone().add_vector(&b).unwrap().into_vec(),
        vec![vec![11, 22], vec![13, 24]]
    );
    let two_rows = m(vec![vec![1, 2], vec![3, 4]]);
    assert!(a.add_vector(&two_rows).is_err());
}

#[test]
fn transpose_and_column_sum_work() {
    let a = m(vec![vec![1, 2, 3], vec![4, 5, 6]]);
    assert_eq!(
        a.transpose().into_vec(),
        vec![vec![1, 4], vec![2, 5], vec![3, 6]]
    );
    assert_eq!(a.column_sum().into_vec(), vec![vec![5, 7, 9]]);
}

#[test]
fn scale_and_elementwise_mul_div_work() {
    let a = m(vec![vec![2, 4], vec![6, 8]]);
    assert_eq!(a.scale(3).into_vec(), vec![vec![6, 12], vec![18, 24]]);
    let b = m(vec![vec![2, 2], vec![3, 4]]);
    assert_eq!(
        a.clone().mul(&b).unwrap().into_vec(),
        vec![vec![4, 8], vec![18, 32]]
    );
    assert_eq!(
        a.clone().div(&b).unwrap().into_vec(),
        vec![vec![1, 2], vec![2, 2]]
    );
}

#[test]
fn sqrt_is_the_integer_floor_root() {
    let a = m(vec![vec![0, 1, 2], vec![3, 4, 10], vec![99, 100, -5]]);
    assert_eq!(
        a.sqrt().into_vec(),
        vec![vec![0, 1, 1], vec![1, 2, 3], vec![9, 10, 0]]
    );
}

#[test]
fn argmax_returns_first_maximum() {
    assert_eq!(argmax(&vec![3i64, 9, 9, 2]), 1);
    assert_eq!(argmax(&vec![-5i64]), 0);
}

#[test]
fn relu_masks_batch() {
    let x = m(vec![vec![-1, 2], vec![0, 5]]);
    let mut layer = ReluLayer::new();
    let y = layer.forward(x);
    assert_eq!(y.into_vec(), vec![vec![0, 2], vec![0, 5]]);
    let dout = m(vec![vec![10, 20], vec![30, 40]]);
    let dx = layer.backward(dout).unwrap();
    assert_eq!(dx.into_vec(), vec![vec![0, 20], vec![0, 40]]);
}

#[test]
fn relu_zeroes_exactly_the_clipped_entries() {
    let x = m(vec![vec![-3, 7, 0, 2, -1]]);
    let mut layer = ReluLayer::new();
    let y = layer.forward(x);
    assert_eq!(y.into_vec(), vec![vec![0, 7, 0, 2, 0]]);
    let dout = m(vec![vec![11, 12, 13, 14, 15]]);
    let dx = layer.backward(dout).unwrap();
    assert_eq!(dx.into_vec(), vec![vec![0, 12, 0, 14, 0]]);
}

#[test]
fn relu_forward_twice_gives_identical_output() {
    let x1 = m(vec![vec![-1, 2, -3]]);
    let x2 = m(vec![vec![-1, 2, -3]]);
    let mut l1 = ReluLayer::new();
    let mut l2 = ReluLayer::new();
    let y1 = l1.forward(x1);
    let y2 = l2.forward(x2);
    assert_eq!(y1.into_vec(), y2.into_vec());
}

#[test]
fn relu_inner_masks_one_row() {
    let mut inner = ReluLayerInner::new();
    let out = inner.forward(&vec![-1i64, 4]);
    assert_eq!(out, vec![0, 4]);
    let dx = inner.backward(&vec![7i64, 8]).unwrap();
    assert_eq!(dx, vec![0, 8]);
    assert!(inner.backward(&vec![1i64, 2, 3]).is_err());
}

#[test]
fn relu_backward_before_forward_is_state_error() {
    let mut layer = ReluLayer::new();
    let dout = m(vec![vec![1]]);
    assert_eq!(layer.backward(dout).unwrap_err(), LayerError::State);
}

#[test]
fn affine_layer_forward_and_backward_work() {
    let w = m(vec![vec![1, 0], vec![0, 2]]);
    let b = m(vec![vec![5, 7]]);
    let mut layer = AffineLayer::new(w, b);
    let x = m(vec![vec![1, 2], vec![3, 4]]);
    let y = layer.forward(x).unwrap();
    assert_eq!(y.into_vec(), vec![vec![6, 11], vec![8, 15]]);

    let dout = m(vec![vec![1, 1], vec![1, 1]]);
    let dx = layer.backward(dout).unwrap();
    // dx = dout · wᵗ
    assert_eq!(dx.into_vec(), vec![vec![1, 2], vec![1, 2]]);
    // dw = xᵗ · dout, db = column sums of dout
    assert_eq!(layer.dw.clone().into_vec(), vec![vec![4, 4], vec![6, 6]]);
    assert_eq!(layer.db.clone().into_vec(), vec![vec![2, 2]]);
}

#[test]
fn affine_backward_before_forward_is_state_error() {
    let w = m(vec![vec![1]]);
    let b = m(vec![vec![0]]);
    let mut layer = AffineLayer::new(w, b);
    let dout = m(vec![vec![1]]);
    assert_eq!(layer.backward(dout).unwrap_err(), LayerError::State);
}

#[test]
fn sgd_applies_the_update_rule() {
    let mut opt = Sgd::new(2i64);
    let mut params = vec![m(vec![vec![10]]), m(vec![vec![0, 1]])];
    let grads = vec![m(vec![vec![3]]), m(vec![vec![1, -2]])];
    opt.update(&mut params, &grads).unwrap();
    assert_eq!(params[0].clone().into_vec(), vec![vec![4]]);
    assert_eq!(params[1].clone().into_vec(), vec![vec![-2, 5]]);
}

#[test]
fn sgd_rejects_mismatched_slots_untouched() {
    let mut opt = Sgd::new(2i64);
    let mut params = vec![m(vec![vec![10]])];
    let grads = vec![m(vec![vec![3, 4]])];
    assert!(opt.update(&mut params, &grads).is_err());
    assert_eq!(params[0].clone().into_vec(), vec![vec![10]]);
}

#[test]
fn momentum_follows_the_recurrence_three_steps() {
    // v ← mf·v − lr·g ; p ← p + v, with lr = 1, mf = 2, g = 3:
    // v: −3, −9, −21 and p: 10 → 7 → −2 → −23.
    let mut opt = Momentum::new(1i64, 2i64);
    let mut params = vec![m(vec![vec![10]])];
    let grads = vec![m(vec![vec![3]])];
    opt.update(&mut params, &grads).unwrap();
    assert_eq!(params[0].clone().into_vec(), vec![vec![7]]);
    opt.update(&mut params, &grads).unwrap();
    assert_eq!(params[0].clone().into_vec(), vec![vec![-2]]);
    opt.update(&mut params, &grads).unwrap();
    assert_eq!(params[0].clone().into_vec(), vec![vec![-23]]);
}

#[test]
fn adagrad_follows_the_recurrence_three_steps() {
    // h ← h + g², p ← p − lr·g / (√h + eps), with lr = 8, eps = 1, g = 2:
    // h: 4, 8, 12; steps: 16/3 = 5, 16/(2+1) = 5, 16/(3+1) = 4 (truncating
    // division); p: 100 → 95 → 90 → 86.
    let mut opt = AdaGrad::new(8i64, 1i64);
    let mut params = vec![m(vec![vec![100]])];
    let grads = vec![m(vec![vec![2]])];
    opt.update(&mut params, &grads).unwrap();
    assert_eq!(params[0].clone().into_vec(), vec![vec![95]]);
    opt.update(&mut params, &grads).unwrap();
    assert_eq!(params[0].clone().into_vec(), vec![vec![90]]);
    opt.update(&mut params, &grads).unwrap();
    assert_eq!(params[0].clone().into_vec(), vec![vec![86]]);
}

#[test]
fn im2col() {
    let image = Image(vec![vec![vec![0i64; 7]; 7]; 3]);
    let m = Matrix::from_images(&vec![image.clone()], 5, 5, 1, 0);
    assert_eq!(m.shape(), (9, 75));

    let images: Vec<Image<i64>> = std::iter::repeat(image).take(10).collect();
    let m = Matrix::from_images(&images, 5, 5, 1, 0);
    assert_eq!(m.shape(), (90, 75));
}

#[test]
fn im2col_reads_patches_with_zero_padding() {
    // one 1-channel 2×2 image, 2×2 filter, stride 1, pad 1 → 3×3 positions
    let image = Image(vec![vec![vec![1i64, 2], vec![3, 4]]]);
    let m = Matrix::from_images(&vec![image], 2, 2, 1, 1);
    assert_eq!(m.shape(), (9, 4));
    assert_eq!(
        m.into_vec(),
        vec![
            vec![0, 0, 0, 1],
            vec![0, 0, 1, 2],
            vec![0, 0, 2, 0],
            vec![0, 1, 0, 3],
            vec![1, 2, 3, 4],
            vec![2, 0, 4, 0],
            vec![0, 3, 0, 0],
            vec![3, 4, 0, 0],
            vec![4, 0, 0, 0],
        ]
    );
}

#[test]
fn row_and_column_accessors_work() {
    let a = m(vec![vec![1, 2], vec![3, 4]]);
    assert_eq!(a.row(1), vec![3, 4]);
    assert_eq!(a.row_slice(0), &vec![1, 2]);
    assert_eq!(a.column(0), vec![1, 3]);
    let one_row = m(vec![vec![9, 8]]);
    assert_eq!(one_row.into_vector(), vec![9, 8]);
}

#[test]
fn assign_ops_update_in_place_and_check_shapes() {
    let mut a = m(vec![vec![5, 6], vec![7, 8]]);
    let b = m(vec![vec![1, 2], vec![3, 4]]);
    a.sub_assign(&b).unwrap();
    assert_eq!(a.clone().into_vec(), vec![vec![4, 4], vec![4, 4]]);
    a.add_assign(&b).unwrap();
    assert_eq!(a.clone().into_vec(), vec![vec![5, 6], vec![7, 8]]);
    let wide = m(vec![vec![1, 2, 3]]);
    assert!(a.sub_assign(&wide).is_err());
    assert_eq!(a.into_vec(), vec![vec![5, 6], vec![7, 8]]);
}

#[test]
fn scalar_ops_apply_to_every_entry() {
    let a = m(vec![vec![6, 9]]);
    assert_eq!(a.add_scalar(1).into_vec(), vec![vec![7, 10]]);
    let b = m(vec![vec![6, 9]]);
    assert_eq!(b.div_scalar(3).into_vec(), vec![vec![2, 3]]);
}
