//! The two-layer classifier: an affine transform, a rectifier, a second
//! affine transform, and softmax folded into the cross-entropy loss.
//!
//! The network is thin composition: every contract here is the
//! composition of the layer contracts, stated over the same matrix
//! models.

use vstd::prelude::*;

use crate::element::Element;
use crate::element::Transcendental;
use crate::layers::affine_ok;
use crate::layers::affine_out;
use crate::layers::losses_of;
use crate::layers::relu_mask;
use crate::layers::relu_out;
use crate::layers::softmax_rows;
use crate::layers::softmax_loss_back;
use crate::layers::mask_out;
use crate::layers::AffineLayer;
use crate::layers::ReluLayer;
use crate::layers::SoftmaxWithLossLayer;
use crate::matrix::colsums;
use crate::matrix::matmul;
use crate::matrix::scols;
use crate::matrix::srows;
use crate::matrix::sum_seq;
use crate::matrix::transpose_of;
use crate::matrix::perturb;
use crate::matrix::rect;
use crate::matrix::Matrix;
use crate::matrix::ShapeError;

verus! {

/// The raw-logit output of the network on a batch: affine, rectifier,
/// affine.  Softmax is folded into the loss layer, not into `predict`.
pub open spec fn predict_model<T: Element>(
    x: Seq<Seq<T>>,
    w1: Seq<Seq<T>>,
    b1: Seq<Seq<T>>,
    w2: Seq<Seq<T>>,
    b2: Seq<Seq<T>>,
) -> Seq<Seq<T>> {
    affine_out(relu_out(affine_out(x, w1, b1)), w2, b2)
}

/// The shapes allow a forward pass of the whole network.
pub open spec fn predict_ok<T: Element>(
    x: Seq<Seq<T>>,
    w1: Seq<Seq<T>>,
    b1: Seq<Seq<T>>,
    w2: Seq<Seq<T>>,
    b2: Seq<Seq<T>>,
) -> bool {
    affine_ok(x, w1, b1) && affine_ok(relu_out(affine_out(x, w1, b1)), w2, b2)
}

/// The shapes allow a forward pass and the target lines up with the
/// logits.
pub open spec fn loss_ok<T: Element>(
    x: Seq<Seq<T>>,
    t: Seq<Seq<T>>,
    w1: Seq<Seq<T>>,
    b1: Seq<Seq<T>>,
    w2: Seq<Seq<T>>,
    b2: Seq<Seq<T>>,
) -> bool {
    &&& predict_ok(x, w1, b1, w2, b2)
    &&& srows(t) == srows(x)
    &&& scols(t) == (if srows(x) == 0 {
        0nat
    } else {
        scols(w2)
    })
}

/// The per-example losses of the network on a batch.
pub open spec fn loss_model<T: Transcendental>(
    x: Seq<Seq<T>>,
    t: Seq<Seq<T>>,
    w1: Seq<Seq<T>>,
    b1: Seq<Seq<T>>,
    w2: Seq<Seq<T>>,
    b2: Seq<Seq<T>>,
) -> Seq<T> {
    losses_of(predict_model(x, w1, b1, w2, b2), t)
}

/// The mean of a sequence of scalars under the field's division.
pub open spec fn mean_of<T: Element>(l: Seq<T>) -> T {
    sum_seq(l).div_spec(T::from_usize_spec(l.len() as usize))
}

/// One gradient matrix per learnable parameter matrix, shape-matched to
/// its parameter.
#[derive(Debug, Clone)]
pub struct Gradients<T: Element> {
    pub w1: Matrix<T>,
    pub b1: Matrix<T>,
    pub w2: Matrix<T>,
    pub b2: Matrix<T>,
}

/// The two-layer classifier.
#[derive(Debug)]
pub struct TwoLayerNet<T> {
    pub affine1_layer: AffineLayer<T>,
    pub relu1_layer: ReluLayer,
    pub affine2_layer: AffineLayer<T>,
    pub last_layer: SoftmaxWithLossLayer<T>,
}

impl<T: Transcendental> TwoLayerNet<T> {
    /// Every layer of the network holds rectangles.
    pub open spec fn wf(self) -> bool {
        &&& self.affine1_layer.wf()
        &&& self.affine2_layer.wf()
        &&& self.last_layer.wf()
    }

    /// Builds the network from its four parameter matrices; weights are
    /// supplied by the caller (the usual choice is scaled random-normal
    /// weights and zero biases).
    pub fn new(w1: Matrix<T>, b1: Matrix<T>, w2: Matrix<T>, b2: Matrix<T>) -> (r: Self)
        requires
            w1.wf(),
            b1.wf(),
            w2.wf(),
            b2.wf(),
        ensures
            r.wf(),
            r.affine1_layer.w == w1,
            r.affine1_layer.b == b1,
            r.affine2_layer.w == w2,
            r.affine2_layer.b == b2,
            r.affine1_layer.input_state() is None,
            r.affine2_layer.input_state() is None,
            r.last_layer.retained() is None,
    {
        TwoLayerNet {
            affine1_layer: AffineLayer::new(w1, b1),
            relu1_layer: ReluLayer::new(),
            affine2_layer: AffineLayer::new(w2, b2),
            last_layer: SoftmaxWithLossLayer::new(),
        }
    }

    /// The raw logits of the network on a batch; every layer retains what
    /// its backward pass will need.
    pub fn predict(&mut self, xs: Matrix<T>) -> (r: Result<Matrix<T>, ShapeError>)
        requires
            old(self).wf(),
            xs.wf(),
        ensures
            final(self).wf(),
            final(self).affine1_layer.w == old(self).affine1_layer.w,
            final(self).affine1_layer.b == old(self).affine1_layer.b,
            final(self).affine2_layer.w == old(self).affine2_layer.w,
            final(self).affine2_layer.b == old(self).affine2_layer.b,
            final(self).affine1_layer.dw == old(self).affine1_layer.dw,
            final(self).affine1_layer.db == old(self).affine1_layer.db,
            final(self).affine2_layer.dw == old(self).affine2_layer.dw,
            final(self).affine2_layer.db == old(self).affine2_layer.db,
            final(self).last_layer == old(self).last_layer,
            r is Ok <==> predict_ok(
                xs@,
                old(self).affine1_layer.w@,
                old(self).affine1_layer.b@,
                old(self).affine2_layer.w@,
                old(self).affine2_layer.b@,
            ),
            r matches Ok(out) ==> {
                &&& out.wf()
                &&& out@ == predict_model(
                    xs@,
                    old(self).affine1_layer.w@,
                    old(self).affine1_layer.b@,
                    old(self).affine2_layer.w@,
                    old(self).affine2_layer.b@,
                )
                &&& final(self).affine1_layer.input_state() == Some(xs@)
                &&& final(self).relu1_layer@ == Some(
                    relu_mask(
                        affine_out(xs@, old(self).affine1_layer.w@, old(self).affine1_layer.b@),
                    ),
                )
                &&& final(self).affine2_layer.input_state() == Some(
                    relu_out(
                        affine_out(xs@, old(self).affine1_layer.w@, old(self).affine1_layer.b@),
                    ),
                )
            },
    {
        let a1 = match self.affine1_layer.forward(xs) {
            Ok(a1) => a1,
            Err(e) => {
                return Err(e);
            },
        };
        let z1 = self.relu1_layer.forward(a1);
        let out = match self.affine2_layer.forward(z1) {
            Ok(out) => out,
            Err(e) => {
                return Err(e);
            },
        };
        Ok(out)
    }

    /// The per-example cross-entropy losses of the network on a batch with
    /// one-hot targets `t`; callers typically average them.
    pub fn loss(&mut self, x: Matrix<T>, t: Matrix<T>) -> (r: Result<Vec<T>, ShapeError>)
        requires
            old(self).wf(),
            x.wf(),
            t.wf(),
        ensures
            final(self).wf(),
            final(self).affine1_layer.w == old(self).affine1_layer.w,
            final(self).affine1_layer.b == old(self).affine1_layer.b,
            final(self).affine2_layer.w == old(self).affine2_layer.w,
            final(self).affine2_layer.b == old(self).affine2_layer.b,
            final(self).affine1_layer.dw == old(self).affine1_layer.dw,
            final(self).affine1_layer.db == old(self).affine1_layer.db,
            final(self).affine2_layer.dw == old(self).affine2_layer.dw,
            final(self).affine2_layer.db == old(self).affine2_layer.db,
            r is Ok <==> loss_ok(
                x@,
                t@,
                old(self).affine1_layer.w@,
                old(self).affine1_layer.b@,
                old(self).affine2_layer.w@,
                old(self).affine2_layer.b@,
            ),
            r matches Ok(losses) ==> {
                &&& losses@ == loss_model(
                    x@,
                    t@,
                    old(self).affine1_layer.w@,
                    old(self).affine1_layer.b@,
                    old(self).affine2_layer.w@,
                    old(self).affine2_layer.b@,
                )
                &&& final(self).affine1_layer.input_state() == Some(x@)
                &&& final(self).relu1_layer@ == Some(
                    relu_mask(
                        affine_out(x@, old(self).affine1_layer.w@, old(self).affine1_layer.b@),
                    ),
                )
                &&& final(self).affine2_layer.input_state() == Some(
                    relu_out(
                        affine_out(x@, old(self).affine1_layer.w@, old(self).affine1_layer.b@),
                    ),
                )
                &&& final(self).last_layer.retained() == Some(
                    (
                        softmax_rows(
                            predict_model(
                                x@,
                                old(self).affine1_layer.w@,
                                old(self).affine1_layer.b@,
                                old(self).affine2_layer.w@,
                                old(self).affine2_layer.b@,
                            ),
                        ),
                        t@,
                    ),
                )
            },
    {
        let y = match self.predict(x) {
            Ok(y) => y,
            Err(e) => {
                return Err(e);
            },
        };
        proof {
            if srows(y@) == 0 {
            } else {
                assert(scols(y@) == scols(self.affine2_layer.w@));
            }
        }
        match self.last_layer.forward(y, t) {
            Ok(losses) => Ok(losses),
            Err(e) => Err(e),
        }
    }
}

/// The shapes allow the full backward pass: a forward pass is possible,
/// and the batch, the inputs and both layer widths are non-empty, so each
/// transposed product is defined.
pub open spec fn gradient_ok<T: Element>(
    x: Seq<Seq<T>>,
    t: Seq<Seq<T>>,
    w1: Seq<Seq<T>>,
    b1: Seq<Seq<T>>,
    w2: Seq<Seq<T>>,
    b2: Seq<Seq<T>>,
) -> bool {
    &&& loss_ok(x, t, w1, b1, w2, b2)
    &&& srows(x) >= 1
    &&& scols(x) >= 1
    &&& scols(w1) >= 1
    &&& scols(w2) >= 1
}

/// Exactly when the full backward pass goes through: the forward pass is
/// possible, and each backward step in turn finds dimensions it can work
/// with.  `gradient_ok` is a convenient sufficient condition for this.
pub open spec fn gradient_accepts<T: Transcendental>(
    x: Seq<Seq<T>>,
    t: Seq<Seq<T>>,
    w1: Seq<Seq<T>>,
    b1: Seq<Seq<T>>,
    w2: Seq<Seq<T>>,
    b2: Seq<Seq<T>>,
) -> bool {
    let a1 = affine_out(x, w1, b1);
    let z1 = relu_out(a1);
    let dout = softmax_loss_back(softmax_rows(affine_out(z1, w2, b2)), t);
    let dx2 = matmul(dout, transpose_of(w2));
    let dx1 = mask_out(relu_mask(a1), dx2);
    &&& loss_ok(x, t, w1, b1, w2, b2)
    &&& crate::layers::affine_back_ok(z1, w2, dout)
    &&& crate::layers::masks_match(relu_mask(a1), dx2)
    &&& crate::layers::affine_back_ok(x, w1, dx1)
}

/// The analytic (backpropagation) gradients of the mean loss with respect
/// to the four parameter matrices, in the order `(dw1, db1, dw2, db2)`:
/// the loss layer sends `(softmax − target) / batch` backwards, each
/// affine layer turns its incoming gradient into `xᵗ · dout` and the
/// column sums, and the rectifier zeroes the masked entries.
pub open spec fn gradient_model<T: Transcendental>(
    x: Seq<Seq<T>>,
    t: Seq<Seq<T>>,
    w1: Seq<Seq<T>>,
    b1: Seq<Seq<T>>,
    w2: Seq<Seq<T>>,
    b2: Seq<Seq<T>>,
) -> (Seq<Seq<T>>, Seq<Seq<T>>, Seq<Seq<T>>, Seq<Seq<T>>) {
    let a1 = affine_out(x, w1, b1);
    let z1 = relu_out(a1);
    let dout = softmax_loss_back(softmax_rows(affine_out(z1, w2, b2)), t);
    let dw2 = matmul(transpose_of(z1), dout);
    let db2 = colsums(dout);
    let dx2 = matmul(dout, transpose_of(w2));
    let dx1 = mask_out(relu_mask(a1), dx2);
    let dw1 = matmul(transpose_of(x), dx1);
    let db1 = colsums(dx1);
    (dw1, db1, dw2, db2)
}

/// The shapes allow computing an accuracy: a forward pass is possible,
/// the target has one row per example, and no row handed to `argmax` is
/// empty.
pub open spec fn accuracy_ok<T: Element>(
    x: Seq<Seq<T>>,
    t: Seq<Seq<T>>,
    w1: Seq<Seq<T>>,
    b1: Seq<Seq<T>>,
    w2: Seq<Seq<T>>,
    b2: Seq<Seq<T>>,
) -> bool {
    &&& predict_ok(x, w1, b1, w2, b2)
    &&& srows(t) == srows(x)
    &&& (srows(x) > 0 ==> scols(w2) > 0 && scols(t) > 0)
}

/// How many of the first `n` rows have the same argmax in the prediction
/// as in the target.
pub open spec fn match_count<T: Element>(y: Seq<Seq<T>>, t: Seq<Seq<T>>, n: int) -> nat
    decreases n,
{
    if n <= 0 {
        0
    } else {
        match_count(y, t, n - 1) + (if crate::functions::argmax_seq(y[n - 1])
            == crate::functions::argmax_seq(t[n - 1]) {
            1nat
        } else {
            0nat
        })
    }
}

impl<T: Transcendental> TwoLayerNet<T> {
    /// The mean per-example loss of the network on a batch.
    pub fn batched_loss(&mut self, x: Matrix<T>, t: Matrix<T>) -> (r: Result<T, ShapeError>)
        requires
            old(self).wf(),
            x.wf(),
            t.wf(),
        ensures
            final(self).wf(),
            final(self).affine1_layer.w == old(self).affine1_layer.w,
            final(self).affine1_layer.b == old(self).affine1_layer.b,
            final(self).affine2_layer.w == old(self).affine2_layer.w,
            final(self).affine2_layer.b == old(self).affine2_layer.b,
            r is Ok <==> loss_ok(
                x@,
                t@,
                old(self).affine1_layer.w@,
                old(self).affine1_layer.b@,
                old(self).affine2_layer.w@,
                old(self).affine2_layer.b@,
            ),
            r matches Ok(v) ==> v == mean_of(
                loss_model(
                    x@,
                    t@,
                    old(self).affine1_layer.w@,
                    old(self).affine1_layer.b@,
                    old(self).affine2_layer.w@,
                    old(self).affine2_layer.b@,
                ),
            ),
    {
        let losses = match self.loss(x, t) {
            Ok(l) => l,
            Err(e) => {
                return Err(e);
            },
        };
        let n = losses.len();
        let mut acc = T::zero();
        let mut i: usize = 0;
        while i < n
            invariant
                n == losses@.len(),
                i <= n,
                acc == crate::matrix::sum_prefix(losses@, i as int),
            decreases n - i,
        {
            acc = acc.add(losses[i]);
            i = i + 1;
        }
        Ok(acc.div(T::from_usize(n)))
    }

    /// Runs a forward pass to refresh the layer state, then the full
    /// backward pass in reverse order, and collects one gradient matrix
    /// per parameter.  Success is owed whenever `gradient_ok` holds of the
    /// shapes.
    pub fn gradient(&mut self, x: Matrix<T>, t: Matrix<T>) -> (r: Result<Gradients<T>, ShapeError>)
        requires
            old(self).wf(),
            x.wf(),
            t.wf(),
        ensures
            final(self).wf(),
            final(self).affine1_layer.w == old(self).affine1_layer.w,
            final(self).affine1_layer.b == old(self).affine1_layer.b,
            final(self).affine2_layer.w == old(self).affine2_layer.w,
            final(self).affine2_layer.b == old(self).affine2_layer.b,
            r is Ok <==> gradient_accepts(
                x@,
                t@,
                old(self).affine1_layer.w@,
                old(self).affine1_layer.b@,
                old(self).affine2_layer.w@,
                old(self).affine2_layer.b@,
            ),
            gradient_ok(
                x@,
                t@,
                old(self).affine1_layer.w@,
                old(self).affine1_layer.b@,
                old(self).affine2_layer.w@,
                old(self).affine2_layer.b@,
            ) ==> r is Ok,
            r matches Ok(g) ==> {
                &&& g.w1.wf()
                &&& g.b1.wf()
                &&& g.w2.wf()
                &&& g.b2.wf()
                &&& (g.w1@, g.b1@, g.w2@, g.b2@) == gradient_model(
                    x@,
                    t@,
                    old(self).affine1_layer.w@,
                    old(self).affine1_layer.b@,
                    old(self).affine2_layer.w@,
                    old(self).affine2_layer.b@,
                )
            },
    {
        let ghost w1v = self.affine1_layer.w@;
        let ghost b1v = self.affine1_layer.b@;
        let ghost w2v = self.affine2_layer.w@;
        let ghost b2v = self.affine2_layer.b@;
        let ghost xv = x@;
        let ghost tv = t@;
        match self.loss(x, t) {
            Ok(_) => (),
            Err(e) => {
                return Err(e);
            },
        }
        let ghost a1 = affine_out(xv, w1v, b1v);
        let ghost z1 = relu_out(a1);
        let ghost pm = predict_model(xv, w1v, b1v, w2v, b2v);
        let dout = match self.last_layer.backword() {
            Ok(d) => d,
            Err(_) => {
                return Err(ShapeError);
            },
        };
        proof {
            assert(dout@ == softmax_loss_back(softmax_rows(pm), tv));
            if gradient_ok(xv, tv, w1v, b1v, w2v, b2v) {
                assert(srows(dout@) == srows(xv));
                assert(a1[0].len() == scols(w1v));
                assert(z1[0] =~= Seq::new(a1[0].len(), |j: int|
                    if !T::zero_spec().lt_spec(a1[0][j]) { T::zero_spec() } else { a1[0][j] }));
                assert(scols(z1) == scols(w1v));
                assert(srows(z1) == srows(xv));
                assert(pm[0].len() == scols(w2v));
                assert(softmax_rows(pm)[0].len() == scols(w2v));
                assert(dout@[0].len() == scols(w2v));
                assert(scols(dout@) == scols(w2v));
                assert(crate::layers::affine_back_ok(z1, w2v, dout@));
            }
        }
        let dx2 = match self.affine2_layer.backward(dout) {
            Ok(d) => d,
            Err(_) => {
                return Err(ShapeError);
            },
        };
        proof {
            assert(dx2@ == matmul(dout@, transpose_of(w2v)));
            if gradient_ok(xv, tv, w1v, b1v, w2v, b2v) {
                assert(srows(w2v) == scols(z1));
                assert(scols(transpose_of(w2v)) == srows(w2v));
                assert(forall|yy: int|
                    0 <= yy < srows(dx2@) ==> (#[trigger] dx2@[yy]).len() == srows(w2v));
                assert(forall|yy: int|
                    0 <= yy < srows(xv) ==> (#[trigger] relu_mask(a1)[yy]).len() == scols(w1v));
                assert(crate::layers::masks_match(relu_mask(a1), dx2@));
            }
        }
        let dx1 = match self.relu1_layer.backward(dx2) {
            Ok(d) => d,
            Err(_) => {
                return Err(ShapeError);
            },
        };
        proof {
            assert(dx1@ == mask_out(relu_mask(a1), matmul(dout@, transpose_of(w2v))));
            if gradient_ok(xv, tv, w1v, b1v, w2v, b2v) {
                assert(dx1@[0].len() == scols(w1v));
                assert(scols(dx1@) == scols(w1v));
                assert(crate::layers::affine_back_ok(xv, w1v, dx1@));
            }
        }
        match self.affine1_layer.backward(dx1) {
            Ok(_) => (),
            Err(_) => {
                return Err(ShapeError);
            },
        }
        let g = Gradients {
            w1: self.affine1_layer.dw.clone(),
            b1: self.affine1_layer.db.clone(),
            w2: self.affine2_layer.dw.clone(),
            b2: self.affine2_layer.db.clone(),
        };
        Ok(g)
    }

    /// The fraction of example rows that classify correctly: the argmax
    /// of each logit row equals the argmax of the one-hot target row.
    pub fn accuracy(&mut self, x: Matrix<T>, t: Matrix<T>) -> (r: Result<T, ShapeError>)
        requires
            old(self).wf(),
            x.wf(),
            t.wf(),
        ensures
            final(self).wf(),
            final(self).affine1_layer.w == old(self).affine1_layer.w,
            final(self).affine1_layer.b == old(self).affine1_layer.b,
            final(self).affine2_layer.w == old(self).affine2_layer.w,
            final(self).affine2_layer.b == old(self).affine2_layer.b,
            r is Ok <==> accuracy_ok(
                x@,
                t@,
                old(self).affine1_layer.w@,
                old(self).affine1_layer.b@,
                old(self).affine2_layer.w@,
                old(self).affine2_layer.b@,
            ),
            r matches Ok(v) ==> v == T::from_usize_spec(
                (match_count(
                    predict_model(
                        x@,
                        old(self).affine1_layer.w@,
                        old(self).affine1_layer.b@,
                        old(self).affine2_layer.w@,
                        old(self).affine2_layer.b@,
                    ),
                    t@,
                    srows(x@) as int,
                ) as usize),
            ).div_spec(T::from_usize_spec(srows(t@) as usize)),
    {
        let y = match self.predict(x) {
            Ok(y) => y,
            Err(e) => {
                return Err(e);
            },
        };
        let n = y.rows();
        if n != t.rows() {
            return Err(ShapeError);
        }
        if n > 0 && (y.columns() == 0 || t.columns() == 0) {
            return Err(ShapeError);
        }
        let mut oks: usize = 0;
        let mut i: usize = 0;
        while i < n
            invariant
                y.wf(),
                t.wf(),
                n == y@.len(),
                n == t@.len(),
                n > 0 ==> y.ncols() > 0 && t.ncols() > 0,
                i <= n,
                oks <= i,
                oks == match_count(y@, t@, i as int),
            decreases n - i,
        {
            let yi = crate::functions::argmax(y.row_slice(i));
            let ti = crate::functions::argmax(t.row_slice(i));
            if yi == ti {
                oks = oks + 1;
            }
            i = i + 1;
        }
        Ok(T::from_usize(oks).div(T::from_usize(t.rows())))
    }
}

/// The mean network loss of a full parameter snapshot: the quantity that
/// the finite-difference strategy probes.
pub open spec fn net_mean_loss<T: Transcendental>(
    x: Seq<Seq<T>>,
    t: Seq<Seq<T>>,
    w1: Seq<Seq<T>>,
    b1: Seq<Seq<T>>,
    w2: Seq<Seq<T>>,
    b2: Seq<Seq<T>>,
) -> T {
    mean_of(loss_model(x, t, w1, b1, w2, b2))
}

/// A central difference quotient with step `h`.
pub open spec fn fd_quotient<T: Element>(lp: T, lm: T, h: T) -> T {
    lp.sub_spec(lm).div_spec(T::from_usize_spec(2).mul_spec(h))
}

/// The finite-difference gradient of the mean loss with respect to `w1`:
/// each entry perturbed by `±h` with every other parameter held fixed.
pub open spec fn fd_grad_w1<T: Transcendental>(
    x: Seq<Seq<T>>,
    t: Seq<Seq<T>>,
    w1: Seq<Seq<T>>,
    b1: Seq<Seq<T>>,
    w2: Seq<Seq<T>>,
    b2: Seq<Seq<T>>,
    h: T,
) -> Seq<Seq<T>> {
    Seq::new(
        srows(w1),
        |yy: int|
            Seq::new(
                w1[yy].len(),
                |xx: int|
                    fd_quotient(
                        net_mean_loss(x, t, perturb(w1, yy, xx, w1[yy][xx].add_spec(h)), b1, w2, b2),
                        net_mean_loss(x, t, perturb(w1, yy, xx, w1[yy][xx].sub_spec(h)), b1, w2, b2),
                        h,
                    ),
            ),
    )
}

/// The finite-difference gradient of the mean loss with respect to `b1`.
pub open spec fn fd_grad_b1<T: Transcendental>(
    x: Seq<Seq<T>>,
    t: Seq<Seq<T>>,
    w1: Seq<Seq<T>>,
    b1: Seq<Seq<T>>,
    w2: Seq<Seq<T>>,
    b2: Seq<Seq<T>>,
    h: T,
) -> Seq<Seq<T>> {
    Seq::new(
        srows(b1),
        |yy: int|
            Seq::new(
                b1[yy].len(),
                |xx: int|
                    fd_quotient(
                        net_mean_loss(x, t, w1, perturb(b1, yy, xx, b1[yy][xx].add_spec(h)), w2, b2),
                        net_mean_loss(x, t, w1, perturb(b1, yy, xx, b1[yy][xx].sub_spec(h)), w2, b2),
                        h,
                    ),
            ),
    )
}

/// The finite-difference gradient of the mean loss with respect to `w2`.
pub open spec fn fd_grad_w2<T: Transcendental>(
    x: Seq<Seq<T>>,
    t: Seq<Seq<T>>,
    w1: Seq<Seq<T>>,
    b1: Seq<Seq<T>>,
    w2: Seq<Seq<T>>,
    b2: Seq<Seq<T>>,
    h: T,
) -> Seq<Seq<T>> {
    Seq::new(
        srows(w2),
        |yy: int|
            Seq::new(
                w2[yy].len(),
                |xx: int|
                    fd_quotient(
                        net_mean_loss(x, t, w1, b1, perturb(w2, yy, xx, w2[yy][xx].add_spec(h)), b2),
                        net_mean_loss(x, t, w1, b1, perturb(w2, yy, xx, w2[yy][xx].sub_spec(h)), b2),
                        h,
                    ),
            ),
    )
}

/// The finite-difference gradient of the mean loss with respect to `b2`.
pub open spec fn fd_grad_b2<T: Transcendental>(
    x: Seq<Seq<T>>,
    t: Seq<Seq<T>>,
    w1: Seq<Seq<T>>,
    b1: Seq<Seq<T>>,
    w2: Seq<Seq<T>>,
    b2: Seq<Seq<T>>,
    h: T,
) -> Seq<Seq<T>> {
    Seq::new(
        srows(b2),
        |yy: int|
            Seq::new(
                b2[yy].len(),
                |xx: int|
                    fd_quotient(
                        net_mean_loss(x, t, w1, b1, w2, perturb(b2, yy, xx, b2[yy][xx].add_spec(h))),
                        net_mean_loss(x, t, w1, b1, w2, perturb(b2, yy, xx, b2[yy][xx].sub_spec(h))),
                        h,
                    ),
            ),
    )
}

impl<T: Transcendental> TwoLayerNet<T> {
    /// The mean network loss of a full parameter snapshot, as a pure
    /// function: a fresh network is built from the snapshot and evaluated,
    /// so no state is swapped in and out.
    fn snapshot_loss(
        w1: &Matrix<T>,
        b1: &Matrix<T>,
        w2: &Matrix<T>,
        b2: &Matrix<T>,
        x: &Matrix<T>,
        t: &Matrix<T>,
    ) -> (r: Result<T, ShapeError>)
        requires
            w1.wf(),
            b1.wf(),
            w2.wf(),
            b2.wf(),
            x.wf(),
            t.wf(),
        ensures
            r is Ok <==> loss_ok(x@, t@, w1@, b1@, w2@, b2@),
            r matches Ok(v) ==> v == net_mean_loss(x@, t@, w1@, b1@, w2@, b2@),
    {
        let mut net = TwoLayerNet::new(w1.clone(), b1.clone(), w2.clone(), b2.clone());
        net.batched_loss(x.clone(), t.clone())
    }

    /// The brute-force finite-difference gradient of the mean loss with
    /// respect to every parameter entry, probing the loss on perturbed
    /// parameter snapshots while all other parameters are held fixed.
    /// Used as a correctness oracle for `gradient`, never for training.
    pub fn numerical_gradient(&self, x: &Matrix<T>, t: &Matrix<T>, h: T) -> (r: Result<
        Gradients<T>,
        ShapeError,
    >)
        requires
            self.wf(),
            x.wf(),
            t.wf(),
        ensures
            r is Ok <==> loss_ok(
                x@,
                t@,
                self.affine1_layer.w@,
                self.affine1_layer.b@,
                self.affine2_layer.w@,
                self.affine2_layer.b@,
            ),
            r matches Ok(g) ==> {
                &&& g.w1.wf()
                &&& g.b1.wf()
                &&& g.w2.wf()
                &&& g.b2.wf()
                &&& g.w1@ == fd_grad_w1(
                    x@,
                    t@,
                    self.affine1_layer.w@,
                    self.affine1_layer.b@,
                    self.affine2_layer.w@,
                    self.affine2_layer.b@,
                    h,
                )
                &&& g.b1@ == fd_grad_b1(
                    x@,
                    t@,
                    self.affine1_layer.w@,
                    self.affine1_layer.b@,
                    self.affine2_layer.w@,
                    self.affine2_layer.b@,
                    h,
                )
                &&& g.w2@ == fd_grad_w2(
                    x@,
                    t@,
                    self.affine1_layer.w@,
                    self.affine1_layer.b@,
                    self.affine2_layer.w@,
                    self.affine2_layer.b@,
                    h,
                )
                &&& g.b2@ == fd_grad_b2(
                    x@,
                    t@,
                    self.affine1_layer.w@,
                    self.affine1_layer.b@,
                    self.affine2_layer.w@,
                    self.affine2_layer.b@,
                    h,
                )
            },
    {
        let w1v: Ghost<Seq<Seq<T>>> = Ghost(self.affine1_layer.w@);
        let b1v: Ghost<Seq<Seq<T>>> = Ghost(self.affine1_layer.b@);
        let w2v: Ghost<Seq<Seq<T>>> = Ghost(self.affine2_layer.w@);
        let b2v: Ghost<Seq<Seq<T>>> = Ghost(self.affine2_layer.b@);
        match Self::snapshot_loss(
            &self.affine1_layer.w,
            &self.affine1_layer.b,
            &self.affine2_layer.w,
            &self.affine2_layer.b,
            x,
            t,
        ) {
            Ok(_) => (),
            Err(e) => {
                return Err(e);
            },
        }
        proof {
            assert forall|m: Seq<Seq<T>>|
                rect(m) && srows(m) == srows(w1v@) && scols(m) == scols(w1v@) implies loss_ok(
                x@,
                t@,
                m,
                b1v@,
                w2v@,
                b2v@,
            ) by {
                lemma_loss_ok_same_shapes(x@, t@, w1v@, b1v@, w2v@, b2v@, m, b1v@, w2v@, b2v@);
            }
            assert forall|m: Seq<Seq<T>>|
                rect(m) && srows(m) == srows(b1v@) && scols(m) == scols(b1v@) implies loss_ok(
                x@,
                t@,
                w1v@,
                m,
                w2v@,
                b2v@,
            ) by {
                lemma_loss_ok_same_shapes(x@, t@, w1v@, b1v@, w2v@, b2v@, w1v@, m, w2v@, b2v@);
            }
            assert forall|m: Seq<Seq<T>>|
                rect(m) && srows(m) == srows(w2v@) && scols(m) == scols(w2v@) implies loss_ok(
                x@,
                t@,
                w1v@,
                b1v@,
                m,
                b2v@,
            ) by {
                lemma_loss_ok_same_shapes(x@, t@, w1v@, b1v@, w2v@, b2v@, w1v@, b1v@, m, b2v@);
            }
            assert forall|m: Seq<Seq<T>>|
                rect(m) && srows(m) == srows(b2v@) && scols(m) == scols(b2v@) implies loss_ok(
                x@,
                t@,
                w1v@,
                b1v@,
                w2v@,
                m,
            ) by {
                lemma_loss_ok_same_shapes(x@, t@, w1v@, b1v@, w2v@, b2v@, w1v@, b1v@, w2v@, m);
            }
        }
        let f1 = |m: &Matrix<T>| -> (v: T)
            requires
                m.wf(),
                srows(m@) == srows(w1v@) && scols(m@) == scols(w1v@),
                loss_ok(x@, t@, m@, b1v@, w2v@, b2v@),
            ensures
                v == net_mean_loss(x@, t@, m@, b1v@, w2v@, b2v@),
            {
                match Self::snapshot_loss(
                    m,
                    &self.affine1_layer.b,
                    &self.affine2_layer.w,
                    &self.affine2_layer.b,
                    x,
                    t,
                ) {
                    Ok(v) => v,
                    Err(_) => {
                        proof {
                            assert(false);
                        }
                        T::zero()
                    },
                }
            };
        let gw1 = self.affine1_layer.w.numerical_gradient(h, f1);
        let f2 = |m: &Matrix<T>| -> (v: T)
            requires
                m.wf(),
                srows(m@) == srows(b1v@) && scols(m@) == scols(b1v@),
                loss_ok(x@, t@, w1v@, m@, w2v@, b2v@),
            ensures
                v == net_mean_loss(x@, t@, w1v@, m@, w2v@, b2v@),
            {
                match Self::snapshot_loss(
                    &self.affine1_layer.w,
                    m,
                    &self.affine2_layer.w,
                    &self.affine2_layer.b,
                    x,
                    t,
                ) {
                    Ok(v) => v,
                    Err(_) => {
                        proof {
                            assert(false);
                        }
                        T::zero()
                    },
                }
            };
        let gb1 = self.affine1_layer.b.numerical_gradient(h, f2);
        let f3 = |m: &Matrix<T>| -> (v: T)
            requires
                m.wf(),
                srows(m@) == srows(w2v@) && scols(m@) == scols(w2v@),
                loss_ok(x@, t@, w1v@, b1v@, m@, b2v@),
            ensures
                v == net_mean_loss(x@, t@, w1v@, b1v@, m@, b2v@),
            {
                match Self::snapshot_loss(
                    &self.affine1_layer.w,
                    &self.affine1_layer.b,
                    m,
                    &self.affine2_layer.b,
                    x,
                    t,
                ) {
                    Ok(v) => v,
                    Err(_) => {
                        proof {
                            assert(false);
                        }
                        T::zero()
                    },
                }
            };
        let gw2 = self.affine2_layer.w.numerical_gradient(h, f3);
        let f4 = |m: &Matrix<T>| -> (v: T)
            requires
                m.wf(),
                srows(m@) == srows(b2v@) && scols(m@) == scols(b2v@),
                loss_ok(x@, t@, w1v@, b1v@, w2v@, m@),
            ensures
                v == net_mean_loss(x@, t@, w1v@, b1v@, w2v@, m@),
            {
                match Self::snapshot_loss(
                    &self.affine1_layer.w,
                    &self.affine1_layer.b,
                    &self.affine2_layer.w,
                    m,
                    x,
                    t,
                ) {
                    Ok(v) => v,
                    Err(_) => {
                        proof {
                            assert(false);
                        }
                        T::zero()
                    },
                }
            };
        let gb2 = self.affine2_layer.b.numerical_gradient(h, f4);
        proof {
            lemma_fd_collapse(gw1@, w1v@, h, f1, |m: Seq<Seq<T>>| net_mean_loss(x@, t@, m, b1v@, w2v@, b2v@));
            assert(gw1@ =~~= fd_grad_w1(x@, t@, w1v@, b1v@, w2v@, b2v@, h));
            lemma_fd_collapse(gb1@, b1v@, h, f2, |m: Seq<Seq<T>>| net_mean_loss(x@, t@, w1v@, m, w2v@, b2v@));
            assert(gb1@ =~~= fd_grad_b1(x@, t@, w1v@, b1v@, w2v@, b2v@, h));
            lemma_fd_collapse(gw2@, w2v@, h, f3, |m: Seq<Seq<T>>| net_mean_loss(x@, t@, w1v@, b1v@, m, b2v@));
            assert(gw2@ =~~= fd_grad_w2(x@, t@, w1v@, b1v@, w2v@, b2v@, h));
            lemma_fd_collapse(gb2@, b2v@, h, f4, |m: Seq<Seq<T>>| net_mean_loss(x@, t@, w1v@, b1v@, w2v@, m));
            assert(gb2@ =~~= fd_grad_b2(x@, t@, w1v@, b1v@, w2v@, b2v@, h));
        }
        Ok(Gradients { w1: gw1, b1: gb1, w2: gw2, b2: gb2 })
    }
}

/// Replacing each parameter matrix by one of the same shape does not
/// change whether the network's shapes line up: `loss_ok` depends on the
/// dimensions alone.
proof fn lemma_loss_ok_same_shapes<T: Transcendental>(
    x: Seq<Seq<T>>,
    t: Seq<Seq<T>>,
    w1: Seq<Seq<T>>,
    b1: Seq<Seq<T>>,
    w2: Seq<Seq<T>>,
    b2: Seq<Seq<T>>,
    w1n: Seq<Seq<T>>,
    b1n: Seq<Seq<T>>,
    w2n: Seq<Seq<T>>,
    b2n: Seq<Seq<T>>,
)
    requires
        loss_ok(x, t, w1, b1, w2, b2),
        rect(w1n) && srows(w1n) == srows(w1) && scols(w1n) == scols(w1),
        rect(b1n) && srows(b1n) == srows(b1) && scols(b1n) == scols(b1),
        rect(w2n) && srows(w2n) == srows(w2) && scols(w2n) == scols(w2),
        rect(b2n) && srows(b2n) == srows(b2) && scols(b2n) == scols(b2),
    ensures
        loss_ok(x, t, w1n, b1n, w2n, b2n),
{
    let a1 = affine_out(x, w1, b1);
    let a1n = affine_out(x, w1n, b1n);
    let z1 = relu_out(a1);
    let z1n = relu_out(a1n);
    assert(srows(a1n) == srows(a1));
    assert(srows(z1n) == srows(z1));
    if srows(x) > 0 {
        assert(a1[0].len() == scols(w1));
        assert(a1n[0].len() == scols(w1n));
        assert(z1[0].len() == a1[0].len());
        assert(z1n[0].len() == a1n[0].len());
        assert(scols(z1n) == scols(z1));
    }
}

/// A matrix of `fd_entry` difference quotients of a probe whose outputs
/// are determined by a model function `l` collapses to the deterministic
/// quotients of `l`.
proof fn lemma_fd_collapse<T: Element, F: Fn(&Matrix<T>) -> T>(
    g: Seq<Seq<T>>,
    m: Seq<Seq<T>>,
    h: T,
    f: F,
    l: spec_fn(Seq<Seq<T>>) -> T,
)
    requires
        forall|mm: &Matrix<T>, v: T| #[trigger] call_ensures(f, (mm,), v) ==> v == l(mm@),
        g.len() == m.len(),
        forall|y: int| 0 <= y < m.len() ==> (#[trigger] g[y]).len() == m[y].len(),
        forall|y: int, x: int|
            0 <= y < m.len() && 0 <= x < m[y].len() ==> crate::matrix::fd_entry(
                f,
                m,
                y,
                x,
                h,
                #[trigger] g[y][x],
            ),
    ensures
        forall|y: int, x: int|
            0 <= y < m.len() && 0 <= x < m[y].len() ==> #[trigger] g[y][x] == fd_quotient(
                l(perturb(m, y, x, m[y][x].add_spec(h))),
                l(perturb(m, y, x, m[y][x].sub_spec(h))),
                h,
            ),
{
    assert forall|y: int, x: int|
        0 <= y < m.len() && 0 <= x < m[y].len() implies #[trigger] g[y][x] == fd_quotient(
        l(perturb(m, y, x, m[y][x].add_spec(h))),
        l(perturb(m, y, x, m[y][x].sub_spec(h))),
        h,
    ) by {
        let (mp, mm_, fp, fm) = choose|mp: Matrix<T>, mm_: Matrix<T>, fp: T, fm: T|
            {
                &&& mp@ == m.update(y, m[y].update(x, m[y][x].add_spec(h)))
                &&& mm_@ == m.update(y, m[y].update(x, m[y][x].sub_spec(h)))
                &&& #[trigger] call_ensures(f, (&mp,), fp)
                &&& #[trigger] call_ensures(f, (&mm_,), fm)
                &&& g[y][x] == fp.sub_spec(fm).div_spec(T::from_usize_spec(2).mul_spec(h))
            };
        assert(fp == l(mp@));
        assert(fm == l(mm_@));
    }
}

} // verus!
