//! Differentiable layers: stateful forward/backward units.
//!
//! Each layer remembers, between its most recent `forward` and the next
//! `backward`, exactly the activations or masks that `backward` needs.  That
//! retained state lives in an `Option`: a freshly built layer holds `None`,
//! and calling `backward` before any `forward` fails with
//! [`LayerError::State`] instead of producing garbage.

use vstd::prelude::*;

use crate::element::Element;
use crate::element::Transcendental;
use crate::functions::cross_entropy_spec;
use crate::functions::sigmoid_spec;
use crate::functions::softmax;
use crate::functions::softmax_spec;
use crate::functions::cross_entropy_error;
use crate::matrix::colsums;
use crate::matrix::matmul;
use crate::matrix::rect;
use crate::matrix::scols;
use crate::matrix::srows;
use crate::matrix::transpose_of;
use crate::matrix::column_of;
use crate::matrix::dot_seq;
use crate::matrix::Matrix;
use crate::matrix::ShapeError;

verus! {

/// A layer call could not be carried out.
#[derive(Debug, Clone, Copy, PartialEq, Eq)]
pub enum LayerError {
    /// The argument's dimensions do not match the layer's retained state or
    /// parameters.
    Shape,
    /// `backward` was invoked on a layer whose `forward` has never run.
    State,
}

/// The rectifier mask of a batch: an entry is marked exactly when the input
/// entry was at most zero.
pub open spec fn relu_mask<T: Element>(xs: Seq<Seq<T>>) -> Seq<Seq<bool>> {
    Seq::new(xs.len(), |y: int| Seq::new(xs[y].len(), |x: int| !T::zero_spec().lt_spec(xs[y][x])))
}

/// The rectifier output of a batch: zero where the mask is set, the input
/// entry elsewhere.
pub open spec fn relu_out<T: Element>(xs: Seq<Seq<T>>) -> Seq<Seq<T>> {
    Seq::new(
        xs.len(),
        |y: int|
            Seq::new(
                xs[y].len(),
                |x: int|
                    if !T::zero_spec().lt_spec(xs[y][x]) {
                        T::zero_spec()
                    } else {
                        xs[y][x]
                    },
            ),
    )
}

/// A gradient batch with the masked entries zeroed and every other entry
/// passed through unchanged.
pub open spec fn mask_out<T: Element>(masks: Seq<Seq<bool>>, dout: Seq<Seq<T>>) -> Seq<Seq<T>> {
    Seq::new(
        dout.len(),
        |y: int|
            Seq::new(
                dout[y].len(),
                |x: int|
                    if masks[y][x] {
                        T::zero_spec()
                    } else {
                        dout[y][x]
                    },
            ),
    )
}

/// The masks of a retained batch line up with a gradient batch.
pub open spec fn masks_match<T>(masks: Seq<Seq<bool>>, dout: Seq<Seq<T>>) -> bool {
    masks.len() == dout.len() && forall|y: int|
        0 <= y < dout.len() ==> (#[trigger] masks[y]).len() == dout[y].len()
}

/// The rectifier over a single row; remembers which entries were clipped.
///
/// Its model is the boolean mask of the most recent `forward`: entry `i` is
/// set exactly when input entry `i` was at most zero.
#[derive(Debug)]
pub struct ReluLayerInner {
    mask: Vec<bool>,
}

impl View for ReluLayerInner {
    type V = Seq<bool>;

    closed spec fn view(&self) -> Seq<bool> {
        self.mask@
    }
}

impl ReluLayerInner {
    pub fn new() -> (r: Self)
        ensures
            r@.len() == 0,
    {
        ReluLayerInner { mask: Vec::new() }
    }

    /// Clips a row at zero and records which entries were clipped.
    pub fn forward<T: Element>(&mut self, xs: &Vec<T>) -> (out: Vec<T>)
        ensures
            final(self)@.len() == xs@.len(),
            forall|i: int|
                0 <= i < xs@.len() ==> final(self)@[i] == !T::zero_spec().lt_spec(
                    #[trigger] xs@[i],
                ),
            out@.len() == xs@.len(),
            forall|i: int|
                0 <= i < xs@.len() ==> #[trigger] out@[i] == (if !T::zero_spec().lt_spec(xs@[i]) {
                    T::zero_spec()
                } else {
                    xs@[i]
                }),
    {
        self.mask = Vec::new();
        let mut out: Vec<T> = Vec::new();
        let n = xs.len();
        let mut i: usize = 0;
        while i < n
            invariant
                n == xs@.len(),
                i <= n,
                self.mask@.len() == i,
                out@.len() == i,
                forall|k: int|
                    0 <= k < i ==> self.mask@[k] == !T::zero_spec().lt_spec(#[trigger] xs@[k]),
                forall|k: int|
                    0 <= k < i ==> #[trigger] out@[k] == (if !T::zero_spec().lt_spec(xs@[k]) {
                        T::zero_spec()
                    } else {
                        xs@[k]
                    }),
            decreases n - i,
        {
            let x = xs[i];
            if T::zero().lt(x) {
                self.mask.push(false);
                out.push(x);
            } else {
                self.mask.push(true);
                out.push(T::zero());
            }
            i = i + 1;
        }
        out
    }

    /// Zeroes the gradient entries whose inputs were clipped on the most
    /// recent `forward`, and passes every other entry through unchanged.
    pub fn backward<T: Element>(&self, dout: &Vec<T>) -> (r: Result<Vec<T>, ShapeError>)
        ensures
            r is Ok <==> dout@.len() == self@.len(),
            r matches Ok(dx) ==> {
                &&& dx@.len() == dout@.len()
                &&& forall|i: int|
                    0 <= i < dout@.len() ==> #[trigger] dx@[i] == (if self@[i] {
                        T::zero_spec()
                    } else {
                        dout@[i]
                    })
            },
    {
        let n = dout.len();
        if n != self.mask.len() {
            return Err(ShapeError);
        }
        let mut dx: Vec<T> = Vec::new();
        let mut i: usize = 0;
        while i < n
            invariant
                n == dout@.len(),
                n == self@.len(),
                i <= n,
                dx@.len() == i,
                forall|k: int|
                    0 <= k < i ==> #[trigger] dx@[k] == (if self@[k] {
                        T::zero_spec()
                    } else {
                        dout@[k]
                    }),
            decreases n - i,
        {
            if self.mask[i] {
                dx.push(T::zero());
            } else {
                dx.push(dout[i]);
            }
            i = i + 1;
        }
        Ok(dx)
    }
}

/// The rectifier over a batch: one [`ReluLayerInner`] per row, so the masks
/// stay aligned with each example of the batch.
///
/// Its model is `None` before the first `forward`, and afterwards the masks
/// of the most recent `forward`.
#[derive(Debug)]
pub struct ReluLayer {
    rows: Option<Vec<ReluLayerInner>>,
}

impl View for ReluLayer {
    type V = Option<Seq<Seq<bool>>>;

    closed spec fn view(&self) -> Option<Seq<Seq<bool>>> {
        match self.rows {
            Some(rs) => Some(rs@.map_values(|r: ReluLayerInner| r@)),
            None => None,
        }
    }
}

impl ReluLayer {
    pub fn new() -> (r: Self)
        ensures
            r@ is None,
    {
        ReluLayer { rows: None }
    }

    /// Clips a batch at zero; overwrites the retained masks.
    pub fn forward<T: Element>(&mut self, xs: Matrix<T>) -> (out: Matrix<T>)
        requires
            xs.wf(),
        ensures
            final(self)@ == Some(relu_mask(xs@)),
            out.wf(),
            out@ == relu_out(xs@),
            out.same_shape(xs),
    {
        let n = xs.rows();
        let mut inners: Vec<ReluLayerInner> = Vec::new();
        let mut out_rows: Vec<Vec<T>> = Vec::new();
        let mut y: usize = 0;
        while y < n
            invariant
                xs.wf(),
                n == xs@.len(),
                y <= n,
                inners@.len() == y,
                out_rows@.len() == y,
                forall|i: int|
                    0 <= i < y ==> (#[trigger] inners@[i])@ == relu_mask(xs@)[i],
                forall|i: int|
                    0 <= i < y ==> (#[trigger] out_rows@[i])@ == relu_out(xs@)[i],
            decreases n - y,
        {
            let mut inner = ReluLayerInner::new();
            let out_row = inner.forward(xs.row_slice(y));
            proof {
                assert(inner@ =~= relu_mask(xs@)[y as int]);
                assert(out_row@ =~= relu_out(xs@)[y as int]);
            }
            inners.push(inner);
            out_rows.push(out_row);
            y = y + 1;
        }
        self.rows = Some(inners);
        proof {
            assert(forall|i: int|
                0 <= i < out_rows@.len() ==> (#[trigger] out_rows@[i])@.len() == out_rows@[0]@.len());
        }
        let out = Matrix::from_rect(out_rows);
        proof {
            assert(self@ == Some(relu_mask(xs@))) by {
                assert(self@.unwrap() =~= relu_mask(xs@));
            }
            assert(out@ =~= relu_out(xs@));
        }
        out
    }

    /// Routes a gradient batch backwards through the retained masks: the
    /// entries whose inputs were clipped are zeroed, the rest pass through.
    pub fn backward<T: Element>(&mut self, dout: Matrix<T>) -> (r: Result<Matrix<T>, LayerError>)
        requires
            dout.wf(),
        ensures
            *final(self) == *old(self),
            r == Err::<Matrix<T>, LayerError>(LayerError::State) <==> old(self)@ is None,
            r is Ok <==> (old(self)@ matches Some(masks) && masks_match(masks, dout@)),
            r matches Ok(dx) ==> {
                &&& dx.wf()
                &&& dx@ == mask_out(old(self)@.unwrap(), dout@)
                &&& dx.same_shape(dout)
            },
    {
        let inners = match &self.rows {
            Some(inners) => inners,
            None => {
                return Err(LayerError::State);
            },
        };
        let n = dout.rows();
        if n != inners.len() {
            return Err(LayerError::Shape);
        }
        let masks = Ghost(self@.unwrap());
        let mut dx_rows: Vec<Vec<T>> = Vec::new();
        let mut y: usize = 0;
        while y < n
            invariant
                *self == *old(self),
                self@ == Some(masks@),
                dout.wf(),
                n == dout@.len(),
                n == inners@.len(),
                masks@ == inners@.map_values(|r: ReluLayerInner| r@),
                forall|i: int| 0 <= i < y ==> (#[trigger] masks@[i]).len() == dout@[i].len(),
                y <= n,
                dx_rows@.len() == y,
                forall|i: int|
                    0 <= i < y ==> (#[trigger] dx_rows@[i])@ == mask_out(masks@, dout@)[i],
            decreases n - y,
        {
            match inners[y].backward(dout.row_slice(y)) {
                Ok(dx_row) => {
                    proof {
                        assert(dx_row@ =~= mask_out(masks@, dout@)[y as int]);
                    }
                    dx_rows.push(dx_row);
                },
                Err(_) => {
                    proof {
                        assert(masks@[y as int].len() != dout@[y as int].len());
                        assert(!masks_match(masks@, dout@));
                    }
                    return Err(LayerError::Shape);
                },
            }
            y = y + 1;
        }
        let dx = Matrix::from_rect(dx_rows);
        proof {
            assert(dx@ =~= mask_out(masks@, dout@));
        }
        Ok(dx)
    }
}

/// A row mapped through the logistic function.
pub open spec fn sigmoid_row<T: Transcendental>(xs: Seq<T>) -> Seq<T> {
    Seq::new(xs.len(), |i: int| sigmoid_spec(xs[i]))
}

/// The gradient routed backwards through the logistic function, computed
/// from the retained outputs `ys`: entry `i` is `dout[i] · (1 − ys[i]) ·
/// ys[i]`.
pub open spec fn sigmoid_back<T: Transcendental>(ys: Seq<T>, dout: Seq<T>) -> Seq<T> {
    Seq::new(dout.len(), |i: int| dout[i].mul_spec(T::one_spec().sub_spec(ys[i])).mul_spec(ys[i]))
}

/// The logistic layer over one row; remembers its most recent output,
/// through which its derivative is expressed.
///
/// Its model is `None` before the first `forward`, and afterwards the
/// output row of the most recent `forward`.
#[derive(Debug)]
pub struct SigmoidLayer<T> {
    out: Option<Vec<T>>,
}

impl<T> View for SigmoidLayer<T> {
    type V = Option<Seq<T>>;

    closed spec fn view(&self) -> Option<Seq<T>> {
        match self.out {
            Some(v) => Some(v@),
            None => None,
        }
    }
}

impl<T: Transcendental> SigmoidLayer<T> {
    pub fn new() -> (r: Self)
        ensures
            r@ is None,
    {
        SigmoidLayer { out: None }
    }

    /// Maps a row through the logistic function and retains the output.
    pub fn forward(&mut self, xs: &Vec<T>) -> (out: Vec<T>)
        ensures
            final(self)@ == Some(sigmoid_row(xs@)),
            out@ == sigmoid_row(xs@),
    {
        let n = xs.len();
        let mut out: Vec<T> = Vec::new();
        let mut i: usize = 0;
        while i < n
            invariant
                n == xs@.len(),
                i <= n,
                out@.len() == i,
                forall|k: int| 0 <= k < i ==> #[trigger] out@[k] == sigmoid_spec(xs@[k]),
            decreases n - i,
        {
            out.push(crate::functions::sigmoid(xs[i]));
            i = i + 1;
        }
        proof {
            assert(out@ =~= sigmoid_row(xs@));
        }
        let mut copy: Vec<T> = Vec::new();
        let mut i: usize = 0;
        while i < n
            invariant
                n == out@.len(),
                i <= n,
                copy@.len() == i,
                forall|k: int| 0 <= k < i ==> #[trigger] copy@[k] == out@[k],
            decreases n - i,
        {
            copy.push(out[i]);
            i = i + 1;
        }
        proof {
            assert(copy@ =~= out@);
        }
        self.out = Some(copy);
        out
    }

    /// Routes a gradient row backwards through the retained outputs with
    /// the logistic derivative.
    pub fn backword(&mut self, dout: &Vec<T>) -> (r: Result<Vec<T>, LayerError>)
        ensures
            *final(self) == *old(self),
            r == Err::<Vec<T>, LayerError>(LayerError::State) <==> old(self)@ is None,
            r is Ok <==> (old(self)@ matches Some(ys) && ys.len() == dout@.len()),
            r matches Ok(dx) ==> dx@ == sigmoid_back(old(self)@.unwrap(), dout@),
    {
        let ys = match &self.out {
            Some(ys) => ys,
            None => {
                return Err(LayerError::State);
            },
        };
        let n = dout.len();
        if n != ys.len() {
            return Err(LayerError::Shape);
        }
        let mut dx: Vec<T> = Vec::new();
        let mut i: usize = 0;
        while i < n
            invariant
                *self == *old(self),
                self@ == Some(ys@),
                n == dout@.len(),
                n == ys@.len(),
                i <= n,
                dx@.len() == i,
                forall|k: int|
                    0 <= k < i ==> #[trigger] dx@[k] == dout@[k].mul_spec(
                        T::one_spec().sub_spec(ys@[k]),
                    ).mul_spec(ys@[k]),
            decreases n - i,
        {
            dx.push(dout[i].mul(T::one().sub(ys[i])).mul(ys[i]));
            i = i + 1;
        }
        proof {
            assert(dx@ =~= sigmoid_back(ys@, dout@));
        }
        Ok(dx)
    }
}

/// The affine transform is defined for these operand models: the inner
/// dimensions of `x · w` agree and `b` is a single row as wide as the
/// product.
pub open spec fn affine_ok<T>(x: Seq<Seq<T>>, w: Seq<Seq<T>>, b: Seq<Seq<T>>) -> bool {
    &&& scols(x) == srows(w)
    &&& srows(b) == 1
    &&& scols(b) == (if srows(x) == 0 {
        0nat
    } else {
        scols(w)
    })
}

/// The affine transform `x · w + b`, the single row of `b` broadcast over
/// every row of the product.
pub open spec fn affine_out<T: Element>(x: Seq<Seq<T>>, w: Seq<Seq<T>>, b: Seq<Seq<T>>) -> Seq<
    Seq<T>,
> {
    Seq::new(
        srows(x),
        |y: int|
            Seq::new(scols(w), |c: int| dot_seq(x[y], column_of(w, c)).add_spec(b[0][c])),
    )
}

/// The backward pass of the affine transform is defined for these models:
/// the gradient batch is as wide as `w` and has one row per retained input
/// row.
pub open spec fn affine_back_ok<T>(xs: Seq<Seq<T>>, w: Seq<Seq<T>>, dout: Seq<Seq<T>>) -> bool {
    &&& scols(dout) == scols(w)
    &&& (if scols(xs) == 0 {
        0nat
    } else {
        srows(xs)
    }) == srows(dout)
}

/// The affine layer `x · w + b`; retains its most recent input, from which
/// `backward` computes the parameter gradients.
#[derive(Debug)]
pub struct AffineLayer<T> {
    pub w: Matrix<T>,
    pub b: Matrix<T>,
    /// The input retained by the most recent `forward`; overwritten on
    /// every `forward` and read by `backward`.
    pub x: Option<Matrix<T>>,
    pub dw: Matrix<T>,
    pub db: Matrix<T>,
}

impl<T: Element> AffineLayer<T> {
    /// The model of the retained input: `None` before the first `forward`.
    pub open spec fn input_state(self) -> Option<Seq<Seq<T>>> {
        match self.x {
            Some(m) => Some(m@),
            None => None,
        }
    }

    /// All held matrices are rectangles.
    pub open spec fn wf(self) -> bool {
        &&& self.w.wf()
        &&& self.b.wf()
        &&& self.dw.wf()
        &&& self.db.wf()
        &&& (self.input_state() matches Some(xs) ==> rect(xs))
    }

    pub fn new(w: Matrix<T>, b: Matrix<T>) -> (r: Self)
        requires
            w.wf(),
            b.wf(),
        ensures
            r.wf(),
            r.w == w,
            r.b == b,
            r.input_state() is None,
            r.dw.nrows() == 0,
            r.db.nrows() == 0,
    {
        AffineLayer { w, b, x: None, dw: Matrix::new(0, 0), db: Matrix::new(0, 0) }
    }

    /// The affine transform of a batch; retains the input for `backward`.
    /// On a shape mismatch nothing is computed or retained.
    pub fn forward(&mut self, x: Matrix<T>) -> (r: Result<Matrix<T>, ShapeError>)
        requires
            old(self).wf(),
            x.wf(),
        ensures
            final(self).w == old(self).w,
            final(self).b == old(self).b,
            final(self).dw == old(self).dw,
            final(self).db == old(self).db,
            final(self).wf(),
            r is Ok <==> affine_ok(x@, old(self).w@, old(self).b@),
            r matches Ok(out) ==> {
                &&& out.wf()
                &&& out@ == affine_out(x@, old(self).w@, old(self).b@)
                &&& final(self).input_state() == Some(x@)
            },
            r is Err ==> *final(self) == *old(self),
    {
        let d = match x.dot_product(&self.w) {
            Ok(d) => d,
            Err(e) => {
                return Err(e);
            },
        };
        let out = match d.add_vector(&self.b) {
            Ok(o) => o,
            Err(e) => {
                return Err(e);
            },
        };
        proof {
            assert(out@ =~~= affine_out(x@, self.w@, self.b@));
        }
        self.x = Some(x);
        Ok(out)
    }

    /// The backward pass: returns the input gradient `dout · wᵗ` and
    /// stores the parameter gradients `dw = xᵗ · dout` and
    /// `db = column_sum(dout)` for the optimizer.
    pub fn backward(&mut self, dout: Matrix<T>) -> (r: Result<Matrix<T>, LayerError>)
        requires
            old(self).wf(),
            dout.wf(),
        ensures
            final(self).w == old(self).w,
            final(self).b == old(self).b,
            final(self).input_state() == old(self).input_state(),
            final(self).wf(),
            r == Err::<Matrix<T>, LayerError>(LayerError::State) <==> old(self).input_state()
                is None,
            r is Ok <==> (old(self).input_state() matches Some(xs) && affine_back_ok(
                xs,
                old(self).w@,
                dout@,
            )),
            r matches Ok(dx) ==> {
                &&& dx.wf()
                &&& dx@ == matmul(dout@, transpose_of(old(self).w@))
                &&& final(self).dw@ == matmul(transpose_of(old(self).input_state().unwrap()), dout@)
                &&& final(self).db@ == colsums(dout@)
            },
            r is Err ==> *final(self) == *old(self),
    {
        let xs = match &self.x {
            Some(m) => m,
            None => {
                return Err(LayerError::State);
            },
        };
        let wt = self.w.transpose();
        proof {
            assert(wt@ =~~= transpose_of(self.w@));
        }
        let dx = match dout.dot_product(&wt) {
            Ok(dx) => dx,
            Err(_) => {
                return Err(LayerError::Shape);
            },
        };
        let xt = xs.transpose();
        proof {
            assert(xt@ =~~= transpose_of(self.input_state().unwrap()));
        }
        let dw = match xt.dot_product(&dout) {
            Ok(dw) => dw,
            Err(_) => {
                return Err(LayerError::Shape);
            },
        };
        let db = dout.column_sum();
        proof {
            assert(dx@ =~~= matmul(dout@, transpose_of(self.w@)));
            assert(dw@ =~~= matmul(transpose_of(self.input_state().unwrap()), dout@));
            assert(db@ =~~= colsums(dout@));
        }
        self.dw = dw;
        self.db = db;
        Ok(dx)
    }
}

/// Each row of a batch mapped through softmax.
pub open spec fn softmax_rows<T: Transcendental>(x: Seq<Seq<T>>) -> Seq<Seq<T>> {
    Seq::new(srows(x), |y: int| softmax_spec(x[y]))
}

/// The per-example cross-entropy losses of a batch: one scalar per row.
pub open spec fn losses_of<T: Transcendental>(x: Seq<Seq<T>>, t: Seq<Seq<T>>) -> Seq<T> {
    Seq::new(srows(x), |y: int| cross_entropy_spec(softmax_spec(x[y]), t[y]))
}

/// The gradient that softmax-with-loss sends backwards: `(y − t)` divided
/// by the batch size, so the eventual parameter gradient is an average
/// over the batch.
pub open spec fn softmax_loss_back<T: Transcendental>(y: Seq<Seq<T>>, t: Seq<Seq<T>>) -> Seq<
    Seq<T>,
> {
    Seq::new(
        srows(y),
        |i: int|
            Seq::new(
                y[i].len(),
                |j: int|
                    y[i][j].sub_spec(t[i][j]).div_spec(
                        T::from_usize_spec(srows(t) as usize),
                    ),
            ),
    )
}

/// Softmax folded into the cross-entropy loss; retains the softmax output
/// and the one-hot target of the most recent `forward`.
#[derive(Debug)]
pub struct SoftmaxWithLossLayer<T> {
    state: Option<(Matrix<T>, Matrix<T>)>,
}

impl<T: Transcendental> SoftmaxWithLossLayer<T> {
    /// The models of the retained softmax output and target.
    pub closed spec fn retained(self) -> Option<(Seq<Seq<T>>, Seq<Seq<T>>)> {
        match self.state {
            Some((y, t)) => Some((y@, t@)),
            None => None,
        }
    }

    /// The retained output and target are rectangles of one shape.
    pub open spec fn wf(self) -> bool {
        self.retained() matches Some((y, t)) ==> {
            &&& rect(y)
            &&& rect(t)
            &&& srows(y) == srows(t)
            &&& scols(y) == scols(t)
        }
    }

    pub fn new() -> (r: Self)
        ensures
            r.retained() is None,
            r.wf(),
    {
        SoftmaxWithLossLayer { state: None }
    }

    /// Applies softmax to every row of `x`, retains the result and the
    /// one-hot target `t`, and returns the per-example cross-entropy
    /// losses.  On a shape mismatch nothing is computed or retained.
    pub fn forward(&mut self, x: Matrix<T>, t: Matrix<T>) -> (r: Result<Vec<T>, ShapeError>)
        requires
            old(self).wf(),
            x.wf(),
            t.wf(),
        ensures
            final(self).wf(),
            r is Ok <==> x.same_shape(t),
            r matches Ok(losses) ==> {
                &&& losses@ == losses_of(x@, t@)
                &&& final(self).retained() == Some((softmax_rows(x@), t@))
            },
            r is Err ==> *final(self) == *old(self),
    {
        if x.rows() != t.rows() || x.columns() != t.columns() {
            return Err(ShapeError);
        }
        let n = x.rows();
        let mut y_rows: Vec<Vec<T>> = Vec::new();
        let mut losses: Vec<T> = Vec::new();
        let mut i: usize = 0;
        while i < n
            invariant
                x.wf(),
                t.wf(),
                x.same_shape(t),
                n == x@.len(),
                i <= n,
                y_rows@.len() == i,
                losses@.len() == i,
                forall|k: int| 0 <= k < i ==> (#[trigger] y_rows@[k])@ == softmax_spec(x@[k]),
                forall|k: int|
                    0 <= k < i ==> #[trigger] losses@[k] == cross_entropy_spec(
                        softmax_spec(x@[k]),
                        t@[k],
                    ),
            decreases n - i,
        {
            let sr = softmax(x.row_slice(i));
            let l = cross_entropy_error(&sr, t.row_slice(i));
            y_rows.push(sr);
            losses.push(l);
            i = i + 1;
        }
        let ym = Matrix::from_rect(y_rows);
        proof {
            assert(ym@ =~~= softmax_rows(x@));
            assert(losses@ =~= losses_of(x@, t@));
        }
        self.state = Some((ym, t));
        Ok(losses)
    }

    /// The backward pass; takes no argument and uses the retained state:
    /// `(y − t) / batch_size`.  The division by the batch size here makes
    /// the eventual parameter gradient an average over the batch.
    pub fn backword(&mut self) -> (r: Result<Matrix<T>, LayerError>)
        requires
            old(self).wf(),
        ensures
            *final(self) == *old(self),
            r is Ok <==> old(self).retained() is Some,
            r == Err::<Matrix<T>, LayerError>(LayerError::State) <==> old(self).retained()
                is None,
            r matches Ok(dx) ==> {
                &&& dx.wf()
                &&& dx@ == softmax_loss_back(
                    old(self).retained().unwrap().0,
                    old(self).retained().unwrap().1,
                )
            },
    {
        let (ym, tm) = match &self.state {
            Some((ym, tm)) => (ym, tm),
            None => {
                return Err(LayerError::State);
            },
        };
        let batch = tm.rows();
        let d = match ym.clone().sub(tm) {
            Ok(d) => d,
            Err(_) => {
                proof {
                    assert(false);
                }
                return Err(LayerError::Shape);
            },
        };
        let dx = d.div_scalar(T::from_usize(batch));
        proof {
            assert(dx@ =~~= softmax_loss_back(
                self.retained().unwrap().0,
                self.retained().unwrap().1,
            ));
        }
        Ok(dx)
    }
}

/// The rectifier's forward output is a function of its input alone: any
/// two outputs that its contract allows on one input are equal, whatever
/// state either layer held before.  Running `forward` twice on the same
/// input therefore yields identical outputs.
pub proof fn lemma_relu_forward_repeatable<T: Element>(
    out1: Seq<Seq<T>>,
    out2: Seq<Seq<T>>,
    xs: Seq<Seq<T>>,
)
    requires
        out1 == relu_out(xs),
        out2 == relu_out(xs),
    ensures
        out1 == out2,
{
}

/// The affine layer's forward output is a function of its input and
/// parameters alone: two outputs on one input under one parameter pair
/// are equal, whatever was retained before.
pub proof fn lemma_affine_forward_repeatable<T: Element>(
    out1: Seq<Seq<T>>,
    out2: Seq<Seq<T>>,
    xs: Seq<Seq<T>>,
    w: Seq<Seq<T>>,
    b: Seq<Seq<T>>,
)
    requires
        out1 == affine_out(xs, w, b),
        out2 == affine_out(xs, w, b),
    ensures
        out1 == out2,
{
}

/// The logistic layer's forward output is a function of its input row
/// alone, whatever output it retained before.
pub proof fn lemma_sigmoid_forward_repeatable<T: Transcendental>(
    out1: Seq<T>,
    out2: Seq<T>,
    xs: Seq<T>,
)
    requires
        out1 == sigmoid_row(xs),
        out2 == sigmoid_row(xs),
    ensures
        out1 == out2,
{
}

/// The loss layer's forward losses are a function of its inputs alone,
/// whatever it retained before.
pub proof fn lemma_softmax_loss_forward_repeatable<T: Transcendental>(
    l1: Seq<T>,
    l2: Seq<T>,
    xs: Seq<Seq<T>>,
    t: Seq<Seq<T>>,
)
    requires
        l1 == losses_of(xs, t),
        l2 == losses_of(xs, t),
    ensures
        l1 == l2,
{
}

} // verus!
