//! First-order optimizers: stateful update rules that consume one gradient
//! matrix per learnable parameter matrix and mutate the parameters in
//! place.
//!
//! An update takes the parameters and the gradients as two equally long
//! vectors of matrices, one slot per learnable parameter, supplied in the
//! same order on every call: the stateful optimizers keep one accumulator
//! matrix per slot, lazily created with the shape of the first gradient
//! seen for that slot.  The slots are never reordered or dropped; a call
//! whose slots do not line up with the state fails with a `ShapeError`
//! before any parameter is touched.

use vstd::prelude::*;

use crate::element::Element;
use crate::matrix::Matrix;
use crate::matrix::ShapeError;

verus! {

/// The models of a vector of matrices.
pub open spec fn mviews<T>(ms: Seq<Matrix<T>>) -> Seq<Seq<Seq<T>>> {
    Seq::new(ms.len(), |i: int| ms[i]@)
}

/// Two matrix models have exactly the same row lengths.
pub open spec fn shape_eq<T>(a: Seq<Seq<T>>, b: Seq<Seq<T>>) -> bool {
    a.len() == b.len() && forall|y: int| 0 <= y < a.len() ==> (#[trigger] a[y]).len() == b[y].len()
}

/// The all-zero model with the row lengths of `g`.
pub open spec fn zeros_like<T: Element>(g: Seq<Seq<T>>) -> Seq<Seq<T>> {
    Seq::new(g.len(), |y: int| Seq::new(g[y].len(), |x: int| T::zero_spec()))
}

/// For rectangular matrices, rowwise length equality of the models is the
/// same as equality of the two shapes.
proof fn lemma_shape_eq_matrices<T>(a: Matrix<T>, b: Matrix<T>)
    requires
        a.wf(),
        b.wf(),
    ensures
        shape_eq(a@, b@) <==> a.same_shape(b),
{
    if shape_eq(a@, b@) {
        if a@.len() > 0 {
            assert(a@[0].len() == b@[0].len());
        }
    }
    if a.same_shape(b) {
        assert forall|y: int| 0 <= y < a@.len() implies (#[trigger] a@[y]).len() == b@[y].len() by {
            assert(a@[y].len() == a.ncols());
            assert(b@[y].len() == b.ncols());
        }
    }
}

/// An update rule that turns parameter/gradient pairs into new parameters,
/// possibly keeping per-slot accumulator state between calls.
///
/// Every implementation pins its whole behaviour down through the
/// specification hooks: exactly when an update succeeds (`ok_spec`), the
/// parameter models after it (`params_after`), and the accumulator models
/// after it (`accum_after`).
pub trait Optimizer<T: Element>: Sized {
    /// The optimizer's own matrices are rectangles.
    spec fn wf(self) -> bool;

    /// The models of the per-slot accumulator matrices.
    spec fn accum(self) -> Seq<Seq<Seq<T>>>;

    /// The two states have the same hyperparameters.
    spec fn same_config(self, other: Self) -> bool;

    /// Whether `update` succeeds for these parameter and gradient models.
    spec fn ok_spec(self, params: Seq<Seq<Seq<T>>>, grads: Seq<Seq<Seq<T>>>) -> bool;

    /// The parameter models after a successful update.
    spec fn params_after(self, params: Seq<Seq<Seq<T>>>, grads: Seq<Seq<Seq<T>>>) -> Seq<
        Seq<Seq<T>>,
    >;

    /// The accumulator models after a successful update.
    spec fn accum_after(self, params: Seq<Seq<Seq<T>>>, grads: Seq<Seq<Seq<T>>>) -> Seq<
        Seq<Seq<T>>,
    >;

    /// Applies one update step to every parameter slot, in order.  On any
    /// shape mismatch nothing at all is changed.
    fn update(&mut self, params: &mut Vec<Matrix<T>>, grads: &Vec<Matrix<T>>) -> (r: Result<
        (),
        ShapeError,
    >)
        requires
            old(self).wf(),
            forall|i: int| 0 <= i < old(params)@.len() ==> (#[trigger] old(params)@[i]).wf(),
            forall|i: int| 0 <= i < grads@.len() ==> (#[trigger] grads@[i]).wf(),
        ensures
            final(self).wf(),
            final(self).same_config(*old(self)),
            r is Ok <==> old(self).ok_spec(mviews(old(params)@), mviews(grads@)),
            r is Ok ==> mviews(final(params)@) == old(self).params_after(
                mviews(old(params)@),
                mviews(grads@),
            ),
            r is Ok ==> final(self).accum() == old(self).accum_after(
                mviews(old(params)@),
                mviews(grads@),
            ),
            r is Err ==> final(params)@ == old(params)@ && *final(self) == *old(self),
            final(params)@.len() == old(params)@.len(),
            forall|i: int| 0 <= i < final(params)@.len() ==> (#[trigger] final(params)@[i]).wf(),
    ;
}

/// One stochastic-gradient-descent step of a single parameter model:
/// `param − learning_rate · gradient`, entrywise.
pub open spec fn sgd_step<T: Element>(p: Seq<Seq<T>>, g: Seq<Seq<T>>, lr: T) -> Seq<Seq<T>> {
    Seq::new(p.len(), |y: int| Seq::new(p[y].len(), |x: int| p[y][x].sub_spec(g[y][x].mul_spec(lr))))
}

/// Plain stochastic gradient descent: `param ← param − learning_rate ·
/// gradient`.  Stateless across calls.
#[derive(Debug)]
pub struct Sgd<T> {
    pub learning_rate: T,
}

impl<T: Element> Sgd<T> {
    pub fn new(learning_rate: T) -> (r: Self)
        ensures
            r.learning_rate == learning_rate,
            r.wf(),
    {
        Sgd { learning_rate }
    }
}

impl<T: Element> Optimizer<T> for Sgd<T> {
    open spec fn wf(self) -> bool {
        true
    }

    open spec fn accum(self) -> Seq<Seq<Seq<T>>> {
        Seq::empty()
    }

    open spec fn same_config(self, other: Self) -> bool {
        self.learning_rate == other.learning_rate
    }

    open spec fn ok_spec(self, params: Seq<Seq<Seq<T>>>, grads: Seq<Seq<Seq<T>>>) -> bool {
        params.len() == grads.len() && forall|i: int|
            0 <= i < params.len() ==> shape_eq(#[trigger] params[i], grads[i])
    }

    open spec fn params_after(self, params: Seq<Seq<Seq<T>>>, grads: Seq<Seq<Seq<T>>>) -> Seq<
        Seq<Seq<T>>,
    > {
        Seq::new(params.len(), |i: int| sgd_step(params[i], grads[i], self.learning_rate))
    }

    open spec fn accum_after(self, params: Seq<Seq<Seq<T>>>, grads: Seq<Seq<Seq<T>>>) -> Seq<
        Seq<Seq<T>>,
    > {
        Seq::empty()
    }

    fn update(&mut self, params: &mut Vec<Matrix<T>>, grads: &Vec<Matrix<T>>) -> (r: Result<
        (),
        ShapeError,
    >) {
        let n = params.len();
        if n != grads.len() {
            return Err(ShapeError);
        }
        let mut i: usize = 0;
        while i < n
            invariant
                *self == *old(self),
                *params == *old(params),
                n == params@.len(),
                n == grads@.len(),
                forall|k: int| 0 <= k < n ==> (#[trigger] params@[k]).wf(),
                forall|k: int| 0 <= k < n ==> (#[trigger] grads@[k]).wf(),
                i <= n,
                forall|k: int| 0 <= k < i ==> shape_eq(#[trigger] params@[k]@, grads@[k]@),
            decreases n - i,
        {
            proof {
                lemma_shape_eq_matrices(params@[i as int], grads@[i as int]);
            }
            if params[i].rows() != grads[i].rows() || params[i].columns() != grads[i].columns() {
                proof {
                    assert(!shape_eq(mviews(params@)[i as int], mviews(grads@)[i as int]));
                }
                return Err(ShapeError);
            }
            i = i + 1;
        }
        let mut i: usize = 0;
        while i < n
            invariant
                *self == *old(self),
                n == params@.len(),
                n == grads@.len(),
                forall|k: int| 0 <= k < n ==> (#[trigger] params@[k]).wf(),
                forall|k: int| 0 <= k < n ==> (#[trigger] grads@[k]).wf(),
                forall|k: int| 0 <= k < n ==> shape_eq(#[trigger] old(params)@[k]@, grads@[k]@),
                i <= n,
                forall|k: int| i <= k < n ==> #[trigger] params@[k] == old(params)@[k],
                forall|k: int|
                    0 <= k < i ==> (#[trigger] params@[k])@ == sgd_step(
                        old(params)@[k]@,
                        grads@[k]@,
                        self.learning_rate,
                    ),
            decreases n - i,
        {
            let step = grads[i].scale(self.learning_rate);
            let pn = params[i].sub_same(&step);
            proof {
                assert(pn@ =~~= sgd_step(old(params)@[i as int]@, grads@[i as int]@, self.learning_rate));
            }
            params.set(i, pn);
            i = i + 1;
        }
        proof {
            assert(mviews(params@) =~= old(self).params_after(mviews(old(params)@), mviews(grads@)));
        }
        Ok(())
    }
}

/// One momentum step of a single velocity model:
/// `v ← momentum · v − learning_rate · gradient`, entrywise.
pub open spec fn momentum_step<T: Element>(v: Seq<Seq<T>>, g: Seq<Seq<T>>, lr: T, mf: T) -> Seq<
    Seq<T>,
> {
    Seq::new(
        v.len(),
        |y: int|
            Seq::new(
                v[y].len(),
                |x: int| v[y][x].mul_spec(mf).sub_spec(g[y][x].mul_spec(lr)),
            ),
    )
}

/// Gradient descent with momentum: a per-slot velocity accumulates
/// `momentum · v − learning_rate · gradient` and is added to the
/// parameter.
#[derive(Debug)]
pub struct Momentum<T> {
    pub learning_rate: T,
    pub momentum: T,
    pub v: Vec<Matrix<T>>,
}

impl<T: Element> Momentum<T> {
    pub fn new(learning_rate: T, momentum: T) -> (r: Self)
        ensures
            r.learning_rate == learning_rate,
            r.momentum == momentum,
            r.accum() == Seq::<Seq<Seq<T>>>::empty(),
            r.wf(),
    {
        let r = Momentum { learning_rate, momentum, v: Vec::new() };
        proof {
            assert(r.accum() =~= Seq::<Seq<Seq<T>>>::empty());
        }
        r
    }
}

impl<T: Element> Optimizer<T> for Momentum<T> {
    open spec fn wf(self) -> bool {
        forall|i: int| 0 <= i < self.v@.len() ==> (#[trigger] self.v@[i]).wf()
    }

    open spec fn accum(self) -> Seq<Seq<Seq<T>>> {
        mviews(self.v@)
    }

    open spec fn same_config(self, other: Self) -> bool {
        self.learning_rate == other.learning_rate && self.momentum == other.momentum
    }

    open spec fn ok_spec(self, params: Seq<Seq<Seq<T>>>, grads: Seq<Seq<Seq<T>>>) -> bool {
        &&& params.len() == grads.len()
        &&& forall|i: int| 0 <= i < params.len() ==> shape_eq(#[trigger] params[i], grads[i])
        &&& self.accum().len() <= params.len()
        &&& forall|i: int|
            0 <= i < self.accum().len() ==> shape_eq(#[trigger] self.accum()[i], grads[i])
    }

    open spec fn params_after(self, params: Seq<Seq<Seq<T>>>, grads: Seq<Seq<Seq<T>>>) -> Seq<
        Seq<Seq<T>>,
    > {
        Seq::new(
            params.len(),
            |i: int|
                {
                    let vn = self.accum_after(params, grads)[i];
                    Seq::new(
                        params[i].len(),
                        |y: int|
                            Seq::new(
                                params[i][y].len(),
                                |x: int| params[i][y][x].add_spec(vn[y][x]),
                            ),
                    )
                },
        )
    }

    open spec fn accum_after(self, params: Seq<Seq<Seq<T>>>, grads: Seq<Seq<Seq<T>>>) -> Seq<
        Seq<Seq<T>>,
    > {
        Seq::new(
            params.len(),
            |i: int|
                momentum_step(
                    if i < self.accum().len() {
                        self.accum()[i]
                    } else {
                        zeros_like(grads[i])
                    },
                    grads[i],
                    self.learning_rate,
                    self.momentum,
                ),
        )
    }

    fn update(&mut self, params: &mut Vec<Matrix<T>>, grads: &Vec<Matrix<T>>) -> (r: Result<
        (),
        ShapeError,
    >) {
        let n = params.len();
        if n != grads.len() || self.v.len() > n {
            return Err(ShapeError);
        }
        let mut i: usize = 0;
        while i < n
            invariant
                *self == *old(self),
                *params == *old(params),
                n == params@.len(),
                n == grads@.len(),
                self.v@.len() <= n,
                old(self).wf(),
                forall|k: int| 0 <= k < n ==> (#[trigger] params@[k]).wf(),
                forall|k: int| 0 <= k < n ==> (#[trigger] grads@[k]).wf(),
                i <= n,
                forall|k: int| 0 <= k < i ==> shape_eq(#[trigger] params@[k]@, grads@[k]@),
                forall|k: int|
                    0 <= k < i && k < self.v@.len() ==> shape_eq(
                        (#[trigger] self.v@[k])@,
                        grads@[k]@,
                    ),
            decreases n - i,
        {
            proof {
                lemma_shape_eq_matrices(params@[i as int], grads@[i as int]);
            }
            if params[i].rows() != grads[i].rows() || params[i].columns() != grads[i].columns() {
                proof {
                    assert(!shape_eq(mviews(params@)[i as int], mviews(grads@)[i as int]));
                }
                return Err(ShapeError);
            }
            if i < self.v.len() {
                proof {
                    lemma_shape_eq_matrices(self.v@[i as int], grads@[i as int]);
                }
                if self.v[i].rows() != grads[i].rows() || self.v[i].columns()
                    != grads[i].columns() {
                    proof {
                        assert(!shape_eq(self.accum()[i as int], mviews(grads@)[i as int]));
                    }
                    return Err(ShapeError);
                }
            }
            i = i + 1;
        }
        let ghost old_accum = self.accum();
        let mut i: usize = 0;
        while i < n
            invariant
                self.learning_rate == old(self).learning_rate,
                self.momentum == old(self).momentum,
                n == params@.len(),
                n == grads@.len(),
                old(params)@.len() == n,
                old(self).wf(),
                self.wf(),
                old_accum == old(self).accum(),
                old_accum.len() <= n,
                forall|k: int| 0 <= k < n ==> (#[trigger] params@[k]).wf(),
                forall|k: int| 0 <= k < n ==> (#[trigger] grads@[k]).wf(),
                forall|k: int| 0 <= k < n ==> shape_eq(#[trigger] old(params)@[k]@, grads@[k]@),
                forall|k: int|
                    0 <= k < old_accum.len() ==> shape_eq(#[trigger] old_accum[k], grads@[k]@),
                i <= n,
                self.v@.len() == (if i > old_accum.len() {
                    i as nat
                } else {
                    old_accum.len()
                }),
                forall|k: int|
                    i <= k < old_accum.len() ==> (#[trigger] self.v@[k])@ == old_accum[k],
                forall|k: int| i <= k < n ==> #[trigger] params@[k] == old(params)@[k],
                forall|k: int|
                    0 <= k < i ==> (#[trigger] self.v@[k])@ == old(self).accum_after(
                        mviews(old(params)@),
                        mviews(grads@),
                    )[k],
                forall|k: int|
                    0 <= k < i ==> (#[trigger] params@[k])@ == old(self).params_after(
                        mviews(old(params)@),
                        mviews(grads@),
                    )[k],
            decreases n - i,
        {
            if i >= self.v.len() {
                let z = Matrix::new(grads[i].rows(), grads[i].columns());
                proof {
                    assert(z@ =~~= zeros_like(grads@[i as int]@));
                }
                self.v.push(z);
            }
            let scaled_v = self.v[i].scale(self.momentum);
            let scaled_g = grads[i].scale(self.learning_rate);
            let vn = scaled_v.sub_same(&scaled_g);
            let pn = params[i].add_same(&vn);
            proof {
                let pv = mviews(old(params)@);
                let gv = mviews(grads@);
                let gi = grads@[i as int]@;
                let base = if (i as int) < old_accum.len() {
                    old_accum[i as int]
                } else {
                    zeros_like(gi)
                };
                assert(gv[i as int] == gi);
                assert(pv[i as int] == old(params)@[i as int]@);
                assert(self.v@[i as int]@ =~~= base);
                assert(vn@ =~~= momentum_step(base, gi, self.learning_rate, self.momentum));
                assert(old(self).accum_after(pv, gv)[i as int] == momentum_step(
                    base,
                    gi,
                    self.learning_rate,
                    self.momentum,
                ));
                assert(pn@ =~~= old(self).params_after(pv, gv)[i as int]);
            }
            self.v.set(i, vn);
            params.set(i, pn);
            i = i + 1;
        }
        proof {
            assert(mviews(params@) =~= old(self).params_after(mviews(old(params)@), mviews(grads@)));
            assert(self.accum() =~= old(self).accum_after(mviews(old(params)@), mviews(grads@)));
        }
        Ok(())
    }
}

/// One AdaGrad accumulation of a single slot: the squared gradient is
/// added to the running sum, entrywise.
pub open spec fn adagrad_accum_step<T: Element>(h: Seq<Seq<T>>, g: Seq<Seq<T>>) -> Seq<Seq<T>> {
    Seq::new(
        h.len(),
        |y: int| Seq::new(h[y].len(), |x: int| h[y][x].add_spec(g[y][x].mul_spec(g[y][x]))),
    )
}

/// AdaGrad: a per-slot accumulator sums the squared gradients, and each
/// parameter moves by the gradient scaled down by the square root of that
/// sum (plus a small epsilon that keeps the divisor away from zero).
#[derive(Debug)]
pub struct AdaGrad<T> {
    pub learning_rate: T,
    pub epsilon: T,
    pub h: Vec<Matrix<T>>,
}

impl<T: Element> AdaGrad<T> {
    pub fn new(learning_rate: T, epsilon: T) -> (r: Self)
        ensures
            r.learning_rate == learning_rate,
            r.epsilon == epsilon,
            r.accum() == Seq::<Seq<Seq<T>>>::empty(),
            r.wf(),
    {
        let r = AdaGrad { learning_rate, epsilon, h: Vec::new() };
        proof {
            assert(r.accum() =~= Seq::<Seq<Seq<T>>>::empty());
        }
        r
    }
}

impl<T: Element> Optimizer<T> for AdaGrad<T> {
    open spec fn wf(self) -> bool {
        forall|i: int| 0 <= i < self.h@.len() ==> (#[trigger] self.h@[i]).wf()
    }

    open spec fn accum(self) -> Seq<Seq<Seq<T>>> {
        mviews(self.h@)
    }

    open spec fn same_config(self, other: Self) -> bool {
        self.learning_rate == other.learning_rate && self.epsilon == other.epsilon
    }

    open spec fn ok_spec(self, params: Seq<Seq<Seq<T>>>, grads: Seq<Seq<Seq<T>>>) -> bool {
        &&& params.len() == grads.len()
        &&& forall|i: int| 0 <= i < params.len() ==> shape_eq(#[trigger] params[i], grads[i])
        &&& self.accum().len() <= params.len()
        &&& forall|i: int|
            0 <= i < self.accum().len() ==> shape_eq(#[trigger] self.accum()[i], grads[i])
    }

    open spec fn params_after(self, params: Seq<Seq<Seq<T>>>, grads: Seq<Seq<Seq<T>>>) -> Seq<
        Seq<Seq<T>>,
    > {
        Seq::new(
            params.len(),
            |i: int|
                {
                    let hn = self.accum_after(params, grads)[i];
                    Seq::new(
                        params[i].len(),
                        |y: int|
                            Seq::new(
                                params[i][y].len(),
                                |x: int|
                                    params[i][y][x].sub_spec(
                                        grads[i][y][x].mul_spec(self.learning_rate).div_spec(
                                            hn[y][x].sqrt_spec().add_spec(self.epsilon),
                                        ),
                                    ),
                            ),
                    )
                },
        )
    }

    open spec fn accum_after(self, params: Seq<Seq<Seq<T>>>, grads: Seq<Seq<Seq<T>>>) -> Seq<
        Seq<Seq<T>>,
    > {
        Seq::new(
            params.len(),
            |i: int|
                adagrad_accum_step(
                    if i < self.accum().len() {
                        self.accum()[i]
                    } else {
                        zeros_like(grads[i])
                    },
                    grads[i],
                ),
        )
    }

    fn update(&mut self, params: &mut Vec<Matrix<T>>, grads: &Vec<Matrix<T>>) -> (r: Result<
        (),
        ShapeError,
    >) {
        let n = params.len();
        if n != grads.len() || self.h.len() > n {
            return Err(ShapeError);
        }
        let mut i: usize = 0;
        while i < n
            invariant
                *self == *old(self),
                *params == *old(params),
                n == params@.len(),
                n == grads@.len(),
                self.h@.len() <= n,
                old(self).wf(),
                forall|k: int| 0 <= k < n ==> (#[trigger] params@[k]).wf(),
                forall|k: int| 0 <= k < n ==> (#[trigger] grads@[k]).wf(),
                i <= n,
                forall|k: int| 0 <= k < i ==> shape_eq(#[trigger] params@[k]@, grads@[k]@),
                forall|k: int|
                    0 <= k < i && k < self.h@.len() ==> shape_eq(
                        (#[trigger] self.h@[k])@,
                        grads@[k]@,
                    ),
            decreases n - i,
        {
            proof {
                lemma_shape_eq_matrices(params@[i as int], grads@[i as int]);
            }
            if params[i].rows() != grads[i].rows() || params[i].columns() != grads[i].columns() {
                proof {
                    assert(!shape_eq(mviews(params@)[i as int], mviews(grads@)[i as int]));
                }
                return Err(ShapeError);
            }
            if i < self.h.len() {
                proof {
                    lemma_shape_eq_matrices(self.h@[i as int], grads@[i as int]);
                }
                if self.h[i].rows() != grads[i].rows() || self.h[i].columns()
                    != grads[i].columns() {
                    proof {
                        assert(!shape_eq(self.accum()[i as int], mviews(grads@)[i as int]));
                    }
                    return Err(ShapeError);
                }
            }
            i = i + 1;
        }
        let ghost old_accum = self.accum();
        let mut i: usize = 0;
        while i < n
            invariant
                self.learning_rate == old(self).learning_rate,
                self.epsilon == old(self).epsilon,
                n == params@.len(),
                n == grads@.len(),
                old(params)@.len() == n,
                old(self).wf(),
                self.wf(),
                old_accum == old(self).accum(),
                old_accum.len() <= n,
                forall|k: int| 0 <= k < n ==> (#[trigger] params@[k]).wf(),
                forall|k: int| 0 <= k < n ==> (#[trigger] grads@[k]).wf(),
                forall|k: int| 0 <= k < n ==> shape_eq(#[trigger] old(params)@[k]@, grads@[k]@),
                forall|k: int|
                    0 <= k < old_accum.len() ==> shape_eq(#[trigger] old_accum[k], grads@[k]@),
                i <= n,
                self.h@.len() == (if i > old_accum.len() {
                    i as nat
                } else {
                    old_accum.len()
                }),
                forall|k: int|
                    i <= k < old_accum.len() ==> (#[trigger] self.h@[k])@ == old_accum[k],
                forall|k: int| i <= k < n ==> #[trigger] params@[k] == old(params)@[k],
                forall|k: int|
                    0 <= k < i ==> (#[trigger] self.h@[k])@ == old(self).accum_after(
                        mviews(old(params)@),
                        mviews(grads@),
                    )[k],
                forall|k: int|
                    0 <= k < i ==> (#[trigger] params@[k])@ == old(self).params_after(
                        mviews(old(params)@),
                        mviews(grads@),
                    )[k],
            decreases n - i,
        {
            if i >= self.h.len() {
                let z = Matrix::new(grads[i].rows(), grads[i].columns());
                proof {
                    assert(z@ =~~= zeros_like(grads@[i as int]@));
                }
                self.h.push(z);
            }
            let gg = grads[i].mul_same(&grads[i]);
            let hn = self.h[i].add_same(&gg);
            let denom = hn.sqrt().add_scalar(self.epsilon);
            let scaled_g = grads[i].scale(self.learning_rate);
            let step = scaled_g.div_same(&denom);
            let pn = params[i].sub_same(&step);
            proof {
                let pv = mviews(old(params)@);
                let gv = mviews(grads@);
                let gi = grads@[i as int]@;
                let base = if (i as int) < old_accum.len() {
                    old_accum[i as int]
                } else {
                    zeros_like(gi)
                };
                assert(gv[i as int] == gi);
                assert(pv[i as int] == old(params)@[i as int]@);
                assert(self.h@[i as int]@ =~~= base);
                assert(hn@ =~~= adagrad_accum_step(base, gi));
                assert(old(self).accum_after(pv, gv)[i as int] == adagrad_accum_step(base, gi));
                assert(pn@ =~~= old(self).params_after(pv, gv)[i as int]);
            }
            self.h.set(i, hn);
            params.set(i, pn);
            i = i + 1;
        }
        proof {
            assert(mviews(params@) =~= old(self).params_after(mviews(old(params)@), mviews(grads@)));
            assert(self.accum() =~= old(self).accum_after(mviews(old(params)@), mviews(grads@)));
        }
        Ok(())
    }
}

} // verus!
