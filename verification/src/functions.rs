//! Pure, stateless activation and loss functions over the scalar field.

use vstd::prelude::*;

use crate::element::Element;
use crate::element::Transcendental;
use crate::matrix::sum_prefix;
use crate::matrix::sum_seq;

verus! {

/// The running maximum of the first `n` entries of `xs`, seeded with the
/// first entry.
pub open spec fn max_prefix<T: Element>(xs: Seq<T>, n: int) -> T
    decreases n,
{
    if n <= 1 {
        xs[0]
    } else if max_prefix(xs, n - 1).lt_spec(xs[n - 1]) {
        xs[n - 1]
    } else {
        max_prefix(xs, n - 1)
    }
}

/// The maximum of a non-empty sequence under the field's strict order.
pub open spec fn max_seq<T: Element>(xs: Seq<T>) -> T {
    max_prefix(xs, xs.len() as int)
}

/// The index of the running maximum of the first `n` entries of `xs`;
/// a later entry takes over only when it is strictly greater, so under a
/// total order this is the index of the first maximum.
pub open spec fn argmax_prefix<T: Element>(xs: Seq<T>, n: int) -> int
    decreases n,
{
    if n <= 1 {
        0
    } else if xs[argmax_prefix(xs, n - 1)].lt_spec(xs[n - 1]) {
        n - 1
    } else {
        argmax_prefix(xs, n - 1)
    }
}

/// The index of the first maximum of a non-empty sequence.
pub open spec fn argmax_seq<T: Element>(xs: Seq<T>) -> int {
    argmax_prefix(xs, xs.len() as int)
}

/// For a scalar whose order is the integer order, `argmax_seq` really is
/// the index of the first maximum: no entry is greater, and every earlier
/// entry is strictly smaller.
pub proof fn lemma_argmax_is_first_maximum(xs: Seq<i64>)
    requires
        xs.len() > 0,
    ensures
        0 <= argmax_seq(xs) < xs.len(),
        forall|i: int| 0 <= i < xs.len() ==> #[trigger] xs[i] <= xs[argmax_seq(xs)],
        forall|i: int| 0 <= i < argmax_seq(xs) ==> #[trigger] xs[i] < xs[argmax_seq(xs)],
{
    lemma_argmax_prefix_first_maximum(xs, xs.len() as int);
}

proof fn lemma_argmax_prefix_first_maximum(xs: Seq<i64>, n: int)
    requires
        1 <= n <= xs.len(),
    ensures
        0 <= argmax_prefix(xs, n) < n,
        forall|i: int| 0 <= i < n ==> #[trigger] xs[i] <= xs[argmax_prefix(xs, n)],
        forall|i: int| 0 <= i < argmax_prefix(xs, n) ==> #[trigger] xs[i] < xs[argmax_prefix(xs, n)],
    decreases n,
{
    if n == 1 {
    } else {
        lemma_argmax_prefix_first_maximum(xs, n - 1);
    }
}

/// The index of the first maximum value; empty input is a programmer
/// error and is excluded outright.
pub fn argmax<T: Element>(xs: &Vec<T>) -> (r: usize)
    requires
        xs@.len() > 0,
    ensures
        r == argmax_seq(xs@),
        r < xs@.len(),
    {
    let n = xs.len();
    let mut max_value = xs[0];
    let mut max_index: usize = 0;
    let mut i: usize = 1;
    while i < n
        invariant
            n == xs@.len(),
            1 <= i <= n,
            max_index == argmax_prefix(xs@, i as int),
            max_index < i,
            max_value == xs@[max_index as int],
        decreases n - i,
    {
        if max_value.lt(xs[i]) {
            max_value = xs[i];
            max_index = i;
        }
        i = i + 1;
    }
    max_index
}

/// One where the argument is strictly positive, zero elsewhere.
pub fn step<T: Element>(x: T) -> (r: T)
    ensures
        r == (if T::zero_spec().lt_spec(x) {
            T::one_spec()
        } else {
            T::zero_spec()
        }),
{
    if T::zero().lt(x) {
        T::one()
    } else {
        T::zero()
    }
}

/// The identity activation.
pub fn identity<T: Element>(x: T) -> (r: T)
    ensures
        r == x,
{
    x
}

/// The rectifier: the argument where it is strictly positive, zero
/// elsewhere.
pub fn relu<T: Element>(x: T) -> (r: T)
    ensures
        r == (if T::zero_spec().lt_spec(x) {
            x
        } else {
            T::zero_spec()
        }),
{
    if T::zero().lt(x) {
        x
    } else {
        T::zero()
    }
}

/// The logistic function `1 / (1 + exp(−x))`.
pub open spec fn sigmoid_spec<T: Transcendental>(x: T) -> T {
    T::one_spec().div_spec(T::one_spec().add_spec(T::zero_spec().sub_spec(x).exp_spec()))
}

/// The logistic function `1 / (1 + exp(−x))`.
pub fn sigmoid<T: Transcendental>(x: T) -> (r: T)
    ensures
        r == sigmoid_spec(x),
{
    T::one().div(T::one().add(T::zero().sub(x).exp()))
}

/// The entries of `xs` shifted down by the maximum and exponentiated:
/// the overflow-avoiding core of `softmax`.
pub open spec fn shifted_exps<T: Transcendental>(xs: Seq<T>) -> Seq<T> {
    Seq::new(xs.len(), |i: int| xs[i].sub_spec(max_seq(xs)).exp_spec())
}

/// The softmax of a row: each shifted exponential divided by their sum.
pub open spec fn softmax_spec<T: Transcendental>(xs: Seq<T>) -> Seq<T> {
    Seq::new(xs.len(), |i: int| shifted_exps(xs)[i].div_spec(sum_seq(shifted_exps(xs))))
}

/// The softmax of a row.  The maximum entry is subtracted before
/// exponentiating, so inputs with large magnitudes do not overflow the
/// exponential.
pub fn softmax<T: Transcendental>(xs: &Vec<T>) -> (r: Vec<T>)
    ensures
        r@ == softmax_spec(xs@),
        r@.len() == xs@.len(),
{
    let n = xs.len();
    if n == 0 {
        let r: Vec<T> = Vec::new();
        proof {
            assert(r@ =~= softmax_spec(xs@));
        }
        return r;
    }
    let mut mx = xs[0];
    let mut i: usize = 1;
    while i < n
        invariant
            n == xs@.len(),
            1 <= i <= n,
            mx == max_prefix(xs@, i as int),
        decreases n - i,
    {
        if mx.lt(xs[i]) {
            mx = xs[i];
        }
        i = i + 1;
    }
    let mut es: Vec<T> = Vec::new();
    let mut i: usize = 0;
    while i < n
        invariant
            n == xs@.len(),
            mx == max_seq(xs@),
            i <= n,
            es@.len() == i,
            forall|k: int| 0 <= k < i ==> #[trigger] es@[k] == shifted_exps(xs@)[k],
        decreases n - i,
    {
        es.push(xs[i].sub(mx).exp());
        i = i + 1;
    }
    proof {
        assert(es@ =~= shifted_exps(xs@));
    }
    let mut total = T::zero();
    let mut i: usize = 0;
    while i < n
        invariant
            n == es@.len(),
            es@ == shifted_exps(xs@),
            i <= n,
            total == sum_prefix(es@, i as int),
        decreases n - i,
    {
        total = total.add(es[i]);
        i = i + 1;
    }
    let mut r: Vec<T> = Vec::new();
    let mut i: usize = 0;
    while i < n
        invariant
            n == es@.len(),
            n == xs@.len(),
            es@ == shifted_exps(xs@),
            total == sum_seq(shifted_exps(xs@)),
            i <= n,
            r@.len() == i,
            forall|k: int| 0 <= k < i ==> #[trigger] r@[k] == softmax_spec(xs@)[k],
        decreases n - i,
    {
        r.push(es[i].div(total));
        i = i + 1;
    }
    proof {
        assert(r@ =~= softmax_spec(xs@));
    }
    r
}

/// The argument of the logarithm in cross-entropy: an exact zero is
/// replaced by the field's epsilon so the logarithm stays finite; every
/// other value — a negative one or a non-number included — passes through
/// and propagates.
pub open spec fn ln_arg<T: Transcendental>(p: T) -> T {
    if p.is_zero_spec() {
        T::epsilon_spec()
    } else {
        p
    }
}

/// `−Σ observed[i] · ln(predicted[i])`, with exact zeros among the
/// predictions replaced by the field's epsilon.
pub open spec fn cross_entropy_spec<T: Transcendental>(predicted: Seq<T>, observed: Seq<T>) -> T {
    T::zero_spec().sub_spec(
        sum_seq(Seq::new(predicted.len(), |i: int| observed[i].mul_spec(ln_arg(predicted[i]).ln_spec()))),
    )
}

/// The cross-entropy error of a predicted distribution against an
/// observed (one-hot) distribution.
pub fn cross_entropy_error<T: Transcendental>(predicted: &Vec<T>, observed: &Vec<T>) -> (r: T)
    requires
        predicted@.len() == observed@.len(),
    ensures
        r == cross_entropy_spec(predicted@, observed@),
{
    let ghost terms = Seq::new(
        predicted@.len(),
        |i: int| observed@[i].mul_spec(ln_arg(predicted@[i]).ln_spec()),
    );
    let n = predicted.len();
    let mut acc = T::zero();
    let mut i: usize = 0;
    while i < n
        invariant
            n == predicted@.len(),
            n == observed@.len(),
            terms == Seq::new(
                predicted@.len(),
                |k: int| observed@[k].mul_spec(ln_arg(predicted@[k]).ln_spec()),
            ),
            i <= n,
            acc == sum_prefix(terms, i as int),
        decreases n - i,
    {
        let p = predicted[i];
        let arg = if p.is_zero() {
            T::epsilon()
        } else {
            p
        };
        acc = acc.add(observed[i].mul(arg.ln()));
        i = i + 1;
    }
    T::zero().sub(acc)
}

/// `0.5 · Σ (predicted[i] − observed[i])²`, the squared sum halved by the
/// field's division.
pub open spec fn mean_squared_spec<T: Element>(predicted: Seq<T>, observed: Seq<T>) -> T {
    sum_seq(
        Seq::new(
            predicted.len(),
            |i: int| predicted[i].sub_spec(observed[i]).mul_spec(predicted[i].sub_spec(observed[i])),
        ),
    ).div_spec(T::from_usize_spec(2))
}

/// The mean squared error of a prediction against an observation.
pub fn mean_squared_error<T: Element>(predicted: &Vec<T>, observed: &Vec<T>) -> (r: T)
    requires
        predicted@.len() == observed@.len(),
    ensures
        r == mean_squared_spec(predicted@, observed@),
{
    let ghost terms = Seq::new(
        predicted@.len(),
        |i: int| predicted@[i].sub_spec(observed@[i]).mul_spec(
            predicted@[i].sub_spec(observed@[i]),
        ),
    );
    let n = predicted.len();
    let mut acc = T::zero();
    let mut i: usize = 0;
    while i < n
        invariant
            n == predicted@.len(),
            n == observed@.len(),
            terms == Seq::new(
                predicted@.len(),
                |k: int| predicted@[k].sub_spec(observed@[k]).mul_spec(
                    predicted@[k].sub_spec(observed@[k]),
                ),
            ),
            i <= n,
            acc == sum_prefix(terms, i as int),
        decreases n - i,
    {
        let d = predicted[i].sub(observed[i]);
        acc = acc.add(d.mul(d));
        i = i + 1;
    }
    acc.div(T::from_usize(2))
}

/// The central difference quotient of `f` at `x` with step `h`:
/// `(f(x + h) − f(x − h)) / (2·h)`.
pub fn numerical_diff<T: Element, F: Fn(T) -> T>(f: F, x: T, h: T) -> (r: T)
    requires
        call_requires(f, (x.add_spec(h),)),
        call_requires(f, (x.sub_spec(h),)),
    ensures
        exists|fp: T, fm: T|
            {
                &&& #[trigger] call_ensures(f, (x.add_spec(h),), fp)
                &&& #[trigger] call_ensures(f, (x.sub_spec(h),), fm)
                &&& r == fp.sub_spec(fm).div_spec(T::from_usize_spec(2).mul_spec(h))
            },
{
    let fp = f(x.add(h));
    let fm = f(x.sub(h));
    fp.sub(fm).div(T::from_usize(2).mul(h))
}

} // verus!
