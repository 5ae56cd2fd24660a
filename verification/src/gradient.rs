//! Finite-difference gradients over flat parameter vectors, and plain
//! gradient descent driven by them.

use vstd::prelude::*;

use crate::element::Element;

verus! {

/// Entry `v` is the central difference quotient of `f` at entry `i` of
/// the vector model `a` with step `h`.
pub open spec fn vec_fd_entry<T: Element, F: Fn(&Vec<T>) -> T>(
    f: F,
    a: Seq<T>,
    i: int,
    h: T,
    v: T,
) -> bool {
    exists|vp: Vec<T>, vm: Vec<T>, fp: T, fm: T|
        {
            &&& vp@ == a.update(i, a[i].add_spec(h))
            &&& vm@ == a.update(i, a[i].sub_spec(h))
            &&& #[trigger] call_ensures(f, (&vp,), fp)
            &&& #[trigger] call_ensures(f, (&vm,), fm)
            &&& v == fp.sub_spec(fm).div_spec(T::from_usize_spec(2).mul_spec(h))
        }
}

/// `g` is the central finite-difference gradient estimate of `f` at `a`
/// with step `h`: one difference quotient per entry.
pub open spec fn vec_fd_grad<T: Element, F: Fn(&Vec<T>) -> T>(
    f: F,
    a: Seq<T>,
    g: Seq<T>,
    h: T,
) -> bool {
    g.len() == a.len() && forall|i: int| 0 <= i < a.len() ==> vec_fd_entry(f, a, i, h, #[trigger] g[i])
}

/// The central finite-difference gradient of `f` at `xs` with step `h`:
/// each entry is perturbed by `+h` and by `−h` in turn, `f` is evaluated,
/// and the entry is restored before the next one, so `xs` comes back
/// bit-identical.
pub fn numerical_gradient<T: Element, F: Fn(&Vec<T>) -> T>(f: F, xs: &Vec<T>, h: T) -> (r: Vec<T>)
    requires
        forall|v: &Vec<T>| v@.len() == xs@.len() ==> #[trigger] call_requires(f, (v,)),
    ensures
        vec_fd_grad(f, xs@, r@, h),
{
    let n = xs.len();
    let two_h = T::from_usize(2).mul(h);
    let mut temp: Vec<T> = Vec::new();
    let mut i: usize = 0;
    while i < n
        invariant
            n == xs@.len(),
            i <= n,
            temp@.len() == i,
            forall|k: int| 0 <= k < i ==> #[trigger] temp@[k] == xs@[k],
        decreases n - i,
    {
        temp.push(xs[i]);
        i = i + 1;
    }
    proof {
        assert(temp@ =~= xs@);
    }
    let mut grad: Vec<T> = Vec::new();
    let mut i: usize = 0;
    while i < n
        invariant
            n == xs@.len(),
            forall|v: &Vec<T>| v@.len() == xs@.len() ==> #[trigger] call_requires(f, (v,)),
            two_h == T::from_usize_spec(2).mul_spec(h),
            i <= n,
            temp@ == xs@,
            grad@.len() == i,
            forall|k: int| 0 <= k < i ==> vec_fd_entry(f, xs@, k, h, #[trigger] grad@[k]),
        decreases n - i,
    {
        let base = temp[i];
        temp.set(i, base.add(h));
        let fp = f(&temp);
        let ghost vp = temp@;
        temp.set(i, base.sub(h));
        let fm = f(&temp);
        let ghost vm = temp@;
        temp.set(i, base);
        proof {
            assert(temp@ =~= xs@);
        }
        let v = fp.sub(fm).div(two_h);
        proof {
            assert(vp == xs@.update(i as int, xs@[i as int].add_spec(h)));
            assert(vm == xs@.update(i as int, xs@[i as int].sub_spec(h)));
            assert(vec_fd_entry(f, xs@, i as int, h, v));
        }
        grad.push(v);
        i = i + 1;
    }
    grad
}

/// One gradient-descent step: the new vector moves against some central
/// finite-difference gradient estimate of `f` at the old one.
pub open spec fn descent_step_rel<T: Element, F: Fn(&Vec<T>) -> T>(
    f: F,
    a: Seq<T>,
    b: Seq<T>,
    lr: T,
    h: T,
) -> bool {
    &&& b.len() == a.len()
    &&& exists|g: Seq<T>|
        {
            &&& #[trigger] vec_fd_grad(f, a, g, h)
            &&& b == Seq::new(a.len(), |i: int| a[i].sub_spec(lr.mul_spec(g[i])))
        }
}

/// `b` is reachable from `a` by exactly `n` gradient-descent steps of `f`.
pub open spec fn descends<T: Element, F: Fn(&Vec<T>) -> T>(
    f: F,
    a: Seq<T>,
    b: Seq<T>,
    lr: T,
    h: T,
    n: nat,
) -> bool
    decreases n,
{
    if n == 0 {
        a == b
    } else {
        exists|mid: Seq<T>|
            {
                &&& descends(f, a, mid, lr, h, (n - 1) as nat)
                &&& #[trigger] descent_step_rel(f, mid, b, lr, h)
            }
    }
}

/// Repeated gradient descent in place: `step_num` rounds of estimating
/// the gradient with step `h` and moving every entry against it, scaled
/// by the learning rate.
pub fn gradient_descent<T: Element, F: Fn(&Vec<T>) -> T + Copy>(
    f: F,
    xs: &mut Vec<T>,
    learning_rate: T,
    step_num: usize,
    h: T,
)
    requires
        forall|v: &Vec<T>| v@.len() == old(xs)@.len() ==> #[trigger] call_requires(f, (v,)),
    ensures
        final(xs)@.len() == old(xs)@.len(),
        descends(f, old(xs)@, final(xs)@, learning_rate, h, step_num as nat),
{
    let mut s: usize = 0;
    while s < step_num
        invariant
            xs@.len() == old(xs)@.len(),
            forall|v: &Vec<T>| v@.len() == old(xs)@.len() ==> #[trigger] call_requires(f, (v,)),
            s <= step_num,
            descends(f, old(xs)@, xs@, learning_rate, h, s as nat),
        decreases step_num - s,
    {
        let ghost pre = xs@;
        let grads = numerical_gradient(f, xs, h);
        let n = xs.len();
        let mut i: usize = 0;
        while i < n
            invariant
                n == xs@.len(),
                n == pre.len(),
                n == grads@.len(),
                i <= n,
                forall|k: int| i <= k < n ==> #[trigger] xs@[k] == pre[k],
                forall|k: int|
                    0 <= k < i ==> #[trigger] xs@[k] == pre[k].sub_spec(
                        learning_rate.mul_spec(grads@[k]),
                    ),
            decreases n - i,
        {
            let v = xs[i].sub(learning_rate.mul(grads[i]));
            xs.set(i, v);
            i = i + 1;
        }
        proof {
            assert(descent_step_rel(f, pre, xs@, learning_rate, h)) by {
                assert(vec_fd_grad(f, pre, grads@, h));
                assert(xs@ =~= Seq::new(
                    pre.len(),
                    |k: int| pre[k].sub_spec(learning_rate.mul_spec(grads@[k])),
                ));
            }
            assert(descends(f, old(xs)@, xs@, learning_rate, h, (s + 1) as nat)) by {
                reveal_with_fuel(descends, 2);
                let n1 = (s + 1) as nat;
                assert((n1 - 1) as nat == s as nat);
                assert(descends(f, old(xs)@, pre, learning_rate, h, (n1 - 1) as nat));
                assert(descent_step_rel(f, pre, xs@, learning_rate, h));
            }
        }
        s = s + 1;
    }
}

} // verus!
