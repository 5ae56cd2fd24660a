//! The scalar field that the matrix and layer code is generic over.
//!
//! Every arithmetic operation of the toolkit is expressed through the
//! [`Element`] trait: an implementation supplies an executable operation
//! together with a specification-level function that pins down exactly what
//! the operation returns.  All matrix, layer and optimizer contracts are
//! stated over these specification functions, so they hold for any
//! implementation of the trait.  The crate itself implements the trait for
//! `i64`, with wrapping ring operations, truncating division and the integer
//! (floor) square root.

use vstd::prelude::*;

verus! {

/// A scalar that supports the operations the toolkit needs: the ring
/// operations, division, a square root, and a strict order used by the
/// rectifier and by `argmax`.
///
/// Each executable method returns exactly what its companion `spec` function
/// describes, so code that is generic over `Element` can be verified once and
/// for all implementations.
pub trait Element: Sized + Copy {
    /// The additive identity of the field.
    spec fn zero_spec() -> Self;

    /// The multiplicative identity of the field.
    spec fn one_spec() -> Self;

    /// The image of a machine integer in the field.
    spec fn from_usize_spec(n: usize) -> Self;

    spec fn add_spec(self, other: Self) -> Self;

    spec fn sub_spec(self, other: Self) -> Self;

    spec fn mul_spec(self, other: Self) -> Self;

    spec fn div_spec(self, other: Self) -> Self;

    spec fn sqrt_spec(self) -> Self;

    /// The strict order of the field.
    spec fn lt_spec(self, other: Self) -> bool;

    /// The value is exactly the additive identity.
    spec fn is_zero_spec(self) -> bool;

    fn zero() -> (r: Self)
        ensures
            r == Self::zero_spec(),
    ;

    fn one() -> (r: Self)
        ensures
            r == Self::one_spec(),
    ;

    fn from_usize(n: usize) -> (r: Self)
        ensures
            r == Self::from_usize_spec(n),
    ;

    fn add(self, other: Self) -> (r: Self)
        ensures
            r == self.add_spec(other),
    ;

    fn sub(self, other: Self) -> (r: Self)
        ensures
            r == self.sub_spec(other),
    ;

    fn mul(self, other: Self) -> (r: Self)
        ensures
            r == self.mul_spec(other),
    ;

    /// Division.  Implementations must be total; what they return for a zero
    /// divisor is up to their `div_spec` (the `i64` implementation returns
    /// zero, the floating-point production type divides and propagates the
    /// platform result).
    fn div(self, other: Self) -> (r: Self)
        ensures
            r == self.div_spec(other),
    ;

    /// Square root.  Implementations must be total; negative arguments are a
    /// caller error and each implementation documents what it returns for
    /// them.
    fn sqrt(self) -> (r: Self)
        ensures
            r == self.sqrt_spec(),
    ;

    fn lt(self, other: Self) -> (r: bool)
        ensures
            r == self.lt_spec(other),
    ;

    fn is_zero(self) -> (r: bool)
        ensures
            r == self.is_zero_spec(),
    ;
}

/// The transcendental capabilities of the scalar field: the exponential
/// map, the natural logarithm, and the tiny positive value that stands in
/// for an exact zero before a logarithm is taken.
///
/// The toolkit's activation and loss functions state their results over
/// these specification functions, so they are verified once for every
/// implementation.  The production scalar — the 64-bit float, which cannot
/// appear in verified code — implements this trait outside the verified
/// core with the platform operations.
pub trait Transcendental: Element {
    spec fn exp_spec(self) -> Self;

    spec fn ln_spec(self) -> Self;

    /// The machine epsilon of the field: substituted for an exact zero
    /// before a logarithm, so that the logarithm stays finite.
    spec fn epsilon_spec() -> Self;

    fn exp(self) -> (r: Self)
        ensures
            r == self.exp_spec(),
    ;

    fn ln(self) -> (r: Self)
        ensures
            r == self.ln_spec(),
    ;

    fn epsilon() -> (r: Self)
        ensures
            r == Self::epsilon_spec(),
    ;
}

/// The integer (floor) square root: the largest `r` with `r * r <= n`,
/// and `0` for arguments that are not positive.
pub open spec fn int_sqrt(n: int) -> int
    decreases n,
{
    if n <= 0 {
        0
    } else if (int_sqrt(n - 1) + 1) * (int_sqrt(n - 1) + 1) <= n {
        int_sqrt(n - 1) + 1
    } else {
        int_sqrt(n - 1)
    }
}

/// `int_sqrt(n)` really is the floor of the square root: it is non-negative,
/// its square is at most `n`, and the next square is beyond `n`.
pub proof fn lemma_int_sqrt(n: int)
    requires
        n >= 0,
    ensures
        0 <= int_sqrt(n),
        int_sqrt(n) * int_sqrt(n) <= n,
        n < (int_sqrt(n) + 1) * (int_sqrt(n) + 1),
    decreases n,
{
    if n == 0 {
    } else {
        lemma_int_sqrt(n - 1);
        let p = int_sqrt(n - 1);
        if (p + 1) * (p + 1) <= n {
            assert(int_sqrt(n) == p + 1);
            assert(n <= (p + 1) * (p + 1));
            assert(n < (p + 1 + 1) * (p + 1 + 1)) by (nonlinear_arith)
                requires
                    n == (p + 1) * (p + 1),
                    p >= 0,
            ;
        } else {
            assert(int_sqrt(n) == p);
            assert(n < (p + 1) * (p + 1));
        }
    }
}

impl Element for i64 {
    open spec fn zero_spec() -> i64 {
        0
    }

    open spec fn one_spec() -> i64 {
        1
    }

    open spec fn from_usize_spec(n: usize) -> i64 {
        n as i64
    }

    open spec fn add_spec(self, other: i64) -> i64 {
        self.wrapping_add(other)
    }

    open spec fn sub_spec(self, other: i64) -> i64 {
        self.wrapping_sub(other)
    }

    open spec fn mul_spec(self, other: i64) -> i64 {
        self.wrapping_mul(other)
    }

    /// Truncating division, total: a zero divisor yields zero, and the one
    /// overflowing quotient (`i64::MIN / -1`) wraps back to `i64::MIN`.
    open spec fn div_spec(self, other: i64) -> i64 {
        match self.checked_div(other) {
            Some(q) => q,
            None => if other == 0 {
                0
            } else {
                i64::MIN
            },
        }
    }

    /// The integer (floor) square root; negative arguments yield zero.
    open spec fn sqrt_spec(self) -> i64 {
        int_sqrt(self as int) as i64
    }

    open spec fn lt_spec(self, other: i64) -> bool {
        self < other
    }

    open spec fn is_zero_spec(self) -> bool {
        self == 0
    }

    fn zero() -> i64 {
        0
    }

    fn one() -> i64 {
        1
    }

    #[verifier::truncate]
    fn from_usize(n: usize) -> i64 {
        n as i64
    }

    fn add(self, other: i64) -> i64 {
        self.wrapping_add(other)
    }

    fn sub(self, other: i64) -> i64 {
        self.wrapping_sub(other)
    }

    fn mul(self, other: i64) -> i64 {
        self.wrapping_mul(other)
    }

    fn div(self, other: i64) -> i64 {
        match self.checked_div(other) {
            Some(q) => q,
            None => if other == 0 {
                0
            } else {
                i64::MIN
            },
        }
    }

    fn sqrt(self) -> i64 {
        if self <= 0 {
            assert(int_sqrt(self as int) == 0);
            0
        } else {
            let a: u64 = self as u64;
            let mut r: u64 = 0;
            loop
                invariant
                    a == self as int,
                    0 < a <= i64::MAX,
                    r * r <= a,
                    r <= a,
                ensures
                    r * r <= a < (r + 1) * (r + 1),
                decreases a - r,
            {
                proof {
                    assert(r <= 3037000499) by (nonlinear_arith)
                        requires
                            r * r <= 0x7fffffffffffffff,
                    ;
                    assert((r + 1) * (r + 1) <= u64::MAX) by (nonlinear_arith)
                        requires
                            r <= 3037000499u64,
                    ;
                }
                let rp = r + 1;
                if rp * rp <= a {
                    proof {
                        assert(rp <= a) by (nonlinear_arith)
                            requires
                                rp * rp <= a,
                                rp >= 1,
                        ;
                    }
                    r = rp;
                } else {
                    break;
                }
            }
            proof {
                assert(r == int_sqrt(a as int)) by {
                    lemma_int_sqrt(a as int);
                    let s = int_sqrt(a as int);
                    if s < r {
                        assert((s + 1) * (s + 1) <= r * r) by (nonlinear_arith)
                            requires
                                0 <= s,
                                s + 1 <= r,
                        ;
                    }
                    if r < s {
                        assert((r + 1) * (r + 1) <= s * s) by (nonlinear_arith)
                            requires
                                0 <= r,
                                r + 1 <= s,
                        ;
                    }
                }
            }
            r as i64
        }
    }

    fn lt(self, other: i64) -> bool {
        self < other
    }

    fn is_zero(self) -> bool {
        self == 0
    }
}

} // verus!
