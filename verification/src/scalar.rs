use vstd::prelude::*;

verus! {

/// The element type of a tensor.
///
/// Every arithmetic step a tensor performs is one of these operations, so a
/// tensor's contract can pin each element of a result down to a term built
/// from the spec functions below. An implementation chooses the meaning of
/// the operations by giving the spec functions bodies and must prove (or, for
/// an unverified implementation outside this crate, promise) that each
/// executable operation returns exactly what its spec function describes.
pub trait Scalar: Sized + Copy {
    /// The additive identity, used to seed every accumulation.
    spec fn zero_spec() -> Self;

    /// The multiplicative identity, used to fill `Tensor::one`.
    spec fn one_spec() -> Self;

    /// The meaning of `add`.
    spec fn add_spec(a: Self, b: Self) -> Self;

    /// The meaning of `sub`.
    spec fn sub_spec(a: Self, b: Self) -> Self;

    /// The meaning of `mul`.
    spec fn mul_spec(a: Self, b: Self) -> Self;

    /// The meaning of `div`.
    spec fn div_spec(a: Self, b: Self) -> Self;

    /// The meaning of `abs`.
    spec fn abs_spec(a: Self) -> Self;

    /// The meaning of `powf`.
    spec fn powf_spec(a: Self, p: Self) -> Self;

    /// The meaning of `exp`.
    spec fn exp_spec(a: Self) -> Self;

    /// The meaning of `relu`.
    spec fn relu_spec(a: Self) -> Self;

    /// The meaning of `relu_prime`.
    spec fn relu_prime_spec(a: Self) -> Self;

    /// The meaning of `from_count`.
    spec fn from_count_spec(n: usize) -> Self;

    /// The meaning of `from_unit`.
    spec fn from_unit_spec(x: i32) -> Self;

    fn zero() -> (r: Self)
        ensures
            r == Self::zero_spec(),
    ;

    fn one() -> (r: Self)
        ensures
            r == Self::one_spec(),
    ;

    fn add(a: Self, b: Self) -> (r: Self)
        ensures
            r == Self::add_spec(a, b),
    ;

    fn sub(a: Self, b: Self) -> (r: Self)
        ensures
            r == Self::sub_spec(a, b),
    ;

    fn mul(a: Self, b: Self) -> (r: Self)
        ensures
            r == Self::mul_spec(a, b),
    ;

    fn div(a: Self, b: Self) -> (r: Self)
        ensures
            r == Self::div_spec(a, b),
    ;

    fn abs(a: Self) -> (r: Self)
        ensures
            r == Self::abs_spec(a),
    ;

    fn powf(a: Self, p: Self) -> (r: Self)
        ensures
            r == Self::powf_spec(a, p),
    ;

    fn exp(a: Self) -> (r: Self)
        ensures
            r == Self::exp_spec(a),
    ;

    fn relu(a: Self) -> (r: Self)
        ensures
            r == Self::relu_spec(a),
    ;

    fn relu_prime(a: Self) -> (r: Self)
        ensures
            r == Self::relu_prime_spec(a),
    ;

    /// The scalar standing for a count of `n` elements, used by the losses
    /// to divide by an element or batch count.
    fn from_count(n: usize) -> (r: Self)
        ensures
            r == Self::from_count_spec(n),
    ;

    /// The scalar standing for a raw 32-bit draw from a generator,
    /// normalized into the unit range; used to initialize weights.
    fn from_unit(x: i32) -> (r: Self)
        ensures
            r == Self::from_unit_spec(x),
    ;
}

/// The recursive meaning of `IntScalar::powf`: `e` wrapping multiplications
/// by `base`, starting from one.
pub open spec fn int_pow(base: i64, e: nat) -> i64
    decreases e,
{
    if e == 0 {
        1i64
    } else {
        vstd::wrapping::i64_specs::wrapping_mul(int_pow(base, (e - 1) as nat), base)
    }
}

/// An exact scalar: a 64-bit integer with wrapping arithmetic.
///
/// Overflow wraps, division truncates toward zero (and yields zero for a zero
/// divisor), `exp` is the saturating base-two exponential, and `powf` is
/// iterated multiplication (zero for a negative exponent). The type gives the
/// tensor algebra one implementation whose operations are fully verified
/// against their spec functions.
#[derive(Clone, Copy, PartialEq, Eq, Structural, Debug)]
pub struct IntScalar(pub i64);

impl Scalar for IntScalar {
    open spec fn zero_spec() -> Self {
        IntScalar(0)
    }

    open spec fn one_spec() -> Self {
        IntScalar(1)
    }

    open spec fn add_spec(a: Self, b: Self) -> Self {
        IntScalar(vstd::wrapping::i64_specs::wrapping_add(a.0, b.0))
    }

    open spec fn sub_spec(a: Self, b: Self) -> Self {
        IntScalar(vstd::wrapping::i64_specs::wrapping_sub(a.0, b.0))
    }

    open spec fn mul_spec(a: Self, b: Self) -> Self {
        IntScalar(vstd::wrapping::i64_specs::wrapping_mul(a.0, b.0))
    }

    open spec fn div_spec(a: Self, b: Self) -> Self {
        match a.0.checked_div(b.0) {
            Some(q) => IntScalar(q),
            None => IntScalar(0),
        }
    }

    open spec fn abs_spec(a: Self) -> Self {
        if a.0 == i64::MIN {
            IntScalar(i64::MIN)
        } else if a.0 < 0 {
            IntScalar((-a.0) as i64)
        } else {
            a
        }
    }

    open spec fn powf_spec(a: Self, p: Self) -> Self {
        if p.0 < 0 {
            IntScalar(0)
        } else {
            IntScalar(int_pow(a.0, p.0 as nat))
        }
    }

    open spec fn exp_spec(a: Self) -> Self {
        if a.0 < 0 {
            IntScalar(0)
        } else if a.0 >= 63 {
            IntScalar(i64::MAX)
        } else {
            IntScalar(1i64 << a.0)
        }
    }

    open spec fn relu_spec(a: Self) -> Self {
        if a.0 > 0 {
            a
        } else {
            IntScalar(0)
        }
    }

    open spec fn relu_prime_spec(a: Self) -> Self {
        if a.0 > 0 {
            IntScalar(1)
        } else {
            IntScalar(0)
        }
    }

    open spec fn from_count_spec(n: usize) -> Self {
        if n as u64 > i64::MAX as u64 {
            IntScalar(i64::MAX)
        } else {
            IntScalar(n as u64 as i64)
        }
    }

    open spec fn from_unit_spec(x: i32) -> Self {
        if x == i32::MAX {
            IntScalar(1)
        } else if x == i32::MIN {
            IntScalar(-1i64)
        } else {
            IntScalar(0)
        }
    }

    fn zero() -> (r: Self) {
        IntScalar(0)
    }

    fn one() -> (r: Self) {
        IntScalar(1)
    }

    fn add(a: Self, b: Self) -> (r: Self) {
        IntScalar(a.0.wrapping_add(b.0))
    }

    fn sub(a: Self, b: Self) -> (r: Self) {
        IntScalar(a.0.wrapping_sub(b.0))
    }

    fn mul(a: Self, b: Self) -> (r: Self) {
        IntScalar(a.0.wrapping_mul(b.0))
    }

    fn div(a: Self, b: Self) -> (r: Self) {
        match a.0.checked_div(b.0) {
            Some(q) => IntScalar(q),
            None => IntScalar(0),
        }
    }

    fn abs(a: Self) -> (r: Self) {
        if a.0 == i64::MIN {
            IntScalar(i64::MIN)
        } else if a.0 < 0 {
            IntScalar(-a.0)
        } else {
            a
        }
    }

    fn powf(a: Self, p: Self) -> (r: Self) {
        if p.0 < 0 {
            IntScalar(0)
        } else {
            let e: u64 = p.0 as u64;
            let mut acc: i64 = 1;
            let mut i: u64 = 0;
            while i < e
                invariant
                    i <= e,
                    e == p.0 as u64,
                    acc == int_pow(a.0, i as nat),
                decreases e - i,
            {
                acc = acc.wrapping_mul(a.0);
                i = i + 1;
            }
            IntScalar(acc)
        }
    }

    fn exp(a: Self) -> (r: Self) {
        if a.0 < 0 {
            IntScalar(0)
        } else if a.0 >= 63 {
            IntScalar(i64::MAX)
        } else {
            IntScalar(1i64 << a.0)
        }
    }

    fn relu(a: Self) -> (r: Self) {
        if a.0 > 0 {
            a
        } else {
            IntScalar(0)
        }
    }

    fn relu_prime(a: Self) -> (r: Self) {
        if a.0 > 0 {
            IntScalar(1)
        } else {
            IntScalar(0)
        }
    }

    fn from_count(n: usize) -> (r: Self) {
        if n as u64 > i64::MAX as u64 {
            IntScalar(i64::MAX)
        } else {
            IntScalar(n as u64 as i64)
        }
    }

    fn from_unit(x: i32) -> (r: Self) {
        if x == i32::MAX {
            IntScalar(1)
        } else if x == i32::MIN {
            IntScalar(-1)
        } else {
            IntScalar(0)
        }
    }
}

} // verus!
