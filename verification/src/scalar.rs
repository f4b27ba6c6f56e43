//! The numbers the renderer computes with.
use vstd::prelude::*;

verus! {

/// A kind of number that coordinates, depths and light intensities can be
/// made of. The renderer is written once against this trait, and every one of
/// its contracts holds of whatever arithmetic an implementation brings.
///
/// Each operation is total and is a function of its operands alone: the
/// specification function beside it names what it returns. A verified
/// implementation, such as [`Fixed`](crate::fixed::Fixed), says what each of
/// them is, and is held to it.
///
/// An implementation that is compiled without the verifier, such as one
/// over floating-point numbers, writes the operations only. The
/// specification functions then keep their default bodies, which say
/// nothing, and nothing is proved of such an implementation: what the
/// library states of a scan holds of it as far as its operations are total
/// functions of their operands.
pub trait Scalar: Copy + Sized {
    /// The scalar that stands for the whole number `n`.
    open spec fn of_index(n: usize) -> Self {
        arbitrary()
    }

    /// The whole number that `to_usize` makes of a scalar.
    open spec fn to_index(self) -> usize {
        arbitrary()
    }

    /// What `add` returns.
    open spec fn sum(self, rhs: Self) -> Self {
        arbitrary()
    }

    /// What `sub` returns.
    open spec fn difference(self, rhs: Self) -> Self {
        arbitrary()
    }

    /// What `mul` returns.
    open spec fn product(self, rhs: Self) -> Self {
        arbitrary()
    }

    /// What `div` returns.
    open spec fn quotient(self, rhs: Self) -> Self {
        arbitrary()
    }

    /// What `neg` returns.
    open spec fn negation(self) -> Self {
        arbitrary()
    }

    /// What `sqrt` returns.
    open spec fn root(self) -> Self {
        arbitrary()
    }

    /// What `lt` returns: the strict order of the scalars.
    open spec fn less(self, rhs: Self) -> bool {
        arbitrary()
    }

    /// What `parse` makes of a piece of text.
    open spec fn parsed(text: Seq<u8>) -> Option<Self> {
        arbitrary()
    }

    /// Converts a whole number to the scalar that stands for it.
    fn from_usize(n: usize) -> (r: Self)
        ensures
            r == Self::of_index(n),
    ;

    /// Cuts the scalar down to a whole number, to name a pixel with it. An
    /// implementation is expected to drop the fraction, to give zero below
    /// zero and the largest `usize` beyond it.
    fn to_usize(self) -> (r: usize)
        ensures
            r == self.to_index(),
    ;

    fn add(self, rhs: Self) -> (r: Self)
        ensures
            r == self.sum(rhs),
    ;

    fn sub(self, rhs: Self) -> (r: Self)
        ensures
            r == self.difference(rhs),
    ;

    fn mul(self, rhs: Self) -> (r: Self)
        ensures
            r == self.product(rhs),
    ;

    fn div(self, rhs: Self) -> (r: Self)
        ensures
            r == self.quotient(rhs),
    ;

    /// The scalar with the opposite sign.
    fn neg(self) -> (r: Self)
        ensures
            r == self.negation(),
    ;

    /// The square root.
    fn sqrt(self) -> (r: Self)
        ensures
            r == self.root(),
    ;

    /// Is `self` strictly below `rhs`?
    fn lt(self, rhs: Self) -> (r: bool)
        ensures
            r == self.less(rhs),
    ;

    /// Reads a number written in decimal, `None` where `text` is no number.
    fn parse(text: &[u8]) -> (r: Option<Self>)
        ensures
            r == Self::parsed(text@),
    ;
}

/// The scalar zero.
pub open spec fn zero<T: Scalar>() -> T {
    T::of_index(0)
}

/// The scalar one.
pub open spec fn one<T: Scalar>() -> T {
    T::of_index(1)
}

/// The distance of `a` from zero: `a` itself unless it lies below zero.
pub open spec fn magnitude<T: Scalar>(a: T) -> T {
    if a.less(zero()) {
        a.negation()
    } else {
        a
    }
}

/// The distance of `a` from zero.
pub fn abs<T: Scalar>(a: T) -> (r: T)
    ensures
        r == magnitude(a),
{
    if a.lt(T::from_usize(0)) {
        a.neg()
    } else {
        a
    }
}

/// The larger of `a` and `b`; `a` where neither lies below the other.
pub open spec fn larger<T: Scalar>(a: T, b: T) -> T {
    if a.less(b) {
        b
    } else {
        a
    }
}

/// The smaller of `a` and `b`; `a` where neither lies below the other.
pub open spec fn smaller<T: Scalar>(a: T, b: T) -> T {
    if b.less(a) {
        b
    } else {
        a
    }
}

/// The larger of `a` and `b`.
pub fn max<T: Scalar>(a: T, b: T) -> (r: T)
    ensures
        r == larger(a, b),
{
    if a.lt(b) {
        b
    } else {
        a
    }
}

/// The smaller of `a` and `b`.
pub fn min<T: Scalar>(a: T, b: T) -> (r: T)
    ensures
        r == smaller(a, b),
{
    if b.lt(a) {
        b
    } else {
        a
    }
}

} // verus!
