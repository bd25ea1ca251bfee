//! The numbers a network computes with.
//!
//! The library never names a number type of its own. Every function is generic
//! over a scalar `T` that supports the four arithmetic operators, comparison
//! and conversion from a small integer; the sigmoid asks for negation too. What a function computes is
//! stated over the specifications that Verus attaches to these operations, and
//! holds for every scalar type in which the operations that the function uses
//! obey them. What a function states of lengths and of errors holds for every
//! scalar type.

use core::cmp::Ordering;
use core::ops::Add;
use core::ops::Div;
use core::ops::Mul;
use core::ops::Neg;
use core::ops::Sub;
use vstd::prelude::*;
use vstd::std_specs::cmp::PartialOrdIs;
use vstd::std_specs::cmp::PartialOrdSpec;
use vstd::std_specs::convert::FromSpec;
use vstd::std_specs::ops::AddSpec;
use vstd::std_specs::ops::DivSpec;
use vstd::std_specs::ops::MulSpec;
use vstd::std_specs::ops::NegSpec;
use vstd::std_specs::ops::SubSpec;

verus! {

/// A number type that a network can be built over.
pub trait Scalar: Copy + From<u8> + PartialOrd + Add<Output = Self> + Sub<Output = Self> + Mul<
    Output = Self,
> + Div<Output = Self> {

}

impl<T> Scalar for T where
    T: Copy + From<u8> + PartialOrd + Add<Output = T> + Sub<Output = T> + Mul<Output = T> + Div<
        Output = T,
    >,
 {
}

/// Any two values of `T` may be added.
pub open spec fn can_add<T: Scalar>() -> bool {
    forall|x: T, y: T| #[trigger] x.add_req(y)
}

/// Any value of `T` may be subtracted from any other.
pub open spec fn can_subtract<T: Scalar>() -> bool {
    forall|x: T, y: T| #[trigger] x.sub_req(y)
}

/// Any two values of `T` may be multiplied.
pub open spec fn can_multiply<T: Scalar>() -> bool {
    forall|x: T, y: T| #[trigger] x.mul_req(y)
}

/// Any value of `T` may be divided by any other.
pub open spec fn can_divide<T: Scalar>() -> bool {
    forall|x: T, y: T| #[trigger] x.div_req(y)
}

/// Any value of `T` may be negated.
pub open spec fn can_negate<T: Scalar + Neg<Output = T>>() -> bool {
    forall|x: T| #[trigger] x.neg_req()
}

/// Values of `T` may be multiplied and added, as a dot product asks.
pub open spec fn can_dot<T: Scalar>() -> bool {
    can_add::<T>() && can_multiply::<T>()
}

/// Values of `T` may be multiplied, added and divided, as an average of costs
/// over forward passes asks.
pub open spec fn can_average<T: Scalar>() -> bool {
    can_dot::<T>() && can_divide::<T>()
}

/// Values of `T` may be added, subtracted, multiplied and divided, as gradient
/// descent asks.
pub open spec fn can_descend<T: Scalar>() -> bool {
    can_add::<T>() && can_subtract::<T>() && can_multiply::<T>() && can_divide::<T>()
}

/// Converting a small integer to `T` returns exactly what its specification says.
pub open spec fn converts<T: Scalar>() -> bool {
    <T as FromSpec<u8>>::obeys_from_spec()
}

/// Comparing two values of `T` returns exactly what its specification says.
pub open spec fn ordered<T: Scalar>() -> bool {
    T::obeys_partial_cmp_spec()
}

/// Adding two values of `T` returns exactly what its specification says.
pub open spec fn adds<T: Scalar>() -> bool {
    T::obeys_add_spec()
}

/// Subtracting two values of `T` returns exactly what its specification says.
pub open spec fn subtracts<T: Scalar>() -> bool {
    T::obeys_sub_spec()
}

/// Multiplying two values of `T` returns exactly what its specification says.
pub open spec fn multiplies<T: Scalar>() -> bool {
    T::obeys_mul_spec()
}

/// Dividing two values of `T` returns exactly what its specification says.
pub open spec fn divides<T: Scalar>() -> bool {
    T::obeys_div_spec()
}

/// Negating a value of `T` returns exactly what its specification says.
pub open spec fn negates<T: Scalar + Neg<Output = T>>() -> bool {
    T::obeys_neg_spec()
}

/// A sum of values of `T`, added up from zero, is exact.
pub open spec fn exact_sum<T: Scalar>() -> bool {
    converts::<T>() && adds::<T>()
}

/// A dot product of values of `T` is exact.
pub open spec fn exact_dot<T: Scalar>() -> bool {
    exact_sum::<T>() && multiplies::<T>()
}

/// An average of values of `T` is exact.
pub open spec fn exact_mean<T: Scalar>() -> bool {
    exact_sum::<T>() && divides::<T>()
}

/// A step of gradient descent on values of `T` is exact: sums, differences,
/// products and quotients are.
pub open spec fn exact_descent<T: Scalar>() -> bool {
    exact_sum::<T>() && subtracts::<T>() && multiplies::<T>() && divides::<T>()
}

/// The scalar that the integer `n` converts to.
pub open spec fn number<T: Scalar>(n: u8) -> T {
    T::from_spec(n)
}

/// The scalar zero.
pub open spec fn zero<T: Scalar>() -> T {
    number::<T>(0)
}

/// The scalar one.
pub open spec fn one<T: Scalar>() -> T {
    number::<T>(1)
}

/// `x` is strictly greater than `y`.
pub open spec fn exceeds<T: Scalar>(x: T, y: T) -> bool {
    x.is_gt(&y)
}

/// `x` and `y` can be compared.
pub open spec fn comparable<T: Scalar>(x: T, y: T) -> bool {
    x.partial_cmp_spec(&y) is Some
}

/// How `x` stands to `y`: whether it is strictly greater, or nothing where the
/// two cannot be compared.
pub open spec fn compared<T: Scalar>(x: T, y: T) -> Option<bool> {
    if comparable(x, y) {
        Some(exceeds(x, y))
    } else {
        None
    }
}

/// Tells whether `x` is strictly greater than `y`, or nothing where the two
/// cannot be compared.
pub fn compare<T: Scalar>(x: T, y: T) -> (r: Option<bool>)
    ensures
        ordered::<T>() ==> r == compared(x, y),
{
    match x.partial_cmp(&y) {
        Some(Ordering::Greater) => Some(true),
        Some(_) => Some(false),
        None => None,
    }
}

/// Tells whether `x` is strictly greater than `y`. It is not where the two cannot
/// be compared.
pub fn is_greater<T: Scalar>(x: T, y: T) -> (r: bool)
    ensures
        ordered::<T>() ==> r == exceeds(x, y),
{
    x > y
}

/// The scalar that `n` converts to.
pub fn scalar_of<T: Scalar>(n: u8) -> (r: T)
    ensures
        converts::<T>() ==> r == number::<T>(n),
{
    T::from(n)
}

} // verus!
