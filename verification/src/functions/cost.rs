//! How far a prediction is from what was expected.

use crate::error::ShapeError;
use crate::functions::keeps_first_length;
use crate::functions::takes_pairs;
use crate::scalar::can_descend;
use crate::scalar::can_multiply;
use crate::scalar::can_subtract;
use crate::scalar::converts;
use crate::scalar::exact_descent;
use crate::scalar::multiplies;
use crate::scalar::subtracts;
use crate::scalar::number;
use crate::scalar::scalar_of;
use crate::scalar::zero;
use crate::scalar::Scalar;
use crate::utils::math::mismatch;
use crate::utils::math::sum;
use crate::utils::math::sum_of;
use vstd::prelude::*;
use vstd::std_specs::ops::AddSpec;
use vstd::std_specs::ops::DivSpec;
use vstd::std_specs::ops::MulSpec;
use vstd::std_specs::ops::SubSpec;

verus! {

/// How far a prediction is from what was expected.
pub struct CostFunc<'a, C, D> {
    /// From the predicted and the expected values to the cost.
    pub function: C,
    /// From the predicted and the expected values to the derivative of the cost
    /// with respect to each predicted value.
    pub derivative: D,
    pub description: &'a str,
    /// latex formula
    pub formula: &'a str,
    /// latex formula
    pub formula_derivative: &'a str,
}

impl<'a, C, D> CostFunc<'a, C, D> {
    /// Both functions may be called on every two vectors of one length, and the
    /// derivative is as long as the prediction.
    pub open spec fn fits<T>(&self) -> bool where
        C: Fn(&Vec<T>, &Vec<T>) -> T,
        D: Fn(&Vec<T>, &Vec<T>) -> Vec<T>,
     {
        &&& takes_pairs::<T, T, C>(self.function)
        &&& takes_pairs::<T, Vec<T>, D>(self.derivative)
        &&& keeps_first_length::<T, D>(self.derivative)
    }
}

/// The square of the difference of `a` and `y`.
pub open spec fn squared_error<T: Scalar>(a: T, y: T) -> T {
    a.sub_spec(y).mul_spec(a.sub_spec(y))
}

/// The squared error of each predicted value.
pub open spec fn squared_errors<T: Scalar>(predicted: Seq<T>, expected: Seq<T>) -> Seq<T> {
    Seq::new(predicted.len(), |i: int| squared_error(predicted[i], expected[i]))
}

/// `cost` is the mean squared error: the sum of the squared errors divided by
/// what `as_scalar` made of their number.
pub open spec fn mean_squared_error<T: Scalar, S: Fn(usize) -> T>(
    predicted: Seq<T>,
    expected: Seq<T>,
    as_scalar: S,
    cost: T,
) -> bool {
    exists|count: T| #[trigger]
        call_ensures(as_scalar, (expected.len() as usize,), count) && (exact_descent::<T>() ==> cost == sum(
            squared_errors(predicted, expected),
        ).div_spec(count))
}

/// Mean Squared Error
///  - predicted: the values that were predicted
///  - expected: expected output values; same length as predicted
///  - as_scalar: turns the number of values into a scalar
///
/// returns the cost
pub fn mse<T: Scalar, S: Fn(usize) -> T>(predicted: &Vec<T>, expected: &Vec<T>, as_scalar: &S) -> (r:
    Result<T, ShapeError>)
    requires
        can_descend::<T>(),
        forall|n: usize| #[trigger] call_requires(*as_scalar, (n,)),
    ensures
        r is Ok <==> predicted.len() == expected.len(),
        r matches Err(e) ==> e == mismatch(predicted.len(), expected.len()),
        r matches Ok(cost) ==> mean_squared_error(predicted@, expected@, *as_scalar, cost),
{
    if predicted.len() != expected.len() {
        return Err(ShapeError::LengthMismatch { left: predicted.len(), right: expected.len() });
    }
    let mut squares: Vec<T> = Vec::new();
    let mut i: usize = 0;
    while i < predicted.len()
        invariant
            can_descend::<T>(),
            predicted.len() == expected.len(),
            i <= predicted.len(),
            squares.len() == i,
            exact_descent::<T>() ==> forall|k: int|
                0 <= k < i ==> #[trigger] squares[k] == squared_error(predicted[k], expected[k]),
        decreases predicted.len() - i,
    {
        let error = predicted[i] - expected[i];
        squares.push(error * error);
        i += 1;
    }
    let whole = sum_of(&squares);
    let count = as_scalar(expected.len());
    let cost = whole / count;
    proof {
        if exact_descent::<T>() {
            assert(squares@ =~= squared_errors(predicted@, expected@));
        }
        assert(expected@.len() as usize == expected.len());
    }
    Ok(cost)
}

/// Twice the difference of each predicted value and the value expected.
pub open spec fn error_slopes<T: Scalar>(predicted: Seq<T>, expected: Seq<T>) -> Seq<T> {
    Seq::new(predicted.len(), |i: int| number::<T>(2).mul_spec(predicted[i].sub_spec(expected[i])))
}

/// Derivative of the Mean Squared Error with respect to the activations (predictions)
///  - predicted: the values that were predicted
///  - expected: expected output values; same length as predicted
///
/// returns the derivatives of the cost function with respect to each predicted value
pub fn mse_deriv<T: Scalar>(predicted: &Vec<T>, expected: &Vec<T>) -> (r: Result<Vec<T>, ShapeError>)
    requires
        can_subtract::<T>() && can_multiply::<T>(),
    ensures
        r is Ok <==> predicted.len() == expected.len(),
        r matches Err(e) ==> e == mismatch(predicted.len(), expected.len()),
        r matches Ok(slopes) ==> slopes.len() == predicted.len() && (converts::<T>() && subtracts::<T>() && multiplies::<T>() ==> slopes@
            == error_slopes(predicted@, expected@)),
{
    if predicted.len() != expected.len() {
        return Err(ShapeError::LengthMismatch { left: predicted.len(), right: expected.len() });
    }
    let two: T = scalar_of(2);
    let mut out: Vec<T> = Vec::new();
    let mut i: usize = 0;
    while i < predicted.len()
        invariant
            can_subtract::<T>() && can_multiply::<T>(),
            predicted.len() == expected.len(),
            i <= predicted.len(),
            out.len() == i,
            converts::<T>() && subtracts::<T>() && multiplies::<T>() ==> two == number::<T>(2),
            converts::<T>() && subtracts::<T>() && multiplies::<T>() ==> forall|k: int|
                0 <= k < i ==> #[trigger] out[k] == number::<T>(2).mul_spec(
                    predicted[k].sub_spec(expected[k]),
                ),
        decreases predicted.len() - i,
    {
        out.push(two * (predicted[i] - expected[i]));
        i += 1;
    }
    Ok(out)
}

/// The squared errors of a vector against itself add up to zero, for scalars
/// where each entry minus itself is zero, zero times zero is zero and zero plus
/// zero is zero.
pub proof fn lemma_no_error_sums_to_zero<T: Scalar>(x: Seq<T>)
    requires
        forall|i: int| 0 <= i < x.len() ==> (#[trigger] x[i]).sub_spec(x[i]) == zero::<T>(),
        zero::<T>().mul_spec(zero::<T>()) == zero::<T>(),
        zero::<T>().add_spec(zero::<T>()) == zero::<T>(),
    ensures
        sum(squared_errors(x, x)) == zero::<T>(),
    decreases x.len(),
{
    if x.len() > 0 {
        let rest = x.drop_last();
        lemma_no_error_sums_to_zero(rest);
        assert(squared_errors(x, x).drop_last() =~= squared_errors(rest, rest));
    }
}

/// The mean squared error of a vector against itself is zero, for scalars with
/// exact arithmetic where each entry minus itself is zero, zero times zero is
/// zero, zero plus zero is zero, and zero divided by the number of entries is
/// zero.
pub proof fn lemma_mse_of_equal_is_zero<T: Scalar, S: Fn(usize) -> T>(
    x: Seq<T>,
    as_scalar: S,
    cost: T,
)
    requires
        exact_descent::<T>(),
        mean_squared_error(x, x, as_scalar, cost),
        forall|i: int| 0 <= i < x.len() ==> (#[trigger] x[i]).sub_spec(x[i]) == zero::<T>(),
        zero::<T>().mul_spec(zero::<T>()) == zero::<T>(),
        zero::<T>().add_spec(zero::<T>()) == zero::<T>(),
        forall|count: T| #[trigger]
            call_ensures(as_scalar, (x.len() as usize,), count) ==> zero::<T>().div_spec(count)
                == zero::<T>(),
    ensures
        cost == zero::<T>(),
{
    lemma_no_error_sums_to_zero(x);
}

} // verus!
