//! How an input is prepared before it enters the network.

use crate::error::SelectError;
use crate::functions::keeps_length;
use crate::scalar::comparable;
use crate::scalar::can_divide;
use crate::scalar::can_subtract;
use crate::scalar::divides;
use crate::scalar::ordered;
use crate::scalar::subtracts;
use crate::scalar::exceeds;
use crate::scalar::is_greater;
use crate::scalar::Scalar;
use crate::utils::math::copy_vec;
use crate::utils::order::best_among;
use crate::utils::order::best_index;
use crate::utils::order::least_among;
use crate::utils::order::least_index;
use crate::utils::order::ordered_down_to;
use crate::utils::order::ordered_up_to;
use vstd::prelude::*;
use vstd::std_specs::ops::DivSpec;
use vstd::std_specs::ops::SubSpec;

verus! {

/// How an input is prepared before it enters the network.
pub struct NormalizationFn<'a, N> {
    pub function: N,
    pub description: &'a str,
    /// latex formula
    pub formula: &'a str,
}

impl<'a, N> NormalizationFn<'a, N> {
    /// The function may be called on every vector and keeps its length.
    pub open spec fn fits<T>(&self) -> bool where N: Fn(&Vec<T>) -> Vec<T> {
        keeps_length::<T, N>(self.function)
    }
}

/// Leaves the input as it is.
pub fn no_func<T: Copy>(input: &Vec<T>) -> (r: Vec<T>)
    ensures
        r@ == input@,
{
    copy_vec(input)
}

/// The value `x` on the scale from `least` to `greatest`: where the two are
/// more than `epsilon` apart, how far `x` is above `least`, as a part of how
/// far `greatest` is; else `x` itself.
pub open spec fn rescaled<T: Scalar>(x: T, least: T, greatest: T, epsilon: T) -> T {
    if exceeds(greatest.sub_spec(least), epsilon) {
        x.sub_spec(least).div_spec(greatest.sub_spec(least))
    } else {
        x
    }
}

/// Every entry of the input on the scale from its least to its greatest entry.
pub open spec fn min_max<T: Scalar>(input: Seq<T>, epsilon: T) -> Seq<T> {
    Seq::new(
        input.len(),
        |i: int|
            rescaled(
                input[i],
                input[least_among(input, input.len() as int)],
                input[best_among(input, input.len() as int)],
                epsilon,
            ),
    )
}

/// Scales the input to the range from zero to one
/// https://www.baeldung.com/cs/normalizing-inputs-artificial-neural-network
///
/// The least entry becomes zero and the greatest one. An input whose least and
/// greatest entry are no more than `epsilon` apart is left as it is. Nothing is
/// returned for an empty input, or where the greatest or the least entry cannot
/// be told; the greatest is looked for first.
pub fn normalization<T: Scalar>(input: &Vec<T>, epsilon: T) -> (r: Result<Vec<T>, SelectError>)
    requires
        can_subtract::<T>() && can_divide::<T>(),
    ensures
        r == Err::<Vec<T>, SelectError>(SelectError::NoOutput) <==> input.len() == 0,
        r matches Err(SelectError::Unordered { index }) ==> {
            &&& 1 <= index < input.len()
            &&& ordered::<T>() ==> {
                ||| ordered_up_to(input@, index as int) && !comparable(
                    input[best_among(input@, index as int)],
                    input[index as int],
                )
                ||| ordered_up_to(input@, input.len() as int) && ordered_down_to(
                    input@,
                    index as int,
                ) && !comparable(input[least_among(input@, index as int)], input[index as int])
            }
        },
        r matches Ok(out) ==> {
            &&& out.len() == input.len()
            &&& ordered::<T>() ==> {
                &&& ordered_up_to(input@, input.len() as int)
                &&& ordered_down_to(input@, input.len() as int)
            }
            &&& ordered::<T>() && subtracts::<T>() && divides::<T>() ==> out@ == min_max(
                input@,
                epsilon,
            )
        },
{
    let max = match best_index(input) {
        Err(e) => {
            return Err(e);
        },
        Ok(i) => input[i],
    };
    let min = match least_index(input) {
        Err(e) => {
            return Err(e);
        },
        Ok(i) => input[i],
    };
    let spread = max - min;
    if !is_greater(spread, epsilon) {
        let out = copy_vec(input);
        return Ok(out);
    }
    let mut out: Vec<T> = Vec::new();
    let mut i: usize = 0;
    while i < input.len()
        invariant
            can_subtract::<T>() && can_divide::<T>(),
            i <= input.len(),
            out.len() == i,
            subtracts::<T>() ==> spread == max.sub_spec(min),
            subtracts::<T>() && divides::<T>() ==> forall|k: int|
                0 <= k < i ==> #[trigger] out[k] == input[k].sub_spec(min).div_spec(spread),
        decreases input.len() - i,
    {
        out.push((input[i] - min) / (max - min));
        i += 1;
    }
    Ok(out)
}

} // verus!
