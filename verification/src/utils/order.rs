//! The greatest and the least of a vector of scalars.

use crate::error::SelectError;
use crate::scalar::comparable;
use crate::scalar::compare;
use crate::scalar::exceeds;
use crate::scalar::ordered;
use crate::scalar::Scalar;
use vstd::prelude::*;

verus! {

/// The index of the best of the first `n` values: the first value is the best
/// of one, and each further value takes the place of the best so far unless the
/// best so far is strictly greater. Of equal values the last is the best.
pub open spec fn best_among<T: Scalar>(values: Seq<T>, n: int) -> int
    decreases n,
{
    if n <= 1 {
        0
    } else {
        let best = best_among(values, n - 1);
        if exceeds(values[best], values[n - 1]) {
            best
        } else {
            n - 1
        }
    }
}

/// Each of the values from the second up to the one before index `n` can be
/// compared with the best of the values before it.
pub open spec fn ordered_up_to<T: Scalar>(values: Seq<T>, n: int) -> bool {
    forall|k: int| 1 <= k < n ==> comparable(values[#[trigger] best_among(values, k)], values[k])
}

/// The index of the best value: `best_among` all of them.
pub fn best_index<T: Scalar>(values: &Vec<T>) -> (r: Result<usize, SelectError>)
    ensures
        r == Err::<usize, SelectError>(SelectError::NoOutput) <==> values.len() == 0,
        r matches Ok(i) ==> i < values.len(),
        r matches Err(SelectError::Unordered { index }) ==> 1 <= index < values.len(),
        ordered::<T>() ==> (r matches Ok(i) ==> i == best_among(values@, values.len() as int)
            && ordered_up_to(values@, values.len() as int)),
        ordered::<T>() ==> (r matches Err(SelectError::Unordered { index }) ==> ordered_up_to(
            values@,
            index as int,
        ) && !comparable(values[best_among(values@, index as int)], values[index as int])),
{
    if values.len() == 0 {
        return Err(SelectError::NoOutput);
    }
    let mut best: usize = 0;
    let mut n: usize = 1;
    while n < values.len()
        invariant
            1 <= n <= values.len(),
            best < n,
            ordered::<T>() ==> best == best_among(values@, n as int),
            ordered::<T>() ==> ordered_up_to(values@, n as int),
        decreases values.len() - n,
    {
        match compare(values[best], values[n]) {
            None => {
                return Err(SelectError::Unordered { index: n });
            },
            Some(greater) => {
                if !greater {
                    best = n;
                }
            },
        }
        n += 1;
    }
    Ok(best)
}

/// The index of the least of the first `n` values: the first value is the least
/// of one, and each further value takes the place of the least so far only if
/// the least so far is strictly greater. Of equal values the first is the least.
pub open spec fn least_among<T: Scalar>(values: Seq<T>, n: int) -> int
    decreases n,
{
    if n <= 1 {
        0
    } else {
        let least = least_among(values, n - 1);
        if exceeds(values[least], values[n - 1]) {
            n - 1
        } else {
            least
        }
    }
}

/// Each of the values from the second up to the one before index `n` can be
/// compared with the least of the values before it.
pub open spec fn ordered_down_to<T: Scalar>(values: Seq<T>, n: int) -> bool {
    forall|k: int| 1 <= k < n ==> comparable(values[#[trigger] least_among(values, k)], values[k])
}

/// The index of the least value: `least_among` all of them.
pub fn least_index<T: Scalar>(values: &Vec<T>) -> (r: Result<usize, SelectError>)
    ensures
        r == Err::<usize, SelectError>(SelectError::NoOutput) <==> values.len() == 0,
        r matches Ok(i) ==> i < values.len(),
        r matches Err(SelectError::Unordered { index }) ==> 1 <= index < values.len(),
        ordered::<T>() ==> (r matches Ok(i) ==> i == least_among(values@, values.len() as int)
            && ordered_down_to(values@, values.len() as int)),
        ordered::<T>() ==> (r matches Err(SelectError::Unordered { index }) ==> ordered_down_to(
            values@,
            index as int,
        ) && !comparable(values[least_among(values@, index as int)], values[index as int])),
{
    if values.len() == 0 {
        return Err(SelectError::NoOutput);
    }
    let mut least: usize = 0;
    let mut n: usize = 1;
    while n < values.len()
        invariant
            1 <= n <= values.len(),
            least < n,
            ordered::<T>() ==> least == least_among(values@, n as int),
            ordered::<T>() ==> ordered_down_to(values@, n as int),
        decreases values.len() - n,
    {
        match compare(values[least], values[n]) {
            None => {
                return Err(SelectError::Unordered { index: n });
            },
            Some(greater) => {
                if greater {
                    least = n;
                }
            },
        }
        n += 1;
    }
    Ok(least)
}

/// Among the first `n` values, none is greater than the best, and the best is
/// greater than every value after it: it is the last of the greatest. This holds
/// where being greater goes one way only, and where a value that is not greater
/// than a second, which is not greater than a third, is not greater than the
/// third.
pub proof fn lemma_best_is_last_of_the_greatest<T: Scalar>(values: Seq<T>, n: int)
    requires
        1 <= n <= values.len(),
        forall|x: T, y: T| #[trigger] exceeds(x, y) ==> !exceeds(y, x),
        forall|x: T, y: T, z: T|
            !#[trigger] exceeds(x, y) && !#[trigger] exceeds(y, z) ==> !exceeds(x, z),
    ensures
        0 <= best_among(values, n) < n,
        forall|k: int| 0 <= k < n ==> !exceeds(#[trigger] values[k], values[best_among(values, n)]),
        forall|k: int|
            best_among(values, n) < k < n ==> exceeds(
                values[best_among(values, n)],
                #[trigger] values[k],
            ),
    decreases n,
{
    if n > 1 {
        lemma_best_is_last_of_the_greatest(values, n - 1);
    }
}

/// Among the first `n` values, the least is greater than none, and every value
/// before it is greater than it: it is the first of the least. This holds under
/// the same conditions as for the best.
pub proof fn lemma_least_is_first_of_the_least<T: Scalar>(values: Seq<T>, n: int)
    requires
        1 <= n <= values.len(),
        forall|x: T, y: T| #[trigger] exceeds(x, y) ==> !exceeds(y, x),
        forall|x: T, y: T, z: T|
            !#[trigger] exceeds(x, y) && !#[trigger] exceeds(y, z) ==> !exceeds(x, z),
    ensures
        0 <= least_among(values, n) < n,
        forall|k: int| 0 <= k < n ==> !exceeds(values[least_among(values, n)], #[trigger] values[k]),
        forall|k: int|
            0 <= k < least_among(values, n) ==> exceeds(
                #[trigger] values[k],
                values[least_among(values, n)],
            ),
    decreases n,
{
    if n > 1 {
        lemma_least_is_first_of_the_least(values, n - 1);
    }
}

} // verus!
