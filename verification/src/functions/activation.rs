//! How the values of a layer are activated.

use crate::error::SelectError;
use crate::functions::keeps_length;
use crate::functions::weight_init::InitFn;
use crate::scalar::comparable;
use crate::scalar::can_add;
use crate::scalar::can_divide;
use crate::scalar::can_negate;
use crate::scalar::can_subtract;
use crate::scalar::converts;
use crate::scalar::divides;
use crate::scalar::exact_mean;
use crate::scalar::multiplies;
use crate::scalar::negates;
use crate::scalar::ordered;
use crate::scalar::subtracts;
use crate::scalar::exceeds;
use crate::scalar::is_greater;
use crate::scalar::one;
use crate::scalar::scalar_of;
use crate::scalar::can_descend;
use crate::scalar::zero;
use crate::scalar::Scalar;
use crate::utils::math::sum;
use crate::utils::math::sum_of;
use crate::utils::order::best_among;
use crate::utils::order::best_index;
use crate::utils::order::ordered_up_to;
use core::ops::Neg;
use vstd::prelude::*;
use vstd::std_specs::ops::AddSpec;
use vstd::std_specs::ops::DivSpec;
use vstd::std_specs::ops::MulSpec;
use vstd::std_specs::ops::NegSpec;
use vstd::std_specs::ops::SubSpec;

verus! {

/// How the values of a layer are activated.
pub struct ActivationFunction<'a, F, D, I> {
    /// From the values of a layer before activation to its values after.
    pub function: F,
    /// From the values of a layer before activation to the derivative of each
    /// activated value with respect to the value before activation.
    pub derivative: D,
    pub description: &'a str,
    /// latex formula
    pub formula: &'a str,
    /// latex formula
    pub formula_derivative: &'a str,
    /// How the weights of a layer with this activation are first drawn.
    pub init_fn: &'a InitFn<'a, I>,
}

impl<'a, F, D, I> ActivationFunction<'a, F, D, I> {
    /// Both functions may be called on every vector and keep its length, and the
    /// initializer may be called on every count of at least one.
    pub open spec fn fits<T>(&self) -> bool where
        F: Fn(&Vec<T>) -> Vec<T>,
        D: Fn(&Vec<T>) -> Vec<T>,
        I: Fn(usize) -> T,
     {
        &&& keeps_length::<T, F>(self.function)
        &&& keeps_length::<T, D>(self.derivative)
        &&& self.init_fn.fits::<T>()
    }
}

/// `exp` may be called on every scalar.
pub open spec fn takes_scalars<T, E: Fn(T) -> T>(exp: E) -> bool {
    forall|x: T| #[trigger] call_requires(exp, (x,))
}

/// `s` is the logistic function of `z`: one divided by one plus what `exp`
/// returned for the negation of `z`.
pub open spec fn logistic_of<T: Scalar + Neg<Output = T>, E: Fn(T) -> T>(exp: E, z: T, s: T) -> bool {
    exists|e: T| #[trigger]
        call_ensures(exp, (z.neg_spec(),), e) && s == one::<T>().div_spec(one::<T>().add_spec(e))
}

/// `out` holds the logistic function of each entry of `zs`.
pub open spec fn logistic<T: Scalar + Neg<Output = T>, E: Fn(T) -> T>(exp: E, zs: Seq<T>, out: Seq<T>) -> bool {
    &&& out.len() == zs.len()
    &&& negates::<T>() && exact_mean::<T>() ==> forall|i: int|
        0 <= i < zs.len() ==> logistic_of(exp, zs[i], #[trigger] out[i])
}

/// Sigmoid activation function
/// https://en.wikipedia.org/wiki/Sigmoid_function
///
/// `exp` raises Euler's number to the power given.
pub fn sigmoid<T: Scalar + Neg<Output = T>, E: Fn(T) -> T>(zs: &Vec<T>, exp: &E) -> (r: Vec<T>)
    requires
        can_negate::<T>() && can_add::<T>() && can_divide::<T>(),
        takes_scalars::<T, E>(*exp),
    ensures
        logistic(*exp, zs@, r@),
{
    let mut out: Vec<T> = Vec::new();
    let mut i: usize = 0;
    while i < zs.len()
        invariant
            can_negate::<T>() && can_add::<T>() && can_divide::<T>(),
            takes_scalars::<T, E>(*exp),
            i <= zs.len(),
            out.len() == i,
            negates::<T>() && exact_mean::<T>() ==> forall|k: int|
                0 <= k < i ==> logistic_of(*exp, zs[k], #[trigger] out[k]),
        decreases zs.len() - i,
    {
        let e = exp(zs[i].neg());
        let unit: T = scalar_of(1);
        out.push(unit / (unit + e));
        i += 1;
    }
    out
}

/// `r` holds, for each entry of `sig`, the entry times one minus the entry.
pub open spec fn logistic_slopes<T: Scalar>(sig: Seq<T>, r: Seq<T>) -> bool {
    &&& r.len() == sig.len()
    &&& converts::<T>() && subtracts::<T>() && multiplies::<T>() ==> forall|i: int|
        0 <= i < sig.len() ==> #[trigger] r[i] == sig[i].mul_spec(one::<T>().sub_spec(sig[i]))
}

/// `r` is the derivative of the sigmoid at `zs`: for the sigmoid `s` of each
/// entry, `s` times one minus `s`.
pub open spec fn sigmoid_slopes<T: Scalar + Neg<Output = T>, E: Fn(T) -> T>(exp: E, zs: Seq<T>, r: Seq<T>) -> bool {
    exists|sig: Seq<T>| #[trigger] logistic(exp, zs, sig) && logistic_slopes(sig, r)
}

/// Derivative of the sigmoid activation function
///
/// It is computed from the sigmoid of each entry.
pub fn sigmoid_deriv<T: Scalar + Neg<Output = T>, E: Fn(T) -> T>(zs: &Vec<T>, exp: &E) -> (r: Vec<T>)
    requires
        can_descend::<T>() && can_negate::<T>(),
        takes_scalars::<T, E>(*exp),
    ensures
        r.len() == zs.len(),
        sigmoid_slopes(*exp, zs@, r@),
{
    let sig = sigmoid(zs, exp);
    let mut out: Vec<T> = Vec::new();
    let mut i: usize = 0;
    while i < sig.len()
        invariant
            can_descend::<T>() && can_negate::<T>(),
            i <= sig.len(),
            out.len() == i,
            converts::<T>() && subtracts::<T>() && multiplies::<T>() ==> forall|k: int|
                0 <= k < i ==> #[trigger] out[k] == sig[k].mul_spec(one::<T>().sub_spec(sig[k])),
        decreases sig.len() - i,
    {
        let unit: T = scalar_of(1);
        out.push(sig[i] * (unit - sig[i]));
        i += 1;
    }
    out
}

/// The rectified value of `z`: `z` where it is greater than zero, else zero.
pub open spec fn rectified<T: Scalar>(z: T) -> T {
    if exceeds(z, zero::<T>()) {
        z
    } else {
        zero::<T>()
    }
}

/// The derivative of the rectifier at `z`: one where `z` is greater than zero,
/// else zero, also at zero itself.
pub open spec fn rectifier_slope<T: Scalar>(z: T) -> T {
    if exceeds(z, zero::<T>()) {
        one::<T>()
    } else {
        zero::<T>()
    }
}

/// ReLU activation function
/// https://en.wikipedia.org/wiki/Rectifier_(neural_networks)
pub fn relu<T: Scalar>(zs: &Vec<T>) -> (r: Vec<T>)
    ensures
        r.len() == zs.len(),
        converts::<T>() && ordered::<T>() ==> forall|i: int| 0 <= i < zs.len() ==> #[trigger] r[i] == rectified(zs[i]),
{
    let nothing: T = scalar_of(0);
    let mut out: Vec<T> = Vec::new();
    let mut i: usize = 0;
    while i < zs.len()
        invariant
            i <= zs.len(),
            out.len() == i,
            converts::<T>() && ordered::<T>() ==> nothing == zero::<T>(),
            converts::<T>() && ordered::<T>() ==> forall|k: int| 0 <= k < i ==> #[trigger] out[k] == rectified(zs[k]),
        decreases zs.len() - i,
    {
        if is_greater(zs[i], nothing) {
            out.push(zs[i]);
        } else {
            out.push(nothing);
        }
        i += 1;
    }
    out
}

/// Derivative of the ReLU activation function
pub fn relu_deriv<T: Scalar>(zs: &Vec<T>) -> (r: Vec<T>)
    ensures
        r.len() == zs.len(),
        converts::<T>() && ordered::<T>() ==> forall|i: int|
            0 <= i < zs.len() ==> #[trigger] r[i] == rectifier_slope(zs[i]),
{
    let nothing: T = scalar_of(0);
    let unit: T = scalar_of(1);
    let mut out: Vec<T> = Vec::new();
    let mut i: usize = 0;
    while i < zs.len()
        invariant
            i <= zs.len(),
            out.len() == i,
            converts::<T>() && ordered::<T>() ==> nothing == zero::<T>(),
            converts::<T>() && ordered::<T>() ==> unit == one::<T>(),
            converts::<T>() && ordered::<T>() ==> forall|k: int|
                0 <= k < i ==> #[trigger] out[k] == rectifier_slope(zs[k]),
        decreases zs.len() - i,
    {
        if is_greater(zs[i], nothing) {
            out.push(unit);
        } else {
            out.push(nothing);
        }
        i += 1;
    }
    out
}

/// `exps` holds, for each entry of `zs`, what `exp` returned for the entry minus
/// `top`.
pub open spec fn shifted_powers<T: Scalar, E: Fn(T) -> T>(
    exp: E,
    zs: Seq<T>,
    top: T,
    exps: Seq<T>,
) -> bool {
    &&& exps.len() == zs.len()
    &&& forall|i: int|
        0 <= i < zs.len() ==> call_ensures(exp, (zs[i].sub_spec(top),), #[trigger] exps[i])
}

/// `out` is the softmax of `zs`: each power of the entry minus the greatest
/// entry, divided by the sum of these powers.
pub open spec fn softmax_of<T: Scalar, E: Fn(T) -> T>(exp: E, zs: Seq<T>, out: Seq<T>) -> bool {
    exists|exps: Seq<T>|
        {
            &&& #[trigger] shifted_powers(exp, zs, zs[best_among(zs, zs.len() as int)], exps)
            &&& out == shares(exps, sum(exps))
        }
}

/// (stable) softmax activation function
/// https://eli.thegreenplace.net/2016/the-softmax-function-and-its-derivative/
///
/// `exp` raises Euler's number to the power given. Nothing is returned for no
/// values, or where the greatest of them cannot be told.
pub fn softmax<T: Scalar, E: Fn(T) -> T>(zs: &Vec<T>, exp: &E) -> (r: Result<Vec<T>, SelectError>)
    requires
        can_subtract::<T>() && can_add::<T>() && can_divide::<T>(),
        takes_scalars::<T, E>(*exp),
    ensures
        r == Err::<Vec<T>, SelectError>(SelectError::NoOutput) <==> zs.len() == 0,
        r matches Err(SelectError::Unordered { index }) ==> {
            &&& 1 <= index < zs.len()
            &&& ordered::<T>() ==> ordered_up_to(zs@, index as int) && !comparable(
                zs[best_among(zs@, index as int)],
                zs[index as int],
            )
        },
        r matches Ok(out) ==> {
            &&& out.len() == zs.len()
            &&& ordered::<T>() ==> ordered_up_to(zs@, zs.len() as int)
            &&& ordered::<T>() && subtracts::<T>() && exact_mean::<T>() ==> softmax_of(
                *exp,
                zs@,
                out@,
            )
        },
{
    let top = match best_index(zs) {
        Err(e) => {
            return Err(e);
        },
        Ok(top) => zs[top],
    };
    let mut exps: Vec<T> = Vec::new();
    let mut i: usize = 0;
    while i < zs.len()
        invariant
            can_subtract::<T>() && can_add::<T>() && can_divide::<T>(),
            takes_scalars::<T, E>(*exp),
            i <= zs.len(),
            exps.len() == i,
            subtracts::<T>() ==> forall|k: int|
                0 <= k < i ==> call_ensures(*exp, (zs[k].sub_spec(top),), #[trigger] exps[k]),
        decreases zs.len() - i,
    {
        exps.push(exp(zs[i] - top));
        i += 1;
    }
    let whole = sum_of(&exps);
    let mut out: Vec<T> = Vec::new();
    let mut j: usize = 0;
    while j < exps.len()
        invariant
            can_subtract::<T>() && can_add::<T>() && can_divide::<T>(),
            j <= exps.len(),
            out.len() == j,
            divides::<T>() ==> forall|k: int|
                0 <= k < j ==> #[trigger] out[k] == exps[k].div_spec(whole),
        decreases exps.len() - j,
    {
        out.push(exps[j] / whole);
        j += 1;
    }
    proof {
        if ordered::<T>() && subtracts::<T>() && exact_mean::<T>() {
            assert(shifted_powers(*exp, zs@, zs[best_among(zs@, zs.len() as int)], exps@));
            assert(out@ =~= shares(exps@, sum(exps@)));
        }
    }
    Ok(out)
}

/// Each entry of `parts` divided by `whole`.
pub open spec fn shares<T: Scalar>(parts: Seq<T>, whole: T) -> Seq<T> {
    Seq::new(parts.len(), |i: int| parts[i].div_spec(whole))
}

/// The shares of some parts in a whole add up to the sum of the parts divided by
/// the whole, for scalars where zero divided by the whole is zero and where a sum
/// divided by the whole is the sum of its terms divided by the whole.
pub proof fn lemma_shares_add_up<T: Scalar>(parts: Seq<T>, whole: T)
    requires
        zero::<T>().div_spec(whole) == zero::<T>(),
        forall|a: T, b: T| #[trigger]
            a.add_spec(b).div_spec(whole) == a.div_spec(whole).add_spec(b.div_spec(whole)),
    ensures
        sum(shares(parts, whole)) == sum(parts).div_spec(whole),
    decreases parts.len(),
{
    if parts.len() > 0 {
        lemma_shares_add_up(parts.drop_last(), whole);
        assert(shares(parts, whole).drop_last() =~= shares(parts.drop_last(), whole));
    }
}

/// The softmax of a vector adds up to one, for scalars where the sum of the
/// powers divided by itself is one, zero divided by it is zero, and a sum divided
/// by it is the sum of its terms divided by it.
pub proof fn lemma_softmax_sums_to_one<T: Scalar>(exps: Seq<T>, out: Seq<T>)
    requires
        out == shares(exps, sum(exps)),
        sum(exps).div_spec(sum(exps)) == one::<T>(),
        zero::<T>().div_spec(sum(exps)) == zero::<T>(),
        forall|a: T, b: T| #[trigger]
            a.add_spec(b).div_spec(sum(exps)) == a.div_spec(sum(exps)).add_spec(
                b.div_spec(sum(exps)),
            ),
    ensures
        sum(out) == one::<T>(),
{
    lemma_shares_add_up(exps, sum(exps));
}

/// `exp` is a function: it returns one value for each argument.
pub open spec fn single_valued<T, E: Fn(T) -> T>(exp: E) -> bool {
    forall|x: T, e1: T, e2: T|
        #[trigger] call_ensures(exp, (x,), e1) && #[trigger] call_ensures(exp, (x,), e2) ==> e1
            == e2
}

/// The derivative of the sigmoid is the sigmoid times one minus the sigmoid:
/// what `sigmoid_deriv` returns for a vector is, entry by entry, what `sigmoid`
/// returns for it times one minus that. This holds where `exp` is a function and
/// the arithmetic that the two use is exact.
pub proof fn lemma_sigmoid_deriv_of_sigmoid<T: Scalar + Neg<Output = T>, E: Fn(T) -> T>(
    exp: E,
    zs: Seq<T>,
    sig: Seq<T>,
    slopes: Seq<T>,
)
    requires
        negates::<T>() && exact_mean::<T>(),
        subtracts::<T>() && multiplies::<T>(),
        single_valued(exp),
        logistic(exp, zs, sig),
        sigmoid_slopes(exp, zs, slopes),
    ensures
        slopes.len() == zs.len(),
        forall|i: int|
            0 <= i < zs.len() ==> #[trigger] slopes[i] == sig[i].mul_spec(
                one::<T>().sub_spec(sig[i]),
            ),
{
    let other = choose|other: Seq<T>| #[trigger]
        logistic(exp, zs, other) && logistic_slopes(other, slopes);
    assert forall|i: int| 0 <= i < zs.len() implies #[trigger] slopes[i] == sig[i].mul_spec(
        one::<T>().sub_spec(sig[i]),
    ) by {
        assert(logistic_of(exp, zs[i], sig[i]));
        assert(logistic_of(exp, zs[i], other[i]));
        assert(slopes[i] == other[i].mul_spec(one::<T>().sub_spec(other[i])));
    }
}

/// The rectifier and its derivative are zero at the negation of every scalar
/// greater than zero, for scalars where such a negation is not greater than
/// zero. At every scalar greater than zero the rectifier is the scalar and its
/// derivative one. At zero the derivative is zero, where zero is not greater
/// than itself.
pub proof fn lemma_relu_by_sign<T: Scalar + Neg<Output = T>>(x: T)
    requires
        exceeds(x, zero::<T>()),
        forall|y: T| exceeds(y, zero::<T>()) ==> !exceeds(#[trigger] y.neg_spec(), zero::<T>()),
    ensures
        rectified(x.neg_spec()) == zero::<T>(),
        rectifier_slope(x.neg_spec()) == zero::<T>(),
        rectified(x) == x,
        rectifier_slope(x) == one::<T>(),
        !exceeds(zero::<T>(), zero::<T>()) ==> rectifier_slope(zero::<T>()) == zero::<T>(),
{
}

/// The shares of some parts in a whole keep the order of the parts, for scalars
/// where dividing by the whole keeps the order of what is divided.
pub proof fn lemma_shares_keep_order<T: Scalar>(parts: Seq<T>, whole: T, i: int, j: int)
    requires
        0 <= i < parts.len(),
        0 <= j < parts.len(),
        !exceeds(parts[i], parts[j]),
        forall|a: T, b: T|
            !exceeds(a, b) ==> !exceeds(#[trigger] a.div_spec(whole), #[trigger] b.div_spec(whole)),
    ensures
        !exceeds(shares(parts, whole)[i], shares(parts, whole)[j]),
{
}

/// The softmax keeps the order of its input: where one entry is not greater
/// than another, its share is not greater than the other's. This holds where
/// subtracting the greatest entry, `exp` and dividing by the sum of the powers
/// each keep the order of their arguments.
pub proof fn lemma_softmax_keeps_order<T: Scalar, E: Fn(T) -> T>(
    exp: E,
    zs: Seq<T>,
    out: Seq<T>,
    i: int,
    j: int,
)
    requires
        softmax_of(exp, zs, out),
        0 <= i < zs.len(),
        0 <= j < zs.len(),
        !exceeds(zs[i], zs[j]),
        forall|x: T, y: T, top: T|
            !exceeds(x, y) ==> !exceeds(#[trigger] x.sub_spec(top), #[trigger] y.sub_spec(top)),
        forall|x: T, y: T, ex: T, ey: T|
            !exceeds(x, y) && #[trigger] call_ensures(exp, (x,), ex) && #[trigger] call_ensures(
                exp,
                (y,),
                ey,
            ) ==> !exceeds(ex, ey),
        forall|a: T, b: T, whole: T|
            !exceeds(a, b) ==> !exceeds(#[trigger] a.div_spec(whole), #[trigger] b.div_spec(whole)),
    ensures
        !exceeds(out[i], out[j]),
{
    let exps = choose|exps: Seq<T>|
        {
            &&& #[trigger] shifted_powers(exp, zs, zs[best_among(zs, zs.len() as int)], exps)
            &&& out == shares(exps, sum(exps))
        };
    let top = zs[best_among(zs, zs.len() as int)];
    assert(call_ensures(exp, (zs[i].sub_spec(top),), exps[i]));
    assert(call_ensures(exp, (zs[j].sub_spec(top),), exps[j]));
    assert(!exceeds(zs[i].sub_spec(top), zs[j].sub_spec(top)));
    assert(!exceeds(exps[i], exps[j]));
    lemma_shares_keep_order(exps, sum(exps), i, j);
}

/// A sum of scalars not below zero is not below zero, where zero is not below
/// itself and the sum of two such scalars is not below zero.
pub proof fn lemma_sum_not_negative<T: Scalar>(parts: Seq<T>)
    requires
        forall|k: int| 0 <= k < parts.len() ==> !exceeds(zero::<T>(), #[trigger] parts[k]),
        !exceeds(zero::<T>(), zero::<T>()),
        forall|x: T, y: T|
            !exceeds(zero::<T>(), x) && !exceeds(zero::<T>(), y) ==> !exceeds(
                zero::<T>(),
                #[trigger] x.add_spec(y),
            ),
    ensures
        !exceeds(zero::<T>(), sum(parts)),
    decreases parts.len(),
{
    if parts.len() > 0 {
        let rest = parts.drop_last();
        assert forall|k: int| 0 <= k < rest.len() implies !exceeds(zero::<T>(), #[trigger] rest[k]) by {
            assert(rest[k] == parts[k]);
        }
        lemma_sum_not_negative(rest);
        assert(!exceeds(zero::<T>(), parts[parts.len() - 1]));
    }
}

/// A part is not greater than the sum of the parts, for scalars not below zero
/// where adding a scalar not below zero makes no sum smaller.
pub proof fn lemma_part_within_sum<T: Scalar>(parts: Seq<T>, i: int)
    requires
        0 <= i < parts.len(),
        forall|k: int| 0 <= k < parts.len() ==> !exceeds(zero::<T>(), #[trigger] parts[k]),
        !exceeds(zero::<T>(), zero::<T>()),
        forall|x: T, y: T|
            !exceeds(zero::<T>(), x) && !exceeds(zero::<T>(), y) ==> !exceeds(
                zero::<T>(),
                #[trigger] x.add_spec(y),
            ),
        forall|x: T, y: T| !exceeds(zero::<T>(), x) ==> !exceeds(y, #[trigger] x.add_spec(y)),
        forall|x: T, y: T, z: T|
            !exceeds(z, x) && !exceeds(zero::<T>(), y) ==> !#[trigger] exceeds(z, x.add_spec(y)),
    ensures
        !exceeds(parts[i], sum(parts)),
    decreases parts.len(),
{
    let rest = parts.drop_last();
    let last = parts[parts.len() - 1];
    assert forall|k: int| 0 <= k < rest.len() implies !exceeds(zero::<T>(), #[trigger] rest[k]) by {
        assert(rest[k] == parts[k]);
    }
    assert(!exceeds(zero::<T>(), last));
    assert(sum(parts) == sum(rest).add_spec(last));
    if i < rest.len() {
        lemma_part_within_sum(rest, i);
        assert(rest[i] == parts[i]);
        assert(!exceeds(parts[i], sum(rest)));
        assert(!exceeds(parts[i], sum(rest).add_spec(last)));
    } else {
        lemma_sum_not_negative(rest);
        assert(!exceeds(last, sum(rest).add_spec(last)));
    }
}

/// Every share of the softmax lies between zero and one, for scalars where no
/// power is below zero, sums of such scalars behave as in
/// `lemma_part_within_sum`, dividing by the sum of the powers keeps the order,
/// zero divided by that sum is zero and the sum divided by itself is one.
pub proof fn lemma_softmax_between_zero_and_one<T: Scalar>(exps: Seq<T>, out: Seq<T>, i: int)
    requires
        out == shares(exps, sum(exps)),
        0 <= i < exps.len(),
        forall|k: int| 0 <= k < exps.len() ==> !exceeds(zero::<T>(), #[trigger] exps[k]),
        !exceeds(zero::<T>(), zero::<T>()),
        forall|x: T, y: T|
            !exceeds(zero::<T>(), x) && !exceeds(zero::<T>(), y) ==> !exceeds(
                zero::<T>(),
                #[trigger] x.add_spec(y),
            ),
        forall|x: T, y: T| !exceeds(zero::<T>(), x) ==> !exceeds(y, #[trigger] x.add_spec(y)),
        forall|x: T, y: T, z: T|
            !exceeds(z, x) && !exceeds(zero::<T>(), y) ==> !#[trigger] exceeds(z, x.add_spec(y)),
        forall|a: T, b: T|
            !exceeds(a, b) ==> !exceeds(
                #[trigger] a.div_spec(sum(exps)),
                #[trigger] b.div_spec(sum(exps)),
            ),
        zero::<T>().div_spec(sum(exps)) == zero::<T>(),
        sum(exps).div_spec(sum(exps)) == one::<T>(),
    ensures
        !exceeds(zero::<T>(), out[i]),
        !exceeds(out[i], one::<T>()),
{
    lemma_part_within_sum(exps, i);
    lemma_sum_not_negative(exps);
    let whole = sum(exps);
    assert(!exceeds(zero::<T>().div_spec(whole), exps[i].div_spec(whole)));
    assert(!exceeds(exps[i].div_spec(whole), whole.div_spec(whole)));
}

} // verus!
