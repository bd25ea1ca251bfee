//! Arithmetic on vectors of scalars.

use crate::error::ShapeError;
use crate::scalar::adds;
use crate::scalar::can_add;
use crate::scalar::can_dot;
use crate::scalar::converts;
use crate::scalar::exact_dot;
use crate::scalar::exact_sum;
use crate::scalar::multiplies;
use crate::scalar::subtracts;
use crate::scalar::exceeds;
use crate::scalar::scalar_of;
use crate::scalar::zero;
use crate::scalar::Scalar;
use vstd::prelude::*;
use vstd::std_specs::ops::AddSpec;
use vstd::std_specs::ops::MulSpec;
use vstd::std_specs::ops::SubSpec;

verus! {

/// The sum of the products of the entries of `a` and `b`, added up from zero in
/// the order of the entries.
pub open spec fn dot<T: Scalar>(a: Seq<T>, b: Seq<T>) -> T
    decreases a.len(),
{
    if a.len() == 0 {
        zero::<T>()
    } else {
        dot(a.drop_last(), b.drop_last()).add_spec(a.last().mul_spec(b.last()))
    }
}

/// The entries of `s`, added up from zero in their order.
pub open spec fn sum<T: Scalar>(s: Seq<T>) -> T
    decreases s.len(),
{
    if s.len() == 0 {
        zero::<T>()
    } else {
        sum(s.drop_last()).add_spec(s.last())
    }
}

/// The products of the entries of `a` and `b`.
pub open spec fn products<T: Scalar>(a: Seq<T>, b: Seq<T>) -> Seq<T> {
    Seq::new(a.len(), |i: int| a[i].mul_spec(b[i]))
}

/// The sums of the entries of `a` and `b`.
pub open spec fn sums<T: Scalar>(a: Seq<T>, b: Seq<T>) -> Seq<T> {
    Seq::new(a.len(), |i: int| a[i].add_spec(b[i]))
}

/// The differences of the entries of `a` and `b`.
pub open spec fn differences<T: Scalar>(a: Seq<T>, b: Seq<T>) -> Seq<T> {
    Seq::new(a.len(), |i: int| a[i].sub_spec(b[i]))
}

/// What a vector operation on operands of the lengths `left` and `right`
/// reports when they differ.
pub open spec fn mismatch(left: usize, right: usize) -> ShapeError {
    ShapeError::LengthMismatch { left, right }
}

/// Each entry of `s` may be added to the sum of the entries before it.
pub open spec fn sum_allowed<T: Scalar>(s: Seq<T>) -> bool
    decreases s.len(),
{
    s.len() == 0 || (sum_allowed(s.drop_last()) && sum(s.drop_last()).add_req(s.last()))
}

/// What is allowed of a sequence is allowed of its beginnings.
pub proof fn lemma_sum_allowed_before<T: Scalar>(s: Seq<T>, n: int)
    requires
        sum_allowed(s),
        0 <= n <= s.len(),
    ensures
        sum_allowed(s.take(n)),
    decreases s.len(),
{
    if n < s.len() {
        lemma_sum_allowed_before(s.drop_last(), n);
        assert(s.drop_last().take(n) == s.take(n));
    } else {
        assert(s.take(n) == s);
    }
}

/// Adds up the entries of a vector, from zero, in their order.
///
/// Either any two scalars may be added, or sums are exact and each entry may be
/// added to the sum of the entries before it.
pub fn sum_of<T: Scalar>(v: &Vec<T>) -> (r: T)
    requires
        can_add::<T>() || (exact_sum::<T>() && sum_allowed(v@)),
    ensures
        exact_sum::<T>() ==> r == sum(v@),
{
    let mut acc: T = scalar_of(0);
    let mut i: usize = 0;
    while i < v.len()
        invariant
            can_add::<T>() || (exact_sum::<T>() && sum_allowed(v@)),
            i <= v.len(),
            exact_sum::<T>() ==> acc == sum(v@.take(i as int)),
        decreases v.len() - i,
    {
        proof {
            assert(v@.take(i + 1).drop_last() == v@.take(i as int));
            if !can_add::<T>() {
                lemma_sum_allowed_before(v@, i + 1);
            }
        }
        acc = acc + v[i];
        i += 1;
    }
    proof {
        assert(v@.take(v.len() as int) == v@);
    }
    acc
}

/// A vector with the entries of `v`.
pub fn copy_vec<T: Copy>(v: &Vec<T>) -> (r: Vec<T>)
    ensures
        r@ == v@,
{
    let mut out: Vec<T> = Vec::new();
    let mut i: usize = 0;
    while i < v.len()
        invariant
            i <= v.len(),
            out@ == v@.take(i as int),
        decreases v.len() - i,
    {
        out.push(v[i]);
        i += 1;
    }
    out
}

/// A vector of `n` zeros.
pub fn zeros<T: Scalar>(n: usize) -> (r: Vec<T>)
    ensures
        r.len() == n,
        converts::<T>() ==> forall|i: int| 0 <= i < n ==> #[trigger] r[i] == zero::<T>(),
{
    let mut out: Vec<T> = Vec::new();
    let mut i: usize = 0;
    while i < n
        invariant
            i <= n,
            out.len() == i,
            converts::<T>() ==> forall|k: int| 0 <= k < i ==> #[trigger] out[k] == zero::<T>(),
        decreases n - i,
    {
        out.push(scalar_of(0));
        i += 1;
    }
    out
}

/// Multiplies two vectors entry by entry.
pub fn hadamard_product<T: Scalar>(v1: &Vec<T>, v2: &Vec<T>) -> (r: Result<Vec<T>, ShapeError>)
    requires
        v1.len() == v2.len() ==> forall|i: int|
            0 <= i < v1.len() ==> (#[trigger] v1[i]).mul_req(v2[i]),
    ensures
        r is Ok <==> v1.len() == v2.len(),
        r matches Err(e) ==> e == mismatch(v1.len(), v2.len()),
        r matches Ok(v) ==> v.len() == v1.len() && (multiplies::<T>() ==> v@ == products(v1@, v2@)),
{
    if v1.len() != v2.len() {
        return Err(ShapeError::LengthMismatch { left: v1.len(), right: v2.len() });
    }
    let mut out: Vec<T> = Vec::new();
    let mut i: usize = 0;
    while i < v1.len()
        invariant
            i <= v1.len(),
            v1.len() == v2.len(),
            out.len() == i,
            forall|i: int| 0 <= i < v1.len() ==> (#[trigger] v1[i]).mul_req(v2[i]),
            multiplies::<T>() ==> forall|k: int| 0 <= k < i ==> out[k] == v1[k].mul_spec(v2[k]),
        decreases v1.len() - i,
    {
        out.push(v1[i] * v2[i]);
        i += 1;
    }
    Ok(out)
}

/// Each entry of `a` may be multiplied with the entry of `b`, and the product
/// added to the dot product of the entries before.
pub open spec fn dot_allowed<T: Scalar>(a: Seq<T>, b: Seq<T>) -> bool
    decreases a.len(),
{
    a.len() == 0 || {
        &&& dot_allowed(a.drop_last(), b.drop_last())
        &&& a.last().mul_req(b.last())
        &&& dot(a.drop_last(), b.drop_last()).add_req(a.last().mul_spec(b.last()))
    }
}

/// What is allowed of two sequences is allowed of their beginnings.
pub proof fn lemma_dot_allowed_before<T: Scalar>(a: Seq<T>, b: Seq<T>, n: int)
    requires
        a.len() == b.len(),
        dot_allowed(a, b),
        0 <= n <= a.len(),
    ensures
        dot_allowed(a.take(n), b.take(n)),
    decreases a.len(),
{
    if n < a.len() {
        lemma_dot_allowed_before(a.drop_last(), b.drop_last(), n);
        assert(a.drop_last().take(n) == a.take(n));
        assert(b.drop_last().take(n) == b.take(n));
    } else {
        assert(a.take(n) == a);
        assert(b.take(n) == b);
    }
}

/// The dot product of two vectors.
///
/// Either any two scalars may be multiplied and added, or dot products are
/// exact and each step of this one is allowed.
pub fn dot_product<T: Scalar>(v1: &Vec<T>, v2: &Vec<T>) -> (r: Result<T, ShapeError>)
    requires
        can_dot::<T>() || (exact_dot::<T>() && (v1.len() == v2.len() ==> dot_allowed(v1@, v2@))),
    ensures
        r is Ok <==> v1.len() == v2.len(),
        r matches Err(e) ==> e == mismatch(v1.len(), v2.len()),
        r matches Ok(x) ==> (exact_dot::<T>() ==> x == dot(v1@, v2@)),
{
    if v1.len() != v2.len() {
        return Err(ShapeError::LengthMismatch { left: v1.len(), right: v2.len() });
    }
    let mut acc: T = scalar_of(0);
    let mut i: usize = 0;
    while i < v1.len()
        invariant
            i <= v1.len(),
            v1.len() == v2.len(),
            can_dot::<T>() || (exact_dot::<T>() && dot_allowed(v1@, v2@)),
            exact_dot::<T>() ==> acc == dot(v1@.take(i as int), v2@.take(i as int)),
        decreases v1.len() - i,
    {
        proof {
            assert(v1@.take(i + 1).drop_last() == v1@.take(i as int));
            assert(v2@.take(i + 1).drop_last() == v2@.take(i as int));
            if !can_dot::<T>() {
                lemma_dot_allowed_before(v1@, v2@, i + 1);
            }
        }
        acc = acc + v1[i] * v2[i];
        i += 1;
    }
    proof {
        assert(v1@.take(v1.len() as int) == v1@);
        assert(v2@.take(v2.len() as int) == v2@);
    }
    Ok(acc)
}

/// Adds two vectors entry by entry.
pub fn add_vecs<T: Scalar>(v1: &Vec<T>, v2: &Vec<T>) -> (r: Result<Vec<T>, ShapeError>)
    requires
        v1.len() == v2.len() ==> forall|i: int|
            0 <= i < v1.len() ==> (#[trigger] v1[i]).add_req(v2[i]),
    ensures
        r is Ok <==> v1.len() == v2.len(),
        r matches Err(e) ==> e == mismatch(v1.len(), v2.len()),
        r matches Ok(v) ==> v.len() == v1.len() && (adds::<T>() ==> v@ == sums(v1@, v2@)),
{
    if v1.len() != v2.len() {
        return Err(ShapeError::LengthMismatch { left: v1.len(), right: v2.len() });
    }
    let mut out: Vec<T> = Vec::new();
    let mut i: usize = 0;
    while i < v1.len()
        invariant
            i <= v1.len(),
            v1.len() == v2.len(),
            out.len() == i,
            forall|i: int| 0 <= i < v1.len() ==> (#[trigger] v1[i]).add_req(v2[i]),
            adds::<T>() ==> forall|k: int| 0 <= k < i ==> out[k] == v1[k].add_spec(v2[k]),
        decreases v1.len() - i,
    {
        out.push(v1[i] + v2[i]);
        i += 1;
    }
    Ok(out)
}

/// Subtracts the second vector from the first entry by entry.
pub fn subtract_vecs<T: Scalar>(v1: &Vec<T>, v2: &Vec<T>) -> (r: Result<Vec<T>, ShapeError>)
    requires
        v1.len() == v2.len() ==> forall|i: int|
            0 <= i < v1.len() ==> (#[trigger] v1[i]).sub_req(v2[i]),
    ensures
        r is Ok <==> v1.len() == v2.len(),
        r matches Err(e) ==> e == mismatch(v1.len(), v2.len()),
        r matches Ok(v) ==> v.len() == v1.len() && (subtracts::<T>() ==> v@ == differences(v1@, v2@)),
{
    if v1.len() != v2.len() {
        return Err(ShapeError::LengthMismatch { left: v1.len(), right: v2.len() });
    }
    let mut out: Vec<T> = Vec::new();
    let mut i: usize = 0;
    while i < v1.len()
        invariant
            i <= v1.len(),
            v1.len() == v2.len(),
            out.len() == i,
            forall|i: int| 0 <= i < v1.len() ==> (#[trigger] v1[i]).sub_req(v2[i]),
            subtracts::<T>() ==> forall|k: int| 0 <= k < i ==> out[k] == v1[k].sub_spec(v2[k]),
        decreases v1.len() - i,
    {
        out.push(v1[i] - v2[i]);
        i += 1;
    }
    Ok(out)
}

/// The dot product of two vectors of one length does not depend on their order,
/// for scalars whose multiplication does not.
pub proof fn lemma_dot_commutes<T: Scalar>(a: Seq<T>, b: Seq<T>)
    requires
        a.len() == b.len(),
        forall|x: T, y: T| #[trigger] x.mul_spec(y) == y.mul_spec(x),
    ensures
        dot(a, b) == dot(b, a),
    decreases a.len(),
{
    if a.len() > 0 {
        lemma_dot_commutes(a.drop_last(), b.drop_last());
    }
}

/// The dot product of a vector with itself is not below zero, for scalars of
/// which zero is not below itself, no square is below zero, and no sum of two
/// scalars is below zero unless one of them is.
pub proof fn lemma_dot_with_itself_is_not_negative<T: Scalar>(a: Seq<T>)
    requires
        !exceeds(zero::<T>(), zero::<T>()),
        forall|x: T| !exceeds(zero::<T>(), #[trigger] x.mul_spec(x)),
        forall|x: T, y: T|
            !exceeds(zero::<T>(), x) && !exceeds(zero::<T>(), y) ==> !exceeds(
                zero::<T>(),
                #[trigger] x.add_spec(y),
            ),
    ensures
        !exceeds(zero::<T>(), dot(a, a)),
    decreases a.len(),
{
    if a.len() > 0 {
        lemma_dot_with_itself_is_not_negative(a.drop_last());
    }
}

/// The dot product of a vector with itself is zero only if every entry is zero,
/// for scalars of which, besides what keeps the product from falling below zero,
/// only zero has the square zero, and two scalars not below zero add up to zero
/// only if both are zero.
pub proof fn lemma_dot_with_itself_is_zero_only_of_zeros<T: Scalar>(a: Seq<T>)
    requires
        !exceeds(zero::<T>(), zero::<T>()),
        forall|x: T| !exceeds(zero::<T>(), #[trigger] x.mul_spec(x)),
        forall|x: T, y: T|
            !exceeds(zero::<T>(), x) && !exceeds(zero::<T>(), y) ==> !exceeds(
                zero::<T>(),
                #[trigger] x.add_spec(y),
            ),
        forall|x: T| #[trigger] x.mul_spec(x) == zero::<T>() ==> x == zero::<T>(),
        forall|x: T, y: T|
            !exceeds(zero::<T>(), x) && !exceeds(zero::<T>(), y) && #[trigger] x.add_spec(y)
                == zero::<T>() ==> x == zero::<T>() && y == zero::<T>(),
        dot(a, a) == zero::<T>(),
    ensures
        forall|i: int| 0 <= i < a.len() ==> #[trigger] a[i] == zero::<T>(),
    decreases a.len(),
{
    if a.len() > 0 {
        let rest = a.drop_last();
        lemma_dot_with_itself_is_not_negative(rest);
        assert(dot(rest, rest) == zero::<T>());
        lemma_dot_with_itself_is_zero_only_of_zeros(rest);
        assert forall|i: int| 0 <= i < a.len() implies #[trigger] a[i] == zero::<T>() by {
            if i < a.len() - 1 {
                assert(rest[i] == a[i]);
            }
        }
    }
}

} // verus!
