//! Mini-batch gradient descent: the gradients of the examples of a batch are
//! added up, and every weight and bias moves against the average.

use crate::error::ShapeError;
use crate::utils::math::zeros;
use crate::network::Gradient;
use crate::network::Network;
use crate::network::TrainingData;
use crate::scalar::adds;
use crate::scalar::can_add;
use crate::scalar::can_descend;
use crate::scalar::can_divide;
use crate::scalar::can_multiply;
use crate::scalar::can_subtract;
use crate::scalar::converts;
use crate::scalar::divides;
use crate::scalar::exact_descent;
use crate::scalar::exact_sum;
use crate::scalar::multiplies;
use crate::scalar::subtracts;
use crate::scalar::zero;
use crate::scalar::Scalar;
use vstd::prelude::*;
use vstd::std_specs::ops::AddSpec;
use vstd::std_specs::ops::DivSpec;
use vstd::std_specs::ops::MulSpec;
use vstd::std_specs::ops::SubSpec;

verus! {

/// The examples as plain values: the entries of each input and of each expected
/// output.
pub open spec fn examples<T>(data: Seq<(Vec<T>, Vec<T>)>) -> Seq<(Seq<T>, Seq<T>)> {
    Seq::new(data.len(), |i: int| (data[i].0@, data[i].1@))
}

/// A parameter after one step of descent: the parameter minus the total
/// gradient, divided by the number of examples and multiplied by the learning
/// rate.
pub open spec fn stepped<T: Scalar>(param: T, gradient_total: T, count: T, rate: T) -> T {
    param.sub_spec(gradient_total.div_spec(count).mul_spec(rate))
}

/// The gradients of the weight that connects value `k` to neuron `j` of layer
/// `l`, added up from zero in the order of the examples.
pub open spec fn summed_weight<T: Scalar>(grads: Seq<Gradient<T>>, l: int, j: int, k: int) -> T
    decreases grads.len(),
{
    if grads.len() == 0 {
        zero::<T>()
    } else {
        summed_weight(grads.drop_last(), l, j, k).add_spec(grads.last().0[l][j][k])
    }
}

/// The gradients of the bias of neuron `j` of layer `l`, added up from zero in
/// the order of the examples.
pub open spec fn summed_bias<T: Scalar>(grads: Seq<Gradient<T>>, l: int, j: int) -> T
    decreases grads.len(),
{
    if grads.len() == 0 {
        zero::<T>()
    } else {
        summed_bias(grads.drop_last(), l, j).add_spec(grads.last().1[l][j])
    }
}

/// Adds `b` to `a` entry by entry.
fn add_into<T: Scalar>(a: &Vec<T>, b: &Vec<T>) -> (r: Vec<T>)
    requires
        can_add::<T>(),
        a.len() == b.len(),
    ensures
        r.len() == a.len(),
        adds::<T>() ==> forall|k: int| 0 <= k < a.len() ==> #[trigger] r[k] == a[k].add_spec(b[k]),
{
    let mut out: Vec<T> = Vec::new();
    let mut k: usize = 0;
    while k < a.len()
        invariant
            can_add::<T>(),
            a.len() == b.len(),
            k <= a.len(),
            out.len() == k,
            adds::<T>() ==> forall|m: int| 0 <= m < k ==> #[trigger] out[m] == a[m].add_spec(b[m]),
        decreases a.len() - k,
    {
        out.push(a[k] + b[k]);
        k += 1;
    }
    out
}

/// Adds `b` to `a` entry by entry, row by row.
fn add_rows_into<T: Scalar>(a: &Vec<Vec<T>>, b: &Vec<Vec<T>>) -> (r: Vec<Vec<T>>)
    requires
        can_add::<T>(),
        a.len() == b.len(),
        forall|j: int| 0 <= j < a.len() ==> (#[trigger] a[j]).len() == b[j].len(),
    ensures
        r.len() == a.len(),
        forall|j: int| 0 <= j < a.len() ==> (#[trigger] r[j]).len() == a[j].len(),
        adds::<T>() ==> forall|j: int, k: int|
            0 <= j < a.len() && 0 <= k < a[j].len() ==> #[trigger] r[j][k] == a[j][k].add_spec(
                b[j][k],
            ),
{
    let mut out: Vec<Vec<T>> = Vec::new();
    let mut j: usize = 0;
    while j < a.len()
        invariant
            can_add::<T>(),
            a.len() == b.len(),
            forall|j: int| 0 <= j < a.len() ==> (#[trigger] a[j]).len() == b[j].len(),
            j <= a.len(),
            out.len() == j,
            forall|m: int| 0 <= m < j ==> (#[trigger] out[m]).len() == a[m].len(),
            adds::<T>() ==> forall|m: int, k: int|
                0 <= m < j && 0 <= k < a[m].len() ==> #[trigger] out[m][k] == a[m][k].add_spec(
                    b[m][k],
                ),
        decreases a.len() - j,
    {
        out.push(add_into(&a[j], &b[j]));
        j += 1;
    }
    out
}

/// Moves every entry of `params` one step against the matching entry of
/// `totals`.
fn step_vec<T: Scalar>(params: &Vec<T>, totals: &Vec<T>, count: T, rate: T) -> (r: Vec<T>)
    requires
        can_subtract::<T>() && can_divide::<T>() && can_multiply::<T>(),
        params.len() == totals.len(),
    ensures
        r.len() == params.len(),
        subtracts::<T>() && divides::<T>() && multiplies::<T>() ==> forall|k: int|
            0 <= k < params.len() ==> #[trigger] r[k] == stepped(params[k], totals[k], count, rate),
{
    let mut out: Vec<T> = Vec::new();
    let mut k: usize = 0;
    while k < params.len()
        invariant
            can_subtract::<T>() && can_divide::<T>() && can_multiply::<T>(),
            params.len() == totals.len(),
            k <= params.len(),
            out.len() == k,
            subtracts::<T>() && divides::<T>() && multiplies::<T>() ==> forall|m: int|
                0 <= m < k ==> #[trigger] out[m] == stepped(params[m], totals[m], count, rate),
        decreases params.len() - k,
    {
        out.push(params[k] - totals[k] / count * rate);
        k += 1;
    }
    out
}

/// Moves every entry of every row of `params` one step against the matching
/// entry of `totals`.
fn step_rows<T: Scalar>(params: &Vec<Vec<T>>, totals: &Vec<Vec<T>>, count: T, rate: T) -> (r: Vec<
    Vec<T>,
>)
    requires
        can_subtract::<T>() && can_divide::<T>() && can_multiply::<T>(),
        params.len() == totals.len(),
        forall|j: int| 0 <= j < params.len() ==> (#[trigger] params[j]).len() == totals[j].len(),
    ensures
        r.len() == params.len(),
        forall|j: int| 0 <= j < params.len() ==> (#[trigger] r[j]).len() == params[j].len(),
        subtracts::<T>() && divides::<T>() && multiplies::<T>() ==> forall|j: int, k: int|
            0 <= j < params.len() && 0 <= k < params[j].len() ==> #[trigger] r[j][k] == stepped(
                params[j][k],
                totals[j][k],
                count,
                rate,
            ),
{
    let mut out: Vec<Vec<T>> = Vec::new();
    let mut j: usize = 0;
    while j < params.len()
        invariant
            can_subtract::<T>() && can_divide::<T>() && can_multiply::<T>(),
            params.len() == totals.len(),
            forall|j: int| 0 <= j < params.len() ==> (#[trigger] params[j]).len() == totals[j].len(),
            j <= params.len(),
            out.len() == j,
            forall|m: int| 0 <= m < j ==> (#[trigger] out[m]).len() == params[m].len(),
            subtracts::<T>() && divides::<T>() && multiplies::<T>() ==> forall|m: int, k: int|
                0 <= m < j && 0 <= k < params[m].len() ==> #[trigger] out[m][k] == stepped(
                    params[m][k],
                    totals[m][k],
                    count,
                    rate,
                ),
        decreases params.len() - j,
    {
        out.push(step_vec(&params[j], &totals[j], count, rate));
        j += 1;
    }
    out
}

impl<'a, T, F, D, I, C, CD, N> Network<'a, T, F, D, I, C, CD, N> where
    T: Scalar,
    F: Fn(&Vec<T>) -> Vec<T>,
    D: Fn(&Vec<T>) -> Vec<T>,
    I: Fn(usize) -> T,
    C: Fn(&Vec<T>, &Vec<T>) -> T,
    CD: Fn(&Vec<T>, &Vec<T>) -> Vec<T>,
    N: Fn(&Vec<T>) -> Vec<T>,
 {
    /// The input of the example is as long as the input layer and its expected
    /// output as long as the output layer.
    pub open spec fn example_fits(&self, example: (Vec<T>, Vec<T>)) -> bool {
        &&& example.0.len() == self.input.len()
        &&& example.1.len() == self.layers[self.layers.len() - 1].len()
    }

    /// What is reported of an example that does not fit: its input, if that has
    /// the wrong length, else its expected output.
    pub open spec fn example_error(&self, example: (Vec<T>, Vec<T>)) -> ShapeError {
        if example.0.len() != self.input.len() {
            ShapeError::InputLength { expected: self.input.len(), found: example.0.len() }
        } else {
            ShapeError::OutputLength {
                expected: self.layers[self.layers.len() - 1].len(),
                found: example.1.len(),
            }
        }
    }

    /// Every example fits the network.
    pub open spec fn examples_fit(&self, data: Seq<(Vec<T>, Vec<T>)>) -> bool {
        forall|i: int| 0 <= i < data.len() ==> self.example_fits(#[trigger] data[i])
    }

    /// `e` is what is reported of the first example that does not fit.
    pub open spec fn first_misfit(&self, data: Seq<(Vec<T>, Vec<T>)>, e: ShapeError) -> bool {
        exists|i: int|
            0 <= i < data.len() && !self.example_fits(#[trigger] data[i]) && e
                == self.example_error(data[i]) && self.examples_fit(data.take(i))
    }

    /// Tells whether every example fits the network, and reports the first one
    /// that does not.
    pub fn check_examples(&self, data: &TrainingData<T>) -> (r: Result<(), ShapeError>)
        requires
            self.layers.len() >= 1,
        ensures
            r is Ok <==> self.examples_fit(data@),
            r matches Err(e) ==> self.first_misfit(data@, e),
    {
        let last = self.layers.len() - 1;
        let mut i: usize = 0;
        while i < data.len()
            invariant
                i <= data.len(),
                last == self.layers.len() - 1,
                self.examples_fit(data@.take(i as int)),
            decreases data.len() - i,
        {
            if data[i].0.len() != self.input.len() {
                return Err(
                    ShapeError::InputLength { expected: self.input.len(), found: data[i].0.len() },
                );
            }
            if data[i].1.len() != self.layers[last].len() {
                return Err(
                    ShapeError::OutputLength {
                        expected: self.layers[last].len(),
                        found: data[i].1.len(),
                    },
                );
            }
            i += 1;
        }
        proof {
            assert(data@.take(data.len() as int) == data@);
        }
        Ok(())
    }

    /// `other` has the functions, labels and settings of this network, and
    /// layers of the same sizes.
    pub open spec fn same_frame(&self, other: &Self) -> bool {
        &&& self.out_labels == other.out_labels
        &&& self.activation_functions == other.activation_functions
        &&& self.cost_func == other.cost_func
        &&& self.normalization_fn == other.normalization_fn
        &&& self.log_epochs == other.log_epochs
        &&& self.log_costs == other.log_costs
        &&& self.input.len() == other.input.len()
        &&& self.layers.len() == other.layers.len()
        &&& forall|l: int|
            0 <= l < self.layers.len() ==> (#[trigger] self.layers[l]).len() == other.layers[l].len()
    }

    /// `state` is a network with the parameters of this one after a forward pass
    /// from `data`, and `gradient` is what backpropagation gives there for the
    /// expected output `target`, with `seed` and `slopes` as the derivatives that
    /// the cost and the activation functions returned.
    pub open spec fn passes(
        &self,
        state: Self,
        data: Vec<T>,
        target: Vec<T>,
        seed: Vec<T>,
        slopes: Seq<Vec<T>>,
        gradient: Gradient<T>,
    ) -> bool {
        &&& state.wf()
        &&& state.same_parameters(self)
        &&& call_ensures(state.normalization_fn.function, (&data,), state.input)
        &&& state.forward_done()
        &&& state.backward_done(&target, seed, slopes, gradient.0@, gradient.1@)
    }

    /// `gradient` is what backpropagation gives for the example, after a forward
    /// pass from its input, in a network with the parameters of this one.
    pub open spec fn gradient_for(
        &self,
        input: Seq<T>,
        expected: Seq<T>,
        gradient: Gradient<T>,
    ) -> bool {
        exists|state: Self, data: Vec<T>, target: Vec<T>, seed: Vec<T>, slopes: Seq<Vec<T>>|
            {
                &&& data@ == input
                &&& target@ == expected
                &&& #[trigger] self.passes(state, data, target, seed, slopes, gradient)
            }
    }

    /// Neuron `j` of layer `l` has taken one step from where it stood in
    /// `before`, against the sum of its gradients in `grads`.
    pub open spec fn neuron_descended(
        &self,
        before: &Self,
        grads: Seq<Gradient<T>>,
        count: T,
        rate: T,
        l: int,
        j: int,
    ) -> bool {
        &&& self.biases[l][j] == stepped(before.biases[l][j], summed_bias(grads, l, j), count, rate)
        &&& forall|k: int|
            0 <= k < before.weights[l][j].len() ==> #[trigger] self.weights[l][j][k] == stepped(
                before.weights[l][j][k],
                summed_weight(grads, l, j, k),
                count,
                rate,
            )
    }

    /// Every weight and bias has taken one step from where it stood in `before`,
    /// against the sum of its gradients in `grads`.
    pub open spec fn descended(
        &self,
        before: &Self,
        grads: Seq<Gradient<T>>,
        count: T,
        rate: T,
    ) -> bool {
        forall|l: int, j: int|
            0 <= l < before.layers.len() && 0 <= j < before.layers[l].len()
                ==> #[trigger] self.neuron_descended(before, grads, count, rate, l, j)
    }

    /// `grads` holds one gradient for each example of the batch, computed with the
    /// parameters of `before`; `count` is what `as_scalar` made of the number of
    /// examples; and every parameter of this network is that of `before` after
    /// one step against the sum of its gradients.
    pub open spec fn steps_by<S: Fn(usize) -> T>(
        &self,
        before: &Self,
        batch: Seq<(Seq<T>, Seq<T>)>,
        rate: T,
        as_scalar: S,
        grads: Seq<Gradient<T>>,
        count: T,
    ) -> bool {
        &&& grads.len() == batch.len()
        &&& forall|e: int|
            0 <= e < batch.len() ==> before.gradient_for(batch[e].0, batch[e].1, #[trigger] grads[e])
        &&& call_ensures(as_scalar, (batch.len() as usize,), count)
        &&& exact_descent::<T>() ==> self.descended(before, grads, count, rate)
    }

    /// This network is `before` after one step of gradient descent over the
    /// batch: there is one gradient for each example, computed with the
    /// parameters of `before`, and every parameter has moved against the sum of
    /// its gradients, divided by what `as_scalar` made of the number of examples
    /// and multiplied by the learning rate. The input and the layers hold the
    /// forward pass from the last example, run with the parameters of `before`.
    pub open spec fn descent_step<S: Fn(usize) -> T>(
        &self,
        before: &Self,
        batch: Seq<(Seq<T>, Seq<T>)>,
        rate: T,
        as_scalar: S,
    ) -> bool {
        &&& self.wf()
        &&& self.same_frame(before)
        &&& self.holds_last_pass_of(before, before, batch)
        &&& exists|grads: Seq<Gradient<T>>, count: T| #[trigger]
            self.steps_by(before, batch, rate, as_scalar, grads, count)
    }

    /// Gradients of zero, with the shape of the parameters.
    fn zero_gradient(&self) -> (r: Gradient<T>)
        requires
            self.wf(),
        ensures
            self.shaped_like_parameters(r.0@, r.1@),
            converts::<T>() ==> forall|l: int, j: int|
                0 <= l < self.layers.len() && 0 <= j < self.layers[l].len() ==> #[trigger] r.1[l][j]
                    == zero::<T>(),
            converts::<T>() ==> forall|l: int, j: int, k: int|
                0 <= l < self.layers.len() && 0 <= j < self.layers[l].len() && 0 <= k
                    < self.weights[l][j].len() ==> #[trigger] r.0[l][j][k] == zero::<T>(),
    {
        let mut dws: Vec<Vec<Vec<T>>> = Vec::new();
        let mut dbs: Vec<Vec<T>> = Vec::new();
        let mut l: usize = 0;
        while l < self.weights.len()
            invariant
                self.wf(),
                l <= self.weights.len(),
                dws.len() == l,
                dbs.len() == l,
                forall|m: int| 0 <= m < l ==> #[trigger] self.layer_shaped(dws@, dbs@, m),
                converts::<T>() ==> forall|m: int, j: int|
                    0 <= m < l && 0 <= j < self.layers[m].len() ==> #[trigger] dbs[m][j] == zero::<
                        T,
                    >(),
                converts::<T>() ==> forall|m: int, j: int, k: int|
                    0 <= m < l && 0 <= j < self.layers[m].len() && 0 <= k
                        < self.weights[m][j].len() ==> #[trigger] dws[m][j][k] == zero::<T>(),
            decreases self.weights.len() - l,
        {
            proof {
                assert(self.layer_wf(l as int));
            }
            let width = self.weights[l].len();
            let layer_dbs: Vec<T> = zeros(width);
            let mut layer_dws: Vec<Vec<T>> = Vec::new();
            let mut j: usize = 0;
            while j < width
                invariant
                    l < self.weights.len(),
                    width == self.weights[l as int].len(),
                    j <= width,
                    layer_dws.len() == j,
                    forall|n: int|
                        0 <= n < j ==> (#[trigger] layer_dws[n]).len() == self.weights[l as int][n].len(),
                    converts::<T>() ==> forall|n: int, k: int|
                        0 <= n < j && 0 <= k < self.weights[l as int][n].len()
                            ==> #[trigger] layer_dws[n][k] == zero::<T>(),
                decreases width - j,
            {
                layer_dws.push(zeros(self.weights[l][j].len()));
                j += 1;
            }
            let ghost dws_before = dws@;
            let ghost dbs_before = dbs@;
            dws.push(layer_dws);
            dbs.push(layer_dbs);
            proof {
                assert forall|m: int| 0 <= m < l + 1 implies #[trigger] self.layer_shaped(
                    dws@,
                    dbs@,
                    m,
                ) by {
                    if m < l {
                        assert(self.layer_shaped(dws_before, dbs_before, m));
                    }
                }
            }
            l += 1;
        }
        (dws, dbs)
    }

    /// Adds the gradient `g` to the totals.
    fn accumulate(&self, totals: Gradient<T>, g: &Gradient<T>) -> (r: Gradient<T>)
        requires
            self.wf(),
            can_add::<T>(),
            self.shaped_like_parameters(totals.0@, totals.1@),
            self.shaped_like_parameters(g.0@, g.1@),
        ensures
            self.shaped_like_parameters(r.0@, r.1@),
            adds::<T>() ==> forall|l: int, j: int|
                0 <= l < self.layers.len() && 0 <= j < self.layers[l].len() ==> #[trigger] r.1[l][j]
                    == totals.1[l][j].add_spec(g.1[l][j]),
            adds::<T>() ==> forall|l: int, j: int, k: int|
                0 <= l < self.layers.len() && 0 <= j < self.layers[l].len() && 0 <= k
                    < self.weights[l][j].len() ==> #[trigger] r.0[l][j][k]
                    == totals.0[l][j][k].add_spec(g.0[l][j][k]),
    {
        let mut dws: Vec<Vec<Vec<T>>> = Vec::new();
        let mut dbs: Vec<Vec<T>> = Vec::new();
        let mut l: usize = 0;
        while l < self.weights.len()
            invariant
                self.wf(),
                can_add::<T>(),
                self.shaped_like_parameters(totals.0@, totals.1@),
                self.shaped_like_parameters(g.0@, g.1@),
                l <= self.weights.len(),
                dws.len() == l,
                dbs.len() == l,
                forall|m: int| 0 <= m < l ==> #[trigger] self.layer_shaped(dws@, dbs@, m),
                adds::<T>() ==> forall|m: int, j: int|
                    0 <= m < l && 0 <= j < self.layers[m].len() ==> #[trigger] dbs[m][j]
                        == totals.1[m][j].add_spec(g.1[m][j]),
                adds::<T>() ==> forall|m: int, j: int, k: int|
                    0 <= m < l && 0 <= j < self.layers[m].len() && 0 <= k
                        < self.weights[m][j].len() ==> #[trigger] dws[m][j][k]
                        == totals.0[m][j][k].add_spec(g.0[m][j][k]),
            decreases self.weights.len() - l,
        {
            proof {
                assert(self.layer_wf(l as int));
                assert(self.layer_shaped(totals.0@, totals.1@, l as int));
                assert(self.layer_shaped(g.0@, g.1@, l as int));
            }
            let layer_dws = add_rows_into(&totals.0[l], &g.0[l]);
            let layer_dbs = add_into(&totals.1[l], &g.1[l]);
            let ghost dws_before = dws@;
            let ghost dbs_before = dbs@;
            dws.push(layer_dws);
            dbs.push(layer_dbs);
            proof {
                assert forall|m: int| 0 <= m < l + 1 implies #[trigger] self.layer_shaped(
                    dws@,
                    dbs@,
                    m,
                ) by {
                    if m < l {
                        assert(self.layer_shaped(dws_before, dbs_before, m));
                    }
                }
            }
            l += 1;
        }
        (dws, dbs)
    }

    /// does gradient descent over a mini batch
    ///
    /// Every example must fit the network. For each example in turn the network
    /// predicts from its input and backpropagates against its expected output;
    /// the gradients are added up, and at the end every weight and bias moves
    /// against the sum of its gradients, divided by the number of examples and
    /// multiplied by the learning rate. `as_scalar` turns that number into a
    /// scalar. Afterwards the input and the layers hold the forward pass from the
    /// last example, as it was run before the weights and biases moved.
    pub fn gradient_descent<S: Fn(usize) -> T>(
        &mut self,
        batch: &TrainingData<T>,
        learning_rate: T,
        as_scalar: &S,
    ) -> (r: Result<(), ShapeError>)
        requires
            old(self).wf(),
            can_descend::<T>(),
            old(self).functions_fit(),
            forall|n: usize| #[trigger] call_requires(*as_scalar, (n,)),
        ensures
            r is Ok <==> old(self).examples_fit(batch@),
            r matches Err(e) ==> old(self).first_misfit(batch@, e) && *final(self) == *old(self),
            r is Ok ==> {
                &&& final(self).descent_step(old(self), examples(batch@), learning_rate, *as_scalar)
                &&& final(self).holds_last_pass(old(self), old(self), batch@)
            },
    {
        match self.check_examples(batch) {
            Err(e) => {
                return Err(e);
            },
            Ok(()) => {},
        }
        let ghost start = *self;
        let mut totals = self.zero_gradient();
        let ghost mut grads: Seq<Gradient<T>> = Seq::empty();
        let mut e: usize = 0;
        while e < batch.len()
            invariant
                self.wf(),
                self.same_parameters(&start),
                self.same_frame(&start),
                self.functions_fit(),
                can_descend::<T>(),
                start.wf(),
                start.examples_fit(batch@),
                e <= batch.len(),
                grads.len() == e,
                forall|i: int|
                    0 <= i < e ==> start.gradient_for(batch[i].0@, batch[i].1@, #[trigger] grads[i]),
                self.shaped_like_parameters(totals.0@, totals.1@),
                exact_sum::<T>() ==> forall|l: int, j: int|
                    0 <= l < self.layers.len() && 0 <= j < self.layers[l].len()
                        ==> #[trigger] totals.1[l][j] == summed_bias(grads, l, j),
                exact_sum::<T>() ==> forall|l: int, j: int, k: int|
                    0 <= l < self.layers.len() && 0 <= j < self.layers[l].len() && 0 <= k
                        < self.weights[l][j].len() ==> #[trigger] totals.0[l][j][k] == summed_weight(
                        grads,
                        l,
                        j,
                        k,
                    ),
                self.holds_last_pass(&start, &start, batch@.take(e as int)),
            decreases batch.len() - e,
        {
            let ghost before = *self;
            let _ = self.predict_from(&batch[e].0);
            proof {
                assert(self.with_parameters_of(&start) == self.with_parameters_of(&before));
                assert(batch@.take(e + 1)[e as int] == batch[e as int]);
            }
            proof {
                assert forall|l: int| 0 <= l < self.layers.len() implies (
                #[trigger] self.layers[l]).len() == start.layers[l].len() by {
                    assert(self.layer_wf(l));
                    assert(before.layer_wf(l));
                }
            }
            let gradient = self.backprop(&batch[e].1).unwrap();
            proof {
                assert forall|l: int| 0 <= l < self.weights.len() implies #[trigger] self.layer_shaped(
                    totals.0@,
                    totals.1@,
                    l,
                ) by {
                    assert(before.layer_shaped(totals.0@, totals.1@, l));
                }
            }
            totals = self.accumulate(totals, &gradient);
            proof {
                let (seed, slopes) = choose|seed: Vec<T>, slopes: Seq<Vec<T>>|
                    self.backward_done(&batch[e as int].1, seed, slopes, gradient.0@, gradient.1@);
                assert(start.passes(*self, batch[e as int].0, batch[e as int].1, seed, slopes, gradient));
                let extended = grads.push(gradient);
                assert(extended.drop_last() == grads);
                grads = extended;
            }
            e += 1;
        }
        let count = as_scalar(batch.len());
        let ghost trained = *self;
        let mut weights: Vec<Vec<Vec<T>>> = Vec::new();
        let mut l: usize = 0;
        while l < self.weights.len()
            invariant
                *self == trained,
                self.wf(),
                can_descend::<T>(),
                self.shaped_like_parameters(totals.0@, totals.1@),
                l <= self.weights.len(),
                weights.len() == l,
                forall|m: int| 0 <= m < l ==> (#[trigger] weights[m]).len() == self.weights[m].len(),
                forall|m: int, j: int|
                    0 <= m < l && 0 <= j < self.weights[m].len() ==> (#[trigger] weights[m][j]).len()
                        == self.weights[m][j].len(),
                subtracts::<T>() && divides::<T>() && multiplies::<T>() ==> forall|m: int, j: int, k: int|
                    0 <= m < l && 0 <= j < self.weights[m].len() && 0 <= k
                        < self.weights[m][j].len() ==> #[trigger] weights[m][j][k] == stepped(
                        self.weights[m][j][k],
                        totals.0[m][j][k],
                        count,
                        learning_rate,
                    ),
            decreases self.weights.len() - l,
        {
            proof {
                assert(self.layer_shaped(totals.0@, totals.1@, l as int));
            }
            weights.push(step_rows(&self.weights[l], &totals.0[l], count, learning_rate));
            l += 1;
        }
        proof {
            assert forall|j: int| 0 <= j < self.biases.len() implies (#[trigger] self.biases[j]).len()
                == totals.1[j].len() by {
                assert(self.layer_shaped(totals.0@, totals.1@, j));
            }
        }
        let biases = step_rows(&self.biases, &totals.1, count, learning_rate);
        self.weights = weights;
        self.biases = biases;
        proof {
            assert forall|m: int| 0 <= m < self.layers.len() implies #[trigger] self.layer_wf(m) by {
                assert(trained.layer_wf(m));
            }
            if exact_descent::<T>() {
                assert forall|m: int, j: int|
                    0 <= m < start.layers.len() && 0 <= j
                        < start.layers[m].len() implies #[trigger] self.neuron_descended(
                    &start,
                    grads,
                    count,
                    learning_rate,
                    m,
                    j,
                ) by {
                    assert(trained.layer_wf(m));
                }
            }
            assert(self.steps_by(
                &start,
                examples(batch@),
                learning_rate,
                *as_scalar,
                grads,
                count,
            ));
            assert(batch@.take(batch.len() as int) == batch@);
            assert(self.with_parameters_of(&start) == trained.with_parameters_of(&start));
            assert(self.holds_last_pass(&start, &start, batch@));
            if batch.len() > 0 {
                assert(self.holds_pass(&start, batch[batch.len() - 1].0));
            }
            assert(self.holds_last_pass_of(&start, &start, examples(batch@)));
        }
        Ok(())
    }
}

} // verus!
