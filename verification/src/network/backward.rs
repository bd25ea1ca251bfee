//! Backpropagation: from the values of a forward pass and the output that was
//! expected to the gradient of the cost with respect to every weight and bias.

use crate::error::ShapeError;
use crate::utils::math::dot;
use crate::network::Gradient;
use crate::network::Network;
use crate::scalar::can_dot;
use crate::scalar::exact_dot;
use crate::scalar::scalar_of;
use crate::scalar::Scalar;
use vstd::prelude::*;
use vstd::std_specs::ops::MulSpec;

verus! {

/// Entry `j` of each row.
pub open spec fn column<T>(rows: Seq<Vec<T>>, j: int) -> Seq<T> {
    Seq::new(rows.len(), |i: int| rows[i][j])
}

/// The dot product of `values` with column `j` of `rows`.
pub fn column_dot<T: Scalar>(values: &Vec<T>, rows: &Vec<Vec<T>>, j: usize) -> (r: T)
    requires
        can_dot::<T>(),
        values.len() == rows.len(),
        forall|i: int| 0 <= i < rows.len() ==> j < (#[trigger] rows[i]).len(),
    ensures
        exact_dot::<T>() ==> r == dot(values@, column(rows@, j as int)),
{
    let mut acc: T = scalar_of(0);
    let mut i: usize = 0;
    while i < values.len()
        invariant
            i <= values.len(),
            values.len() == rows.len(),
            forall|i: int| 0 <= i < rows.len() ==> j < (#[trigger] rows[i]).len(),
            can_dot::<T>(),
            exact_dot::<T>() ==> acc == dot(
                values@.take(i as int),
                column(rows@, j as int).take(i as int),
            ),
        decreases values.len() - i,
    {
        proof {
            let c = column(rows@, j as int);
            assert(values@.take(i + 1).drop_last() == values@.take(i as int));
            assert(c.take(i + 1).drop_last() == c.take(i as int));
        }
        acc = acc + values[i] * rows[i][j];
        i += 1;
    }
    proof {
        let c = column(rows@, j as int);
        assert(values@.take(values.len() as int) == values@);
        assert(c.take(values.len() as int) == c);
    }
    acc
}

impl<'a, T, F, D, I, C, CD, N> Network<'a, T, F, D, I, C, CD, N> where
    T: Scalar,
    F: Fn(&Vec<T>) -> Vec<T>,
    D: Fn(&Vec<T>) -> Vec<T>,
    I: Fn(usize) -> T,
    C: Fn(&Vec<T>, &Vec<T>) -> T,
    CD: Fn(&Vec<T>, &Vec<T>) -> Vec<T>,
    N: Fn(&Vec<T>) -> Vec<T>,
 {
    /// `dws` has one entry for each weight of layer `l` and `dbs` one for each of
    /// its biases.
    pub open spec fn layer_shaped(&self, dws: Seq<Vec<Vec<T>>>, dbs: Seq<Vec<T>>, l: int) -> bool {
        &&& dbs[l].len() == self.biases[l].len()
        &&& dws[l].len() == self.weights[l].len()
        &&& forall|j: int|
            0 <= j < dws[l].len() ==> (#[trigger] dws[l][j]).len() == self.weights[l][j].len()
    }

    /// `dws` has the shape of the weights and `dbs` the shape of the biases.
    pub open spec fn shaped_like_parameters(
        &self,
        dws: Seq<Vec<Vec<T>>>,
        dbs: Seq<Vec<T>>,
    ) -> bool {
        &&& dws.len() == self.weights.len()
        &&& dbs.len() == self.biases.len()
        &&& forall|l: int| 0 <= l < self.weights.len() ==> #[trigger] self.layer_shaped(dws, dbs, l)
    }

    /// The derivative of the cost with respect to the activated value of neuron
    /// `j` of layer `l`. For the last layer it is what the cost function's
    /// derivative gave (`seed`). For a layer before, it is the sum, over the
    /// neurons of the next layer, of that neuron's bias gradient times the weight
    /// that connects neuron `j` to it.
    pub open spec fn cost_to_activation(&self, seed: Seq<T>, dbs: Seq<Vec<T>>, l: int, j: int) -> T {
        if l == self.layers.len() - 1 {
            seed[j]
        } else {
            dot(dbs[l + 1]@, column(self.weights[l + 1]@, j))
        }
    }

    /// The gradient of neuron `j` of layer `l`: the bias gradient is the
    /// derivative of the cost with respect to the neuron's activated value times
    /// the derivative of its activation (`slope`), and the gradient of each of
    /// its weights is the bias gradient times the value that the weight is fed.
    pub open spec fn neuron_gradient(
        &self,
        seed: Seq<T>,
        slope: Seq<T>,
        dws: Seq<Vec<Vec<T>>>,
        dbs: Seq<Vec<T>>,
        l: int,
        j: int,
    ) -> bool {
        &&& dbs[l][j] == self.cost_to_activation(seed, dbs, l, j).mul_spec(slope[j])
        &&& forall|k: int|
            0 <= k < self.source(l).len() ==> #[trigger] dws[l][j][k] == dbs[l][j].mul_spec(
                self.source(l)[k],
            )
    }

    /// Every neuron of layer `l` has its gradient.
    pub open spec fn layer_gradient(
        &self,
        seed: Seq<T>,
        slope: Seq<T>,
        dws: Seq<Vec<Vec<T>>>,
        dbs: Seq<Vec<T>>,
        l: int,
    ) -> bool {
        forall|j: int|
            0 <= j < self.layers[l].len() ==> #[trigger] self.neuron_gradient(
                seed,
                slope,
                dws,
                dbs,
                l,
                j,
            )
    }

    /// `dws` and `dbs` are the gradients of a backward pass from the values the
    /// network holds, where `seed` is what the cost function's derivative
    /// returned for the activated last layer and `expected`, and `slopes[l]` is
    /// what the derivative of the activation of layer `l` returned for the
    /// layer's values before activation.
    pub open spec fn backward_done(
        &self,
        expected: &Vec<T>,
        seed: Vec<T>,
        slopes: Seq<Vec<T>>,
        dws: Seq<Vec<Vec<T>>>,
        dbs: Seq<Vec<T>>,
    ) -> bool {
        &&& slopes.len() == self.layers.len()
        &&& call_ensures(
            self.cost_func.derivative,
            (&self.activated_layers[self.layers.len() - 1], expected),
            seed,
        )
        &&& forall|l: int|
            0 <= l < self.layers.len() ==> call_ensures(
                self.activation_functions[l].derivative,
                (&self.layers[l],),
                #[trigger] slopes[l],
            )
        &&& exact_dot::<T>() ==> forall|l: int|
            0 <= l < self.layers.len() ==> #[trigger] self.layer_gradient(
                seed@,
                slopes[l]@,
                dws,
                dbs,
                l,
            )
    }

    /// The gradient of the cost with respect to every weight and every bias, for
    /// the values of the last forward pass and the output expected of it. The
    /// gradient points where the cost grows.
    pub fn backprop(&self, expected: &Vec<T>) -> (r: Result<Gradient<T>, ShapeError>)
        requires
            self.wf(),
            can_dot::<T>(),
            self.functions_fit(),
        ensures
            r is Ok <==> expected.len() == self.layers[self.layers.len() - 1].len(),
            r matches Err(e) ==> e == (ShapeError::OutputLength {
                expected: self.layers[self.layers.len() - 1].len(),
                found: expected.len(),
            }),
            r matches Ok((dws, dbs)) ==> {
                &&& self.shaped_like_parameters(dws@, dbs@)
                &&& exists|seed: Vec<T>, slopes: Seq<Vec<T>>|
                    self.backward_done(expected, seed, slopes, dws@, dbs@)
            },
    {
        let count = self.layers.len();
        let last = count - 1;
        proof {
            assert(self.layer_wf(last as int));
        }
        if expected.len() != self.layers[last].len() {
            return Err(
                ShapeError::OutputLength { expected: self.layers[last].len(), found: expected.len() },
            );
        }
        // dC/da(L) where L is the last layer

        let seed = (self.cost_func.derivative)(&self.activated_layers[last], expected);

        let mut dws: Vec<Vec<Vec<T>>> = Vec::new();
        let mut dbs: Vec<Vec<T>> = Vec::new();
        let mut filled: usize = 0;
        while filled < count
            invariant
                filled <= count,
                dws.len() == filled,
                dbs.len() == filled,
            decreases count - filled,
        {
            dws.push(Vec::new());
            dbs.push(Vec::new());
            filled += 1;
        }

        let ghost mut slopes: Seq<Vec<T>> = Seq::new(count as nat, |i: int| seed);
        let mut l: usize = count;
        while l > 0
            invariant
                self.wf(),
                can_dot::<T>(),
                self.functions_fit(),
                count == self.layers.len(),
                last == count - 1,
                l <= count,
                seed.len() == self.layers[last as int].len(),
                dws.len() == count,
                dbs.len() == count,
                slopes.len() == count,
                forall|m: int| l <= m < count ==> #[trigger] self.layer_shaped(dws@, dbs@, m),
                forall|m: int|
                    l <= m < count ==> call_ensures(
                        self.activation_functions[m].derivative,
                        (&self.layers[m],),
                        #[trigger] slopes[m],
                    ),
                exact_dot::<T>() ==> forall|m: int|
                    l <= m < count ==> #[trigger] self.layer_gradient(
                        seed@,
                        slopes[m]@,
                        dws@,
                        dbs@,
                        m,
                    ),
            decreases l,
        {
            l -= 1;
            // da(l)/dz(l)
            let slope = (self.activation_functions[l].derivative)(&self.layers[l]);
            let width = self.layers[l].len();

            let mut layer_dws: Vec<Vec<T>> = Vec::new();
            let mut layer_dbs: Vec<T> = Vec::new();
            let mut j: usize = 0;
            while j < width
                invariant
                    self.wf(),
                    self.layer_wf(l as int),
                    can_dot::<T>(),
                    count == self.layers.len(),
                    last == count - 1,
                    l < count,
                    width == self.layers[l as int].len(),
                    slope.len() == width,
                    seed.len() == self.layers[last as int].len(),
                    dws.len() == count,
                    dbs.len() == count,
                    l < last ==> self.layer_wf(l + 1) && self.layer_shaped(dws@, dbs@, l + 1),
                    l > 0 ==> self.layer_wf(l - 1),
                    j <= width,
                    layer_dbs.len() == j,
                    layer_dws.len() == j,
                    forall|n: int|
                        0 <= n < j ==> (#[trigger] layer_dws[n]).len() == self.weights[l as int][n].len(),
                    exact_dot::<T>() ==> forall|n: int|
                        0 <= n < j ==> {
                            &&& #[trigger] layer_dbs[n] == self.cost_to_activation(
                                seed@,
                                dbs@,
                                l as int,
                                n,
                            ).mul_spec(slope[n])
                            &&& forall|k: int|
                                0 <= k < self.source(l as int).len() ==> #[trigger] layer_dws[n][k]
                                    == layer_dbs[n].mul_spec(self.source(l as int)[k])
                        },
                decreases width - j,
            {
                // dC/da(l, j)
                let cost_derivative = if l == last {
                    seed[j]
                } else {
                    column_dot(&dbs[l + 1], &self.weights[l + 1], j)
                };
                let bias_gradient = cost_derivative * slope[j];

                let fan_in = self.weights[l][j].len();
                let mut neuron_dws: Vec<T> = Vec::new();
                let mut k: usize = 0;
                while k < fan_in
                    invariant
                        self.wf(),
                        self.layer_wf(l as int),
                        can_dot::<T>(),
                        l < self.layers.len(),
                        l > 0 ==> self.layer_wf(l - 1),
                        j < self.weights[l as int].len(),
                        fan_in == self.weights[l as int][j as int].len(),
                        fan_in == self.source(l as int).len(),
                        k <= fan_in,
                        neuron_dws.len() == k,
                        exact_dot::<T>() ==> forall|m: int|
                            0 <= m < k ==> #[trigger] neuron_dws[m] == bias_gradient.mul_spec(
                                self.source(l as int)[m],
                            ),
                    decreases fan_in - k,
                {
                    let fed = if l == 0 {
                        self.input[k]
                    } else {
                        self.activated_layers[l - 1][k]
                    };
                    neuron_dws.push(bias_gradient * fed);
                    k += 1;
                }
                layer_dbs.push(bias_gradient);
                layer_dws.push(neuron_dws);
                j += 1;
            }
            let ghost dws_before = dws@;
            let ghost dbs_before = dbs@;
            dws[l] = layer_dws;
            dbs[l] = layer_dbs;
            proof {
                slopes = slopes.update(l as int, slope);
                assert forall|m: int| l <= m < count implies #[trigger] self.layer_shaped(
                    dws@,
                    dbs@,
                    m,
                ) by {
                    if m > l {
                        assert(self.layer_shaped(dws_before, dbs_before, m));
                    }
                }
                if exact_dot::<T>() {
                    assert forall|m: int| l <= m < count implies #[trigger] self.layer_gradient(
                        seed@,
                        slopes[m]@,
                        dws@,
                        dbs@,
                        m,
                    ) by {
                        if m > l {
                            assert(self.layer_gradient(seed@, slopes[m]@, dws_before, dbs_before, m));
                            assert forall|n: int|
                                0 <= n < self.layers[m].len() implies #[trigger] self.neuron_gradient(
                                seed@,
                                slopes[m]@,
                                dws@,
                                dbs@,
                                m,
                                n,
                            ) by {
                                assert(self.neuron_gradient(
                                    seed@,
                                    slopes[m]@,
                                    dws_before,
                                    dbs_before,
                                    m,
                                    n,
                                ));
                            }
                        }
                    }
                }
            }
        }
        proof {
            assert(self.shaped_like_parameters(dws@, dbs@));
            assert(self.backward_done(expected, seed, slopes, dws@, dbs@));
        }
        Ok((dws, dbs))
    }
}

} // verus!
