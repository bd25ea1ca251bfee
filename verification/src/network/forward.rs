//! The forward pass: from an input to the values of every layer.

use crate::error::ShapeError;
use crate::functions::pure_map;
use crate::utils::math::dot_product;
use crate::network::weighted_input;
use crate::network::Network;
use crate::scalar::can_dot;
use crate::scalar::exact_dot;
use crate::scalar::Scalar;
use vstd::prelude::*;

verus! {

impl<'a, T, F, D, I, C, CD, N> Network<'a, T, F, D, I, C, CD, N> where
    T: Scalar,
    F: Fn(&Vec<T>) -> Vec<T>,
    D: Fn(&Vec<T>) -> Vec<T>,
    I: Fn(usize) -> T,
    C: Fn(&Vec<T>, &Vec<T>) -> T,
    CD: Fn(&Vec<T>, &Vec<T>) -> Vec<T>,
    N: Fn(&Vec<T>) -> Vec<T>,
 {
    /// feedforwards (sets values) to the layer (in layers and activated_layers) with the given index
    pub fn feedforward_layer(&mut self, layer_index: usize)
        requires
            old(self).wf(),
            layer_index < old(self).layers.len(),
            can_dot::<T>(),
            old(self).activation_functions[layer_index as int].fits::<T>(),
        ensures
            final(self).wf(),
            final(self).same_parameters(old(self)),
            final(self).input == old(self).input,
            final(self).layers.len() == old(self).layers.len(),
            forall|k: int|
                0 <= k < old(self).layers.len() && k != layer_index ==> final(self).layers[k]
                    == old(self).layers[k] && final(self).activated_layers[k] == old(
                    self,
                ).activated_layers[k],
            final(self).layers[layer_index as int].len() == old(self).layers[layer_index as int].len(),
            final(self).layer_computed(layer_index as int),
    {
        let count = self.layers[layer_index].len();
        let mut values: Vec<T> = Vec::new();
        let mut i: usize = 0;
        while i < count
            invariant
                self.wf(),
                self.layer_wf(layer_index as int),
                layer_index < self.layers.len(),
                count == self.layers[layer_index as int].len(),
                i <= count,
                values.len() == i,
                can_dot::<T>(),
                exact_dot::<T>() ==> forall|n: int|
                    0 <= n < i ==> #[trigger] values[n] == weighted_input(
                        self.source(layer_index as int),
                        self.weights[layer_index as int][n]@,
                        self.biases[layer_index as int][n],
                    ),
            decreases count - i,
        {
            let weighted = if layer_index == 0 {
                dot_product(&self.input, &self.weights[layer_index][i])
            } else {
                dot_product(&self.activated_layers[layer_index - 1], &self.weights[layer_index][i])
            };
            let bias = self.biases[layer_index][i];
            values.push(weighted.unwrap() + bias);
            i += 1;
        }
        let activated = (self.activation_functions[layer_index].function)(&values);
        self.layers[layer_index] = values;
        self.activated_layers[layer_index] = activated;
        proof {
            assert forall|l: int| 0 <= l < self.layers.len() implies #[trigger] self.layer_wf(
                l,
            ) by {
                assert(old(self).layer_wf(l));
            }
        }
    }

    /// Every layer holds the values of a forward pass from the current input.
    pub open spec fn forward_done(&self) -> bool {
        forall|l: int| 0 <= l < self.layers.len() ==> #[trigger] self.layer_computed(l)
    }

    /// Runs the forward pass over every layer, from the first to the last.
    pub fn feedforward(&mut self)
        requires
            old(self).wf(),
            can_dot::<T>(),
            old(self).functions_fit(),
        ensures
            final(self).wf(),
            final(self).same_parameters(old(self)),
            final(self).input == old(self).input,
            final(self).forward_done(),
    {
        let count = self.layers.len();
        let mut i: usize = 0;
        while i < count
            invariant
                self.wf(),
                self.same_parameters(old(self)),
                self.input == old(self).input,
                self.functions_fit(),
                can_dot::<T>(),
                count == self.layers.len(),
                i <= count,
                forall|l: int| 0 <= l < i ==> #[trigger] self.layer_computed(l),
            decreases count - i,
        {
            let ghost before = *self;
            self.feedforward_layer(i);
            proof {
                assert forall|l: int| 0 <= l < i + 1 implies #[trigger] self.layer_computed(l) by {
                    if l < i {
                        assert(before.layer_computed(l));
                    }
                }
            }
            i += 1;
        }
    }

    /// This network with the weights and biases of `other`.
    pub open spec fn with_parameters_of(&self, other: &Self) -> Self {
        Network { weights: other.weights, biases: other.biases, ..*self }
    }

    /// The input and the values of every layer are those of `other`.
    pub open spec fn same_values(&self, other: &Self) -> bool {
        &&& self.input == other.input
        &&& self.layers == other.layers
        &&& self.activated_layers == other.activated_layers
    }

    /// The network holds a forward pass from `data` that was run with the weights
    /// and biases of `params`: its input is what the normalization returned for
    /// `data`, and with those weights and biases every layer holds the values of
    /// a forward pass from that input.
    pub open spec fn holds_pass(&self, params: &Self, data: Vec<T>) -> bool {
        &&& call_ensures(self.normalization_fn.function, (&data,), self.input)
        &&& self.with_parameters_of(params).forward_done()
    }

    /// The network holds what passes over the inputs of the examples, one after
    /// the other, leave behind: the pass from the input of the last example, run
    /// with the weights and biases of `params`; or, where there is no example,
    /// the values of `before`.
    pub open spec fn holds_last_pass(
        &self,
        params: &Self,
        before: &Self,
        data: Seq<(Vec<T>, Vec<T>)>,
    ) -> bool {
        if data.len() == 0 {
            self.same_values(before)
        } else {
            self.holds_pass(params, data[data.len() - 1].0)
        }
    }

    /// As `holds_last_pass`, for examples given by their entries: the last pass
    /// was run from some input with the entries of the last example's input.
    pub open spec fn holds_last_pass_of(
        &self,
        params: &Self,
        before: &Self,
        data: Seq<(Seq<T>, Seq<T>)>,
    ) -> bool {
        if data.len() == 0 {
            self.same_values(before)
        } else {
            exists|input: Vec<T>|
                input@ == data[data.len() - 1].0 && #[trigger] self.holds_pass(params, input)
        }
    }

    /// predicts the output from the given data
    ///
    /// The data must be as long as the input layer. It is normalized, becomes the
    /// current input, and is passed forward through every layer.
    pub fn predict(&mut self, data: Vec<T>) -> (r: Result<(), ShapeError>)
        requires
            old(self).wf(),
            can_dot::<T>(),
            old(self).functions_fit(),
        ensures
            r is Ok <==> data.len() == old(self).input.len(),
            r matches Err(e) ==> e == (ShapeError::InputLength {
                expected: old(self).input.len(),
                found: data.len(),
            }) && *final(self) == *old(self),
            r is Ok ==> {
                &&& final(self).wf()
                &&& final(self).same_parameters(old(self))
                &&& final(self).input.len() == old(self).input.len()
                &&& call_ensures(final(self).normalization_fn.function, (&data,), final(self).input)
                &&& final(self).forward_done()
            },
    {
        self.predict_from(&data)
    }

    /// Predicts as `predict` does, from data that the caller keeps.
    pub fn predict_from(&mut self, data: &Vec<T>) -> (r: Result<(), ShapeError>)
        requires
            old(self).wf(),
            can_dot::<T>(),
            old(self).functions_fit(),
        ensures
            r is Ok <==> data.len() == old(self).input.len(),
            r matches Err(e) ==> e == (ShapeError::InputLength {
                expected: old(self).input.len(),
                found: data.len(),
            }) && *final(self) == *old(self),
            r is Ok ==> {
                &&& final(self).wf()
                &&& final(self).same_parameters(old(self))
                &&& final(self).input.len() == old(self).input.len()
                &&& call_ensures(final(self).normalization_fn.function, (data,), final(self).input)
                &&& final(self).forward_done()
                &&& final(self).holds_pass(old(self), *data)
            },
    {
        if data.len() != self.input.len() {
            return Err(ShapeError::InputLength { expected: self.input.len(), found: data.len() });
        }
        let normalized = (self.normalization_fn.function)(data);
        self.input = normalized;
        proof {
            assert forall|l: int| 0 <= l < self.layers.len() implies #[trigger] self.layer_wf(
                l,
            ) by {
                assert(old(self).layer_wf(l));
            }
        }
        self.feedforward();
        proof {
            assert(self.with_parameters_of(old(self)) == *self);
        }
        Ok(())
    }

    /// Every activation function and the normalization of the network is a
    /// function of the entries of its argument.
    pub open spec fn functions_pure(&self) -> bool {
        &&& forall|l: int|
            0 <= l < self.activation_functions.len() ==> pure_map::<T, F>(
                (#[trigger] self.activation_functions[l]).function,
            )
        &&& pure_map::<T, N>(self.normalization_fn.function)
    }

    /// Two forward passes with the same parameters from the same input give the
    /// same values in the first `count` layers, where the arithmetic is exact
    /// and the functions of the network are functions of their arguments.
    pub proof fn lemma_forward_pass_is_determined(&self, other: &Self, count: int)
        requires
            exact_dot::<T>(),
            self.wf(),
            other.wf(),
            self.same_parameters(other),
            self.functions_pure(),
            self.input@ == other.input@,
            self.forward_done(),
            other.forward_done(),
            0 <= count <= self.layers.len(),
        ensures
            forall|l: int|
                0 <= l < count ==> (#[trigger] self.layers[l])@ == other.layers[l]@
                    && self.activated_layers[l]@ == other.activated_layers[l]@,
        decreases count,
    {
        if count > 0 {
            self.lemma_forward_pass_is_determined(other, count - 1);
            let l = count - 1;
            assert(self.layer_wf(l));
            assert(other.layer_wf(l));
            assert(self.layer_computed(l));
            assert(other.layer_computed(l));
            if l > 0 {
                assert(self.layers[l - 1]@ == other.layers[l - 1]@);
            }
        }
    }

    /// Idempotence of prediction: two predictions with the same parameters from
    /// inputs with the same entries leave the same input and the same values in
    /// every layer, where the arithmetic is exact and the functions of the
    /// network are functions of their arguments.
    pub proof fn lemma_predict_is_determined(
        &self,
        other: &Self,
        data: Vec<T>,
        other_data: Vec<T>,
    )
        requires
            exact_dot::<T>(),
            self.wf(),
            other.wf(),
            self.same_parameters(other),
            self.functions_pure(),
            data@ == other_data@,
            call_ensures(self.normalization_fn.function, (&data,), self.input),
            call_ensures(other.normalization_fn.function, (&other_data,), other.input),
            self.forward_done(),
            other.forward_done(),
        ensures
            self.input@ == other.input@,
            forall|l: int|
                0 <= l < self.layers.len() ==> (#[trigger] self.layers[l])@ == other.layers[l]@
                    && self.activated_layers[l]@ == other.activated_layers[l]@,
    {
        self.lemma_forward_pass_is_determined(other, self.layers.len() as int);
        assert(forall|l: int|
            0 <= l < self.layers.len() ==> (#[trigger] self.layers[l])@ == other.layers[l]@);
    }
}

} // verus!
