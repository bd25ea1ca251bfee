//! What a network reports: its outputs by label, the best of them, and its
//! average cost over a set of examples.

use crate::network::descent::examples;
use crate::error::SelectError;
use crate::error::ShapeError;
use crate::utils::math::sum;
use crate::utils::order::best_among;
use crate::utils::order::best_index;
use crate::utils::order::ordered_up_to;
use crate::network::Network;
use crate::network::TrainingData;
use crate::scalar::comparable;
use crate::scalar::can_average;
use crate::scalar::exact_mean;
use crate::scalar::exact_sum;
use crate::scalar::ordered;
use crate::scalar::scalar_of;
use crate::scalar::Scalar;
use vstd::prelude::*;
use vstd::std_specs::ops::DivSpec;

verus! {

impl<'a, T, F, D, I, C, CD, N> Network<'a, T, F, D, I, C, CD, N> where
    T: Scalar,
    F: Fn(&Vec<T>) -> Vec<T>,
    D: Fn(&Vec<T>) -> Vec<T>,
    I: Fn(usize) -> T,
    C: Fn(&Vec<T>, &Vec<T>) -> T,
    CD: Fn(&Vec<T>, &Vec<T>) -> Vec<T>,
    N: Fn(&Vec<T>) -> Vec<T>,
 {
    /// The activated values of the last layer.
    pub open spec fn outputs(&self) -> Seq<T> {
        self.activated_layers[self.layers.len() - 1]@
    }

    /// returns the labels from out_labels, each with its corresponding value
    pub fn get_output(&self) -> (r: Vec<(&'a str, T)>)
        requires
            self.wf(),
        ensures
            r.len() == self.out_labels.len(),
            forall|i: int|
                0 <= i < r.len() ==> #[trigger] r[i] == (self.out_labels[i], self.outputs()[i]),
    {
        let last = self.layers.len() - 1;
        proof {
            assert(self.layer_wf(last as int));
        }
        let mut out: Vec<(&'a str, T)> = Vec::new();
        let mut i: usize = 0;
        while i < self.out_labels.len()
            invariant
                self.wf(),
                last == self.layers.len() - 1,
                self.activated_layers[last as int].len() == self.out_labels.len(),
                i <= self.out_labels.len(),
                out.len() == i,
                forall|k: int|
                    0 <= k < i ==> #[trigger] out[k] == (self.out_labels[k], self.outputs()[k]),
            decreases self.out_labels.len() - i,
        {
            out.push((self.out_labels[i], self.activated_layers[last][i]));
            i += 1;
        }
        out
    }

    /// returns a key and corresponding value with the highest value in the output
    ///
    /// Of equal values the last one wins. Nothing is returned where the network
    /// has no output, or where two values cannot be compared.
    pub fn get_best_output(&self) -> (r: Result<(&'a str, T), SelectError>)
        requires
            self.wf(),
        ensures
            r == Err::<(&'a str, T), SelectError>(SelectError::NoOutput) <==> self.out_labels.len()
                == 0,
            r matches Ok(best) ==> exists|i: int|
                0 <= i < self.out_labels.len() && best == (
                    #[trigger] self.out_labels[i],
                    self.outputs()[i],
                ),
            r matches Err(SelectError::Unordered { index }) ==> 1 <= index < self.out_labels.len(),
            ordered::<T>() ==> (r matches Ok(best) ==> {
                let i = best_among(self.outputs(), self.out_labels.len() as int);
                &&& best == (self.out_labels[i], self.outputs()[i])
                &&& ordered_up_to(self.outputs(), self.out_labels.len() as int)
            }),
            ordered::<T>() ==> (r matches Err(SelectError::Unordered { index }) ==> {
                &&& ordered_up_to(self.outputs(), index as int)
                &&& !comparable(
                    self.outputs()[best_among(self.outputs(), index as int)],
                    self.outputs()[index as int],
                )
            }),
    {
        let last = self.layers.len() - 1;
        proof {
            assert(self.layer_wf(last as int));
        }
        match best_index(&self.activated_layers[last]) {
            Err(e) => Err(e),
            Ok(i) => Ok((self.out_labels[i], self.activated_layers[last][i])),
        }
    }

    /// `state` is a network with the parameters of this one after a forward pass
    /// from `data`, and `cost` is what the cost function returned for its outputs
    /// and the expected output `target`.
    pub open spec fn costs(&self, state: Self, data: Vec<T>, target: Vec<T>, cost: T) -> bool {
        &&& state.wf()
        &&& state.same_parameters(self)
        &&& call_ensures(state.normalization_fn.function, (&data,), state.input)
        &&& state.forward_done()
        &&& call_ensures(
            state.cost_func.function,
            (&state.activated_layers[state.layers.len() - 1], &target),
            cost,
        )
    }

    /// `cost` is the cost of what a network with the parameters of this one
    /// predicts for the example.
    pub open spec fn cost_for(&self, input: Seq<T>, expected: Seq<T>, cost: T) -> bool {
        exists|state: Self, data: Vec<T>, target: Vec<T>|
            {
                &&& data@ == input
                &&& target@ == expected
                &&& #[trigger] self.costs(state, data, target, cost)
            }
    }

    /// `costs` holds the cost of each example, `count` is what `as_scalar` made
    /// of their number, and `average` is the sum of the costs divided by `count`.
    pub open spec fn averages<S: Fn(usize) -> T>(
        &self,
        data: Seq<(Seq<T>, Seq<T>)>,
        as_scalar: S,
        costs: Seq<T>,
        count: T,
        average: T,
    ) -> bool {
        &&& costs.len() == data.len()
        &&& forall|e: int|
            0 <= e < data.len() ==> self.cost_for(data[e].0, data[e].1, #[trigger] costs[e])
        &&& call_ensures(as_scalar, (data.len() as usize,), count)
        &&& exact_mean::<T>() ==> average == sum(costs).div_spec(count)
    }

    /// `average` is the average of the costs of what a network with the
    /// parameters of this one predicts for the examples.
    pub open spec fn average_of<S: Fn(usize) -> T>(
        &self,
        data: Seq<(Seq<T>, Seq<T>)>,
        as_scalar: S,
        average: T,
    ) -> bool {
        exists|costs: Seq<T>, count: T| #[trigger]
            self.averages(data, as_scalar, costs, count, average)
    }

    /// predicts values
    /// computes the average cost against the training data
    ///
    /// Every example must fit the network. The values of the layers are those of
    /// the last prediction afterwards; the weights and biases are untouched.
    pub fn average_cost<S: Fn(usize) -> T>(&mut self, data: &TrainingData<T>, as_scalar: &S) -> (r:
        Result<T, ShapeError>)
        requires
            old(self).wf(),
            can_average::<T>(),
            old(self).functions_fit(),
            forall|n: usize| #[trigger] call_requires(*as_scalar, (n,)),
        ensures
            r is Ok <==> old(self).examples_fit(data@),
            r matches Err(e) ==> {
                &&& old(self).first_misfit(data@, e)
                &&& *final(self) == *old(self)
            },
            r matches Ok(average) ==> {
                &&& final(self).wf()
                &&& final(self).same_parameters(old(self))
                &&& final(self).same_frame(old(self))
                &&& old(self).average_of(examples(data@), *as_scalar, average)
                &&& final(self).holds_last_pass(old(self), old(self), data@)
                &&& data.len() == 0 ==> *final(self) == *old(self)
                &&& data.len() > 0 ==> final(self).forward_done()
            },
    {
        match self.check_examples(data) {
            Err(e) => {
                return Err(e);
            },
            Ok(()) => {},
        }
        let ghost start = *self;
        let ghost mut costs: Seq<T> = Seq::empty();
        let mut cost_sum: T = scalar_of(0);
        let mut e: usize = 0;
        while e < data.len()
            invariant
                self.wf(),
                self.same_parameters(&start),
                self.same_frame(&start),
                self.functions_fit(),
                can_average::<T>(),
                start.wf(),
                start.examples_fit(data@),
                e <= data.len(),
                costs.len() == e,
                forall|i: int|
                    0 <= i < e ==> start.cost_for(data[i].0@, data[i].1@, #[trigger] costs[i]),
                exact_sum::<T>() ==> cost_sum == sum(costs),
                e == 0 ==> *self == start,
                e > 0 ==> self.forward_done() && self.holds_pass(&start, data[e - 1].0),
            decreases data.len() - e,
        {
            let ghost before = *self;
            let _ = self.predict_from(&data[e].0);
            proof {
                assert(self.with_parameters_of(&start) == self.with_parameters_of(&before));
            }
            let last = self.layers.len() - 1;
            proof {
                assert(self.layer_wf(last as int));
                assert forall|l: int| 0 <= l < self.layers.len() implies (
                #[trigger] self.layers[l]).len() == start.layers[l].len() by {
                    assert(self.layer_wf(l));
                    assert(before.layer_wf(l));
                }
            }
            let cost = (self.cost_func.function)(&self.activated_layers[last], &data[e].1);
            cost_sum = cost_sum + cost;
            proof {
                assert(start.costs(*self, data[e as int].0, data[e as int].1, cost));
                let extended = costs.push(cost);
                assert(extended.drop_last() == costs);
                costs = extended;
            }
            e += 1;
        }
        let count = as_scalar(data.len());
        let average = cost_sum / count;
        proof {
            assert(start.averages(examples(data@), *as_scalar, costs, count, average));
        }
        Ok(average)
    }
}

} // verus!
