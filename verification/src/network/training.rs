//! The training loop: in every epoch the examples are shuffled, cut into
//! batches, and each batch takes one step of gradient descent.

use crate::network::descent::examples;
use crate::error::ShapeError;
use crate::utils::math::copy_vec;
use crate::network::Network;
use crate::network::TrainingData;
use crate::scalar::can_descend;
use crate::scalar::Scalar;
use rand::seq::SliceRandom;
use vstd::prelude::*;

verus! {

/// What training reports while it runs.
pub enum Progress<T> {
    /// Training begins.
    Started,
    /// The average cost over the examples, before the first and after the last
    /// epoch.
    AverageCost(T),
    /// An epoch begins: its number, counted from one, and the number of epochs.
    Epoch { epoch: usize, of: usize },
    /// Training is over.
    Finished,
}

/// Puts the items in a random order.
///
/// Calls `shuffle` of `rand::seq::SliceRandom` with the thread's generator. The
/// method only swaps items, so afterwards the vector holds the items it held
/// before, each as often as before. Nothing is claimed of their order.
#[verifier::external_body]
fn shuffle<E>(items: &mut Vec<E>)
    ensures
        final(items)@.to_multiset() == old(items)@.to_multiset(),
{
    items.shuffle(&mut rand::thread_rng());
}

/// Where batch `i` ends when `len` items are cut into batches of `size`.
pub open spec fn batch_end(len: int, size: int, i: int) -> int {
    if (i + 1) * size < len {
        (i + 1) * size
    } else {
        len
    }
}

/// Batch `i` of the items cut into batches of `size`: the items from `i * size`
/// up to the next multiple of `size`, or up to the last item if there are fewer.
pub open spec fn batch_of<E>(items: Seq<E>, size: int, i: int) -> Seq<E> {
    items.subrange(i * size, batch_end(items.len() as int, size, i))
}

/// `count` batches of `size` hold `len` items: all of them are full but the last,
/// which holds at least one item.
pub open spec fn batches_cover(len: int, size: int, count: int) -> bool {
    &&& count >= 0
    &&& count * size >= len
    &&& count == 0 || (count - 1) * size < len
}

/// The examples from `start` up to `end`.
fn copy_examples<T: Copy>(data: &TrainingData<T>, start: usize, end: usize) -> (r: TrainingData<T>)
    requires
        start <= end <= data.len(),
    ensures
        r.len() == end - start,
        examples(r@) == examples(data@).subrange(start as int, end as int),
{
    let mut out: TrainingData<T> = Vec::new();
    let mut i: usize = start;
    while i < end
        invariant
            start <= i <= end <= data.len(),
            out.len() == i - start,
            forall|k: int|
                0 <= k < out.len() ==> (#[trigger] out[k]).0@ == data[start + k].0@ && out[k].1@
                    == data[start + k].1@,
        decreases end - i,
    {
        out.push((copy_vec(&data[i].0), copy_vec(&data[i].1)));
        i += 1;
    }
    out
}

impl<'a, T, F, D, I, C, CD, N> Network<'a, T, F, D, I, C, CD, N> where
    T: Scalar,
    F: Fn(&Vec<T>) -> Vec<T>,
    D: Fn(&Vec<T>) -> Vec<T>,
    I: Fn(usize) -> T,
    C: Fn(&Vec<T>, &Vec<T>) -> T,
    CD: Fn(&Vec<T>, &Vec<T>) -> Vec<T>,
    N: Fn(&Vec<T>) -> Vec<T>,
 {
    /// `states` are the networks that a pass over the batches goes through: the
    /// first is `before`, the last is this one, and each is the one before it
    /// after one step of gradient descent over the next batch.
    pub open spec fn walks<S: Fn(usize) -> T>(
        &self,
        before: &Self,
        data: Seq<(Seq<T>, Seq<T>)>,
        rate: T,
        size: usize,
        as_scalar: S,
        states: Seq<Self>,
    ) -> bool {
        &&& batches_cover(data.len() as int, size as int, states.len() - 1)
        &&& states[0] == *before
        &&& states[states.len() - 1] == *self
        &&& forall|i: int|
            0 <= i < states.len() - 1 ==> (#[trigger] states[i + 1]).descent_step(
                &states[i],
                batch_of(data, size as int, i),
                rate,
                as_scalar,
            )
    }

    /// This network is `before` after one epoch: the examples, in the order
    /// given, were cut into batches of `size`, and each batch in turn took one
    /// step of gradient descent.
    pub open spec fn epoch_step<S: Fn(usize) -> T>(
        &self,
        before: &Self,
        data: Seq<(Seq<T>, Seq<T>)>,
        rate: T,
        size: usize,
        as_scalar: S,
    ) -> bool {
        exists|states: Seq<Self>| #[trigger] self.walks(before, data, rate, size, as_scalar, states)
    }

    /// What an epoch over the examples leaves in the input and the layers: the
    /// forward pass from the last example, run with the parameters with which
    /// the last batch began. An epoch over no example leaves the network as it
    /// was.
    pub open spec fn ends_epoch(&self, before: &Self, data: Seq<(Seq<T>, Seq<T>)>) -> bool {
        if data.len() == 0 {
            *self == *before
        } else {
            exists|prior: Self|
                prior.wf() && prior.same_frame(before) && #[trigger] self.holds_last_pass_of(
                    &prior,
                    &prior,
                    data,
                )
        }
    }

    /// splits training data into mini batches
    ///
    /// Every example must fit the network. Each batch holds `batch_size`
    /// examples, but the last, which holds what is left; each in turn takes one
    /// step of gradient descent. Afterwards the input and the layers hold the
    /// forward pass from the last example.
    pub fn batch_gradient_descent<S: Fn(usize) -> T>(
        &mut self,
        training_data: &TrainingData<T>,
        learning_rate: T,
        batch_size: usize,
        as_scalar: &S,
    ) -> (r: Result<(), ShapeError>)
        requires
            old(self).wf(),
            can_descend::<T>(),
            old(self).functions_fit(),
            forall|n: usize| #[trigger] call_requires(*as_scalar, (n,)),
            batch_size >= 1,
        ensures
            r is Ok <==> old(self).examples_fit(training_data@),
            r matches Err(e) ==> {
                &&& old(self).first_misfit(training_data@, e)
                &&& *final(self) == *old(self)
            },
            r is Ok ==> {
                &&& final(self).wf()
                &&& final(self).same_frame(old(self))
                &&& final(self).epoch_step(
                    old(self),
                    examples(training_data@),
                    learning_rate,
                    batch_size,
                    *as_scalar,
                )
                &&& final(self).ends_epoch(old(self), examples(training_data@))
            },
    {
        match self.check_examples(training_data) {
            Err(e) => {
                return Err(e);
            },
            Ok(()) => {},
        }
        let ghost start = *self;
        let ghost all = examples(training_data@);
        let ghost mut states: Seq<Self> = seq![*self];
        let ghost mut done: int = 0;
        let len = training_data.len();
        let mut position: usize = 0;
        while position < len
            invariant
                self.wf(),
                self.same_frame(&start),
                self.functions_fit(),
                can_descend::<T>(),
                forall|n: usize| #[trigger] call_requires(*as_scalar, (n,)),
                batch_size >= 1,
                start.examples_fit(training_data@),
                len == training_data.len(),
                all == examples(training_data@),
                position <= len,
                done >= 0,
                position < len ==> position == done * batch_size,
                position == len ==> done * batch_size >= len,
                done == 0 || (done - 1) * batch_size < len,
                states.len() == done + 1,
                states[0] == start,
                states[done] == *self,
                forall|i: int|
                    0 <= i < done ==> (#[trigger] states[i + 1]).descent_step(
                        &states[i],
                        batch_of(all, batch_size as int, i),
                        learning_rate,
                        *as_scalar,
                    ),
                self.ends_epoch(&start, all.take(position as int)),
            decreases len - position,
        {
            let end = if len - position <= batch_size {
                len
            } else {
                position + batch_size
            };
            proof {
                assert((done + 1) * batch_size == done * batch_size + batch_size)
                    by (nonlinear_arith);
            }
            let batch = copy_examples(training_data, position, end);
            proof {
                assert forall|k: int| 0 <= k < batch.len() implies self.example_fits(
                    #[trigger] batch[k],
                ) by {
                    assert(examples(batch@)[k] == all[position + k]);
                }
            }
            let ghost prior = *self;
            let _ = self.gradient_descent(&batch, learning_rate, as_scalar);
            proof {
                states = states.push(*self);
                done = done + 1;
                assert(examples(batch@)[batch.len() - 1] == all[end - 1]);
                assert(all.take(end as int)[end - 1] == all[end - 1]);
                assert(self.holds_last_pass_of(&prior, &prior, examples(batch@)));
                assert(self.holds_last_pass_of(&prior, &prior, all.take(end as int)));
            }
            position = end;
        }
        proof {
            assert(self.walks(&start, all, learning_rate, batch_size, *as_scalar, states));
            assert(all.take(len as int) == all);
        }
        Ok(())
    }

    /// What a report of the average cost over the examples leaves of `before`:
    /// the same weights and biases, and in the input and the layers the forward
    /// pass from the last example. Where `log_costs` is not set, there is no
    /// report, and the network is as `before`.
    pub open spec fn after_cost_report(&self, before: &Self, data: Seq<(Vec<T>, Vec<T>)>) -> bool {
        if before.log_costs {
            self.holds_last_pass(before, before, data)
        } else {
            *self == *before
        }
    }

    /// `states` are the networks at the beginning of each epoch and after the
    /// last, and `orders` the examples in the order of each epoch. The first
    /// state is `before` after the first report of the average cost, over the
    /// examples as given, and this network is the last state after the second,
    /// over the examples in the order of the last epoch; each order holds the
    /// examples, each as often as given; and each state is the one before it
    /// after an epoch over the examples in that order.
    pub open spec fn trains<S: Fn(usize) -> T>(
        &self,
        before: &Self,
        data: Seq<(Vec<T>, Vec<T>)>,
        epochs: usize,
        rate: T,
        size: usize,
        as_scalar: S,
        states: Seq<Self>,
        orders: Seq<Seq<(Vec<T>, Vec<T>)>>,
    ) -> bool {
        &&& states.len() == epochs + 1
        &&& orders.len() == epochs
        &&& states[0].wf()
        &&& states[0].same_parameters(before)
        &&& states[0].same_frame(before)
        &&& states[0].after_cost_report(before, data)
        &&& self.same_parameters(&states[epochs as int])
        &&& self.after_cost_report(
            &states[epochs as int],
            if epochs == 0 {
                data
            } else {
                orders[epochs - 1]
            },
        )
        &&& forall|i: int|
            0 <= i < epochs ==> {
                &&& (#[trigger] orders[i]).to_multiset() == data.to_multiset()
                &&& states[i + 1].epoch_step(&states[i], examples(orders[i]), rate, size, as_scalar)
            }
    }

    /// This network is `before` after training: it went through the given
    /// number of epochs, each over the examples in some order.
    pub open spec fn trained_from<S: Fn(usize) -> T>(
        &self,
        before: &Self,
        data: Seq<(Vec<T>, Vec<T>)>,
        epochs: usize,
        rate: T,
        size: usize,
        as_scalar: S,
    ) -> bool {
        exists|states: Seq<Self>, orders: Seq<Seq<(Vec<T>, Vec<T>)>>| #[trigger]
            self.trains(before, data, epochs, rate, size, as_scalar, states, orders)
    }

    /// Trains the network on the examples.
    ///
    /// Every example must fit the network. Training runs `iteration_cnt` epochs,
    /// whatever the cost. In each the examples are shuffled and cut into batches
    /// of `batch_size`, the last of which may be shorter, and each batch takes one
    /// step of gradient descent at the given learning rate. `as_scalar` turns a
    /// number of examples into a scalar.
    ///
    /// `report` is told when training begins and ends; where `log_epochs` is set,
    /// when each epoch begins; and where `log_costs` is set, the average cost
    /// over the examples before the first and after the last epoch.
    ///
    /// The input and the layers hold the last forward pass that was run: that of
    /// the last average, or else of the last batch. With no epoch and no average
    /// to report, the network stays as it was.
    pub fn train<S: Fn(usize) -> T, R: Fn(Progress<T>)>(
        &mut self,
        training_data: TrainingData<T>,
        iteration_cnt: usize,
        learning_rate: T,
        batch_size: usize,
        as_scalar: &S,
        report: &R,
    ) -> (r: Result<(), ShapeError>)
        requires
            old(self).wf(),
            can_descend::<T>(),
            old(self).functions_fit(),
            forall|n: usize| #[trigger] call_requires(*as_scalar, (n,)),
            forall|event: Progress<T>| #[trigger] call_requires(*report, (event,)),
            batch_size >= 1,
        ensures
            r is Ok <==> old(self).examples_fit(training_data@),
            r matches Err(e) ==> {
                &&& old(self).first_misfit(training_data@, e)
                &&& *final(self) == *old(self)
            },
            r is Ok ==> {
                &&& final(self).wf()
                &&& final(self).same_frame(old(self))
                &&& final(self).trained_from(
                    old(self),
                    training_data@,
                    iteration_cnt,
                    learning_rate,
                    batch_size,
                    *as_scalar,
                )
                &&& iteration_cnt == 0 ==> final(self).same_parameters(old(self))
                &&& iteration_cnt == 0 && !old(self).log_costs ==> *final(self) == *old(self)
            },
    {
        match self.check_examples(&training_data) {
            Err(e) => {
                return Err(e);
            },
            Ok(()) => {},
        }
        let ghost start = *self;
        let ghost given = training_data@;
        report(Progress::Started);

        let mut training_data_mut = training_data;

        if self.log_costs {
            match self.average_cost(&training_data_mut, as_scalar) {
                Ok(cost) => {
                    report(Progress::AverageCost(cost));
                },
                Err(_) => {},
            }
        }
        let ghost mut states: Seq<Self> = seq![*self];
        let ghost mut orders: Seq<Seq<(Vec<T>, Vec<T>)>> = Seq::empty();
        let mut i: usize = 0;
        while i < iteration_cnt
            invariant
                self.wf(),
                self.same_frame(&start),
                self.functions_fit(),
                can_descend::<T>(),
                forall|n: usize| #[trigger] call_requires(*as_scalar, (n,)),
                forall|event: Progress<T>| #[trigger] call_requires(*report, (event,)),
                batch_size >= 1,
                start.examples_fit(given),
                training_data_mut@.to_multiset() == given.to_multiset(),
                training_data_mut@ == (if i == 0 {
                    given
                } else {
                    orders[i - 1]
                }),
                i <= iteration_cnt,
                states.len() == i + 1,
                orders.len() == i,
                states[0].wf(),
                states[0].same_parameters(&start),
                states[0].same_frame(&start),
                states[0].after_cost_report(&start, given),
                states[i as int] == *self,
                forall|k: int|
                    0 <= k < i ==> {
                        &&& (#[trigger] orders[k]).to_multiset() == given.to_multiset()
                        &&& states[k + 1].epoch_step(
                            &states[k],
                            examples(orders[k]),
                            learning_rate,
                            batch_size,
                            *as_scalar,
                        )
                    },
            decreases iteration_cnt - i,
        {
            if self.log_epochs {
                report(Progress::Epoch { epoch: i + 1, of: iteration_cnt });
            }
            shuffle(&mut training_data_mut);
            proof {
                self.lemma_same_examples_fit(given, training_data_mut@, &start);
            }
            let _ = self.batch_gradient_descent(
                &training_data_mut,
                learning_rate,
                batch_size,
                as_scalar,
            );
            proof {
                states = states.push(*self);
                orders = orders.push(training_data_mut@);
            }
            i += 1;
        }
        let ghost trained = *self;
        if self.log_costs {
            proof {
                self.lemma_same_examples_fit(given, training_data_mut@, &start);
            }
            match self.average_cost(&training_data_mut, as_scalar) {
                Ok(cost) => {
                    report(Progress::AverageCost(cost));
                },
                Err(_) => {},
            }
        }
        report(Progress::Finished);
        proof {
            assert(self.after_cost_report(&trained, training_data_mut@));
            assert(self.trains(
                &start,
                given,
                iteration_cnt,
                learning_rate,
                batch_size,
                *as_scalar,
                states,
                orders,
            ));
        }
        Ok(())
    }

    /// Examples that fit a network fit every network with layers of the same
    /// sizes, in whatever order they come.
    pub proof fn lemma_same_examples_fit(
        &self,
        given: Seq<(Vec<T>, Vec<T>)>,
        order: Seq<(Vec<T>, Vec<T>)>,
        other: &Self,
    )
        requires
            self.wf(),
            self.same_frame(other),
            other.examples_fit(given),
            order.to_multiset() == given.to_multiset(),
        ensures
            self.examples_fit(order),
    {
        given.to_multiset_ensures();
        order.to_multiset_ensures();
        assert forall|k: int| 0 <= k < order.len() implies self.example_fits(#[trigger] order[k]) by {
            let example = order[k];
            assert(order.contains(example));
            assert(order.to_multiset().count(example) > 0);
            assert(given.to_multiset().count(example) > 0);
            assert(given.contains(example));
            let at = choose|at: int| 0 <= at < given.len() && given[at] == example;
            assert(other.example_fits(given[at]));
        }
    }
}

} // verus!
