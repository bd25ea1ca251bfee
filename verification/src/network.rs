//! The network: its layers, its weights and biases, and the passes over them.

pub mod backward;
pub mod descent;
pub mod forward;
pub mod output;
pub mod training;

use crate::error::ConfigError;
use crate::functions::activation::ActivationFunction;
use crate::functions::cost::CostFunc;
use crate::functions::input_normalizations::NormalizationFn;
use crate::functions::takes_counts;
use crate::scalar::converts;
use crate::scalar::exact_dot;
use crate::scalar::zero;
use crate::scalar::Scalar;
use crate::utils::math::dot;
use crate::utils::math::zeros;
use vstd::prelude::*;
use vstd::std_specs::ops::AddSpec;

verus! {

/// Examples to learn from: each an input with the output expected for it.
pub type TrainingData<T> = Vec<(Vec<T>, Vec<T>)>;

/// The gradient of the cost: one entry for each weight, and one for each bias.
pub type Gradient<T> = (Vec<Vec<Vec<T>>>, Vec<Vec<T>>);

/// What a neuron holds before activation: the dot product of the values that
/// feed it with its weights, plus its bias.
pub open spec fn weighted_input<T: Scalar>(inputs: Seq<T>, weights: Seq<T>, bias: T) -> T {
    dot(inputs, weights).add_spec(bias)
}

/// The number of values that feed layer `l` of a network with an input of
/// `training_cnt` values and hidden layers of the given sizes.
pub open spec fn planned_fan_in(training_cnt: usize, hidden_layers: Seq<usize>, l: int) -> usize {
    if l == 0 {
        training_cnt
    } else {
        hidden_layers[l - 1]
    }
}

/// A network can be built with `activations` activation functions over an input
/// of `training_cnt` values and hidden layers of the given sizes: there is one
/// activation function for each hidden layer and one for the output layer, and
/// every layer is fed by at least one value.
pub open spec fn valid_config(
    training_cnt: usize,
    hidden_layers: Seq<usize>,
    activations: usize,
) -> bool {
    &&& activations == hidden_layers.len() + 1
    &&& forall|l: int|
        0 <= l <= hidden_layers.len() ==> #[trigger] planned_fan_in(training_cnt, hidden_layers, l)
            >= 1
}

/// The number of entries in the first `n` rows.
pub open spec fn entries<T>(rows: Seq<Vec<T>>, n: int) -> int
    decreases n,
{
    if n <= 0 {
        0
    } else {
        entries(rows, n - 1) + rows[n - 1].len()
    }
}

/// The first `n` rows, each of `width` entries, hold `n * width` entries.
pub proof fn lemma_entries_of_equal_rows<T>(rows: Seq<Vec<T>>, n: int, width: int)
    requires
        0 <= n <= rows.len(),
        forall|i: int| 0 <= i < n ==> (#[trigger] rows[i]).len() == width,
    ensures
        entries(rows, n) == n * width,
    decreases n,
{
    if n > 0 {
        lemma_entries_of_equal_rows(rows, n - 1, width);
        assert(n * width == (n - 1) * width + width) by (nonlinear_arith);
    } else {
        assert(n * width == 0) by (nonlinear_arith)
            requires
                n == 0,
        ;
    }
}

/// L = number of layers (except the first (input) layer)
/// l = current layer
/// N = number of neurons in the lth layer
/// n = current neuron from the layer N
/// M = number of neurons in the (l - 1)th layer
/// m = current neuron from the layer M
pub struct Network<'a, T, F, D, I, C, CD, N> {
    /// the input fields
    pub input: Vec<T>,
    /// outer vector has len of L
    /// each element represents a layer (l)
    /// does not include the first (input) layer
    ///
    /// inner vectors can have different len of N
    /// each element represents a neuron's (n) value before activation
    pub layers: Vec<Vec<T>>,
    /// outer vector has len of L
    /// each element represents a layer (l)
    /// does not include the first (input) layer
    ///
    /// inner vectors can have different len of N
    /// each element represents a neuron's (n) value after activation
    pub activated_layers: Vec<Vec<T>>,
    /// same length as the last layer
    /// labels for the outputs
    pub out_labels: Vec<&'a str>,
    /// outer vector has len of L
    /// each element represents all the weights between lth layer (N) and (l - 1)th layer (M)
    ///
    /// middle vectors can have different len of N
    /// each element represents all weights connected to neuron n
    ///
    /// inner vectors can have different len of M
    /// each element represents a weight connected from neuron m to neuron n
    pub weights: Vec<Vec<Vec<T>>>,
    /// outer vector has len of L
    /// each element represents a layer (l)
    /// does not include the first (input) layer
    ///
    /// inner vectors can have different len of N
    /// each element represents a bias of a neuron (n)
    pub biases: Vec<Vec<T>>,
    /// vector has len of L
    /// contains activation functions for all layers except the first (input) layer
    pub activation_functions: Vec<&'a ActivationFunction<'a, F, D, I>>,
    pub cost_func: &'a CostFunc<'a, C, CD>,
    /// report each epoch when training?
    pub log_epochs: bool,
    /// report the average cost at the beginning and at the end of training?
    pub log_costs: bool,
    pub normalization_fn: &'a NormalizationFn<'a, N>,
}

impl<'a, T, F, D, I, C, CD, N> Network<'a, T, F, D, I, C, CD, N> where
    T: Scalar,
    F: Fn(&Vec<T>) -> Vec<T>,
    D: Fn(&Vec<T>) -> Vec<T>,
    I: Fn(usize) -> T,
    C: Fn(&Vec<T>, &Vec<T>) -> T,
    CD: Fn(&Vec<T>, &Vec<T>) -> Vec<T>,
    N: Fn(&Vec<T>) -> Vec<T>,
 {
    /// The values that feed layer `l`: the input for the first layer, the
    /// activated values of the layer before it for every other.
    pub open spec fn source(&self, l: int) -> Seq<T> {
        if l == 0 {
            self.input@
        } else {
            self.activated_layers[l - 1]@
        }
    }

    /// Layer `l` has one value before and one after activation, one bias and one
    /// row of weights for each of its neurons, and each row has one weight for
    /// each value that feeds the layer.
    pub open spec fn layer_wf(&self, l: int) -> bool {
        &&& self.activated_layers[l].len() == self.layers[l].len()
        &&& self.biases[l].len() == self.layers[l].len()
        &&& self.weights[l].len() == self.layers[l].len()
        &&& forall|n: int|
            0 <= n < self.weights[l].len() ==> (#[trigger] self.weights[l][n]).len()
                == self.source(l).len()
    }

    /// The parts of the network fit together: there is at least one layer, every
    /// layer is well formed and has an activation function, and every neuron of
    /// the last layer has a label.
    pub open spec fn wf(&self) -> bool {
        &&& self.layers.len() >= 1
        &&& self.activated_layers.len() == self.layers.len()
        &&& self.weights.len() == self.layers.len()
        &&& self.biases.len() == self.layers.len()
        &&& self.activation_functions.len() == self.layers.len()
        &&& self.out_labels.len() == self.layers[self.layers.len() - 1].len()
        &&& forall|l: int| 0 <= l < self.layers.len() ==> #[trigger] self.layer_wf(l)
    }

    /// Every function the network was given may be called on what the network
    /// hands it, and returns a vector of the length the network expects.
    pub open spec fn functions_fit(&self) -> bool {
        &&& forall|l: int|
            0 <= l < self.activation_functions.len() ==> (#[trigger] self.activation_functions[l]).fits::<
                T,
            >()
        &&& self.cost_func.fits::<T>()
        &&& self.normalization_fn.fits::<T>()
    }

    /// `other` has the weights, biases, labels, functions and settings of this
    /// network.
    pub open spec fn same_parameters(&self, other: &Self) -> bool {
        &&& self.weights == other.weights
        &&& self.biases == other.biases
        &&& self.out_labels == other.out_labels
        &&& self.activation_functions == other.activation_functions
        &&& self.cost_func == other.cost_func
        &&& self.normalization_fn == other.normalization_fn
        &&& self.log_epochs == other.log_epochs
        &&& self.log_costs == other.log_costs
    }

    /// The values of layer `l` are those of a forward pass: before activation,
    /// each neuron holds its weighted input; after activation, the layer holds
    /// what its activation function returned for the values before.
    pub open spec fn layer_computed(&self, l: int) -> bool {
        &&& exact_dot::<T>() ==> forall|n: int|
            0 <= n < self.layers[l].len() ==> #[trigger] self.layers[l][n] == weighted_input(
                self.source(l),
                self.weights[l][n]@,
                self.biases[l][n],
            )
        &&& call_ensures(
            self.activation_functions[l].function,
            (&self.layers[l],),
            self.activated_layers[l],
        )
    }

    /// The number of values that feed layer `l`, by the sizes of the layers.
    pub open spec fn fan_in(&self, l: int) -> usize {
        if l == 0 {
            self.input.len()
        } else {
            self.layers[l - 1].len()
        }
    }

    /// Neuron `n` of layer `l` has a zero bias and one weight for each value that
    /// feeds the layer, each drawn by the initializer of the layer's activation
    /// function for that number of values.
    pub open spec fn neuron_initialized(&self, l: int, n: int) -> bool {
        &&& converts::<T>() ==> self.biases[l][n] == zero::<T>()
        &&& self.weights[l][n].len() == self.fan_in(l)
        &&& forall|m: int|
            0 <= m < self.fan_in(l) ==> call_ensures(
                self.activation_functions[l].init_fn.function,
                (self.fan_in(l),),
                #[trigger] self.weights[l][n][m],
            )
    }

    /// Layer `l` has one bias and one row of weights for each of its neurons, and
    /// each neuron is initialized.
    pub open spec fn layer_initialized(&self, l: int) -> bool {
        &&& self.biases[l].len() == self.layers[l].len()
        &&& self.weights[l].len() == self.layers[l].len()
        &&& forall|n: int| 0 <= n < self.layers[l].len() ==> #[trigger] self.neuron_initialized(l, n)
    }

    /// Every value of the input and of every layer, before and after activation,
    /// is zero.
    pub open spec fn values_zeroed(&self) -> bool {
        &&& forall|i: int| 0 <= i < self.input.len() ==> #[trigger] self.input[i] == zero::<T>()
        &&& forall|l: int, n: int|
            0 <= l < self.layers.len() && 0 <= n < self.layers[l].len() ==> #[trigger] self.layers[l][n]
                == zero::<T>()
        &&& forall|l: int, n: int|
            0 <= l < self.activated_layers.len() && 0 <= n < self.activated_layers[l].len()
                ==> #[trigger] self.activated_layers[l][n] == zero::<T>()
    }

    /// Creates a new network
    ///  - training_cnt: number of neurons in the input layer
    ///  - hidden_layers: vector of usize; each usize represents the number of neurons in a layer,
    ///  - out_labels: vector of strings; each string represents a label for the output,
    ///  - activation_functions: activation functions for each layer, including output
    ///  - cost_func: cost function
    ///  - normalization_fn: how an input is prepared
    ///
    /// The layers are the hidden layers followed by an output layer with one
    /// neuron for each label. Every value starts at zero, every bias at zero, and
    /// every weight is drawn by the initializer of its layer's activation
    /// function.
    pub fn new(
        training_cnt: usize,
        hidden_layers: Vec<usize>,
        out_labels: Vec<&'a str>,
        activation_functions: Vec<&'a ActivationFunction<'a, F, D, I>>,
        cost_func: &'a CostFunc<'a, C, CD>,
        normalization_fn: &'a NormalizationFn<'a, N>,
    ) -> (r: Result<Self, ConfigError>)
        requires
            forall|l: int|
                0 <= l < activation_functions.len() ==> takes_counts::<T, I>(
                    (#[trigger] activation_functions[l]).init_fn.function,
                ),
        ensures
            r is Ok <==> valid_config(training_cnt, hidden_layers@, activation_functions.len()),
            r matches Err(ConfigError::ActivationCount { hidden_layers: h, activations: a }) ==> h
                == hidden_layers.len() && a == activation_functions.len() && a != h + 1,
            r matches Err(ConfigError::ZeroFanIn { layer }) ==> {
                &&& activation_functions.len() == hidden_layers.len() + 1
                &&& layer <= hidden_layers.len()
                &&& planned_fan_in(training_cnt, hidden_layers@, layer as int) == 0
                &&& forall|l: int|
                    0 <= l < layer ==> #[trigger] planned_fan_in(training_cnt, hidden_layers@, l) >= 1
            },
            r matches Ok(net) ==> {
                &&& net.wf()
                &&& net.input.len() == training_cnt
                &&& net.layers.len() == hidden_layers.len() + 1
                &&& forall|l: int|
                    0 <= l < hidden_layers.len() ==> (#[trigger] net.layers[l]).len()
                        == hidden_layers[l]
                &&& net.layers[hidden_layers.len() as int].len() == out_labels.len()
                &&& converts::<T>() ==> net.values_zeroed()
                &&& forall|l: int| 0 <= l < net.layers.len() ==> #[trigger] net.layer_initialized(l)
                &&& net.out_labels == out_labels
                &&& net.activation_functions == activation_functions
                &&& net.cost_func == cost_func
                &&& net.normalization_fn == normalization_fn
                &&& !net.log_epochs
                &&& !net.log_costs
            },
    {
        let hidden = hidden_layers.len();
        if activation_functions.len() == 0 || activation_functions.len() - 1 != hidden {
            return Err(
                ConfigError::ActivationCount {
                    hidden_layers: hidden,
                    activations: activation_functions.len(),
                },
            );
        }
        if training_cnt == 0 {
            assert(planned_fan_in(training_cnt, hidden_layers@, 0) == 0);
            return Err(ConfigError::ZeroFanIn { layer: 0 });
        }
        let input: Vec<T> = zeros(training_cnt);

        // all layers except the input (hidden + output)
        let mut layers: Vec<Vec<T>> = Vec::new();
        let mut activated_layers: Vec<Vec<T>> = Vec::new();
        let mut i: usize = 0;
        while i < hidden
            invariant
                hidden == hidden_layers.len(),
                activation_functions.len() == hidden + 1,
                i <= hidden,
                training_cnt >= 1,
                layers.len() == i,
                activated_layers.len() == i,
                forall|l: int| 0 <= l < i ==> hidden_layers[l] >= 1,
                forall|l: int| 0 <= l < i ==> (#[trigger] layers[l]).len() == hidden_layers[l],
                forall|l: int|
                    0 <= l < i ==> (#[trigger] activated_layers[l]).len() == hidden_layers[l],
                converts::<T>() ==> forall|l: int, n: int|
                    0 <= l < i && 0 <= n < layers[l].len() ==> #[trigger] layers[l][n] == zero::<T>(),
                converts::<T>() ==> forall|l: int, n: int|
                    0 <= l < i && 0 <= n < activated_layers[l].len()
                        ==> #[trigger] activated_layers[l][n] == zero::<T>(),
            decreases hidden - i,
        {
            let cnt = hidden_layers[i];
            if cnt == 0 {
                proof {
                    assert(planned_fan_in(training_cnt, hidden_layers@, i + 1) == 0);
                }
                return Err(ConfigError::ZeroFanIn { layer: i + 1 });
            }
            layers.push(zeros(cnt));
            activated_layers.push(zeros(cnt));
            i += 1;
        }
        layers.push(zeros(out_labels.len()));
        activated_layers.push(zeros(out_labels.len()));

        let mut s = Self {
            input,
            layers,
            activated_layers,
            weights: Vec::new(),
            biases: Vec::new(),
            activation_functions,
            cost_func,
            out_labels,
            log_epochs: false,
            log_costs: false,
            normalization_fn,
        };

        s.initialize_params();

        proof {
            assert forall|l: int| 0 <= l < s.layers.len() implies #[trigger] s.layer_wf(l) by {
                assert(s.layer_initialized(l));
                assert forall|n: int| 0 <= n < s.weights[l].len() implies (
                #[trigger] s.weights[l][n]).len() == s.source(l).len() by {
                    assert(s.neuron_initialized(l, n));
                }
            }
        }
        Ok(s)
    }

    /// randomly sets weights and biases
    ///
    /// Replaces the weights and biases by new ones, shaped by the sizes of the
    /// layers: every bias is zero, and every weight is drawn by the initializer
    /// of its layer's activation function, which is told how many values feed the
    /// layer.
    pub fn initialize_params(&mut self)
        requires
            old(self).activation_functions.len() == old(self).layers.len(),
            forall|l: int|
                0 <= l < old(self).activation_functions.len() ==> takes_counts::<T, I>(
                    (#[trigger] old(self).activation_functions[l]).init_fn.function,
                ),
        ensures
            final(self).weights.len() == old(self).layers.len(),
            final(self).biases.len() == old(self).layers.len(),
            forall|l: int| 0 <= l < old(self).layers.len() ==> #[trigger] final(self).layer_initialized(l),
            final(self).input == old(self).input,
            final(self).layers == old(self).layers,
            final(self).activated_layers == old(self).activated_layers,
            final(self).out_labels == old(self).out_labels,
            final(self).activation_functions == old(self).activation_functions,
            final(self).cost_func == old(self).cost_func,
            final(self).normalization_fn == old(self).normalization_fn,
            final(self).log_epochs == old(self).log_epochs,
            final(self).log_costs == old(self).log_costs,
    {
        let mut biases: Vec<Vec<T>> = Vec::new();
        let mut weights: Vec<Vec<Vec<T>>> = Vec::new();
        let count = self.layers.len();
        let mut i: usize = 0;
        while i < count
            invariant
                *self == *old(self),
                count == self.layers.len(),
                self.activation_functions.len() == count,
                forall|l: int|
                    0 <= l < self.activation_functions.len() ==> takes_counts::<T, I>(
                        (#[trigger] self.activation_functions[l]).init_fn.function,
                    ),
                i <= count,
                biases.len() == i,
                weights.len() == i,
                forall|l: int| 0 <= l < i ==> (#[trigger] biases[l]).len() == self.layers[l].len(),
                forall|l: int| 0 <= l < i ==> (#[trigger] weights[l]).len() == self.layers[l].len(),
                converts::<T>() ==> forall|l: int, n: int|
                    0 <= l < i && 0 <= n < self.layers[l].len() ==> #[trigger] biases[l][n]
                        == zero::<T>(),
                forall|l: int, n: int|
                    0 <= l < i && 0 <= n < self.layers[l].len() ==> (#[trigger] weights[l][n]).len()
                        == self.fan_in(l),
                forall|l: int, n: int, m: int|
                    0 <= l < i && 0 <= n < self.layers[l].len() && 0 <= m < self.fan_in(l)
                        ==> call_ensures(
                        self.activation_functions[l].init_fn.function,
                        (self.fan_in(l),),
                        #[trigger] weights[l][n][m],
                    ),
            decreases count - i,
        {
            let width = self.layers[i].len();
            let layer_biases: Vec<T> = zeros(width);
            let mut layer_weights: Vec<Vec<T>> = Vec::new();

            // count of neurons in previous layer
            let neuron_cnt = if i == 0 {
                self.input.len()
            } else {
                self.layers[i - 1].len()
            };
            let mut n: usize = 0;
            while n < width
                invariant
                    i < self.activation_functions.len(),
                    takes_counts::<T, I>(self.activation_functions[i as int].init_fn.function),
                    n <= width,
                    layer_weights.len() == n,
                    forall|k: int| 0 <= k < n ==> (#[trigger] layer_weights[k]).len() == neuron_cnt,
                    forall|k: int, m: int|
                        0 <= k < n && 0 <= m < neuron_cnt ==> call_ensures(
                            self.activation_functions[i as int].init_fn.function,
                            (neuron_cnt,),
                            #[trigger] layer_weights[k][m],
                        ),
                decreases width - n,
            {
                let mut neuron_weights: Vec<T> = Vec::new();
                let mut m: usize = 0;
                while m < neuron_cnt
                    invariant
                        i < self.activation_functions.len(),
                        takes_counts::<T, I>(self.activation_functions[i as int].init_fn.function),
                        m <= neuron_cnt,
                        neuron_weights.len() == m,
                        forall|k: int|
                            0 <= k < m ==> call_ensures(
                                self.activation_functions[i as int].init_fn.function,
                                (neuron_cnt,),
                                #[trigger] neuron_weights[k],
                            ),
                    decreases neuron_cnt - m,
                {
                    neuron_weights.push((self.activation_functions[i].init_fn.function)(neuron_cnt));
                    m += 1;
                }
                layer_weights.push(neuron_weights);
                n += 1;
            }
            biases.push(layer_biases);
            weights.push(layer_weights);
            i += 1;
        }
        self.weights = weights;
        self.biases = biases;
    }

    /// The number of weights of the first `l` layers.
    pub open spec fn weight_count(&self, l: int) -> int
        decreases l,
    {
        if l <= 0 {
            0
        } else {
            self.weight_count(l - 1) + entries(self.weights[l - 1]@, self.weights[l - 1].len() as int)
        }
    }

    /// The number of biases of the first `l` layers.
    pub open spec fn bias_count(&self, l: int) -> int {
        entries(self.biases@, l)
    }

    /// The number of neurons of the input and the first `l` layers.
    pub open spec fn neuron_count(&self, l: int) -> int {
        self.input.len() + entries(self.layers@, l)
    }

    /// The number of connections that arrive at the first `l` layers: for each
    /// layer, the number of its neurons times the number of values that feed it.
    pub open spec fn connection_count(&self, l: int) -> int
        decreases l,
    {
        if l <= 0 {
            0
        } else {
            self.connection_count(l - 1) + self.layers[l - 1].len() * self.fan_in(l - 1)
        }
    }

    /// A well-formed network has exactly one weight for each connection and one
    /// bias for each neuron after the input.
    pub proof fn lemma_one_weight_for_each_connection(&self, l: int)
        requires
            self.wf(),
            0 <= l <= self.layers.len(),
        ensures
            self.weight_count(l) == self.connection_count(l),
            self.bias_count(l) == self.neuron_count(l) - self.input.len(),
        decreases l,
    {
        if l > 0 {
            self.lemma_one_weight_for_each_connection(l - 1);
            assert(self.layer_wf(l - 1));
            if l > 1 {
                assert(self.layer_wf(l - 2));
            }
            lemma_entries_of_equal_rows(
                self.weights[l - 1]@,
                self.weights[l - 1].len() as int,
                self.fan_in(l - 1) as int,
            );
        }
    }

    /// Tells whether the parts of the network fit together.
    pub fn is_well_formed(&self) -> (r: bool)
        ensures
            r == self.wf(),
    {
        let count = self.layers.len();
        if count == 0 || self.activated_layers.len() != count || self.weights.len() != count
            || self.biases.len() != count || self.activation_functions.len() != count
            || self.out_labels.len() != self.layers[count - 1].len() {
            return false;
        }
        let mut l: usize = 0;
        while l < count
            invariant
                count == self.layers.len(),
                count >= 1,
                self.activated_layers.len() == count,
                self.weights.len() == count,
                self.biases.len() == count,
                self.activation_functions.len() == count,
                self.out_labels.len() == self.layers[count - 1].len(),
                l <= count,
                forall|m: int| 0 <= m < l ==> #[trigger] self.layer_wf(m),
            decreases count - l,
        {
            let width = self.layers[l].len();
            if self.activated_layers[l].len() != width || self.biases[l].len() != width
                || self.weights[l].len() != width {
                proof {
                    assert(!self.layer_wf(l as int));
                }
                return false;
            }
            let fed = if l == 0 {
                self.input.len()
            } else {
                self.activated_layers[l - 1].len()
            };
            let mut n: usize = 0;
            while n < width
                invariant
                    l < self.weights.len(),
                    width == self.weights[l as int].len(),
                    fed == self.source(l as int).len(),
                    n <= width,
                    forall|k: int|
                        0 <= k < n ==> (#[trigger] self.weights[l as int][k]).len() == fed,
                decreases width - n,
            {
                if self.weights[l][n].len() != fed {
                    proof {
                        assert(!self.layer_wf(l as int));
                    }
                    return false;
                }
                n += 1;
            }
            l += 1;
        }
        true
    }
}

} // verus!
