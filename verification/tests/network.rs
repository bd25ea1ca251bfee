use neural_network::error::ConfigError;
use neural_network::error::SelectError;
use neural_network::error::ShapeError;
use neural_network::functions::activation::ActivationFunction;
use neural_network::functions::cost::CostFunc;
use neural_network::functions::weight_init::InitFn;
use neural_network::functions::input_normalizations::NormalizationFn;
use neural_network::network::backward::column_dot;
use neural_network::network::Network;
use neural_network::utils::order::best_index;
use std::collections::HashMap;
use rand::distributions::Distribution;
use rand::distributions::Uniform;

type VectorFn = fn(&Vec<f32>) -> Vec<f32>;
type Init = fn(usize) -> f32;
type Cost = fn(&Vec<f32>, &Vec<f32>) -> f32;
type CostDerivative = fn(&Vec<f32>, &Vec<f32>) -> Vec<f32>;
type Activation = ActivationFunction<'static, VectorFn, VectorFn, Init>;
type Net<'a> = Network<'a, f32, VectorFn, VectorFn, Init, Cost, CostDerivative, VectorFn>;

fn xavier(n: usize) -> f32 {
    let upper = 1.0 / f32::sqrt(n as f32);
    let lower = -upper;
    Uniform::from(lower..=upper).sample(&mut rand::thread_rng())
}

const XAVIER: InitFn<'static, Init> = InitFn { function: xavier, description: "", formula: "" };

fn sigmoid(zs: &Vec<f32>) -> Vec<f32> {
    zs.iter().map(|z| 1.0 / (1.0 + std::f32::consts::E.powf(-z))).collect()
}

fn sigmoid_deriv(zs: &Vec<f32>) -> Vec<f32> {
    let sig = sigmoid(zs);
    sig.iter().map(|z| z * (1.0 - z)).collect()
}

const SIGMOID: Activation = ActivationFunction {
    function: sigmoid,
    derivative: sigmoid_deriv,
    description: "",
    formula: "",
    formula_derivative: "",
    init_fn: &XAVIER,
};

fn mse(predicted: &Vec<f32>, expected: &Vec<f32>) -> f32 {
    let sum: f32 = predicted.iter().zip(expected).map(|(a, y)| (a - y).powf(2.0)).sum();
    sum / (expected.len() as f32)
}

fn mse_deriv(predicted: &Vec<f32>, expected: &Vec<f32>) -> Vec<f32> {
    predicted.iter().zip(expected).map(|(a, y)| 2.0 * (a - y)).collect()
}

const MSE: CostFunc<'static, Cost, CostDerivative> = CostFunc {
    function: mse,
    derivative: mse_deriv,
    description: "",
    formula: "",
    formula_derivative: "",
};

fn no_func(input: &Vec<f32>) -> Vec<f32> {
    input.clone()
}

const NO_NORMALIZATION: NormalizationFn<'static, VectorFn> =
    NormalizationFn { function: no_func, description: "", formula: "" };

#[test]
fn test_ws_cnt() {
    let net: Net = Network::new(
        3,
        vec![2, 3],
        vec!["1", "2"],
        vec![&SIGMOID, &SIGMOID, &SIGMOID],
        &MSE,
        &NO_NORMALIZATION,
    )
    .unwrap();

    let mut total_ws = 0;
    for i in net.weights {
        for j in i {
            for _ in j {
                total_ws += 1;
            }
        }
    }

    assert_eq!(total_ws, 18);
}

#[test]
fn test_bias_cnt() {
    let net: Net = Network::new(
        3,
        vec![2, 3],
        vec!["1", "2"],
        vec![&SIGMOID, &SIGMOID, &SIGMOID],
        &MSE,
        &NO_NORMALIZATION,
    )
    .unwrap();

    let mut total_biases = 0;
    for i in net.biases {
        for _ in i {
            total_biases += 1;
        }
    }

    assert_eq!(total_biases, 7);
}

#[test]
fn test_neurons_cnt() {
    let net: Net = Network::new(
        3,
        vec![2, 3],
        vec!["1", "2"],
        vec![&SIGMOID, &SIGMOID, &SIGMOID],
        &MSE,
        &NO_NORMALIZATION,
    )
    .unwrap();

    let mut total_neurons = 0;
    for i in net.layers {
        for _ in i {
            total_neurons += 1;
        }
    }
    total_neurons += net.input.len();

    assert_eq!(total_neurons, 10);
}

#[test]
fn test_feedforward_layer() {
    let mut net: Net = Network::new(
        3,
        vec![],
        vec!["1", "2", "3"],
        vec![&SIGMOID],
        &MSE,
        &NO_NORMALIZATION,
    )
    .unwrap();

    net.input = vec![3.0, 2.0];
    net.weights[0][0] = vec![3.0, 4.0];
    net.weights[0][1] = vec![2.0, 4.0];
    net.weights[0][2] = vec![3.0, 5.0];
    net.biases[0] = vec![1.0, 1.0, 3.0];

    net.feedforward_layer(0);

    assert_eq!(net.layers[0][0], 18.0);
    assert_eq!(net.layers[0][1], 15.0);
    assert_eq!(net.layers[0][2], 22.0);
}

#[test]
fn new_rejects_a_wrong_number_of_activation_functions() {
    let net: Result<Net, ConfigError> = Network::new(
        3,
        vec![2, 3],
        vec!["1", "2"],
        vec![&SIGMOID, &SIGMOID],
        &MSE,
        &NO_NORMALIZATION,
    );
    assert_eq!(
        net.err(),
        Some(ConfigError::ActivationCount { hidden_layers: 2, activations: 2 })
    );
}

#[test]
fn new_rejects_a_layer_that_nothing_feeds() {
    let no_input: Result<Net, ConfigError> =
        Network::new(0, vec![], vec!["1"], vec![&SIGMOID], &MSE, &NO_NORMALIZATION);
    assert_eq!(no_input.err(), Some(ConfigError::ZeroFanIn { layer: 0 }));

    let empty_hidden: Result<Net, ConfigError> = Network::new(
        3,
        vec![2, 0, 4],
        vec!["1"],
        vec![&SIGMOID, &SIGMOID, &SIGMOID, &SIGMOID],
        &MSE,
        &NO_NORMALIZATION,
    );
    assert_eq!(empty_hidden.err(), Some(ConfigError::ZeroFanIn { layer: 2 }));
}

#[test]
fn new_starts_with_zero_values_and_biases_and_bounded_weights() {
    let net: Net = Network::new(
        4,
        vec![2],
        vec!["a", "b", "c"],
        vec![&SIGMOID, &SIGMOID],
        &MSE,
        &NO_NORMALIZATION,
    )
    .unwrap();
    assert_eq!(net.input, vec![0.0; 4]);
    assert_eq!(net.layers, vec![vec![0.0; 2], vec![0.0; 3]]);
    assert_eq!(net.activated_layers, vec![vec![0.0; 2], vec![0.0; 3]]);
    assert_eq!(net.biases, vec![vec![0.0; 2], vec![0.0; 3]]);
    assert_eq!(net.weights[0].len(), 2);
    assert_eq!(net.weights[1].len(), 3);
    for row in &net.weights[0] {
        assert_eq!(row.len(), 4);
        assert!(row.iter().all(|w| w.abs() <= 0.5));
    }
    for row in &net.weights[1] {
        assert_eq!(row.len(), 2);
        assert!(row.iter().all(|w| w.abs() <= 1.0 / f32::sqrt(2.0)));
    }
    assert!(!net.log_costs);
    assert!(!net.log_epochs);
}

#[test]
fn test_best_output() {
    let mut net: Net = Network::new(
        3,
        vec![],
        vec!["1", "2", "3"],
        vec![&SIGMOID],
        &MSE,
        &NO_NORMALIZATION,
    )
    .unwrap();

    net.activated_layers[0] = vec![3.0, 2.0, 1.0];
    let out = net.get_best_output().unwrap();
    assert_eq!(out.1, 3.0);
    assert_eq!(out.0, "1");
}

#[test]
fn test_outputs() {
    let mut net: Net = Network::new(
        3,
        vec![],
        vec!["1", "2", "3"],
        vec![&SIGMOID],
        &MSE,
        &NO_NORMALIZATION,
    )
    .unwrap();

    net.activated_layers[0] = vec![3.0, 2.0, 1.0];

    let out: HashMap<&str, f32> = net.get_output().into_iter().collect();
    let expected_map: HashMap<&str, f32> = HashMap::from([("1", 3.0), ("2", 2.0), ("3", 1.0)]);

    assert_eq!(out.len(), expected_map.len());
    assert!(out.keys().all(|key| expected_map.contains_key(key)
        && f32::abs(out.get(key).unwrap() - expected_map.get(key).unwrap()) < f32::EPSILON));
}

#[test]
fn get_output_pairs_each_label_with_its_value_in_order() {
    let mut net: Net =
        Network::new(2, vec![], vec!["a", "b"], vec![&SIGMOID], &MSE, &NO_NORMALIZATION).unwrap();
    net.activated_layers[0] = vec![0.25, 0.75];
    assert_eq!(net.get_output(), vec![("a", 0.25), ("b", 0.75)]);
}

#[test]
fn best_output_takes_the_last_of_equal_values() {
    let mut net: Net = Network::new(
        2,
        vec![],
        vec!["a", "b", "c", "d"],
        vec![&SIGMOID],
        &MSE,
        &NO_NORMALIZATION,
    )
    .unwrap();
    net.activated_layers[0] = vec![1.0, 7.0, 7.0, 2.0];
    assert_eq!(net.get_best_output(), Ok(("c", 7.0)));
    assert_eq!(best_index(&vec![1.0, 7.0, 7.0, 2.0]), Ok(2));
    assert_eq!(best_index(&vec![5.0]), Ok(0));
    assert_eq!(best_index(&vec![-1.0, -3.0]), Ok(0));
}

#[test]
fn best_output_reports_values_that_cannot_be_ordered() {
    let mut net: Net = Network::new(
        2,
        vec![],
        vec!["a", "b", "c"],
        vec![&SIGMOID],
        &MSE,
        &NO_NORMALIZATION,
    )
    .unwrap();
    net.activated_layers[0] = vec![1.0, f32::NAN, 2.0];
    assert_eq!(net.get_best_output(), Err(SelectError::Unordered { index: 1 }));
    assert_eq!(best_index(&vec![f32::NAN]), Ok(0));
}

#[test]
fn best_output_of_no_output_is_reported() {
    let net: Net =
        Network::new(2, vec![], vec![], vec![&SIGMOID], &MSE, &NO_NORMALIZATION).unwrap();
    assert_eq!(net.get_best_output(), Err(SelectError::NoOutput));
    assert_eq!(best_index::<f32>(&vec![]), Err(SelectError::NoOutput));
}

fn identity(zs: &Vec<f32>) -> Vec<f32> {
    zs.clone()
}

fn ones(zs: &Vec<f32>) -> Vec<f32> {
    vec![1.0; zs.len()]
}

const LINEAR: Activation = ActivationFunction {
    function: identity,
    derivative: ones,
    description: "",
    formula: "",
    formula_derivative: "",
    init_fn: &XAVIER,
};

fn halve(input: &Vec<f32>) -> Vec<f32> {
    input.iter().map(|x| x / 2.0).collect()
}

const HALVING: NormalizationFn<'static, VectorFn> =
    NormalizationFn { function: halve, description: "", formula: "" };

fn two_layer_net<'a>(normalization: &'a NormalizationFn<'static, VectorFn>) -> Net<'a> {
    let mut net: Net =
        Network::new(2, vec![2], vec!["out"], vec![&LINEAR, &LINEAR], &MSE, normalization)
            .unwrap();
    net.weights = vec![vec![vec![1.0, 0.0], vec![0.0, 1.0]], vec![vec![3.0, 4.0]]];
    net.biases = vec![vec![0.0, 0.0], vec![1.0]];
    net
}

#[test]
fn predict_passes_the_input_through_every_layer() {
    let mut net = two_layer_net(&NO_NORMALIZATION);
    assert_eq!(net.predict(vec![1.0, 2.0]), Ok(()));
    assert_eq!(net.input, vec![1.0, 2.0]);
    assert_eq!(net.layers, vec![vec![1.0, 2.0], vec![12.0]]);
    assert_eq!(net.activated_layers, vec![vec![1.0, 2.0], vec![12.0]]);
}

#[test]
fn predict_applies_the_activation_of_each_layer() {
    let mut net: Net = Network::new(
        2,
        vec![1],
        vec!["out"],
        vec![&SIGMOID, &LINEAR],
        &MSE,
        &NO_NORMALIZATION,
    )
    .unwrap();
    net.weights = vec![vec![vec![0.0, 0.0]], vec![vec![4.0]]];
    net.biases = vec![vec![0.0], vec![1.0]];
    net.predict(vec![5.0, 6.0]).unwrap();
    assert_eq!(net.layers[0], vec![0.0]);
    assert_eq!(net.activated_layers[0], vec![0.5]);
    assert_eq!(net.layers[1], vec![3.0]);
    assert_eq!(net.activated_layers[1], vec![3.0]);
}

#[test]
fn predict_normalizes_the_input_first() {
    let mut net = two_layer_net(&HALVING);
    net.predict(vec![2.0, 4.0]).unwrap();
    assert_eq!(net.input, vec![1.0, 2.0]);
    assert_eq!(net.activated_layers[1], vec![12.0]);
}

#[test]
fn predict_rejects_an_input_of_the_wrong_length() {
    let mut net = two_layer_net(&NO_NORMALIZATION);
    net.predict(vec![1.0, 2.0]).unwrap();
    let r = net.predict(vec![1.0, 2.0, 3.0]);
    assert_eq!(r, Err(ShapeError::InputLength { expected: 2, found: 3 }));
    assert_eq!(net.input, vec![1.0, 2.0]);
    assert_eq!(net.activated_layers[1], vec![12.0]);
}

#[test]
fn predict_twice_gives_the_same_values() {
    let mut net: Net = Network::new(
        3,
        vec![4, 3],
        vec!["a", "b"],
        vec![&SIGMOID, &SIGMOID, &SIGMOID],
        &MSE,
        &NO_NORMALIZATION,
    )
    .unwrap();
    net.predict(vec![0.3, -0.2, 0.9]).unwrap();
    let layers = net.layers.clone();
    let activated = net.activated_layers.clone();
    net.predict(vec![0.3, -0.2, 0.9]).unwrap();
    assert_eq!(net.layers, layers);
    assert_eq!(net.activated_layers, activated);
}

#[test]
fn feedforward_runs_every_layer_from_the_current_input() {
    let mut net = two_layer_net(&NO_NORMALIZATION);
    net.input = vec![2.0, 1.0];
    net.feedforward();
    assert_eq!(net.layers, vec![vec![2.0, 1.0], vec![11.0]]);
}

#[test]
fn backprop_gives_the_gradient_of_every_weight_and_bias() {
    let mut net = two_layer_net(&NO_NORMALIZATION);
    net.predict(vec![1.0, 2.0]).unwrap();
    let (dws, dbs) = net.backprop(&vec![10.0]).unwrap();
    assert_eq!(dbs, vec![vec![12.0, 16.0], vec![4.0]]);
    assert_eq!(
        dws,
        vec![vec![vec![12.0, 24.0], vec![16.0, 32.0]], vec![vec![4.0, 8.0]]]
    );
}

#[test]
fn backprop_weighs_each_neuron_by_the_derivative_of_its_activation() {
    let mut net: Net = Network::new(
        1,
        vec![1],
        vec!["out"],
        vec![&SIGMOID, &LINEAR],
        &MSE,
        &NO_NORMALIZATION,
    )
    .unwrap();
    net.weights = vec![vec![vec![0.0]], vec![vec![2.0]]];
    net.biases = vec![vec![0.0], vec![0.0]];
    net.predict(vec![3.0]).unwrap();
    // the hidden value is 0.5 after activation, the output 1.0
    let (dws, dbs) = net.backprop(&vec![0.0]).unwrap();
    assert_eq!(dbs[1], vec![2.0]);
    assert_eq!(dws[1], vec![vec![1.0]]);
    assert_eq!(dbs[0], vec![2.0 * 2.0 * 0.25]);
    assert_eq!(dws[0], vec![vec![3.0]]);
}

#[test]
fn backprop_rejects_an_expected_output_of_the_wrong_length() {
    let mut net = two_layer_net(&NO_NORMALIZATION);
    net.predict(vec![1.0, 2.0]).unwrap();
    let r = net.backprop(&vec![1.0, 2.0]);
    assert_eq!(r, Err(ShapeError::OutputLength { expected: 1, found: 2 }));
}

#[test]
fn gradient_descent_moves_against_the_average_gradient() {
    let mut net: Net =
        Network::new(1, vec![], vec!["out"], vec![&LINEAR], &MSE, &NO_NORMALIZATION).unwrap();
    net.weights = vec![vec![vec![2.0]]];
    net.biases = vec![vec![1.0]];
    let batch = vec![(vec![1.0], vec![1.0]), (vec![2.0], vec![3.0])];
    assert_eq!(net.gradient_descent(&batch, 0.5, &|n| n as f32), Ok(()));
    assert_eq!(net.weights, vec![vec![vec![-1.0]]]);
    assert_eq!(net.biases, vec![vec![-1.0]]);
}

#[test]
fn gradient_descent_adds_each_bias_gradient_once() {
    let mut net: Net =
        Network::new(2, vec![], vec!["out"], vec![&LINEAR], &MSE, &NO_NORMALIZATION).unwrap();
    net.weights = vec![vec![vec![1.0, 1.0]]];
    net.biases = vec![vec![0.0]];
    let batch = vec![(vec![1.0, 2.0], vec![0.0])];
    net.gradient_descent(&batch, 1.0, &|n| n as f32).unwrap();
    assert_eq!(net.weights, vec![vec![vec![-5.0, -11.0]]]);
    assert_eq!(net.biases, vec![vec![-6.0]]);
}

#[test]
fn gradient_descent_rejects_an_example_that_does_not_fit() {
    let mut net = two_layer_net(&NO_NORMALIZATION);
    let weights = net.weights.clone();
    let bad_input = vec![(vec![1.0, 2.0], vec![1.0]), (vec![1.0], vec![1.0])];
    assert_eq!(
        net.gradient_descent(&bad_input, 0.5, &|n| n as f32),
        Err(ShapeError::InputLength { expected: 2, found: 1 })
    );
    let bad_output = vec![(vec![1.0, 2.0], vec![1.0, 2.0])];
    assert_eq!(
        net.gradient_descent(&bad_output, 0.5, &|n| n as f32),
        Err(ShapeError::OutputLength { expected: 1, found: 2 })
    );
    assert_eq!(net.weights, weights);
    assert_eq!(net.check_examples(&bad_output), Err(ShapeError::OutputLength { expected: 1, found: 2 }));
    assert_eq!(net.check_examples(&vec![(vec![1.0, 2.0], vec![1.0])]), Ok(()));
}

#[test]
fn average_cost_is_the_mean_of_the_costs() {
    let mut net = two_layer_net(&NO_NORMALIZATION);
    let data = vec![(vec![1.0, 2.0], vec![10.0]), (vec![0.0, 0.0], vec![1.0])];
    // the predictions are 12 and 1, the costs 4 and 0
    assert_eq!(net.average_cost(&data, &|n| n as f32), Ok(2.0));
    assert_eq!(net.weights, two_layer_net(&NO_NORMALIZATION).weights);
    assert_eq!(net.activated_layers[1], vec![1.0]);
}

#[test]
fn average_cost_rejects_an_example_that_does_not_fit() {
    let mut net = two_layer_net(&NO_NORMALIZATION);
    let data = vec![(vec![1.0, 2.0, 3.0], vec![10.0])];
    assert_eq!(
        net.average_cost(&data, &|n| n as f32),
        Err(ShapeError::InputLength { expected: 2, found: 3 })
    );
}

#[test]
fn initialize_params_draws_new_weights_and_zero_biases() {
    let mut net = two_layer_net(&NO_NORMALIZATION);
    net.initialize_params();
    assert_eq!(net.biases, vec![vec![0.0, 0.0], vec![0.0]]);
    assert_eq!(net.weights.len(), 2);
    assert_eq!(net.weights[0].len(), 2);
    assert_eq!(net.weights[0][0].len(), 2);
    assert_eq!(net.weights[1].len(), 1);
    assert_eq!(net.weights[1][0].len(), 2);
    let bound = 1.0 / f32::sqrt(2.0);
    assert!(net.weights.iter().flatten().flatten().all(|w| w.abs() <= bound));
}

#[test]
fn is_well_formed_tells_whether_the_parts_fit() {
    let mut net = two_layer_net(&NO_NORMALIZATION);
    assert!(net.is_well_formed());
    net.input = vec![1.0, 2.0, 3.0];
    assert!(!net.is_well_formed());
    net.input = vec![1.0, 2.0];
    net.biases[1] = vec![];
    assert!(!net.is_well_formed());
    net.biases[1] = vec![1.0];
    net.weights[0][1] = vec![1.0];
    assert!(!net.is_well_formed());
    net.weights[0][1] = vec![0.0, 1.0];
    net.out_labels = vec!["a", "b"];
    assert!(!net.is_well_formed());
    net.out_labels = vec!["a"];
    net.activation_functions.pop();
    assert!(!net.is_well_formed());
}

#[test]
fn network_after_the_changes_of_a_forward_layer_test_is_well_formed() {
    let mut net: Net = Network::new(
        3,
        vec![],
        vec!["1", "2", "3"],
        vec![&SIGMOID],
        &MSE,
        &NO_NORMALIZATION,
    )
    .unwrap();
    net.input = vec![3.0, 2.0];
    net.weights[0][0] = vec![3.0, 4.0];
    net.weights[0][1] = vec![2.0, 4.0];
    net.weights[0][2] = vec![3.0, 5.0];
    net.biases[0] = vec![1.0, 1.0, 3.0];
    assert!(net.is_well_formed());
}

#[test]
fn column_dot_multiplies_with_one_column() {
    let rows = vec![vec![1.0, 2.0], vec![3.0, 4.0], vec![5.0, 6.0]];
    assert_eq!(column_dot(&vec![1.0f32, 10.0, 100.0], &rows, 0), 531.0);
    assert_eq!(column_dot(&vec![1.0f32, 10.0, 100.0], &rows, 1), 642.0);
}

#[test]
fn predict_from_leaves_the_data_with_the_caller() {
    let mut net = two_layer_net(&NO_NORMALIZATION);
    let data = vec![1.0, 2.0];
    assert_eq!(net.predict_from(&data), Ok(()));
    assert_eq!(net.input, data);
    assert_eq!(net.activated_layers, vec![vec![1.0, 2.0], vec![12.0]]);
    assert_eq!(
        net.predict_from(&vec![1.0]),
        Err(ShapeError::InputLength { expected: 2, found: 1 })
    );
    assert_eq!(net.activated_layers, vec![vec![1.0, 2.0], vec![12.0]]);
}

#[test]
fn average_cost_leaves_the_pass_of_the_last_example() {
    let mut net: Net =
        Network::new(1, vec![], vec!["a"], vec![&LINEAR], &MSE, &NO_NORMALIZATION).unwrap();
    net.weights = vec![vec![vec![1.0]]];
    net.biases = vec![vec![0.0]];
    let data = vec![(vec![1.0], vec![1.0]), (vec![3.0], vec![1.0])];
    assert_eq!(net.average_cost(&data, &|n| n as f32), Ok(2.0));
    assert_eq!(net.weights, vec![vec![vec![1.0]]]);
    assert_eq!(net.biases, vec![vec![0.0]]);
    assert_eq!(net.input, vec![3.0]);
    assert_eq!(net.layers, vec![vec![3.0]]);
    assert_eq!(net.activated_layers, vec![vec![3.0]]);
}

#[test]
fn average_cost_of_no_example_changes_nothing() {
    let mut net = two_layer_net(&NO_NORMALIZATION);
    net.predict(vec![1.0, 2.0]).unwrap();
    let r = net.average_cost(&vec![], &|n| n as f32).unwrap();
    assert!(r.is_nan());
    assert_eq!(net.input, vec![1.0, 2.0]);
    assert_eq!(net.activated_layers, vec![vec![1.0, 2.0], vec![12.0]]);
}

#[test]
fn gradient_descent_leaves_the_pass_of_the_last_example_with_the_old_parameters() {
    let mut net: Net =
        Network::new(1, vec![], vec!["out"], vec![&LINEAR], &MSE, &NO_NORMALIZATION).unwrap();
    net.weights = vec![vec![vec![2.0]]];
    net.biases = vec![vec![1.0]];
    let batch = vec![(vec![1.0], vec![1.0]), (vec![2.0], vec![3.0])];
    net.gradient_descent(&batch, 0.5, &|n| n as f32).unwrap();
    assert_eq!(net.weights, vec![vec![vec![-1.0]]]);
    assert_eq!(net.input, vec![2.0]);
    assert_eq!(net.layers, vec![vec![5.0]]);
    assert_eq!(net.activated_layers, vec![vec![5.0]]);
}
