use neural_network::error::ShapeError;
use neural_network::functions::activation::ActivationFunction;
use neural_network::functions::cost::CostFunc;
use neural_network::functions::weight_init::InitFn;
use neural_network::functions::input_normalizations::NormalizationFn;
use neural_network::network::Network;
use neural_network::network::training::Progress;
use rand::distributions::Distribution;
use rand::distributions::Uniform;
use std::cell::RefCell;

type VectorFn = fn(&Vec<f32>) -> Vec<f32>;
type Init = fn(usize) -> f32;
type Cost = fn(&Vec<f32>, &Vec<f32>) -> f32;
type CostDerivative = fn(&Vec<f32>, &Vec<f32>) -> Vec<f32>;
type Activation = ActivationFunction<'static, VectorFn, VectorFn, Init>;
type Net<'a> = Network<'a, f32, VectorFn, VectorFn, Init, Cost, CostDerivative, VectorFn>;

fn xavier(n: usize) -> f32 {
    let upper = 1.0 / f32::sqrt(n as f32);
    let lower = -upper;
    Uniform::from(lower..=upper).sample(&mut rand::thread_rng())
}

const XAVIER: InitFn<'static, Init> = InitFn { function: xavier, description: "", formula: "" };

fn sigmoid(zs: &Vec<f32>) -> Vec<f32> {
    zs.iter().map(|z| 1.0 / (1.0 + std::f32::consts::E.powf(-z))).collect()
}

fn sigmoid_deriv(zs: &Vec<f32>) -> Vec<f32> {
    let sig = sigmoid(zs);
    sig.iter().map(|z| z * (1.0 - z)).collect()
}

const SIGMOID: Activation = ActivationFunction {
    function: sigmoid,
    derivative: sigmoid_deriv,
    description: "",
    formula: "",
    formula_derivative: "",
    init_fn: &XAVIER,
};

fn identity(zs: &Vec<f32>) -> Vec<f32> {
    zs.clone()
}

fn ones(zs: &Vec<f32>) -> Vec<f32> {
    vec![1.0; zs.len()]
}

const LINEAR: Activation = ActivationFunction {
    function: identity,
    derivative: ones,
    description: "",
    formula: "",
    formula_derivative: "",
    init_fn: &XAVIER,
};

fn mse(predicted: &Vec<f32>, expected: &Vec<f32>) -> f32 {
    let sum: f32 = predicted.iter().zip(expected).map(|(a, y)| (a - y).powf(2.0)).sum();
    sum / (expected.len() as f32)
}

fn mse_deriv(predicted: &Vec<f32>, expected: &Vec<f32>) -> Vec<f32> {
    predicted.iter().zip(expected).map(|(a, y)| 2.0 * (a - y)).collect()
}

const MSE: CostFunc<'static, Cost, CostDerivative> = CostFunc {
    function: mse,
    derivative: mse_deriv,
    description: "",
    formula: "",
    formula_derivative: "",
};

fn no_func(input: &Vec<f32>) -> Vec<f32> {
    input.clone()
}

const NO_NORMALIZATION: NormalizationFn<'static, VectorFn> =
    NormalizationFn { function: no_func, description: "", formula: "" };

fn quiet(_: Progress<f32>) {}

fn as_text(event: Progress<f32>) -> String {
    match event {
        Progress::Started => "started".to_string(),
        Progress::AverageCost(cost) => format!("cost {cost}"),
        Progress::Epoch { epoch, of } => format!("epoch {epoch} of {of}"),
        Progress::Finished => "finished".to_string(),
    }
}

fn linear_net<'a>() -> Net<'a> {
    let mut net: Net =
        Network::new(1, vec![], vec!["out"], vec![&LINEAR], &MSE, &NO_NORMALIZATION).unwrap();
    net.weights = vec![vec![vec![2.0]]];
    net.biases = vec![vec![1.0]];
    net
}

#[test]
fn training_converges_on_a_small_set() {
    let training_set = vec![
        (vec![0.0, 0.0, 1.0], vec![0.0]),
        (vec![1.0, 1.0, 1.0], vec![1.0]),
        (vec![1.0, 0.0, 1.0], vec![1.0]),
        (vec![0.0, 1.0, 1.0], vec![0.0]),
    ];
    let mut net: Net =
        Network::new(3, vec![], vec!["res"], vec![&SIGMOID], &MSE, &NO_NORMALIZATION).unwrap();

    assert_eq!(net.train(training_set, 10000, 1.0, 4, &|n| n as f32, &quiet), Ok(()));

    net.predict(vec![1.0, 0.0, 0.0]).unwrap();
    let out: Vec<(&str, f32)> = net.get_output();
    assert_eq!(out[0].0, "res");
    assert!(out[0].1 > 0.9);

    net.predict(vec![0.0, 0.0, 0.0]).unwrap();
    assert!(net.get_output()[0].1 < 0.5);
}

#[test]
fn batch_gradient_descent_takes_one_step_for_each_batch() {
    let sizes: RefCell<Vec<usize>> = RefCell::new(vec![]);
    let counting = |n: usize| {
        sizes.borrow_mut().push(n);
        n as f32
    };
    let data: Vec<(Vec<f32>, Vec<f32>)> =
        (0..5).map(|i| (vec![i as f32], vec![2.0 * i as f32 + 1.0])).collect();
    let mut net = linear_net();
    assert_eq!(net.batch_gradient_descent(&data, 0.5, 2, &counting), Ok(()));
    assert_eq!(*sizes.borrow(), vec![2, 2, 1]);
    // the examples lie on the line the network starts with, so nothing moves
    assert_eq!(net.weights, vec![vec![vec![2.0]]]);
    assert_eq!(net.biases, vec![vec![1.0]]);
}

#[test]
fn batch_gradient_descent_steps_through_the_batches_in_order() {
    let data = vec![(vec![1.0], vec![1.0]), (vec![2.0], vec![3.0])];

    let mut stepwise = linear_net();
    stepwise.gradient_descent(&vec![data[0].clone()], 0.25, &|n| n as f32).unwrap();
    stepwise.gradient_descent(&vec![data[1].clone()], 0.25, &|n| n as f32).unwrap();

    let mut batched = linear_net();
    batched.batch_gradient_descent(&data, 0.25, 1, &|n| n as f32).unwrap();
    assert_eq!(batched.weights, stepwise.weights);
    assert_eq!(batched.biases, stepwise.biases);
    // the first step: the gradient of the weight is 4, of the bias 4
    // the second step starts from weight 1, bias 0
    assert_eq!(batched.weights, vec![vec![vec![1.0 - 0.25 * -4.0]]]);
    assert_eq!(batched.biases, vec![vec![0.0 - 0.25 * -2.0]]);

    let mut whole = linear_net();
    whole.batch_gradient_descent(&data, 0.5, 7, &|n| n as f32).unwrap();
    assert_eq!(whole.weights, vec![vec![vec![-1.0]]]);
    assert_eq!(whole.biases, vec![vec![-1.0]]);
}

#[test]
fn batch_gradient_descent_of_no_examples_changes_nothing() {
    let mut net = linear_net();
    assert_eq!(net.batch_gradient_descent(&vec![], 0.5, 3, &|n| n as f32), Ok(()));
    assert_eq!(net.weights, vec![vec![vec![2.0]]]);
}

#[test]
fn train_rejects_an_example_that_does_not_fit() {
    let mut net = linear_net();
    let data = vec![(vec![1.0], vec![1.0]), (vec![2.0], vec![3.0, 4.0])];
    assert_eq!(
        net.train(data, 3, 0.5, 1, &|n| n as f32, &quiet),
        Err(ShapeError::OutputLength { expected: 1, found: 2 })
    );
    assert_eq!(net.weights, vec![vec![vec![2.0]]]);
}

#[test]
fn train_reports_its_progress() {
    let lines: RefCell<Vec<String>> = RefCell::new(vec![]);
    let recording = |event: Progress<f32>| lines.borrow_mut().push(as_text(event));
    let data = vec![(vec![1.0], vec![3.0]), (vec![2.0], vec![5.0])];

    let mut net = linear_net();
    net.train(data.clone(), 2, 0.5, 2, &|n| n as f32, &recording).unwrap();
    assert_eq!(*lines.borrow(), vec!["started", "finished"]);

    lines.borrow_mut().clear();
    net.log_epochs = true;
    net.log_costs = true;
    net.train(data, 2, 0.5, 2, &|n| n as f32, &recording).unwrap();
    assert_eq!(
        *lines.borrow(),
        vec!["started", "cost 0", "epoch 1 of 2", "epoch 2 of 2", "cost 0", "finished"]
    );
}

#[test]
fn train_runs_the_given_number_of_epochs() {
    let steps: RefCell<usize> = RefCell::new(0);
    let counting = |n: usize| {
        *steps.borrow_mut() += 1;
        n as f32
    };
    let data: Vec<(Vec<f32>, Vec<f32>)> =
        (0..7).map(|i| (vec![i as f32], vec![2.0 * i as f32 + 1.0])).collect();
    let mut net = linear_net();
    net.train(data, 5, 0.5, 3, &counting, &quiet).unwrap();
    // three batches in each of five epochs
    assert_eq!(*steps.borrow(), 15);
}

#[test]
fn train_shuffles_the_examples_of_each_epoch() {
    let seen: RefCell<Vec<f32>> = RefCell::new(vec![]);
    let watching = NormalizationFn {
        function: |input: &Vec<f32>| {
            seen.borrow_mut().push(input[0]);
            input.clone()
        },
        description: "",
        formula: "",
    };
    let mut net = Network::new(1, vec![], vec!["out"], vec![&LINEAR], &MSE, &watching).unwrap();
    net.weights = vec![vec![vec![2.0]]];
    net.biases = vec![vec![1.0]];
    let data: Vec<(Vec<f32>, Vec<f32>)> =
        (0..8).map(|i| (vec![i as f32], vec![2.0 * i as f32 + 1.0])).collect();
    net.train(data, 20, 0.5, 8, &|n| n as f32, &quiet).unwrap();

    let seen = seen.borrow();
    assert_eq!(seen.len(), 160);
    let given: Vec<f32> = (0..8).map(|i| i as f32).collect();
    for epoch in seen.chunks(8) {
        let mut sorted = epoch.to_vec();
        sorted.sort_by(|a, b| a.partial_cmp(b).unwrap());
        assert_eq!(sorted, given);
    }
    assert!(seen.chunks(8).any(|epoch| epoch != given.as_slice()));
}

#[test]
fn train_without_epochs_changes_nothing() {
    let mut net = linear_net();
    net.predict(vec![4.0]).unwrap();
    let data = vec![(vec![1.0], vec![1.0]), (vec![2.0], vec![3.0])];
    assert_eq!(net.train(data.clone(), 0, 0.5, 1, &|n| n as f32, &quiet), Ok(()));
    assert_eq!(net.weights, vec![vec![vec![2.0]]]);
    assert_eq!(net.biases, vec![vec![1.0]]);
    assert_eq!(net.input, vec![4.0]);
    assert_eq!(net.activated_layers, vec![vec![9.0]]);

    net.log_costs = true;
    assert_eq!(net.train(data, 0, 0.5, 1, &|n| n as f32, &quiet), Ok(()));
    assert_eq!(net.weights, vec![vec![vec![2.0]]]);
    assert_eq!(net.biases, vec![vec![1.0]]);
    assert_eq!(net.input, vec![2.0]);
    assert_eq!(net.activated_layers, vec![vec![5.0]]);
}

#[test]
fn batch_gradient_descent_leaves_the_pass_of_the_last_example() {
    let data = vec![(vec![1.0], vec![1.0]), (vec![2.0], vec![3.0])];
    let mut net = linear_net();
    net.batch_gradient_descent(&data, 0.25, 1, &|n| n as f32).unwrap();
    // the second batch began with weight 1 and bias 0
    assert_eq!(net.input, vec![2.0]);
    assert_eq!(net.layers, vec![vec![2.0]]);
}
