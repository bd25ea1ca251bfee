use neural_network::error::SelectError;
use neural_network::error::ShapeError;
use neural_network::functions::activation::relu;
use neural_network::functions::activation::relu_deriv;
use neural_network::functions::activation::sigmoid;
use neural_network::functions::activation::sigmoid_deriv;
use neural_network::functions::activation::softmax;
use neural_network::functions::cost::mse;
use neural_network::functions::cost::mse_deriv;
use neural_network::functions::input_normalizations::no_func;
use neural_network::functions::input_normalizations::normalization;
use neural_network::utils::math::copy_vec;
use neural_network::utils::math::sum_of;
use neural_network::utils::math::zeros;
use neural_network::utils::order::least_index;

fn exp(x: f32) -> f32 {
    std::f32::consts::E.powf(x)
}

fn count(n: usize) -> f32 {
    n as f32
}

#[test]
fn cost_test_mse() {
    assert_eq!(mse(&vec![1.0], &vec![1.0], &count).unwrap(), 0.0);
    assert_eq!(mse(&vec![1.0], &vec![0.5], &count).unwrap(), 0.25);
    assert_eq!(mse(&vec![1.0], &vec![0.0], &count).unwrap(), 1.0);
}

#[test]
fn test_softmax() {
    let res = softmax(&vec![8.0, 5.0, 0.0], &exp).unwrap();
    let expected = vec![0.9523, 0.0474, 0.0003];
    assert!(res
        .iter()
        .zip(expected)
        .all(|(val, expect)| (val - expect).abs() < 0.001));
}

#[test]
fn softmax_sums_to_one_and_keeps_the_order_of_its_input() {
    let res = softmax(&vec![-1.0, 3.0, 0.5, 3.5], &exp).unwrap();
    let sum: f32 = res.iter().sum();
    assert!((sum - 1.0).abs() < 0.001);
    assert!(res[0] < res[2] && res[2] < res[1] && res[1] < res[3]);
}

#[test]
fn softmax_of_large_values_stays_finite() {
    let res = softmax(&vec![1000.0, 1000.0], &exp).unwrap();
    assert_eq!(res, vec![0.5, 0.5]);
}

#[test]
fn softmax_reports_what_it_cannot_order() {
    assert_eq!(softmax(&Vec::<f32>::new(), &exp), Err(SelectError::NoOutput));
    assert_eq!(softmax(&vec![1.0, f32::NAN], &exp), Err(SelectError::Unordered { index: 1 }));
}

#[test]
fn sigmoid_of_zero_is_one_half() {
    assert_eq!(sigmoid(&vec![0.0f32], &exp), vec![0.5]);
}

#[test]
fn sigmoid_is_one_over_one_plus_the_power_of_the_negation() {
    let res = sigmoid(&vec![2.0f32, -3.0], &|x: f32| if x == -2.0 { 3.0 } else { 7.0 });
    assert_eq!(res, vec![0.25, 0.125]);
}

#[test]
fn sigmoid_derivative_is_the_sigmoid_times_one_minus_the_sigmoid() {
    let zs = vec![-2.0f32, 0.0, 0.7, 5.0];
    let sig = sigmoid(&zs, &exp);
    let expected: Vec<f32> = sig.iter().map(|s| s * (1.0 - s)).collect();
    assert_eq!(sigmoid_deriv(&zs, &exp), expected);
    assert_eq!(sigmoid_deriv(&vec![0.0f32], &exp), vec![0.25]);
}

#[test]
fn relu_keeps_what_is_above_zero() {
    assert_eq!(relu(&vec![-2.5f32, 0.0, 3.5, f32::NAN]), vec![0.0, 0.0, 3.5, 0.0]);
    assert_eq!(relu_deriv(&vec![-2.5f32, 0.0, 3.5, f32::NAN]), vec![0.0, 0.0, 1.0, 0.0]);
}

#[test]
fn mse_is_the_mean_of_the_squared_errors() {
    assert_eq!(mse(&vec![1.0, 2.0, 3.0], &vec![0.0, 4.0, 3.0], &count), Ok(5.0 / 3.0));
}

#[test]
fn mse_derivative_is_twice_the_error() {
    assert_eq!(mse_deriv(&vec![1.0, 2.0, 3.0], &vec![0.0, 4.0, 3.0]), Ok(vec![2.0, -4.0, 0.0]));
}

#[test]
fn mse_rejects_unequal_lengths() {
    assert_eq!(
        mse(&vec![1.0], &vec![1.0, 2.0], &count),
        Err(ShapeError::LengthMismatch { left: 1, right: 2 })
    );
    assert_eq!(
        mse_deriv(&vec![1.0f32, 2.0], &vec![1.0]),
        Err(ShapeError::LengthMismatch { left: 2, right: 1 })
    );
}

#[test]
fn no_func_leaves_the_input() {
    assert_eq!(no_func(&vec![3.0, -1.0]), vec![3.0, -1.0]);
}

#[test]
fn normalization_scales_to_the_range_from_zero_to_one() {
    assert_eq!(
        normalization(&vec![2.0, 4.0, 10.0, 6.0], f32::EPSILON),
        Ok(vec![0.0, 0.25, 1.0, 0.5])
    );
}

#[test]
fn normalization_leaves_an_input_of_equal_values() {
    assert_eq!(normalization(&vec![3.0, 3.0, 3.0], f32::EPSILON), Ok(vec![3.0, 3.0, 3.0]));
    assert_eq!(normalization(&vec![1.0, 1.5], 0.5), Ok(vec![1.0, 1.5]));
    assert_eq!(normalization(&vec![1.0, 1.5], 0.25), Ok(vec![0.0, 1.0]));
}

#[test]
fn normalization_reports_what_it_cannot_order() {
    assert_eq!(normalization(&Vec::<f32>::new(), f32::EPSILON), Err(SelectError::NoOutput));
    assert_eq!(
        normalization(&vec![1.0, 2.0, f32::NAN], f32::EPSILON),
        Err(SelectError::Unordered { index: 2 })
    );
}

#[test]
fn least_index_takes_the_first_of_equal_values() {
    assert_eq!(least_index(&vec![4.0, 1.0, 3.0, 1.0]), Ok(1));
    assert_eq!(least_index(&vec![4.0]), Ok(0));
    assert_eq!(least_index(&Vec::<f32>::new()), Err(SelectError::NoOutput));
    assert_eq!(least_index(&vec![f32::NAN, 1.0]), Err(SelectError::Unordered { index: 1 }));
}

#[test]
fn vector_helpers_copy_fill_and_add_up() {
    assert_eq!(copy_vec(&vec![1.5, 2.5]), vec![1.5, 2.5]);
    assert_eq!(zeros::<f32>(3), vec![0.0, 0.0, 0.0]);
    assert_eq!(sum_of(&vec![1.0f32, 2.0, 4.5]), 7.5);
    assert_eq!(sum_of(&Vec::<f32>::new()), 0.0);
}
