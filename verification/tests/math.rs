use neural_network::error::ShapeError;
use neural_network::utils::math::add_vecs;
use neural_network::utils::math::dot_product;
use neural_network::utils::math::hadamard_product;
use neural_network::utils::math::subtract_vecs;

#[test]
fn test_dot_product() {
    let res = dot_product(&vec![4.0, 5.0], &vec![10.0, 20.0]).unwrap();
    assert_eq!(res, 140.0);
}

#[test]
fn test_hadamard_product() {
    let res = hadamard_product(&vec![2.0, 3.0], &vec![4.0, 5.0]).unwrap();
    assert_eq!(res, vec![8.0, 15.0]);
}

#[test]
fn test_add_subtract() {
    let v1 = vec![5.0, 6.0];
    let v2 = vec![2.0, 4.0];

    let sum = add_vecs(&v1, &v2).unwrap();
    let diff = subtract_vecs(&v1, &v2).unwrap();

    assert_eq!(sum, vec![7.0, 10.0]);
    assert_eq!(diff, vec![3.0, 2.0]);
}

#[test]
fn dot_product_rejects_unequal_lengths() {
    let res = dot_product(&vec![1.0f32, 2.0, 3.0], &vec![1.0f32]);
    assert_eq!(res, Err(ShapeError::LengthMismatch { left: 3, right: 1 }));
}

#[test]
fn dot_product_is_the_same_either_way_round() {
    let a = vec![1.5f32, -2.0, 0.25];
    let b = vec![4.0f32, 0.5, -8.0];
    assert_eq!(dot_product(&a, &b), dot_product(&b, &a));
    assert_eq!(dot_product(&a, &b), Ok(3.0));
    assert!(dot_product(&a, &a).unwrap() >= 0.0);
    assert_eq!(dot_product(&Vec::<f32>::new(), &vec![]), Ok(0.0));
}

#[test]
fn vector_operations_reject_unequal_lengths() {
    let err = Err(ShapeError::LengthMismatch { left: 2, right: 3 });
    assert_eq!(hadamard_product(&vec![1.0f32, 2.0], &vec![1.0, 2.0, 3.0]), err);
    assert_eq!(add_vecs(&vec![1.0f32, 2.0], &vec![1.0, 2.0, 3.0]), err);
    assert_eq!(subtract_vecs(&vec![1.0f32, 2.0], &vec![1.0, 2.0, 3.0]), err);
}
