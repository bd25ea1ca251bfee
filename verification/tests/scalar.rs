use neural_network::scalar::compare;
use neural_network::scalar::is_greater;
use neural_network::scalar::scalar_of;

#[test]
fn compare_tells_the_greater_of_two() {
    assert_eq!(compare(2.0, 1.0), Some(true));
    assert_eq!(compare(1.0, 2.0), Some(false));
    assert_eq!(compare(1.0, 1.0), Some(false));
    assert_eq!(compare(f32::NAN, 1.0), None);
    assert_eq!(compare(1.0, f32::NAN), None);
}

#[test]
fn is_greater_is_strict() {
    assert!(is_greater(2.0, 1.0));
    assert!(!is_greater(1.0, 1.0));
    assert!(!is_greater(0.5, 1.0));
    assert!(!is_greater(f32::NAN, 1.0));
}

#[test]
fn scalar_of_converts_a_small_integer() {
    assert_eq!(scalar_of::<f32>(0), 0.0);
    assert_eq!(scalar_of::<f32>(2), 2.0);
    assert_eq!(scalar_of::<f64>(255), 255.0);
}
