use numutil::add;
use numutil::fibonacci;

#[test]
fn it_works() {
    let result = add(2, 2);
    assert_eq!(result, 4);
}

#[test]
fn test_add_numbers() {
    assert_eq!(add(2, 3), 5);
    assert_eq!(add(0, 0), 0);
    assert_eq!(add(100, 200), 300);
}

#[test]
fn test_add_wraps_on_overflow() {
    assert_eq!(add(u64::MAX, 1), 0);
    assert_eq!(add(u64::MAX, u64::MAX), u64::MAX - 1);
}

#[test]
fn test_add_commutes_and_has_zero_identity() {
    assert_eq!(add(3, 9), add(9, 3));
    assert_eq!(add(u64::MAX, 7), add(7, u64::MAX));
    assert_eq!(add(7, 0), 7);
    assert_eq!(add(0, u64::MAX), u64::MAX);
}

#[test]
fn test_fibonacci() {
    assert_eq!(fibonacci(0), 0);
    assert_eq!(fibonacci(1), 1);
    assert_eq!(fibonacci(10), 55);
    assert_eq!(fibonacci(15), 610);
}

#[test]
fn lib_test_fibonacci() {
    assert_eq!(fibonacci(0), 0);
    assert_eq!(fibonacci(1), 1);
    assert_eq!(fibonacci(10), 55);
    assert_eq!(fibonacci(15), 610);
}

#[test]
fn test_fibonacci_small_values() {
    assert_eq!(fibonacci(2), 1);
    assert_eq!(fibonacci(3), 2);
    assert_eq!(fibonacci(4), 3);
    assert_eq!(fibonacci(5), 5);
}
