use numutil::Calculator;

#[test]
fn test_calculator_new() {
    let calc = Calculator::new(42);
    assert_eq!(calc.get_value(), 42);
}

#[test]
fn test_calculator_add() {
    let mut calc = Calculator::new(10);
    assert_eq!(calc.add(5), 15);
    assert_eq!(calc.get_value(), 15);
    assert_eq!(calc.add(10), 25);
    assert_eq!(calc.get_value(), 25);
}

#[test]
fn test_calculator_repr() {
    let calc = Calculator::new(42);
    assert_eq!(calc.repr(), "Calculator(value=42)");
}

#[test]
fn test_calculator_add_wraps() {
    let mut calc = Calculator::new(u64::MAX);
    assert_eq!(calc.add(1), 0);
    assert_eq!(calc.get_value(), 0);
}

#[test]
fn test_calculator_repr_zero() {
    let calc = Calculator::new(0);
    assert_eq!(calc.repr(), "Calculator(value=0)");
}

#[test]
fn test_calculator_repr_largest_value() {
    let calc = Calculator::new(u64::MAX);
    assert_eq!(calc.repr(), "Calculator(value=18446744073709551615)");
}
