use workpool::math::{abs, add, div, fact, mode, mul, pow, sqrt, sub};

#[test]
fn math_test_add() {
    assert_eq!(add(2, 3), 5);
}

#[test]
fn test_sub() {
    assert_eq!(sub(5, 3), 2);
}

#[test]
fn test_mul() {
    assert_eq!(mul(2, 4), 8);
}

#[test]
fn test_div_ok() {
    assert_eq!(div(10, 2).unwrap(), 5);
}

#[test]
fn test_div_err() {
    assert!(div(1, 0).is_err());
}

#[test]
fn test_mode_ok() {
    assert_eq!(mode(10, 3).unwrap(), 1);
}

#[test]
fn test_mode_err() {
    assert!(mode(10, 0).is_err());
}

#[test]
fn test_factorial() {
    assert_eq!(fact(5).unwrap(), 120);
    assert_eq!(fact(0).unwrap(), 1);
    assert_eq!(fact(1).unwrap(), 1);
}

#[test]
fn test_factorial_err() {
    assert!(fact(-5).is_err());
}

#[test]
fn test_sqrt() {
    assert_eq!(sqrt(4).unwrap(), 2);
    assert_eq!(sqrt(0).unwrap(), 0);
    assert_eq!(sqrt(1).unwrap(), 1);
    assert!(sqrt(-4).is_err());
}

#[test]
fn test_abs() {
    assert_eq!(abs(5).unwrap(), 5);
    assert_eq!(abs(-5).unwrap(), 5);
    assert_eq!(abs(0).unwrap(), 0);
}

#[test]
fn test_pow() {
    assert_eq!(pow(2, 3).unwrap(), 8);
    assert_eq!(pow(5, 0).unwrap(), 1);
    assert_eq!(pow(3, 2).unwrap(), 9);
}

#[test]
fn test_pow_err() {
    assert!(pow(2, -1).is_err());
}

#[test]
fn truncating_division_on_negative_operands() {
    assert_eq!(div(-7, 2).unwrap(), -3);
    assert_eq!(div(7, -2).unwrap(), -3);
    assert_eq!(div(-7, -2).unwrap(), 3);
    assert_eq!(mode(-7, 2).unwrap(), -1);
    assert_eq!(mode(7, -2).unwrap(), 1);
    assert_eq!(mode(-7, -2).unwrap(), -1);
}

#[test]
fn division_error_messages() {
    assert_eq!(div(1, 0).unwrap_err(), "Division by zero is not allowed");
    assert_eq!(mode(10, 0).unwrap_err(), "Modulo by zero is not allowed");
}

#[test]
fn domain_error_messages() {
    assert_eq!(
        sqrt(-1).unwrap_err(),
        "Cannot calculate square root of a negative number"
    );
    assert_eq!(
        fact(-1).unwrap_err(),
        "Cannot calculate factorial of a negative number"
    );
    assert_eq!(pow(2, -2).unwrap_err(), "Negative exponent is not allowed");
}

#[test]
fn largest_exact_factorial() {
    assert_eq!(fact(20).unwrap(), 2432902008176640000);
}

#[test]
fn sqrt_rounds_down() {
    assert_eq!(sqrt(8).unwrap(), 2);
    assert_eq!(sqrt(9).unwrap(), 3);
    assert_eq!(sqrt(1000000).unwrap(), 1000);
}
