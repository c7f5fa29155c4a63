use workpool::calclib;
use workpool::errors::divide;
use workpool::utils::factorial;

#[test]
fn test_divide_ok() {
    assert_eq!(divide(10, 2).unwrap(), 5);
}

#[test]
fn test_divide_err() {
    let error = divide(10, 0).unwrap_err();
    assert_eq!(error, "Cannot divide by zero");
}

#[test]
fn calclib_add_and_subtract() {
    assert_eq!(calclib::add(2, 3), 5);
    assert_eq!(calclib::subtract(2, 3), -1);
}

#[test]
fn factorial_of_small_numbers() {
    assert_eq!(factorial(0), 1);
    assert_eq!(factorial(1), 1);
    assert_eq!(factorial(5), 120);
    assert_eq!(factorial(20), 2432902008176640000);
}
