//! Tests of the host-level 32-bit arithmetic helpers.
use resilient::arith::add;
use resilient::arith::divide;
use resilient::arith::multiply;
use resilient::arith::subtract;

#[test]
fn basic_operations() {
    assert_eq!(add(20, 5), 25);
    assert_eq!(subtract(20, 5), 15);
    assert_eq!(multiply(20, 5), 100);
    assert_eq!(subtract(5, 20), -15);
}

#[test]
fn successful_division_truncates() {
    assert_eq!(divide(20, 5), Ok(4));
    assert_eq!(divide(7, 2), Ok(3));
    assert_eq!(divide(-7, 2), Ok(-3));
    assert_eq!(divide(7, -2), Ok(-3));
}

#[test]
fn division_by_zero_is_refused() {
    assert_eq!(
        divide(20, 0),
        Err("Error: Division by zero is not allowed.".to_string())
    );
}
