use wasmvm::test_utils::assert_approx_eq_impl;

#[test]
fn assert_approx() {
    assert!(assert_approx_eq_impl(9, 10, "0.12"));
    assert!(assert_approx_eq_impl(
        9_000_000_000_000_000_000_000_000_000_000_000_000,
        10_000_000_000_000_000_000_000_000_000_000_000_000,
        "0.10"
    ));
}

#[test]
fn assert_approx_with_vars() {
    let a: u128 = 66;
    let b: u128 = 67;
    assert!(assert_approx_eq_impl(a, b, "0.02"));
}

#[test]
fn assert_approx_rejects_too_far() {
    // The original relative difference of eight and ten is one fifth,
    // beyond a bound of twelve hundredths, and order does not matter.
    assert!(!assert_approx_eq_impl(8, 10, "0.12"));
    assert!(!assert_approx_eq_impl(10, 8, "0.12"));
    assert!(!assert_approx_eq_impl(17, 20, "0.12"));
}

#[test]
fn assert_approx_boundary_cases() {
    // Equal values have zero relative difference.
    assert!(assert_approx_eq_impl(5, 5, "0"));
    // One tenth exactly meets a bound of one tenth.
    assert!(assert_approx_eq_impl(9, 10, "0.1"));
    // Whole-number bounds are accepted.
    assert!(assert_approx_eq_impl(1, 100, "1"));
    assert!(!assert_approx_eq_impl(0, 100, "0.5"));
}
