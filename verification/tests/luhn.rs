use exercises::luhn::luhn;

#[test]
fn test_non_digit_cc_number() {
    assert!(!luhn("foo"));
}

#[test]
fn test_empty_cc_number() {
    assert!(!luhn(""));
    assert!(!luhn(" "));
    assert!(!luhn("  "));
    assert!(!luhn("    "));
}

#[test]
fn test_single_digit_cc_number() {
    assert!(!luhn("0"));
}

#[test]
fn test_two_digit_cc_number() {
    assert!(luhn(" 0 0 "));
}

#[test]
fn test_valid_cc_number() {
    assert!(luhn("4263 9826 4026 9299"));
    assert!(luhn("4539 3195 0343 6467"));
    assert!(luhn("7992 7398 713"));
}

#[test]
fn test_invalid_cc_number() {
    assert!(!luhn("4223 9826 4026 9299"));
    assert!(!luhn("4539 3195 0343 6476"));
    assert!(!luhn("8273 1232 7352 0569"));
}

#[test]
fn doubled_digits_add_the_digits_of_their_double() {
    // 59: 9 stays, 5 doubles to 10 and adds 1; the sum is 10.
    assert!(luhn("59"));
    // 18: 8 stays, 1 doubles to 2; the sum is 10.
    assert!(luhn("18"));
    assert!(!luhn("19"));
}

#[test]
fn a_digit_after_a_letter_does_not_save_the_number() {
    assert!(!luhn("4263 9826 4026 929x"));
    assert!(!luhn("x4263 9826 4026 9299"));
    assert!(!luhn("4263\t9826 4026 9299"));
}

#[test]
fn digits_outside_ascii_are_no_digits() {
    assert!(!luhn("٠٠"));
}
