//! The below-tolerance test on decimal numerals.

use laco::tol::lt_micro_exec;

#[test]
fn zero_is_below_the_tolerance() {
    assert!(lt_micro_exec(b"0"));
    assert!(lt_micro_exec(b"0.0"));
    assert!(lt_micro_exec(b"0.000000"));
    assert!(lt_micro_exec(b"00.00"));
}

#[test]
fn small_fractions_are_below_the_tolerance() {
    assert!(lt_micro_exec(b"0.0000009"));
    assert!(lt_micro_exec(b"0.00000014142135623730952"));
    assert!(lt_micro_exec(b"0.000000999999"));
}

#[test]
fn the_tolerance_itself_is_not_below() {
    assert!(!lt_micro_exec(b"0.000001"));
    assert!(!lt_micro_exec(b"0.0000010"));
    assert!(!lt_micro_exec(b"0.0000011"));
}

#[test]
fn larger_values_are_not_below() {
    assert!(!lt_micro_exec(b"0.5"));
    assert!(!lt_micro_exec(b"1"));
    assert!(!lt_micro_exec(b"10.25"));
    assert!(!lt_micro_exec(b"123456789"));
}

#[test]
fn non_numerals_are_not_below() {
    assert!(!lt_micro_exec(b""));
    assert!(!lt_micro_exec(b"NaN"));
    assert!(!lt_micro_exec(b"inf"));
    assert!(!lt_micro_exec(b"-0.0000001"));
    assert!(!lt_micro_exec(b"1e-7"));
    assert!(!lt_micro_exec(b"."));
    assert!(!lt_micro_exec(b"0."));
    assert!(!lt_micro_exec(b".0"));
    assert!(!lt_micro_exec(b"0.0.0"));
}
