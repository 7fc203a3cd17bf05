//! The text utilities under the engine: ordering, decimal rendering and
//! literal escaping.

use rust_cef::text::{escape_literal, str_compare, str_eq, u128_to_decimal, usize_to_decimal};

#[test]
fn test_str_compare_orders_by_code_point() {
    assert_eq!(str_compare("alpha", "beta"), -1);
    assert_eq!(str_compare("beta", "alpha"), 1);
    assert_eq!(str_compare("same", "same"), 0);
    // A strict prefix sorts first.
    assert_eq!(str_compare("name", "name2"), -1);
    assert_eq!(str_compare("name2", "name"), 1);
    // Upper case sorts before lower case, as the code points order them.
    assert_eq!(str_compare("Zebra", "alpha"), -1);
    assert_eq!(str_compare("", "a"), -1);
    assert_eq!(str_compare("", ""), 0);
}

#[test]
fn test_str_eq() {
    assert!(str_eq("key", "key"));
    assert!(!str_eq("key", "keys"));
    assert!(!str_eq("key", "kex"));
}

#[test]
fn test_decimal_rendering() {
    assert_eq!(u128_to_decimal(0), "0");
    assert_eq!(u128_to_decimal(7), "7");
    assert_eq!(u128_to_decimal(10), "10");
    assert_eq!(u128_to_decimal(90210), "90210");
    assert_eq!(u128_to_decimal(u128::MAX), "340282366920938463463374607431768211455");
    assert_eq!(usize_to_decimal(3), "3");
}

#[test]
fn test_escape_literal() {
    assert_eq!(escape_literal("plain"), "plain");
    assert_eq!(escape_literal("say \"hi\""), "say \\\"hi\\\"");
    assert_eq!(escape_literal("back\\slash"), "back\\\\slash");
    assert_eq!(escape_literal(""), "");
}
