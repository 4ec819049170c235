use ld_memory::{apply_kilobyte, parse_dec_or_hex, parse_expr, MemoryError};

#[test]
fn dec_or_hex_reads_both_bases() {
    assert_eq!(parse_dec_or_hex("123"), Some(123));
    assert_eq!(parse_dec_or_hex("0x10"), Some(16));
    assert_eq!(parse_dec_or_hex("0xfF"), Some(255));
    assert_eq!(parse_dec_or_hex("+7"), Some(7));
    assert_eq!(parse_dec_or_hex("0"), Some(0));
    assert_eq!(
        parse_dec_or_hex("0xFFFFFFFFFFFFFFFF"),
        Some(u64::MAX)
    );
    assert_eq!(parse_dec_or_hex("18446744073709551615"), Some(u64::MAX));
}

#[test]
fn dec_or_hex_rejects_malformed_input() {
    assert_eq!(parse_dec_or_hex(""), None);
    assert_eq!(parse_dec_or_hex("0x"), None);
    assert_eq!(parse_dec_or_hex("+"), None);
    assert_eq!(parse_dec_or_hex("ff"), None);
    assert_eq!(parse_dec_or_hex("12a"), None);
    assert_eq!(parse_dec_or_hex("-5"), None);
    assert_eq!(parse_dec_or_hex("18446744073709551616"), None);
    assert_eq!(parse_dec_or_hex("0x10000000000000000"), None);
}

#[test]
fn kilobyte_shorthand() {
    assert_eq!(parse_expr("4K"), Ok(4096));
}

#[test]
fn hexadecimal_literal() {
    assert_eq!(parse_expr("0x10"), Ok(16));
}

#[test]
fn empty_string_is_zero() {
    assert_eq!(parse_expr(""), Ok(0));
}

#[test]
fn negative_result_is_rejected() {
    assert!(matches!(parse_expr("1 - 2"), Err(MemoryError::NegativeResult)));
}

#[test]
fn arithmetic_is_evaluated() {
    assert_eq!(parse_expr("2 * 3 + 1"), Ok(7));
    assert_eq!(parse_expr("4K + 0x10"), Ok(4112));
}

#[test]
fn malformed_expression_keeps_original_text() {
    match parse_expr("4K +") {
        Err(MemoryError::ExpressionError(original, message)) => {
            assert_eq!(original, "4K +");
            assert!(!message.is_empty());
        }
        other => panic!("expected an expression error, got {:?}", other),
    }
}

#[test]
fn builtin_functions_are_rejected_not_evaluated() {
    // With builtin functions disabled, a shift by 64 is rejected as an
    // unknown function instead of aborting the process.
    assert!(matches!(
        parse_expr("shl(1, 64)"),
        Err(MemoryError::ExpressionError(_, _))
    ));
    assert!(matches!(
        parse_expr("math::abs(-9223372036854775807 - 1)"),
        Err(MemoryError::ExpressionError(_, _))
    ));
}

#[test]
fn rewrite_wraps_digit_runs_before_k() {
    assert_eq!(apply_kilobyte("4K"), "(4 * 1024)");
    assert_eq!(apply_kilobyte("4K + 0x10"), "(4 * 1024) + 0x10");
    assert_eq!(apply_kilobyte("12K3K"), "(12 * 1024)(3 * 1024)");
}

#[test]
fn rewrite_leaves_other_text_alone() {
    assert_eq!(apply_kilobyte("K"), "K");
    assert_eq!(apply_kilobyte("10 + 2"), "10 + 2");
    assert_eq!(apply_kilobyte("0x1K"), "0x(1 * 1024)");
    assert_eq!(apply_kilobyte(""), "");
    assert_eq!(apply_kilobyte("007K"), "(007 * 1024)");
}
