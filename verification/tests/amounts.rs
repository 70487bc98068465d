use paqus_wallet::amount::submit_fee;
use paqus_wallet::amount::{
    amount_units_text, format_grouped_u64, format_xpq, parse_xpq_amount,
    policy_fee_for_virtual_size, AmountError, DEFAULT_TRANSACTION_FEE, XPQ,
};
use paqus_wallet::cli::{parse_fee, parse_nonce};
use paqus_wallet::decimal::IntErrorKind;

#[test]
fn parses_whole_and_fractional_amounts() {
    assert_eq!(parse_xpq_amount("1"), Ok(XPQ));
    assert_eq!(parse_xpq_amount("1.5"), Ok(1_500_000));
    assert_eq!(parse_xpq_amount(" 0.000001 "), Ok(1));
    assert_eq!(parse_xpq_amount(".25"), Ok(250_000));
    assert_eq!(parse_xpq_amount("7."), Ok(7 * XPQ));
    assert_eq!(parse_xpq_amount("0.001994"), Ok(1994));
    assert_eq!(parse_xpq_amount("18446744073709.551615"), Ok(u64::MAX));
}

#[test]
fn refuses_each_kind_of_bad_amount() {
    assert_eq!(parse_xpq_amount("   "), Err(AmountError::Empty));
    assert_eq!(parse_xpq_amount("."), Err(AmountError::Empty));
    assert_eq!(parse_xpq_amount("-1"), Err(AmountError::Negative));
    assert_eq!(parse_xpq_amount("1.2.3"), Err(AmountError::ManyDecimalPoints));
    assert_eq!(parse_xpq_amount("1a.5"), Err(AmountError::WholeNotDigits));
    assert_eq!(parse_xpq_amount("+1"), Err(AmountError::WholeNotDigits));
    assert_eq!(
        parse_xpq_amount("18446744073709551616"),
        Err(AmountError::WholeTooLarge)
    );
    assert_eq!(parse_xpq_amount("1.1234567"), Err(AmountError::TooManyDecimals));
    assert_eq!(parse_xpq_amount("1.12é"), Err(AmountError::FractionNotDigits));
    assert_eq!(parse_xpq_amount("1.1x"), Err(AmountError::FractionNotDigits));
    assert_eq!(parse_xpq_amount("18446744073710"), Err(AmountError::TooLarge));
    assert_eq!(
        parse_xpq_amount("18446744073709.551616"),
        Err(AmountError::TooLarge)
    );
}

#[test]
fn a_multibyte_fraction_counts_in_bytes() {
    // four two-byte characters are eight bytes, past the six decimals
    assert_eq!(parse_xpq_amount("1.éééé"), Err(AmountError::TooManyDecimals));
}

#[test]
fn formats_amounts_with_grouping() {
    assert_eq!(format_xpq(0), "0.000000 XPQ");
    assert_eq!(format_xpq(1), "0.000001 XPQ");
    assert_eq!(format_xpq(1_234_567_890_123), "1,234,567.890123 XPQ");
    assert_eq!(format_xpq(u64::MAX), "18,446,744,073,709.551615 XPQ");
    assert_eq!(format_grouped_u64(0), "0");
    assert_eq!(format_grouped_u64(999), "999");
    assert_eq!(format_grouped_u64(1000), "1,000");
    assert_eq!(format_grouped_u64(1234567), "1,234,567");
    assert_eq!(format_grouped_u64(u64::MAX), "18,446,744,073,709,551,615");
}

#[test]
fn grouping_only_adds_commas() {
    for n in [0u64, 7, 999, 1000, 65_536, 1_000_000, 987_654_321, u64::MAX] {
        assert_eq!(format_grouped_u64(n).replace(',', ""), n.to_string());
    }
}

#[test]
fn a_shown_amount_reads_back() {
    for units in [0u64, 1, 999_999, 1_000_000, 1_234_567_890_123, u64::MAX] {
        let shown = format_xpq(units);
        let plain = shown.trim_end_matches(" XPQ").replace(',', "");
        assert_eq!(parse_xpq_amount(&plain), Ok(units));
    }
}

#[test]
fn units_text_shows_numbers_as_amounts() {
    assert_eq!(amount_units_text("1500000"), "1.500000 XPQ");
    assert_eq!(amount_units_text("+5"), "0.000005 XPQ");
    assert_eq!(amount_units_text("abc"), "abc");
    assert_eq!(amount_units_text("18446744073709551616"), "18446744073709551616");
    assert_eq!(amount_units_text(""), "");
}

#[test]
fn fees_and_nonces() {
    assert_eq!(parse_fee("auto"), Ok(DEFAULT_TRANSACTION_FEE));
    assert_eq!(parse_fee("AuTo"), Ok(DEFAULT_TRANSACTION_FEE));
    assert_eq!(parse_fee("0.5"), Ok(500_000));
    assert_eq!(parse_fee("autos"), Err(AmountError::WholeNotDigits));
    assert_eq!(parse_nonce("42"), Ok(42));
    assert_eq!(parse_nonce("+7"), Ok(7));
    assert_eq!(parse_nonce(""), Err(IntErrorKind::Empty));
    assert_eq!(parse_nonce("-1"), Err(IntErrorKind::InvalidDigit));
    assert_eq!(parse_nonce("18446744073709551616"), Err(IntErrorKind::PosOverflow));
    assert_eq!(policy_fee_for_virtual_size(250), 250);
}

#[test]
fn policy_fee_example() {
    // a transaction of 1994 virtual bytes at one paqus per byte
    let fee = policy_fee_for_virtual_size(1994);
    assert_eq!(fee, 1994);
    assert_eq!(format_xpq(fee), "0.001994 XPQ");
    assert_eq!(parse_xpq_amount("0.001994"), Ok(fee));
    assert_eq!(format_xpq(XPQ), "1.000000 XPQ");
}

#[test]
fn submit_fees() {
    assert_eq!(submit_fee(DEFAULT_TRANSACTION_FEE, 321), Some(321));
    assert_eq!(submit_fee(5_000, 321), None);
    assert_eq!(submit_fee(0, 321), None);
}

#[test]
fn thousands_groups_have_the_right_sizes() {
    for n in [0u64, 7, 999, 1000, 12_345, 999_999, 1_000_000, 1_234_567, u64::MAX] {
        let text = format_grouped_u64(n);
        let groups: Vec<&str> = text.split(',').collect();
        assert!((1..=3).contains(&groups[0].len()));
        assert!(groups[1..].iter().all(|g| g.len() == 3));
        assert!(groups.iter().all(|g| g.chars().all(|c| c.is_ascii_digit())));
    }
}
