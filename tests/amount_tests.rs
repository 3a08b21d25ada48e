use krwallet::amount::{parse_amount, units_from_decimal, Amount};
use krwallet::{ProcessorError, Transaction, TransactionType};

#[test]
fn empty_amount_field_is_absent() {
    assert!(matches!(parse_amount(""), Ok(None)));
}

#[test]
fn decimal_text_becomes_ten_thousandths() {
    assert_eq!(parse_amount("1.0").unwrap(), Some(Amount::from_units(10000)));
    assert_eq!(parse_amount("2").unwrap(), Some(Amount::whole(2)));
    assert_eq!(parse_amount("1.5").unwrap(), Some(Amount::from_units(15000)));
    assert_eq!(parse_amount("0.0001").unwrap(), Some(Amount::from_units(1)));
    assert_eq!(parse_amount("-3.25").unwrap(), Some(Amount::from_units(-32500)));
}

#[test]
fn extra_places_round_half_to_even() {
    assert_eq!(parse_amount("2.00005").unwrap(), Some(Amount::from_units(20000)));
    assert_eq!(parse_amount("2.00015").unwrap(), Some(Amount::from_units(20002)));
    assert_eq!(parse_amount("2.000151").unwrap(), Some(Amount::from_units(20002)));
    assert_eq!(parse_amount("-2.00015").unwrap(), Some(Amount::from_units(-20002)));
    assert_eq!(parse_amount("0.00004").unwrap(), Some(Amount::from_units(0)));
}

#[test]
fn text_that_is_no_decimal_is_a_format_error() {
    assert!(matches!(parse_amount("abc"), Err(ProcessorError::CsvError(_))));
    assert!(matches!(parse_amount("1.2.3"), Err(ProcessorError::CsvError(_))));
}

#[test]
fn mantissa_and_scale_convert_exactly() {
    assert_eq!(units_from_decimal(15, 1), Amount::from_units(15000));
    assert_eq!(units_from_decimal(7, 0), Amount::from_units(70000));
    assert_eq!(units_from_decimal(123456, 5), Amount::from_units(12346));
    assert_eq!(units_from_decimal(125, 5), Amount::from_units(12));
    assert_eq!(units_from_decimal(-135, 5), Amount::from_units(-14));
    assert_eq!(units_from_decimal(1, 28), Amount::from_units(0));
}

#[test]
fn kind_names_ignore_ascii_case() {
    assert_eq!(TransactionType::from_name(b"deposit"), Some(TransactionType::Deposit));
    assert_eq!(TransactionType::from_name(b"Withdrawal"), Some(TransactionType::Withdrawal));
    assert_eq!(TransactionType::from_name(b"DISPUTE"), Some(TransactionType::Dispute));
    assert_eq!(TransactionType::from_name(b"resolve"), Some(TransactionType::Resolve));
    assert_eq!(TransactionType::from_name(b"ChargeBack"), Some(TransactionType::Chargeback));
    assert_eq!(TransactionType::from_name(b"deposits"), None);
    assert_eq!(TransactionType::from_name(b""), None);
    assert_eq!(TransactionType::from_name(b"transfer"), None);
}

#[test]
fn records_are_built_from_fields() {
    let tx = Transaction::from_fields(b"Deposit", 3, 17, Some("2.5")).unwrap();
    assert_eq!(tx.tx_type, TransactionType::Deposit);
    assert_eq!(tx.client, 3);
    assert_eq!(tx.id, 17);
    assert_eq!(tx.amount, Some(Amount::from_units(25000)));
    assert!(!tx.disputed);
    let tx = Transaction::from_fields(b"dispute", 3, 17, Some("")).unwrap();
    assert_eq!(tx.amount, None);
    let tx = Transaction::from_fields(b"resolve", 3, 17, None).unwrap();
    assert_eq!(tx.amount, None);
    assert!(matches!(Transaction::from_fields(b"refund", 3, 17, None), Err(ProcessorError::CsvError(_))));
    assert!(matches!(Transaction::from_fields(b"deposit", 3, 17, Some("x")), Err(ProcessorError::CsvError(_))));
}

#[test]
fn blank_amount_fields_are_absent_and_fields_are_trimmed() {
    assert!(matches!(parse_amount("   "), Ok(None)));
    assert_eq!(parse_amount(" 1.5 ").unwrap(), Some(Amount::from_units(15000)));
    let tx = Transaction::from_fields(b"dispute", 1, 2, Some("  ")).unwrap();
    assert_eq!(tx.amount, None);
}
