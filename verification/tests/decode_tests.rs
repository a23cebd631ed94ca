use ledger::decode::{DecodeError, TagKind, decode_record, parse_amount, parse_tag};
use ledger::snapshot::money_to_text;
use ledger::tx::TxType;

#[test]
fn tags_recognized_case_insensitively() {
    assert_eq!(parse_tag(b"deposit"), Some(TagKind::Deposit));
    assert_eq!(parse_tag(b"DePoSiT"), Some(TagKind::Deposit));
    assert_eq!(parse_tag(b"WITHDRAWAL"), Some(TagKind::Withdrawal));
    assert_eq!(parse_tag(b"dispute"), Some(TagKind::Dispute));
    assert_eq!(parse_tag(b"Resolve"), Some(TagKind::Resolve));
    assert_eq!(parse_tag(b"chargeback"), Some(TagKind::Chargeback));
    assert_eq!(parse_tag(b"transfer"), None);
    assert_eq!(parse_tag(b"deposits"), None);
    assert_eq!(parse_tag(b""), None);
}

#[test]
fn amounts_scale_by_truncation() {
    assert_eq!(parse_amount(b"10"), Some(10_000));
    assert_eq!(parse_amount(b"10.0"), Some(10_000));
    assert_eq!(parse_amount(b"1.5"), Some(1_500));
    assert_eq!(parse_amount(b"0.001"), Some(1));
    // Digits past the third fractional place are truncated, not rounded.
    assert_eq!(parse_amount(b"0.1239"), Some(123));
    assert_eq!(parse_amount(b"2.9999"), Some(2_999));
    assert_eq!(parse_amount(b".5"), Some(500));
    assert_eq!(parse_amount(b"3."), Some(3_000));
    assert_eq!(parse_amount(b"-2.5"), Some(-2_500));
    assert_eq!(parse_amount(b"0"), Some(0));
}

#[test]
fn malformed_amounts_rejected() {
    assert_eq!(parse_amount(b""), None);
    assert_eq!(parse_amount(b"-"), None);
    assert_eq!(parse_amount(b"."), None);
    assert_eq!(parse_amount(b"-."), None);
    assert_eq!(parse_amount(b"1.2.3"), None);
    assert_eq!(parse_amount(b"12a"), None);
    assert_eq!(parse_amount(b"1.2x"), None);
    assert_eq!(parse_amount(b"1e5"), None);
    // Out of the fixed-point range.
    assert_eq!(parse_amount(b"99999999999"), None);
    assert_eq!(parse_amount(b"2147483.648"), None);
    assert_eq!(parse_amount(b"2147483.647"), Some(i32::MAX));
    assert_eq!(parse_amount(b"-2147483.648"), Some(i32::MIN));
    assert_eq!(parse_amount(b"-2147483.649"), None);
}

#[test]
fn deposit_record_decodes_with_amount() {
    let tx = decode_record(b"deposit", 7, 42, Some(b"1.25")).unwrap();
    assert_eq!(tx.client_id, 7);
    assert_eq!(tx.tx_id, 42);
    assert_eq!(tx.tx_type, TxType::Deposit(1_250));
    assert!(!tx.disputed);
}

#[test]
fn withdrawal_record_decodes_with_amount() {
    let tx = decode_record(b"withdrawal", 3, 9, Some(b"0.75")).unwrap();
    assert_eq!(tx.tx_type, TxType::Withdrawal(750));
}

#[test]
fn missing_amount_is_fatal_for_money_moving_records() {
    assert_eq!(
        decode_record(b"deposit", 1, 1, None),
        Err(DecodeError::MissingAmount)
    );
    assert_eq!(
        decode_record(b"withdrawal", 1, 1, None),
        Err(DecodeError::MissingAmount)
    );
    assert_eq!(
        decode_record(b"deposit", 1, 1, Some(b"abc")),
        Err(DecodeError::BadAmount)
    );
}

#[test]
fn amount_on_commands_is_ignored() {
    let plain = decode_record(b"dispute", 1, 5, None).unwrap();
    let with_amount = decode_record(b"dispute", 1, 5, Some(b"3.0")).unwrap();
    let with_garbage = decode_record(b"dispute", 1, 5, Some(b"not-a-number")).unwrap();
    assert_eq!(plain, with_amount);
    assert_eq!(plain, with_garbage);
    assert_eq!(plain.tx_type, TxType::Dispute);
    assert!(decode_record(b"resolve", 1, 5, Some(b"xyz")).is_ok());
    assert!(decode_record(b"chargeback", 1, 5, Some(b"xyz")).is_ok());
}

#[test]
fn unknown_tag_is_fatal() {
    assert_eq!(
        decode_record(b"transfer", 1, 1, Some(b"1.0")),
        Err(DecodeError::UnknownTxType)
    );
}

#[test]
fn money_renders_at_three_digits() {
    assert_eq!(money_to_text(9_000), b"9.000".to_vec());
    assert_eq!(money_to_text(0), b"0.000".to_vec());
    assert_eq!(money_to_text(-1_500), b"-1.500".to_vec());
    assert_eq!(money_to_text(123_456), b"123.456".to_vec());
    assert_eq!(money_to_text(1), b"0.001".to_vec());
    assert_eq!(money_to_text(-1), b"-0.001".to_vec());
    assert_eq!(money_to_text(1_000_000_000), b"1000000.000".to_vec());
}

#[test]
fn round_trip_text_to_money_to_text() {
    let v = parse_amount(b"12.345").unwrap();
    assert_eq!(money_to_text(v as i64), b"12.345".to_vec());
}
