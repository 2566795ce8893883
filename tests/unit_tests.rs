use casperflow::amount::Amount;
use casperflow::errors::Error;
use casperflow::principal::Principal;
use casperflow::remittance::{Contribution, Remittance};
use casperflow::utils::{
    calculate_fee, is_blank_text, validate_account_hash, validate_non_zero_amount,
    validate_purpose, validate_string_length,
};

fn mock_account_hash() -> Principal {
    Principal::new([1u8; 32])
}

fn amt(v: u64) -> Amount {
    Amount::from_u64(v)
}

#[test]
fn test_remittance_creation() {
    let creator = mock_account_hash();
    let recipient = Principal::new([2u8; 32]);
    let target = amt(1000);

    let remittance = Remittance::new(
        1,
        creator,
        recipient,
        target,
        "Test remittance".to_string(),
        1234567890,
    );

    assert_eq!(remittance.id, 1);
    assert_eq!(remittance.creator, creator);
    assert_eq!(remittance.recipient, recipient);
    assert_eq!(remittance.target_amount, target);
    assert_eq!(remittance.current_amount, Amount::zero());
    assert!(remittance.is_active());
    assert!(!remittance.is_target_met());
}

#[test]
fn test_progress_calculation() {
    let remittance = Remittance {
        id: 1,
        creator: mock_account_hash(),
        recipient: mock_account_hash(),
        target_amount: amt(1000),
        current_amount: amt(500),
        purpose: "Test".to_string(),
        created_at: 0,
        is_released: false,
        is_cancelled: false,
    };

    assert_eq!(remittance.progress_percentage(), 50);
    assert_eq!(remittance.remaining_amount(), amt(500));
}

#[test]
fn test_target_met() {
    let mut remittance = Remittance::new(
        1,
        mock_account_hash(),
        mock_account_hash(),
        amt(1000),
        "Test".to_string(),
        0,
    );

    assert!(!remittance.is_target_met());

    remittance.current_amount = amt(1000);
    assert!(remittance.is_target_met());

    remittance.current_amount = amt(1500);
    assert!(remittance.is_target_met());
}

#[test]
fn test_validate_account_hash() {
    let zero_account = Principal::new([0u8; 32]);
    assert!(validate_account_hash(&zero_account).is_err());

    let valid_account = Principal::new([1u8; 32]);
    assert!(validate_account_hash(&valid_account).is_ok());
}

#[test]
fn test_validate_non_zero_amount() {
    assert!(validate_non_zero_amount(&Amount::zero()).is_err());
    assert!(validate_non_zero_amount(&amt(1)).is_ok());
    assert!(validate_non_zero_amount(&amt(1000)).is_ok());
}

#[test]
fn test_validate_string_length() {
    let short_string = "Hello";
    assert!(validate_string_length(short_string, 10).is_ok());

    let long_string = "a".repeat(300);
    assert!(validate_string_length(&long_string, 256).is_err());
}

#[test]
fn test_calculate_fee() {
    // 0.5% fee (50 bps)
    let amount = amt(10000);
    let fee = calculate_fee(&amount, 50).unwrap();
    assert_eq!(fee, amt(50));

    // 1% fee (100 bps)
    let amount = amt(10000);
    let fee = calculate_fee(&amount, 100).unwrap();
    assert_eq!(fee, amt(100));

    // 5% fee (500 bps)
    let amount = amt(10000);
    let fee = calculate_fee(&amount, 500).unwrap();
    assert_eq!(fee, amt(500));

    // a large amount
    let amount = amt(1_000_000_000u64);
    let fee = calculate_fee(&amount, 50).unwrap();
    assert_eq!(fee, amt(5_000_000u64));
}

#[test]
fn test_zero_fee() {
    let amount = amt(10000);
    let fee = calculate_fee(&amount, 0).unwrap();
    assert_eq!(fee, Amount::zero());
}

fn max_amount() -> Amount {
    Amount { words: [u64::MAX; 8] }
}

#[test]
fn fee_rounds_down() {
    assert_eq!(calculate_fee(&amt(199), 50).unwrap(), amt(0));
    assert_eq!(calculate_fee(&amt(12345), 77).unwrap(), amt(95));
}

#[test]
fn fee_overflow_is_reported() {
    assert_eq!(calculate_fee(&max_amount(), 2), Err(Error::ArithmeticOverflow));
    let expected = Amount {
        words: [
            0x77318fc504816f00,
            0xae7d566cf41f212d,
            0xa858793dd97f62b6,
            0xfe5c91d14e3bcd35,
            0x4a2339c0ebedfa43,
            0x25460aa64c2f837b,
            0x295e9e1b089a0275,
            0x00068db8bac710cb,
        ],
    };
    assert_eq!(calculate_fee(&max_amount(), 1).unwrap(), expected);
}

#[test]
fn amount_arithmetic_crosses_words() {
    let a = Amount { words: [u64::MAX, 0, 0, 0, 0, 0, 0, 0] };
    let s = a.checked_add(amt(1)).unwrap();
    assert_eq!(s, Amount { words: [0, 1, 0, 0, 0, 0, 0, 0] });
    assert_eq!(s.checked_sub(amt(1)).unwrap(), a);
    assert_eq!(amt(1).checked_sub(amt(2)), None);
    assert_eq!(max_amount().checked_add(amt(1)), None);
    let p = a.checked_mul(amt(2)).unwrap();
    assert_eq!(p, Amount { words: [u64::MAX - 1, 1, 0, 0, 0, 0, 0, 0] });
    assert_eq!(p.checked_div(amt(2)).unwrap(), a);
    assert_eq!(amt(7).checked_div(Amount::zero()), None);
    assert!(s.ge(&a));
    assert!(!a.ge(&s));
    assert!(amt(5).ge(&amt(5)));
    assert!(!s.is_zero());
    assert!(Amount::zero().is_zero());
}

#[test]
fn progress_is_capped_and_exact_for_huge_amounts() {
    let mut r = Remittance::new(1, mock_account_hash(), mock_account_hash(), amt(3), "x".to_string(), 0);
    assert_eq!(r.progress_percentage(), 0);
    r.current_amount = amt(1);
    assert_eq!(r.progress_percentage(), 33);
    r.current_amount = amt(7);
    assert_eq!(r.progress_percentage(), 100);
    assert_eq!(r.remaining_amount(), Amount::zero());
    // amounts beyond 64 bits
    let big = Amount { words: [0, 0, 0, 0, 0, 0, 0, 1 << 62] };
    let quarter = Amount { words: [0, 0, 0, 0, 0, 0, 0, 1 << 60] };
    r.target_amount = big;
    r.current_amount = quarter;
    assert_eq!(r.progress_percentage(), 25);
    r.target_amount = Amount::zero();
    assert_eq!(r.progress_percentage(), 100);
}

#[test]
fn purpose_rules() {
    assert!(validate_purpose("Rent for March").is_ok());
    assert_eq!(validate_purpose(""), Err(Error::PurposeMaxLength));
    assert_eq!(validate_purpose(" \t\n "), Err(Error::PurposeMaxLength));
    assert!(validate_purpose(&"a".repeat(256)).is_ok());
    assert_eq!(validate_purpose(&"a".repeat(257)), Err(Error::PurposeMaxLength));
    // 129 two-byte characters are 258 bytes
    assert_eq!(validate_purpose(&"é".repeat(129)), Err(Error::PurposeMaxLength));
    assert!(is_blank_text("\u{2003}"));
    assert!(!is_blank_text(" a "));
}

#[test]
fn contribution_record_keeps_its_fields() {
    let c = Contribution::new(mock_account_hash(), amt(10), 42);
    assert_eq!(c.contributor, mock_account_hash());
    assert_eq!(c.amount, amt(10));
    assert_eq!(c.timestamp, 42);
}

#[test]
fn principals_compare_by_bytes() {
    let mut b = [1u8; 32];
    assert_eq!(Principal::new(b), mock_account_hash());
    b[31] = 2;
    assert_ne!(Principal::new(b), mock_account_hash());
    assert!(Principal::new([0u8; 32]).is_zero());
    assert!(!Principal::new(b).is_zero());
}

#[test]
fn error_codes() {
    assert_eq!(Error::RemittanceNotFound.code(), 1);
    assert_eq!(Error::InvalidContributionAmount.code(), 5);
    assert_eq!(Error::MissingArgument.code(), 20);
}
