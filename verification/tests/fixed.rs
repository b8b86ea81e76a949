use reserve::fixed::{muldiv, ONE};
use reserve::pricing::ten_to_the;
use reserve::{ErrorCode, Pubkey};

#[test]
fn one_is_ten_to_the_ninth() {
    assert_eq!(ONE, 1_000_000_000);
}

#[test]
fn muldiv_floors_the_quotient() {
    assert_eq!(muldiv(7, 3, 2), Ok(10));
    assert_eq!(muldiv(1, 1, 3), Ok(0));
    assert_eq!(muldiv(2, 1, 3), Ok(0));
    assert_eq!(muldiv(3, 1, 3), Ok(1));
    assert_eq!(muldiv(ONE, ONE, ONE), Ok(ONE));
}

#[test]
fn muldiv_by_one_is_the_identity() {
    assert_eq!(muldiv(123_456_789, ONE, ONE), Ok(123_456_789));
    assert_eq!(muldiv(u64::MAX, 17, 17), Ok(u64::MAX));
}

#[test]
fn muldiv_of_zero_is_zero() {
    assert_eq!(muldiv(0, u64::MAX, 1), Ok(0));
    assert_eq!(muldiv(u64::MAX, 0, 1), Ok(0));
}

#[test]
fn muldiv_uses_a_wide_product() {
    assert_eq!(muldiv(u64::MAX, u64::MAX, u64::MAX), Ok(u64::MAX));
    assert_eq!(muldiv(u64::MAX, ONE, ONE), Ok(u64::MAX));
    assert_eq!(muldiv(1 << 63, 4, 8), Ok(1 << 62));
}

#[test]
fn muldiv_reports_a_quotient_that_does_not_fit() {
    assert_eq!(muldiv(u64::MAX, 2, 1), Err(ErrorCode::Overflow));
    assert_eq!(muldiv(u64::MAX, ONE + 1, ONE), Err(ErrorCode::Overflow));
    assert_eq!(muldiv(1 << 63, 2, 1), Err(ErrorCode::Overflow));
    assert_eq!(muldiv((1 << 63) - 1, 2, 1), Ok(u64::MAX - 1));
}

#[test]
fn muldiv_by_zero_is_overflow() {
    assert_eq!(muldiv(1, 1, 0), Err(ErrorCode::Overflow));
    assert_eq!(muldiv(0, 0, 0), Err(ErrorCode::Overflow));
}

#[test]
fn ten_to_the_covers_every_power_that_fits() {
    assert_eq!(ten_to_the(0), Some(1));
    assert_eq!(ten_to_the(1), Some(10));
    assert_eq!(ten_to_the(9), Some(ONE));
    assert_eq!(ten_to_the(19), Some(10_000_000_000_000_000_000));
    assert_eq!(ten_to_the(20), None);
    assert_eq!(ten_to_the(255), None);
}

#[test]
fn default_pubkey_is_all_zero() {
    assert_eq!(Pubkey::default().to_bytes(), [0u8; 32]);
    assert_eq!(Pubkey::default(), Pubkey::new_from_array([0u8; 32]));
}

#[test]
fn pubkeys_compare_by_every_byte() {
    let mut bytes = [5u8; 32];
    let a = Pubkey::new_from_array(bytes);
    assert_eq!(a, Pubkey::new_from_array([5u8; 32]));
    bytes[31] = 6;
    assert_ne!(a, Pubkey::new_from_array(bytes));
    bytes[31] = 5;
    bytes[0] = 0;
    assert_ne!(a, Pubkey::new_from_array(bytes));
    assert_eq!(a.to_bytes(), [5u8; 32]);
}

#[test]
fn every_error_has_its_text() {
    assert_eq!(ErrorCode::Unknown.message(), "unknown error");
    assert_eq!(ErrorCode::Unauthorized.message(), "unauthorized");
    assert_eq!(ErrorCode::Overflow.message(), "overflow");
    assert_eq!(ErrorCode::InvalidParameter.message(), "invalid parameter");
    assert_eq!(ErrorCode::BondNotConfigured.message(), "bond not configured");
    assert_eq!(ErrorCode::BondAtMaxDebt.message(), "bond at max debt");
    assert_eq!(ErrorCode::BondPayoutTooSmall.message(), "bond payout too small");
    assert_eq!(ErrorCode::BondPayoutTooBig.message(), "bond payout too big");
    assert_eq!(ErrorCode::BondPriceSlipped.message(), "bond price slipped");
    assert_eq!(ErrorCode::UserNoSpaceForMoreBonds.message(), "no space for more bonds");
}
