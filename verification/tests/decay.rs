use reserve::fixed::ONE;
use reserve::{Bond, ErrorCode};

fn indebted() -> Bond {
    Bond {
        vesting_period: 3600,
        max_payout: 1,
        max_debt: 500 * ONE,
        total_debt: 100 * ONE,
        total_debt_last: 1000,
        ..Bond::default()
    }
}

#[test]
fn debt_decays_in_proportion_to_time() {
    let mut bond = indebted();
    assert_eq!(bond.decay(1900), Ok(25 * ONE));
    assert_eq!(bond.total_debt, 75 * ONE);
    assert_eq!(bond.total_debt_last, 1900);
    assert_eq!(bond.max_debt, 500 * ONE);
    assert_eq!(bond.vesting_period, 3600);
}

#[test]
fn decay_rounds_down() {
    let mut bond = indebted();
    bond.total_debt = 10;
    assert_eq!(bond.decay(1000 + 3599), Ok(9));
    assert_eq!(bond.total_debt, 1);
}

#[test]
fn decay_twice_at_one_instant_changes_nothing_more() {
    let mut bond = indebted();
    bond.decay(1900).unwrap();
    let once = bond;
    assert_eq!(bond.decay(1900), Ok(0));
    assert_eq!(bond, once);
}

#[test]
fn decay_over_no_time_changes_no_debt() {
    let mut bond = indebted();
    let before = bond;
    assert_eq!(bond.decay(1000), Ok(0));
    assert_eq!(bond, before);
}

#[test]
fn debt_is_gone_after_one_vesting_period() {
    let mut bond = indebted();
    assert_eq!(bond.decay(1000 + 3600), Ok(100 * ONE));
    assert_eq!(bond.total_debt, 0);
}

#[test]
fn debt_never_falls_below_zero() {
    let mut bond = indebted();
    assert_eq!(bond.decay(1000 + 2 * 3600), Ok(200 * ONE));
    assert_eq!(bond.total_debt, 0);
    assert_eq!(bond.total_debt_last, 1000 + 2 * 3600);
}

#[test]
fn decay_that_does_not_fit_is_an_overflow() {
    let mut bond = indebted();
    bond.total_debt = u64::MAX;
    let before = bond;
    assert_eq!(bond.decay(1000 + 3601), Err(ErrorCode::Overflow));
    assert_eq!(bond, before);
    assert_eq!(bond.decay(1000 + 3600), Ok(u64::MAX));
}

#[test]
fn decay_against_the_clock_is_an_overflow() {
    let mut bond = indebted();
    let before = bond;
    assert_eq!(bond.decay(999), Err(ErrorCode::Overflow));
    assert_eq!(bond, before);
}

#[test]
fn decay_over_no_period_is_an_overflow() {
    let mut bond = indebted();
    bond.vesting_period = 0;
    let before = bond;
    assert_eq!(bond.decay(1900), Err(ErrorCode::Overflow));
    assert_eq!(bond, before);
}
