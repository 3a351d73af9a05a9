use keystone_xdtl::amount::{amount_for_shares, checked_ratio_bps, shares_for_deposit, split_by_shares};
use keystone_xdtl::{Amount, Bps, Decimal, KeystoneError, Shares};

#[test]
fn basis_points_round_floor_and_ceil() {
    let rate = Bps::strict(333).unwrap();
    assert_eq!(rate.apply_floor(Amount(1000)).unwrap(), Amount(33));
    assert_eq!(rate.apply_ceil(Amount(1000)).unwrap(), Amount(34));
}

#[test]
fn share_conversion_uses_current_nav() {
    let minted = shares_for_deposit(Amount(500), Amount(1_000), Shares(1_000)).unwrap();
    assert_eq!(minted, Shares(500));
    let amount = amount_for_shares(Shares(250), Amount(1_500), Shares(1_500)).unwrap();
    assert_eq!(amount, Amount(250));
}

#[test]
fn annualized_interest_is_linear_by_epoch() {
    let interest =
        Bps::annualized_for_epochs(Bps::strict(1_200).unwrap(), Amount(10_000), 30, 360).unwrap();
    assert_eq!(interest, Amount(100));
}

#[test]
fn strict_bps_rejects_more_than_whole() {
    assert_eq!(Bps::strict(10_000).unwrap(), Bps(10_000));
    assert_eq!(Bps::strict(10_001), Err(KeystoneError::InvalidBps(10_001)));
}

#[test]
fn amount_arithmetic_reports_overflow_and_underflow() {
    assert_eq!(Amount(u64::MAX).checked_add(Amount(1)), Err(KeystoneError::AmountOverflow));
    assert_eq!(Amount(3).checked_sub(Amount(4)), Err(KeystoneError::AmountUnderflow));
    assert_eq!(Amount(10).checked_div_u64(0), Err(KeystoneError::DivisionByZero));
    assert_eq!(Amount(7).ceil_div(2).unwrap(), Amount(4));
    assert_eq!(Amount(3).saturating_sub(Amount(5)), Amount(0));
}

#[test]
fn checked_sum_adds_or_overflows() {
    assert_eq!(Amount::checked_sum(&[Amount(1), Amount(2), Amount(3)]).unwrap(), Amount(6));
    assert_eq!(Amount::checked_sum(&[]).unwrap(), Amount(0));
    assert_eq!(
        Amount::checked_sum(&[Amount(u64::MAX), Amount(1)]),
        Err(KeystoneError::AmountOverflow)
    );
}

#[test]
fn first_deposit_mints_one_share_per_unit() {
    assert_eq!(shares_for_deposit(Amount(700), Amount(0), Shares(0)).unwrap(), Shares(700));
}

#[test]
fn split_and_ratio_round_down() {
    assert_eq!(split_by_shares(Amount(100), Shares(1), Shares(3)).unwrap(), Amount(33));
    assert_eq!(checked_ratio_bps(Amount(1), Amount(3)).unwrap(), Bps(3333));
    assert_eq!(checked_ratio_bps(Amount(1), Amount(0)), Err(KeystoneError::DivisionByZero));
}

#[test]
fn decimal_applies_with_twelve_places() {
    let half = Decimal::from_amounts(Amount(1), Amount(2)).unwrap();
    assert_eq!(half.apply_floor(Amount(101)).unwrap(), Amount(50));
    assert_eq!(half.apply_ceil(Amount(101)).unwrap(), Amount(51));
}

#[test]
fn amount_operators_add_and_subtract() {
    assert_eq!(Amount(1) + Amount(2), Amount(3));
    assert_eq!(Amount(5) - Amount(2), Amount(3));
}
