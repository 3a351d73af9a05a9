use keystone_xdtl::{
    Amount, AssetId, Bps, CollateralPolicy, Epoch, EpochClock, KeystoneError, LiquidationPlan,
    LoanState, LoanStatus, LoanTerms, LoanTermsInput, OracleBook, Price, ProtocolPolicy, RepaymentMode, RiskTier,
    Schedule, VaultId,
};

fn loan() -> LoanState {
    let asset = AssetId::native();
    let lender = VaultId::named("lender", asset);
    let borrower = VaultId::named("borrower", asset);
    let policy = ProtocolPolicy::default_prime().unwrap();
    let schedule = Schedule::new(Epoch(10), 90, 3, 360).unwrap();
    let terms = LoanTerms::new(LoanTermsInput {
        network_id: 42,
        lender,
        borrower,
        principal: Amount(10_000),
        collateral: Amount(12_000),
        annual_rate_bps: Bps::strict(1_200).unwrap(),
        schedule,
        policy_digest: policy.digest().unwrap(),
        nonce: 1,
    })
    .unwrap();
    LoanState::activate(terms, Amount(300)).unwrap()
}

#[test]
fn scheduled_repayment_closes_balance() {
    let mut loan = loan();
    let quote = loan.quote_scheduled_repayment().unwrap();
    loan.apply_repayment(quote).unwrap();
    assert_eq!(loan.status(), LoanStatus::Paid);
    assert_eq!(loan.remaining_principal(), Amount(0));
}

#[test]
fn partial_repayment_reduces_principal() {
    let mut loan = loan();
    let policy = CollateralPolicy::for_tier(RiskTier::Prime).unwrap();
    let quote = loan
        .quote_partial_repayment(Epoch(20), Amount(2_000), 360, policy)
        .unwrap();
    loan.apply_repayment(quote).unwrap();
    assert_eq!(loan.remaining_principal(), Amount(8_000));
}

#[test]
fn overdue_loan_can_default() {
    let mut loan = loan();
    let overdue = loan.mark_defaulted(Epoch(104)).unwrap();
    assert_eq!(overdue, 1);
    assert_eq!(loan.status(), LoanStatus::Defaulted);
}

#[test]
fn liquidation_plan_seizes_collateral_with_bonus() {
    let asset = AssetId::native();
    let policy = ProtocolPolicy::for_tier(RiskTier::Standard).unwrap();
    let terms = LoanTerms::new(LoanTermsInput {
        network_id: 1,
        lender: VaultId::named("lender", asset),
        borrower: VaultId::named("borrower", asset),
        principal: Amount(10_000),
        collateral: Amount(14_500),
        annual_rate_bps: Bps::strict(1_200).unwrap(),
        schedule: Schedule::new(Epoch(0), 30, 1, 360).unwrap(),
        policy_digest: policy.digest().unwrap(),
        nonce: 9,
    })
    .unwrap();
    let mut loan = LoanState::activate(terms, Amount(100)).unwrap();
    loan.mark_defaulted(Epoch(32)).unwrap();
    let plan = LiquidationPlan::build(&loan, policy).unwrap();
    assert!(plan.collateral_to_seize.raw() > plan.close_principal.raw());
}

#[test]
fn unit_price_converts_identity() {
    let asset = AssetId::native();
    let mut book = OracleBook::default();
    book.set_unit_price(asset, Epoch(1)).unwrap();
    assert_eq!(
        book.convert_floor(asset, asset, Amount(700), Epoch(2)).unwrap(),
        Amount(700)
    );
}

#[test]
fn collateral_policy_scales_with_principal() {
    let policy = CollateralPolicy::for_tier(RiskTier::Standard).unwrap();
    assert_eq!(
        policy.required_for_principal(Amount(10_000)).unwrap(),
        Amount(14_500)
    );
}

#[test]
fn policy_digest_is_stable_for_equal_values() {
    let first = ProtocolPolicy::default_prime().unwrap().digest().unwrap();
    let second = ProtocolPolicy::default_prime().unwrap().digest().unwrap();
    assert_eq!(first, second);
}

#[test]
fn schedule_caps_elapsed_at_maturity() {
    let schedule = Schedule::new(Epoch(10), 30, 5, 360).unwrap();
    assert_eq!(schedule.elapsed(Epoch(12)).unwrap(), 2);
    assert_eq!(schedule.elapsed(Epoch(100)).unwrap(), 30);
    assert!(schedule.is_overdue(Epoch(46)).unwrap());
}

#[test]
fn clock_advances_forward_only() {
    let mut clock = EpochClock::new(Epoch(5));
    assert_eq!(clock.advance_by(7).unwrap(), Epoch(12));
    assert!(clock.advance_to(Epoch(11)).is_err());
}

#[test]
fn loan_cannot_default_before_grace_ends() {
    let mut loan = loan();
    assert_eq!(loan.mark_defaulted(Epoch(103)), Err(KeystoneError::LoanNotDue));
    assert_eq!(loan.status(), LoanStatus::Active);
}

#[test]
fn paid_loan_cannot_default_or_be_liquidated() {
    let mut loan = loan();
    let quote = loan.quote_scheduled_repayment().unwrap();
    loan.apply_repayment(quote).unwrap();
    assert_eq!(loan.mark_defaulted(Epoch(200)), Err(KeystoneError::LoanStatusMismatch));
    let policy = ProtocolPolicy::default_prime().unwrap();
    assert_eq!(
        LiquidationPlan::build(&loan, policy),
        Err(KeystoneError::LiquidationNotAllowed)
    );
}

#[test]
fn scheduled_quote_pays_principal_and_all_interest() {
    let loan = loan();
    let quote = loan.quote_scheduled_repayment().unwrap();
    assert_eq!(quote.principal, Amount(10_000));
    assert_eq!(quote.interest, Amount(300));
    assert_eq!(quote.total().unwrap(), Amount(10_300));
}

#[test]
fn schedule_rejects_zero_tenor() {
    assert_eq!(Schedule::new(Epoch(1), 0, 1, 360), Err(KeystoneError::InvalidTenor));
    let schedule = Schedule::new(Epoch(10), 30, 5, 360).unwrap();
    assert_eq!(schedule.due_epoch().unwrap(), Epoch(45));
    assert!(!schedule.is_overdue(Epoch(45)).unwrap());
    assert_eq!(schedule.remaining(Epoch(25)).unwrap(), 15);
}

#[test]
fn stale_prices_are_refused() {
    let asset = AssetId::native();
    let mut book = OracleBook::default();
    book.set_unit_price(asset, Epoch(1)).unwrap();
    let other = AssetId::named("OTHER");
    assert_eq!(
        book.convert_floor(other, asset, Amount(1), Epoch(1)),
        Err(KeystoneError::PriceNotAvailable)
    );
    book.insert(Price::new(other, asset, 2_000_000_000, Bps(0), Epoch(1)).unwrap());
    assert_eq!(book.convert_floor(other, asset, Amount(5), Epoch(2)).unwrap(), Amount(10));
    assert_eq!(
        book.convert_floor(other, asset, Amount(5), Epoch(100)),
        Err(KeystoneError::StalePrice)
    );
    assert_eq!(
        book.convert_floor(asset, asset, Amount(1), Epoch(1_000_000)).unwrap(),
        Amount(1)
    );
}

#[test]
fn a_partial_quote_leaves_the_lender_projection() {
    let loan = loan();
    let policy = CollateralPolicy::for_tier(RiskTier::Prime).unwrap();
    let quote = loan
        .quote_partial_repayment(Epoch(20), Amount(2_000), 360, policy)
        .unwrap();
    assert_eq!(quote.mode, RepaymentMode::Partial);
    assert_eq!(quote.principal, Amount(2_000));
    assert_eq!(quote.interest, Amount(7));
    assert_eq!(quote.borrower_interest_reduction, Amount(60));
    assert_eq!(quote.lender_projection_reduction, Amount(0));
    assert_eq!(quote.collateral_release, Amount(2_400));
    assert!(!quote.closes_loan);
}

#[test]
fn an_early_quote_leaves_the_lender_projection() {
    let loan = loan();
    let quote = loan.quote_early_repayment(Epoch(40), 360).unwrap();
    assert_eq!(quote.principal, Amount(10_000));
    assert_eq!(quote.borrower_interest_reduction, Amount(300));
    assert_eq!(quote.lender_projection_reduction, Amount(0));
    assert!(quote.closes_loan);
}
