use keystone_xdtl::{
    AccountId, Amount, AssetId, Bps, CollateralPolicy, EngineConfig, Epoch, KeystoneEngine,
    KeystoneError, LoanState, LoanTerms, LoanTermsInput, ProtocolPolicy, RiskTier, Schedule,
    Shares, Vault, VaultId, VaultRole,
};

fn terms_input(lender: &str, borrower: &str, principal: u64, collateral: u64) -> LoanTermsInput {
    let asset = AssetId::native();
    LoanTermsInput {
        network_id: 1,
        lender: VaultId::named(lender, asset),
        borrower: VaultId::named(borrower, asset),
        principal: Amount(principal),
        collateral: Amount(collateral),
        annual_rate_bps: Bps::strict(1_000).unwrap(),
        schedule: Schedule::new(Epoch(0), 30, 1, 360).unwrap(),
        policy_digest: ProtocolPolicy::default_prime().unwrap().digest().unwrap(),
        nonce: 1,
    }
}

#[test]
fn loan_terms_reject_bad_inputs() {
    assert_eq!(LoanTerms::new(terms_input("a", "a", 10, 10)), Err(KeystoneError::SelfLoan));
    assert_eq!(LoanTerms::new(terms_input("a", "b", 0, 10)), Err(KeystoneError::ZeroAmount));
    assert_eq!(
        LoanTerms::new(terms_input("a", "b", 10, 0)),
        Err(KeystoneError::InvalidCollateral)
    );
}

#[test]
fn opening_checks_tier_collateral_and_size() {
    let restricted = CollateralPolicy::for_tier(RiskTier::Restricted).unwrap();
    assert_eq!(
        restricted.check_opening(Amount(100), Amount(1_000), Amount(10_000)),
        Err(KeystoneError::RiskTierBlocked)
    );
    let prime = CollateralPolicy::for_tier(RiskTier::Prime).unwrap();
    assert_eq!(
        prime.check_opening(Amount(10_000), Amount(11_000), Amount(1_000_000)),
        Err(KeystoneError::InsufficientCollateral)
    );
    assert_eq!(
        prime.check_opening(Amount(10_000), Amount(20_000), Amount(100)),
        Err(KeystoneError::LimitExceeded)
    );
    prime
        .check_opening(Amount(10_000), Amount(11_800), Amount(1_000_000))
        .unwrap();
}

#[test]
fn vault_cash_and_collateral_errors() {
    let asset = AssetId::native();
    let mut borrower = Vault::new(VaultId::named("b", asset), "B", asset, VaultRole::Borrower);
    borrower.force_cash_credit(Amount(100)).unwrap();
    assert_eq!(borrower.force_cash_debit(Amount(101)), Err(KeystoneError::InsufficientCash));
    assert_eq!(
        borrower.lock_collateral(Amount(101)),
        Err(KeystoneError::InsufficientCollateral)
    );
    let mut lender = Vault::new(VaultId::named("l", asset), "L", asset, VaultRole::Liquidity);
    lender.force_cash_credit(Amount(100)).unwrap();
    assert_eq!(lender.lock_collateral(Amount(10)), Err(KeystoneError::VaultRoleMismatch));
}

#[test]
fn redemption_beyond_cash_is_refused() {
    let asset = AssetId::native();
    let owner = AccountId::named("owner");
    let mut vault = Vault::new(VaultId::named("h", asset), "H", asset, VaultRole::Hybrid);
    vault.deposit(owner, Amount(1_000)).unwrap();
    vault.lock_collateral(Amount(900)).unwrap();
    assert_eq!(vault.net_asset_value().unwrap(), Amount(1_000));
    assert_eq!(vault.redeem(owner, Shares(500)), Err(KeystoneError::RedemptionTooLarge));
    assert_eq!(vault.cash(), Amount(100));
}

#[test]
fn partial_repayment_beyond_principal_is_refused() {
    let terms = LoanTerms::new(terms_input("lender", "borrower", 10_000, 12_000)).unwrap();
    let loan = LoanState::activate(terms, Amount(100)).unwrap();
    let policy = CollateralPolicy::for_tier(RiskTier::Prime).unwrap();
    assert_eq!(
        loan.quote_partial_repayment(Epoch(5), Amount(10_001), 360, policy),
        Err(KeystoneError::RepaymentTooLarge)
    );
    assert_eq!(
        loan.quote_partial_repayment(Epoch(5), Amount(0), 360, policy),
        Err(KeystoneError::ZeroAmount)
    );
}

#[test]
fn engine_refuses_mismatched_assets_and_reports_broken_ledgers() {
    let asset = AssetId::native();
    let mut engine = KeystoneEngine::new(EngineConfig::local(asset).unwrap()).unwrap();
    let lender = engine.register_vault("lender", VaultRole::Liquidity).unwrap();
    let borrower = engine.register_vault("borrower", VaultRole::Borrower).unwrap();
    engine.deposit(lender, AccountId::named("lp"), Amount(100_000)).unwrap();
    engine.deposit(borrower, AccountId::named("ops"), Amount(50_000)).unwrap();
    assert_eq!(
        engine.open_loan(borrower, lender, Amount(1_000), Amount(2_000), 30),
        Err(KeystoneError::VaultRoleMismatch)
    );
    engine.vault_mut(lender).unwrap().asset = AssetId::named("OTHER");
    assert_eq!(
        engine.open_loan(lender, borrower, Amount(1_000), Amount(2_000), 30),
        Err(KeystoneError::AssetMismatch)
    );
    engine.vault_mut(lender).unwrap().asset = asset;
    engine.vault_mut(lender).unwrap().outstanding_principal = Amount(5);
    assert!(matches!(engine.verify_invariants(), Err(KeystoneError::Invariant(_))));
}

#[test]
fn configuration_and_serialization_messages() {
    assert_eq!(
        KeystoneError::configuration("bad").message(),
        "configuration error: bad"
    );
    assert_eq!(
        KeystoneError::serialization("oops").message(),
        "serialization error: oops"
    );
    assert_eq!(
        KeystoneError::RedemptionTooLarge.message(),
        "redemption exceeds available cash"
    );
}
