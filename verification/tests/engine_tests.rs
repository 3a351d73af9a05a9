use keystone_xdtl::{
    AccountId, Amount, AssetId, EngineConfig, Epoch, KeystoneEngine, KeystoneError, LoanStatus,
    ProtocolPolicy, RepaymentMode, RiskTier, Shares, VaultId, VaultRole,
};

fn fixture() -> KeystoneEngine {
    let asset = AssetId::native();
    let mut engine = KeystoneEngine::new(EngineConfig::local(asset).unwrap()).unwrap();
    engine
        .set_policy(ProtocolPolicy::for_tier(RiskTier::Prime).unwrap())
        .unwrap();
    let lender = engine
        .register_vault("senior-liquidity", VaultRole::Liquidity)
        .unwrap();
    let borrower = engine
        .register_vault("market-maker", VaultRole::Borrower)
        .unwrap();
    engine
        .deposit(lender, AccountId::named("lp"), Amount(100_000))
        .unwrap();
    engine
        .deposit(borrower, AccountId::named("mm"), Amount(40_000))
        .unwrap();
    engine
}

#[test]
fn open_and_repay_scheduled_loan() {
    let mut engine = fixture();
    let lender = VaultId::named("senior-liquidity", engine.asset());
    let borrower = VaultId::named("market-maker", engine.asset());
    let loan = engine
        .open_loan(lender, borrower, Amount(20_000), Amount(24_000), 90)
        .unwrap();
    engine.advance_by(90).unwrap();
    let quote = engine
        .repay_loan(loan, RepaymentMode::Scheduled, None)
        .unwrap();
    assert_eq!(quote.principal, Amount(20_000));
    assert_eq!(engine.loan(loan).unwrap().status(), LoanStatus::Paid);
    engine.verify_invariants().unwrap();
}

#[test]
fn default_and_liquidation_close_part_of_debt() {
    let mut engine = fixture();
    let lender = VaultId::named("senior-liquidity", engine.asset());
    let borrower = VaultId::named("market-maker", engine.asset());
    let loan = engine
        .open_loan(lender, borrower, Amount(20_000), Amount(24_000), 30)
        .unwrap();
    engine.advance_by(35).unwrap();
    engine.mark_default(loan).unwrap();
    let result = engine.liquidate(loan).unwrap();
    assert!(!result.seized.is_zero());
    engine.verify_invariants().unwrap();
}

#[test]
fn local_engine_starts_at_epoch_one_with_one_event() {
    let engine = KeystoneEngine::new(EngineConfig::local(AssetId::native()).unwrap()).unwrap();
    assert_eq!(engine.network_id(), 8_812);
    assert_eq!(engine.epoch(), Epoch(1));
    assert_eq!(engine.vault_count(), 0);
    assert_eq!(engine.loan_count(), 0);
    assert_eq!(engine.journal().len(), 1);
    engine.verify_invariants().unwrap();
}

#[test]
fn registering_a_vault_twice_is_refused() {
    let mut engine = fixture();
    assert_eq!(
        engine.register_vault("senior-liquidity", VaultRole::Hybrid),
        Err(KeystoneError::VaultAlreadyExists)
    );
    assert_eq!(engine.vault_count(), 2);
}

#[test]
fn a_vault_cannot_lend_to_itself() {
    let mut engine = fixture();
    let lender = VaultId::named("senior-liquidity", engine.asset());
    assert_eq!(
        engine.open_loan(lender, lender, Amount(1_000), Amount(2_000), 30),
        Err(KeystoneError::SelfLoan)
    );
}

#[test]
fn unknown_vaults_and_loans_are_reported() {
    let mut engine = fixture();
    let ghost = VaultId::named("nowhere", engine.asset());
    assert_eq!(
        engine.deposit(ghost, AccountId::named("lp"), Amount(10)),
        Err(KeystoneError::VaultNotFound)
    );
    let lender = VaultId::named("senior-liquidity", engine.asset());
    let borrower = VaultId::named("market-maker", engine.asset());
    let loan = engine
        .open_loan(lender, borrower, Amount(20_000), Amount(24_000), 90)
        .unwrap();
    engine.advance_by(90).unwrap();
    engine.repay_loan(loan, RepaymentMode::Scheduled, None).unwrap();
    let other = keystone_xdtl::LoanId::derive(lender, borrower, 99, 1, 1);
    assert!(matches!(engine.loan(other), Err(KeystoneError::LoanNotFound)));
}

#[test]
fn a_loan_cannot_default_before_maturity_and_grace() {
    let mut engine = fixture();
    let lender = VaultId::named("senior-liquidity", engine.asset());
    let borrower = VaultId::named("market-maker", engine.asset());
    let loan = engine
        .open_loan(lender, borrower, Amount(20_000), Amount(24_000), 30)
        .unwrap();
    engine.advance_by(30).unwrap();
    assert_eq!(engine.mark_default(loan), Err(KeystoneError::LoanNotDue));
    assert_eq!(engine.liquidate(loan), Err(KeystoneError::LiquidationNotAllowed));
}

#[test]
fn every_operation_keeps_the_ledger_balanced() {
    let mut engine = fixture();
    let lender = VaultId::named("senior-liquidity", engine.asset());
    let borrower = VaultId::named("market-maker", engine.asset());
    engine.verify_invariants().unwrap();
    let first = engine
        .open_loan(lender, borrower, Amount(20_000), Amount(24_000), 90)
        .unwrap();
    engine.verify_invariants().unwrap();
    let second = engine
        .open_loan(lender, borrower, Amount(5_000), Amount(6_000), 30)
        .unwrap();
    engine.verify_invariants().unwrap();
    engine.advance_by(10).unwrap();
    engine
        .repay_loan(first, RepaymentMode::Partial, Some(Amount(4_000)))
        .unwrap();
    engine.verify_invariants().unwrap();
    engine.advance_by(30).unwrap();
    engine.mark_default(second).unwrap();
    engine.verify_invariants().unwrap();
    engine.liquidate(second).unwrap();
    engine.verify_invariants().unwrap();
    engine.advance_by(50).unwrap();
    engine.repay_loan(first, RepaymentMode::Scheduled, None).unwrap();
    engine.verify_invariants().unwrap();
    engine.distribute_interest(lender).unwrap();
    engine.verify_invariants().unwrap();
    engine
        .redeem(lender, AccountId::named("lp"), Shares(1_000))
        .unwrap();
    engine.verify_invariants().unwrap();
    assert_eq!(engine.loan(first).unwrap().status(), LoanStatus::Paid);
    assert_eq!(engine.loan(second).unwrap().status(), LoanStatus::Defaulted);
    assert_eq!(engine.active_loan_count(), 1);
}

#[test]
fn journal_replays_to_its_digest_after_operations() {
    let mut engine = fixture();
    let lender = VaultId::named("senior-liquidity", engine.asset());
    let borrower = VaultId::named("market-maker", engine.asset());
    let loan = engine
        .open_loan(lender, borrower, Amount(20_000), Amount(24_000), 90)
        .unwrap();
    engine.advance_by(90).unwrap();
    engine.repay_loan(loan, RepaymentMode::Scheduled, None).unwrap();
    engine.push_invariant_event().unwrap();
    let journal = engine.journal();
    assert_eq!(
        journal.replay_digest(engine.network_id(), Epoch(1)).unwrap(),
        journal.digest()
    );
    let events = journal.by_loan(loan);
    assert_eq!(events.len(), 3);
    assert!(matches!(events[0].kind, keystone_xdtl::EventKind::LoanOpened { .. }));
    assert!(matches!(events[1].kind, keystone_xdtl::EventKind::LoanRepaid { .. }));
    assert!(matches!(events[2].kind, keystone_xdtl::EventKind::CollateralReleased { .. }));
}

#[test]
fn state_digest_is_stable_and_changes_with_state() {
    let mut engine = fixture();
    let first = engine.state_digest().unwrap();
    assert_eq!(first, engine.state_digest().unwrap());
    engine.advance_by(1).unwrap();
    assert_ne!(first, engine.state_digest().unwrap());
}

#[test]
fn clock_moves_forward_only_in_the_engine() {
    let mut engine = fixture();
    engine.advance_epoch(Epoch(10)).unwrap();
    assert_eq!(engine.epoch(), Epoch(10));
    assert_eq!(engine.advance_epoch(Epoch(9)), Err(KeystoneError::InvalidEpoch));
    assert_eq!(engine.epoch(), Epoch(10));
}

#[test]
fn vault_mut_writes_through_to_the_engine() {
    let mut engine = fixture();
    let lender = VaultId::named("senior-liquidity", engine.asset());
    engine.vault_mut(lender).unwrap().pause();
    assert_eq!(
        engine.deposit(lender, AccountId::named("lp"), Amount(10)),
        Err(KeystoneError::VaultPaused)
    );
    assert!(engine.vault(lender).unwrap().is_paused());
}

#[test]
fn snapshot_lists_vaults_and_loans() {
    let mut engine = fixture();
    let lender = VaultId::named("senior-liquidity", engine.asset());
    let borrower = VaultId::named("market-maker", engine.asset());
    engine
        .open_loan(lender, borrower, Amount(20_000), Amount(24_000), 90)
        .unwrap();
    let snapshot = engine.snapshot().unwrap();
    assert_eq!(snapshot.vaults.len(), 2);
    assert_eq!(snapshot.loans.len(), 1);
    assert_eq!(snapshot.network_id, 8_812);
    assert_eq!(snapshot.loans[0].principal, Amount(20_000));
}

fn total_value(engine: &KeystoneEngine) -> u64 {
    let mut total = 0u64;
    for id in engine.vault_ids() {
        total += engine.vault(id).unwrap().net_asset_value().unwrap().0;
    }
    total
}

fn total_holdings(engine: &KeystoneEngine) -> u64 {
    let mut total = 0u64;
    for id in engine.vault_ids() {
        let vault = engine.vault(id).unwrap();
        total += vault.cash().0 + vault.locked_collateral().0;
    }
    total
}

#[test]
fn a_refused_opening_leaves_the_engine_unchanged() {
    let mut engine = fixture();
    let lender = VaultId::named("senior-liquidity", engine.asset());
    let borrower = VaultId::named("market-maker", engine.asset());
    let events = engine.journal().len();
    assert_eq!(
        engine.open_loan(lender, borrower, Amount(0), Amount(5_000), 90),
        Err(KeystoneError::ZeroAmount)
    );
    assert_eq!(engine.vault(borrower).unwrap().cash(), Amount(40_000));
    assert_eq!(engine.vault(borrower).unwrap().locked_collateral(), Amount(0));
    assert_eq!(engine.vault(lender).unwrap().cash(), Amount(100_000));
    assert_eq!(engine.loan_count(), 0);
    assert_eq!(engine.journal().len(), events);
    engine.verify_invariants().unwrap();
}

#[test]
fn a_refused_repayment_leaves_the_engine_unchanged() {
    let mut engine = fixture();
    let lender = VaultId::named("senior-liquidity", engine.asset());
    let borrower = VaultId::named("market-maker", engine.asset());
    let loan = engine
        .open_loan(lender, borrower, Amount(20_000), Amount(24_000), 90)
        .unwrap();
    engine.advance_by(1).unwrap();
    engine
        .repay_loan(loan, RepaymentMode::Partial, Some(Amount(10_000)))
        .unwrap();
    engine.advance_by(89).unwrap();
    let borrower_cash = engine.vault(borrower).unwrap().cash();
    let lender_cash = engine.vault(lender).unwrap().cash();
    let locked = engine.vault(borrower).unwrap().locked_collateral();
    let events = engine.journal().len();
    assert_eq!(
        engine.repay_loan(loan, RepaymentMode::Early, None),
        Err(KeystoneError::RepaymentTooLarge)
    );
    assert_eq!(engine.vault(borrower).unwrap().cash(), borrower_cash);
    assert_eq!(engine.vault(lender).unwrap().cash(), lender_cash);
    assert_eq!(engine.vault(borrower).unwrap().locked_collateral(), locked);
    assert_eq!(engine.loan(loan).unwrap().remaining_principal(), Amount(10_000));
    assert_eq!(engine.journal().len(), events);
    engine.verify_invariants().unwrap();
}

#[test]
fn the_books_agree_on_principal_after_operations() {
    let mut engine = fixture();
    let lender = VaultId::named("senior-liquidity", engine.asset());
    let borrower = VaultId::named("market-maker", engine.asset());
    let first = engine
        .open_loan(lender, borrower, Amount(20_000), Amount(24_000), 90)
        .unwrap();
    engine
        .open_loan(lender, borrower, Amount(5_000), Amount(6_000), 30)
        .unwrap();
    engine.advance_by(10).unwrap();
    engine
        .repay_loan(first, RepaymentMode::Partial, Some(Amount(4_000)))
        .unwrap();
    let book = keystone_xdtl::AccountingBook::from_engine(&engine).unwrap();
    assert_eq!(book.system.active_principal, Amount(21_000));
    assert_eq!(book.system.receivable_principal, book.system.active_principal);
    assert_eq!(book.system.borrower_principal, book.system.active_principal);
}

#[test]
fn the_open_buckets_hold_the_open_loans() {
    let mut engine = fixture();
    let lender = VaultId::named("senior-liquidity", engine.asset());
    let borrower = VaultId::named("market-maker", engine.asset());
    let first = engine
        .open_loan(lender, borrower, Amount(20_000), Amount(24_000), 30)
        .unwrap();
    engine
        .open_loan(lender, borrower, Amount(5_000), Amount(6_000), 120)
        .unwrap();
    engine.advance_by(30).unwrap();
    engine.repay_loan(first, RepaymentMode::Scheduled, None).unwrap();
    let analytics = keystone_xdtl::PortfolioAnalytics::from_engine(&engine).unwrap();
    assert_eq!(analytics.total_open_principal().unwrap(), Amount(5_000));
    assert_eq!(
        analytics.total_open_principal().unwrap(),
        analytics.matrix.total_open_principal
    );
}

#[test]
fn opening_and_a_scheduled_repayment_create_no_value() {
    let mut engine = fixture();
    let lender = VaultId::named("senior-liquidity", engine.asset());
    let borrower = VaultId::named("market-maker", engine.asset());
    let value = total_value(&engine);
    let holdings = total_holdings(&engine);
    assert_eq!(value, 140_000);
    let loan = engine
        .open_loan(lender, borrower, Amount(20_000), Amount(24_000), 90)
        .unwrap();
    assert_eq!(total_value(&engine), value);
    assert_eq!(total_holdings(&engine), holdings);
    engine.advance_by(90).unwrap();
    engine.repay_loan(loan, RepaymentMode::Scheduled, None).unwrap();
    assert_eq!(total_value(&engine), value);
    assert_eq!(total_holdings(&engine), holdings);
    let book = keystone_xdtl::AccountingBook::from_engine(&engine).unwrap();
    assert_eq!(book.system.accounting_spread(), Ok(0));
    engine.verify_invariants().unwrap();
}

#[test]
fn an_early_repayment_keeps_the_lender_projection() {
    let mut engine = fixture();
    let lender = VaultId::named("senior-liquidity", engine.asset());
    let borrower = VaultId::named("market-maker", engine.asset());
    let loan = engine
        .open_loan(lender, borrower, Amount(20_000), Amount(24_000), 90)
        .unwrap();
    let value = total_value(&engine);
    let holdings = total_holdings(&engine);
    let projected = engine.vault(lender).unwrap().expected_interest();
    engine.advance_by(30).unwrap();
    let quote = engine.repay_loan(loan, RepaymentMode::Early, None).unwrap();
    assert_eq!(quote.lender_projection_reduction, Amount(0));
    assert_eq!(engine.vault(lender).unwrap().expected_interest(), projected);
    assert_eq!(engine.vault(borrower).unwrap().debt_interest_due(), Amount(0));
    assert_eq!(
        total_value(&engine),
        value + quote.borrower_interest_reduction.0
    );
    assert_eq!(total_holdings(&engine), holdings);
    let book = keystone_xdtl::AccountingBook::from_engine(&engine).unwrap();
    assert_eq!(
        book.system.accounting_spread(),
        Ok(i128::from(projected.0))
    );
    engine.verify_invariants().unwrap();
}

#[test]
fn a_liquidation_credits_the_reserve_recovery() {
    let mut engine = fixture();
    let lender = VaultId::named("senior-liquidity", engine.asset());
    let borrower = VaultId::named("market-maker", engine.asset());
    let loan = engine
        .open_loan(lender, borrower, Amount(20_000), Amount(24_000), 30)
        .unwrap();
    engine.advance_by(35).unwrap();
    engine.mark_default(loan).unwrap();
    let value = total_value(&engine);
    let holdings = total_holdings(&engine);
    let reserve = engine.vault(lender).unwrap().snapshot().unwrap().loss_reserve;
    let result = engine.liquidate(loan).unwrap();
    assert_eq!(
        result.principal_closed.0 + result.interest_closed.0 + result.reserve_recovery.0,
        result.seized.0
    );
    assert_eq!(
        engine.vault(lender).unwrap().snapshot().unwrap().loss_reserve.0,
        reserve.0 + result.reserve_recovery.0
    );
    assert_eq!(total_value(&engine), value + result.reserve_recovery.0);
    assert_eq!(total_holdings(&engine), holdings);
    engine.verify_invariants().unwrap();
}

#[test]
fn liquidating_to_the_end_clears_the_borrower_debt() {
    let mut engine = fixture();
    let lender = VaultId::named("senior-liquidity", engine.asset());
    let borrower = VaultId::named("market-maker", engine.asset());
    let loan = engine
        .open_loan(lender, borrower, Amount(20_000), Amount(24_000), 30)
        .unwrap();
    engine.advance_by(35).unwrap();
    engine.mark_default(loan).unwrap();
    let mut rounds = 0;
    while engine.loan(loan).unwrap().status() != LoanStatus::Liquidated {
        let value = total_value(&engine);
        let result = engine.liquidate(loan).unwrap();
        assert_eq!(total_value(&engine), value + result.reserve_recovery.0);
        engine.verify_invariants().unwrap();
        rounds += 1;
        assert!(rounds < 64);
    }
    assert_eq!(engine.loan(loan).unwrap().remaining_principal(), Amount(0));
    assert_eq!(engine.vault(borrower).unwrap().debt_principal(), Amount(0));
    assert_eq!(engine.vault(borrower).unwrap().debt_interest_due(), Amount(0));
    assert_eq!(engine.vault(lender).unwrap().outstanding_principal(), Amount(0));
    assert_eq!(engine.vault(lender).unwrap().expected_interest(), Amount(0));
    assert_eq!(engine.active_loan_count(), 0);
}
