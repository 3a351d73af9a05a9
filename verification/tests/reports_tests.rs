use keystone_xdtl::scenario::{run_named, SCENARIO_NAMES};
use keystone_xdtl::{
    AccountId, AccountingBook, Amount, AssetId, EngineConfig, KeystoneEngine, KeystoneError,
    PortfolioAnalytics, RiskDashboard, RiskGrade, VaultRole,
};

#[test]
fn accounting_book_balances_seeded_engine() {
    let asset = AssetId::native();
    let mut engine = KeystoneEngine::new(EngineConfig::local(asset).unwrap()).unwrap();
    let vault = engine.register_vault("cash", VaultRole::Hybrid).unwrap();
    engine
        .deposit(vault, AccountId::named("owner"), Amount(10_000))
        .unwrap();
    let book = AccountingBook::from_engine(&engine).unwrap();
    book.assert_balanced().unwrap();
    assert_eq!(book.total_equity(), Amount(10_000));
}

#[test]
fn portfolio_tracks_open_loan_exposure() {
    let asset = AssetId::native();
    let mut engine = KeystoneEngine::new(EngineConfig::local(asset).unwrap()).unwrap();
    let lender = engine.register_vault("lender", VaultRole::Liquidity).unwrap();
    let borrower = engine.register_vault("borrower", VaultRole::Borrower).unwrap();
    engine
        .deposit(lender, AccountId::named("lp"), Amount(100_000))
        .unwrap();
    engine
        .deposit(borrower, AccountId::named("ops"), Amount(50_000))
        .unwrap();
    engine
        .open_loan(lender, borrower, Amount(10_000), Amount(12_000), 60)
        .unwrap();
    let analytics = PortfolioAnalytics::from_engine(&engine).unwrap();
    assert_eq!(analytics.lender_count(), 1);
    assert_eq!(analytics.borrower_count(), 1);
    assert_eq!(analytics.counterparty_pair_count(), 1);
    assert_eq!(analytics.open_loan_count(), 1);
    assert!(!analytics.has_overdue());
    assert_eq!(analytics.total_open_principal().unwrap(), Amount(10_000));
}

#[test]
fn dashboard_scores_seeded_engine_green() {
    let asset = AssetId::native();
    let mut engine = KeystoneEngine::new(EngineConfig::local(asset).unwrap()).unwrap();
    let vault = engine.register_vault("risk", VaultRole::Hybrid).unwrap();
    engine
        .deposit(vault, AccountId::named("owner"), Amount(50_000))
        .unwrap();
    let dashboard = RiskDashboard::from_engine(&engine).unwrap();
    assert_eq!(dashboard.max_vault_grade, RiskGrade::Green);
    dashboard.assert_no_red().unwrap();
}

#[test]
fn display_messages_are_stable() {
    assert_eq!(KeystoneError::ZeroAmount.message(), "amount is zero");
    assert_eq!(
        KeystoneError::InvalidBps(70_001).message(),
        "basis points out of range: 70001"
    );
}

#[test]
fn messages_carry_their_detail() {
    assert_eq!(KeystoneError::InvalidBps(0).message(), "basis points out of range: 0");
    assert_eq!(
        KeystoneError::scenario("nope").message(),
        "scenario not found: nope"
    );
    assert_eq!(
        KeystoneError::invariant_violation("x").message(),
        "invariant violation: x"
    );
    assert_eq!(KeystoneError::SelfLoan.message(), "borrower is the lender");
}

#[test]
fn books_balance_after_lending_and_repayment() {
    let asset = AssetId::native();
    let mut engine = KeystoneEngine::new(EngineConfig::local(asset).unwrap()).unwrap();
    let lender = engine.register_vault("lender", VaultRole::Liquidity).unwrap();
    let borrower = engine.register_vault("borrower", VaultRole::Borrower).unwrap();
    engine
        .deposit(lender, AccountId::named("lp"), Amount(100_000))
        .unwrap();
    engine
        .deposit(borrower, AccountId::named("ops"), Amount(50_000))
        .unwrap();
    let loan = engine
        .open_loan(lender, borrower, Amount(10_000), Amount(12_000), 60)
        .unwrap();
    let book = AccountingBook::from_engine(&engine).unwrap();
    book.assert_balanced().unwrap();
    assert!(book.active_loans_match_vaults());
    let lender_books = book.vault(lender).unwrap();
    assert_eq!(lender_books.line("receivable_principal"), Some(Amount(10_000)));
    assert_eq!(lender_books.line("nothing"), None);
    engine.advance_by(60).unwrap();
    engine
        .repay_loan(loan, keystone_xdtl::RepaymentMode::Scheduled, None)
        .unwrap();
    let book = AccountingBook::from_engine(&engine).unwrap();
    book.assert_balanced().unwrap();
}

#[test]
fn every_named_scenario_runs_and_conserves() {
    for name in SCENARIO_NAMES.iter() {
        let report = run_named(name).unwrap();
        assert_eq!(report.scenario, *name);
        if *name != "snapshot" {
            assert!(report.engine.conservation_ok);
        }
        assert!(!report.events.is_empty());
    }
}

#[test]
fn unknown_scenario_is_reported_by_name() {
    assert_eq!(
        run_named("mystery").unwrap_err(),
        KeystoneError::ScenarioNotFound("mystery".to_string())
    );
}

#[test]
fn default_scenario_labels_overdue_epochs() {
    let report = run_named("default").unwrap();
    let last = report.operations.last().unwrap();
    assert_eq!(last.name, "mark_default_2");
    assert_eq!(last.amount, Some(Amount(2)));
    assert_eq!(report.vault_aliases.len(), 4);
    assert_eq!(report.account_aliases[0].0, "borrower_ops");
}
