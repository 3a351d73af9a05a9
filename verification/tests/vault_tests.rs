use keystone_xdtl::{
    AccountId, Amount, AssetId, KeystoneError, ProtocolPolicy, Shares, Vault, VaultId, VaultRole,
};

fn vault() -> Vault {
    let asset = AssetId::native();
    Vault::new(VaultId::named("alpha", asset), "Alpha", asset, VaultRole::Hybrid)
}

#[test]
fn deposit_mints_initial_one_to_one_shares() {
    let owner = AccountId::named("owner");
    let mut vault = vault();
    let receipt = vault.deposit(owner, Amount(1_000)).unwrap();
    assert_eq!(receipt.shares, Shares(1_000));
    assert_eq!(vault.net_asset_value().unwrap(), Amount(1_000));
    assert_eq!(vault.shares_of(owner), Shares(1_000));
}

#[test]
fn redemption_uses_current_nav() {
    let owner = AccountId::named("owner");
    let mut vault = vault();
    vault.deposit(owner, Amount(1_000)).unwrap();
    vault.force_cash_credit(Amount(250)).unwrap();
    let quote = vault.quote_redeem(owner, Shares(500)).unwrap();
    assert_eq!(quote.amount, Amount(625));
}

#[test]
fn interest_distribution_allocates_to_shareholders() {
    let alice = AccountId::named("alice");
    let bob = AccountId::named("bob");
    let mut vault = vault();
    vault.deposit(alice, Amount(1_000)).unwrap();
    vault.deposit(bob, Amount(1_000)).unwrap();
    vault.realized_interest = Amount(100);
    vault.cash = vault.cash.checked_add(Amount(100)).unwrap();
    let claims = vault
        .distribute_interest(ProtocolPolicy::default_prime().unwrap())
        .unwrap();
    let amounts: Vec<Amount> = claims.iter().map(|claim| claim.amount).collect();
    let total = Amount::checked_sum(&amounts).unwrap();
    assert_eq!(total, Amount(100));
}

#[test]
fn paused_or_frozen_vault_refuses_deposits_and_redemptions() {
    let owner = AccountId::named("owner");
    let mut vault = vault();
    vault.deposit(owner, Amount(1_000)).unwrap();
    vault.pause();
    assert_eq!(vault.deposit(owner, Amount(10)), Err(KeystoneError::VaultPaused));
    assert_eq!(vault.redeem(owner, Shares(10)), Err(KeystoneError::VaultPaused));
    vault.unpause();
    vault.freeze();
    assert_eq!(vault.deposit(owner, Amount(10)), Err(KeystoneError::VaultFrozen));
    assert_eq!(vault.redeem(owner, Shares(10)), Err(KeystoneError::VaultFrozen));
    assert_eq!(vault.cash(), Amount(1_000));
    assert_eq!(vault.shares_of(owner), Shares(1_000));
}

#[test]
fn redeeming_everything_removes_the_holder() {
    let owner = AccountId::named("owner");
    let mut vault = vault();
    vault.deposit(owner, Amount(1_000)).unwrap();
    let quote = vault.redeem(owner, Shares(1_000)).unwrap();
    assert_eq!(quote.amount, Amount(1_000));
    assert_eq!(vault.holder_count(), 0);
    assert_eq!(vault.share_supply(), Shares(0));
    assert_eq!(vault.cash(), Amount(0));
}

#[test]
fn redemption_errors_are_reported() {
    let owner = AccountId::named("owner");
    let other = AccountId::named("other");
    let mut vault = vault();
    vault.deposit(owner, Amount(1_000)).unwrap();
    assert_eq!(vault.redeem(owner, Shares(0)), Err(KeystoneError::ZeroShares));
    assert_eq!(vault.redeem(other, Shares(1)), Err(KeystoneError::InsufficientShares));
    assert_eq!(vault.deposit(owner, Amount(0)), Err(KeystoneError::ZeroAmount));
}

#[test]
fn shares_track_holders_after_a_gain() {
    let alice = AccountId::named("alice");
    let bob = AccountId::named("bob");
    let mut vault = vault();
    vault.deposit(alice, Amount(1_000)).unwrap();
    vault.force_cash_credit(Amount(1_000)).unwrap();
    let receipt = vault.deposit(bob, Amount(1_000)).unwrap();
    assert_eq!(receipt.shares, Shares(500));
    assert_eq!(vault.share_supply(), Shares(1_500));
    assert_eq!(vault.holder_count(), 2);
    assert_eq!(vault.price_e12().unwrap(), 2_000_000_000_000);
    vault.assert_sane().unwrap();
}

#[test]
fn roles_decide_lending_and_borrowing() {
    assert!(VaultRole::Liquidity.can_lend());
    assert!(!VaultRole::Liquidity.can_borrow());
    assert!(VaultRole::Borrower.can_borrow());
    assert!(!VaultRole::Borrower.can_lend());
    assert!(VaultRole::Hybrid.can_lend() && VaultRole::Hybrid.can_borrow());
    let mut vault = Vault::new(
        VaultId::named("b", AssetId::native()),
        "B",
        AssetId::native(),
        VaultRole::Borrower,
    );
    vault.force_cash_credit(Amount(100)).unwrap();
    assert_eq!(
        vault.fund_loan(Amount(10), Amount(1)),
        Err(KeystoneError::VaultRoleMismatch)
    );
}
