use vstd::prelude::*;

use crate::amount::{Amount, Shares};
use crate::engine::KeystoneEngine;
use crate::error::{KeystoneError, KeystoneResult};
use crate::ids::{AccountId, LoanId, VaultId};
use crate::keys::{key_index, lemma_key_index_of};
use crate::liquidation::LiquidationResult;
use crate::loan::{default_result, LoanState, LoanStatus};
use crate::time::{due_of, Epoch};
use crate::vault::{deposit_effect, redeem_effect, total_shares, vault_wf, DepositReceipt, RedemptionQuote, Vault};

verus! {

/// In every well-formed engine, the shares held by a vault's accounts add up to the vault's
/// share supply.
pub proof fn lemma_shares_add_up(e: KeystoneEngine, id: VaultId)
    requires
        e.wf(),
        e.has_vault(id),
    ensures
        total_shares(e.vault_of(id).accounts.vals@) == e.vault_of(id).share_supply.0,
{
    lemma_key_index_of(e.spec_vaults().keys@, id);
    assert(vault_wf(e.spec_vaults().vals@[key_index(e.spec_vaults().keys@, id)]));
}

/// No loan of a well-formed engine has the same vault as lender and borrower.
pub proof fn lemma_no_self_loans(e: KeystoneEngine, id: LoanId)
    requires
        e.wf(),
        e.has_loan(id),
    ensures
        e.loan_of(id).terms().lender != e.loan_of(id).terms().borrower,
{
    lemma_key_index_of(e.spec_loans().keys@, id);
    let i = key_index(e.spec_loans().keys@, id);
    assert(e.spec_loans().vals@[i].terms().lender != e.spec_loans().vals@[i].terms().borrower);
}

/// Asking an engine to open a loan from a vault to itself fails and changes nothing.
pub proof fn lemma_self_loan_refused(
    e: KeystoneEngine,
    f: KeystoneEngine,
    id: VaultId,
    principal: Amount,
    collateral: Amount,
    tenor: u64,
    r: KeystoneResult<LoanId>,
)
    requires
        e.open_loan_outcome(&f, id, id, principal, collateral, tenor, r),
    ensures
        f == e,
        r == Err::<LoanId, KeystoneError>(KeystoneError::SelfLoan) || r == Err::<LoanId, KeystoneError>(
            KeystoneError::LimitExceeded,
        ),
{
}

/// A paused or frozen vault takes no deposit: the deposit fails with the matching error and
/// the vault stays as it was.
pub proof fn lemma_closed_vault_refuses_deposit(
    v: Vault,
    owner: AccountId,
    amount: Amount,
    f: Vault,
    r: KeystoneResult<DepositReceipt>,
)
    requires
        deposit_effect(v, owner, amount, f, r),
        v.paused || v.frozen,
    ensures
        f == v,
        r == Err::<DepositReceipt, KeystoneError>(
            if v.paused {
                KeystoneError::VaultPaused
            } else {
                KeystoneError::VaultFrozen
            },
        ),
{
}

/// A paused or frozen vault pays out no redemption: the redemption fails with the matching
/// error and the vault stays as it was.
pub proof fn lemma_closed_vault_refuses_redemption(
    v: Vault,
    owner: AccountId,
    shares: Shares,
    f: Vault,
    r: KeystoneResult<RedemptionQuote>,
)
    requires
        redeem_effect(v, owner, shares, f, r),
        v.paused || v.frozen,
    ensures
        f == v,
        r == Err::<RedemptionQuote, KeystoneError>(
            if v.paused {
                KeystoneError::VaultPaused
            } else {
                KeystoneError::VaultFrozen
            },
        ),
{
}

/// A loan defaults only once its maturity and grace period have passed; the overdue count is
/// how far past that point the default comes.
pub proof fn lemma_default_only_after_grace(l: LoanState, now: Epoch)
    requires
        default_result(l, now) is Ok,
    ensures
        now.0 > due_of(l.terms().schedule),
        default_result(l, now)->Ok_0 == now.0 - due_of(l.terms().schedule),
        l.status() == LoanStatus::Active,
{
}

/// An engine liquidates only a loan that is defaulted or already being liquidated.
pub proof fn lemma_liquidation_needs_default(
    e: KeystoneEngine,
    f: KeystoneEngine,
    id: LoanId,
    r: KeystoneResult<LiquidationResult>,
)
    requires
        e.liquidate_outcome(&f, id, r),
        r is Ok,
    ensures
        e.has_loan(id),
        e.loan_of(id).status() == LoanStatus::Defaulted || e.loan_of(id).status() == LoanStatus::Liquidating,
{
}

} // verus!
