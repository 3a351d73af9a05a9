use vstd::prelude::*;
use vstd::string::StringSliceAdditionalSpecFns;

use crate::amount::{amount_of, Amount, Shares};
use crate::engine::{local_config, vault_id_of, EngineSnapshot, KeystoneEngine};
use crate::error::{dec_chars, KeystoneError, KeystoneResult};
use crate::ids::{parts_digest, AccountId, AssetId, LoanId, TxId, VaultId, ACCOUNT_DOMAIN, ASSET_DOMAIN};
use crate::liquidation::LiquidationResult;
use crate::loan::{PaymentQuote, RepaymentMode};
use crate::policy::{policy_for_tier, RiskTier};
use crate::reports::{engine_report_of, OperationReport, ScenarioReport};
use crate::vault::{claims_total, DepositReceipt, InterestClaim, RedemptionQuote, VaultRole};

verus! {

// What each scenario runs, step by step: every step moves the engine as the engine's own
// contract for that operation says, records an operation where it succeeds, and the first
// failing step ends the run with its error.

/// The asset every scenario runs on.
pub open spec fn scenario_asset() -> AssetId {
    AssetId(parts_digest(ASSET_DOMAIN, seq!["usdc-dtl".spec_bytes()]))
}

/// The account of a named participant.
pub open spec fn account_of(name: &str) -> AccountId {
    AccountId(parts_digest(ACCOUNT_DOMAIN, seq![name.spec_bytes()]))
}

pub open spec fn senior_vault() -> VaultId {
    vault_id_of("atlas-income", scenario_asset())
}

pub open spec fn junior_vault() -> VaultId {
    vault_id_of("bridge-buffer", scenario_asset())
}

pub open spec fn borrower_vault() -> VaultId {
    vault_id_of("delta-maker", scenario_asset())
}

pub open spec fn treasury_vault() -> VaultId {
    vault_id_of("keystone-treasury", scenario_asset())
}

/// An operation that records a vault, an amount and shares.
pub open spec fn shares_op(o: OperationReport, name: Seq<char>, vault: VaultId, amount: Amount, shares: Shares) -> bool {
    o.name@ == name && o.tx is None && o.loan is None && o.vault == Some(vault) && o.amount == Some(amount)
        && o.shares == Some(shares)
}

/// An operation that records a loan and an amount.
pub open spec fn loan_op(o: OperationReport, name: Seq<char>, loan: LoanId, amount: Amount) -> bool {
    o.name@ == name && o.tx is None && o.loan == Some(loan) && o.vault is None && o.amount == Some(amount)
        && o.shares is None
}

/// An operation that records a vault and an amount.
pub open spec fn amount_op(o: OperationReport, name: Seq<char>, vault: VaultId, amount: Amount) -> bool {
    o.name@ == name && o.tx is None && o.loan is None && o.vault == Some(vault) && o.amount == Some(amount)
        && o.shares is None
}

/// `fo` is `o` with one more operation at its end.
pub open spec fn one_more(o: Seq<OperationReport>, fo: Seq<OperationReport>) -> bool {
    fo.len() == o.len() + 1 && fo.drop_last() == o
}

/// A deposit, recorded under `name` where it succeeds.
#[verifier::opaque]
pub open spec fn deposit_step(
    e: KeystoneEngine,
    o: Seq<OperationReport>,
    vault: VaultId,
    owner: AccountId,
    amount: Amount,
    name: Seq<char>,
    f: KeystoneEngine,
    fo: Seq<OperationReport>,
    r: KeystoneResult<DepositReceipt>,
) -> bool {
    &&& e.deposit_outcome(&f, vault, owner, amount, r)
    &&& match r {
        Ok(receipt) => one_more(o, fo) && shares_op(fo.last(), name, vault, receipt.amount, receipt.shares),
        Err(_) => fo == o,
    }
}

/// A redemption, recorded under `name` where it succeeds.
#[verifier::opaque]
pub open spec fn redeem_step(
    e: KeystoneEngine,
    o: Seq<OperationReport>,
    vault: VaultId,
    owner: AccountId,
    shares: Shares,
    name: Seq<char>,
    f: KeystoneEngine,
    fo: Seq<OperationReport>,
    r: KeystoneResult<RedemptionQuote>,
) -> bool {
    &&& e.redeem_outcome(&f, vault, owner, shares, r)
    &&& match r {
        Ok(quote) => one_more(o, fo) && shares_op(fo.last(), name, vault, quote.amount, quote.shares),
        Err(_) => fo == o,
    }
}

/// A loan opening, recorded with its principal under `name` where it succeeds.
#[verifier::opaque]
pub open spec fn open_step(
    e: KeystoneEngine,
    o: Seq<OperationReport>,
    lender: VaultId,
    borrower: VaultId,
    principal: Amount,
    collateral: Amount,
    tenor: u64,
    name: Seq<char>,
    f: KeystoneEngine,
    fo: Seq<OperationReport>,
    r: KeystoneResult<LoanId>,
) -> bool {
    &&& e.open_loan_outcome(&f, lender, borrower, principal, collateral, tenor, r)
    &&& match r {
        Ok(id) => one_more(o, fo) && loan_op(fo.last(), name, id, principal),
        Err(_) => fo == o,
    }
}

/// A repayment, recorded with the quote's total under `name`; the total must fit an amount.
#[verifier::opaque]
pub open spec fn repay_step(
    e: KeystoneEngine,
    o: Seq<OperationReport>,
    loan: LoanId,
    mode: RepaymentMode,
    principal: Option<Amount>,
    name: Seq<char>,
    f: KeystoneEngine,
    fo: Seq<OperationReport>,
    q: KeystoneResult<PaymentQuote>,
    r: KeystoneResult<()>,
) -> bool {
    &&& repaid(e, f, loan, mode, principal, q)
    &&& match q {
        Err(err) => r == Err::<(), KeystoneError>(err) && fo == o,
        Ok(quote) => match amount_of(quote.principal.0 + quote.interest.0) {
            Err(err) => r == Err::<(), KeystoneError>(err) && fo == o,
            Ok(total) => r == Ok::<(), KeystoneError>(()) && one_more(o, fo) && loan_op(fo.last(), name, loan, total),
        },
    }
}

/// The invariant check is journaled, as `push_invariant_event` says.
#[verifier::opaque]
pub open spec fn invariant_step(e: KeystoneEngine, f: KeystoneEngine, t: KeystoneResult<TxId>) -> bool {
    e.invariant_event_outcome(&f, t)
}

/// The clock moves `epochs` forward, as `advance_by` says.
#[verifier::opaque]
pub open spec fn advance_step(e: KeystoneEngine, f: KeystoneEngine, epochs: u64, t: KeystoneResult<TxId>) -> bool {
    e.advance_by_outcome(&f, epochs, t)
}

/// A loan is marked defaulted, as `mark_default` says.
#[verifier::opaque]
pub open spec fn default_step(e: KeystoneEngine, f: KeystoneEngine, loan: LoanId, d: KeystoneResult<u64>) -> bool {
    e.mark_default_outcome(&f, loan, d)
}

/// A loan is liquidated, as `liquidate` says.
#[verifier::opaque]
pub open spec fn liquidate_step(e: KeystoneEngine, f: KeystoneEngine, loan: LoanId, l: KeystoneResult<LiquidationResult>) -> bool {
    e.liquidate_outcome(&f, loan, l)
}

/// A vault's realized interest is distributed, as `distribute_interest` says.
#[verifier::opaque]
pub open spec fn distribute_step(e: KeystoneEngine, f: KeystoneEngine, vault: VaultId, c: KeystoneResult<Vec<InterestClaim>>) -> bool {
    e.distribution_outcome(&f, vault, c)
}

/// A loan is repaid, as `repay_loan` says.
#[verifier::opaque]
pub open spec fn repaid(
    e: KeystoneEngine,
    f: KeystoneEngine,
    loan: LoanId,
    mode: RepaymentMode,
    principal: Option<Amount>,
    q: KeystoneResult<PaymentQuote>,
) -> bool {
    e.repay_outcome(&f, loan, mode, principal, q)
}

/// The aliases of the scenario vaults, in name order.
pub open spec fn vault_aliases_are(a: Seq<(String, VaultId)>) -> bool {
    &&& a.len() == 4
    &&& a[0].0@ == "borrower"@ && a[0].1 == borrower_vault()
    &&& a[1].0@ == "junior"@ && a[1].1 == junior_vault()
    &&& a[2].0@ == "senior"@ && a[2].1 == senior_vault()
    &&& a[3].0@ == "treasury"@ && a[3].1 == treasury_vault()
}

/// The aliases of the scenario accounts, in name order.
pub open spec fn account_aliases_are(a: Seq<(String, AccountId)>) -> bool {
    &&& a.len() == 4
    &&& a[0].0@ == "borrower_ops"@ && a[0].1 == account_of("borrower-ops")
    &&& a[1].0@ == "junior_lp"@ && a[1].1 == account_of("junior-lp")
    &&& a[2].0@ == "senior_lp"@ && a[2].1 == account_of("senior-lp")
    &&& a[3].0@ == "treasury"@ && a[3].1 == account_of("treasury")
}

/// The report of a scenario named `name` on engine `e` after operations `ops`: it fails
/// exactly where the engine's report fails, and otherwise carries the engine's report, the
/// aliases, the operations and the journal's events.
#[verifier::opaque]
pub open spec fn report_of(name: Seq<char>, e: KeystoneEngine, ops: Seq<OperationReport>, r: KeystoneResult<ScenarioReport>) -> bool {
    &&& (e.snapshot_error() matches Some(err) ==> r == Err::<ScenarioReport, KeystoneError>(err))
    &&& (r matches Ok(rep) ==> {
        &&& rep.scenario@ == name
        &&& exists|s: EngineSnapshot|
            e.snapshot_is(s) && engine_report_of(e, s, Ok::<crate::reports::EngineReport, KeystoneError>(rep.engine))
        &&& vault_aliases_are(rep.vault_aliases@)
        &&& account_aliases_are(rep.account_aliases@)
        &&& rep.operations@ == ops
        &&& rep.events@ == e.spec_journal().spec_events()
    })
    &&& (e.snapshot_error() is None ==> (r is Err ==> exists|s: EngineSnapshot|
        e.snapshot_is(s) && engine_report_of(e, s, Err::<crate::reports::EngineReport, KeystoneError>(r->Err_0))))
}

/// The end of every scenario but the snapshot: the invariant check is journaled, then the
/// report is made.
pub open spec fn checked_report(name: Seq<char>, e: KeystoneEngine, ops: Seq<OperationReport>, r: KeystoneResult<ScenarioReport>) -> bool {
    exists|f: KeystoneEngine, t: KeystoneResult<TxId>|
        #[trigger] invariant_step(e, f, t) && if t is Err {
            r == Err::<ScenarioReport, KeystoneError>(t->Err_0)
        } else {
            report_of(name, f, ops, r)
        }
}

/// The five opening deposits, from engine `e` with operations `o` to `f` with `fo`.
pub open spec fn seeded(e: KeystoneEngine, o: Seq<OperationReport>, f: KeystoneEngine, fo: Seq<OperationReport>, r: KeystoneResult<()>) -> bool {
    exists|e1: KeystoneEngine, o1: Seq<OperationReport>, r1: KeystoneResult<DepositReceipt>|
        #[trigger] deposit_step(e, o, senior_vault(), account_of("senior-lp"), Amount(1_000_000), "seed_senior"@, e1, o1, r1)
        && if r1 is Err {
            f == e1 && fo == o1 && r == Err::<(), KeystoneError>(r1->Err_0)
        } else {
            exists|e2: KeystoneEngine, o2: Seq<OperationReport>, r2: KeystoneResult<DepositReceipt>|
                #[trigger] deposit_step(e1, o1, senior_vault(), account_of("junior-lp"), Amount(500_000), "seed_secondary_senior"@, e2, o2, r2)
                && if r2 is Err {
                    f == e2 && fo == o2 && r == Err::<(), KeystoneError>(r2->Err_0)
                } else {
                    exists|e3: KeystoneEngine, o3: Seq<OperationReport>, r3: KeystoneResult<DepositReceipt>|
                        #[trigger] deposit_step(e2, o2, junior_vault(), account_of("junior-lp"), Amount(250_000), "seed_junior"@, e3, o3, r3)
                        && if r3 is Err {
                            f == e3 && fo == o3 && r == Err::<(), KeystoneError>(r3->Err_0)
                        } else {
                            exists|e4: KeystoneEngine, o4: Seq<OperationReport>, r4: KeystoneResult<DepositReceipt>|
                                #[trigger] deposit_step(e3, o3, borrower_vault(), account_of("borrower-ops"), Amount(650_000), "seed_borrower"@, e4, o4, r4)
                                && if r4 is Err {
                                    f == e4 && fo == o4 && r == Err::<(), KeystoneError>(r4->Err_0)
                                } else {
                                    exists|r5: KeystoneResult<DepositReceipt>|
                                        #[trigger] deposit_step(e4, o4, treasury_vault(), account_of("treasury"), Amount(50_000), "seed_treasury"@, f, fo, r5)
                                        && r == (if r5 is Err { Err::<(), KeystoneError>(r5->Err_0) } else { Ok::<(), KeystoneError>(()) })
                                }
                        }
                }
        }
}

/// The four scenario vaults registered in order on engine `e`, then the opening deposits.
pub open spec fn registered(e: KeystoneEngine, f: KeystoneEngine, fo: Seq<OperationReport>, r: KeystoneResult<()>) -> bool {
    exists|e1: KeystoneEngine, r1: KeystoneResult<VaultId>|
        #[trigger] e.register_outcome(&e1, "atlas-income", VaultRole::Liquidity, r1) && if r1 is Err {
            f == e1 && fo == Seq::<OperationReport>::empty() && r == Err::<(), KeystoneError>(r1->Err_0)
        } else {
            exists|e2: KeystoneEngine, r2: KeystoneResult<VaultId>|
                #[trigger] e1.register_outcome(&e2, "bridge-buffer", VaultRole::Hybrid, r2) && if r2 is Err {
                    f == e2 && fo == Seq::<OperationReport>::empty() && r == Err::<(), KeystoneError>(r2->Err_0)
                } else {
                    exists|e3: KeystoneEngine, r3: KeystoneResult<VaultId>|
                        #[trigger] e2.register_outcome(&e3, "delta-maker", VaultRole::Borrower, r3) && if r3 is Err {
                            f == e3 && fo == Seq::<OperationReport>::empty() && r == Err::<(), KeystoneError>(r3->Err_0)
                        } else {
                            exists|e4: KeystoneEngine, r4: KeystoneResult<VaultId>|
                                #[trigger] e3.register_outcome(&e4, "keystone-treasury", VaultRole::Treasury, r4) && if r4 is Err {
                                    f == e4 && fo == Seq::<OperationReport>::empty() && r == Err::<(), KeystoneError>(r4->Err_0)
                                } else {
                                    seeded(e4, Seq::<OperationReport>::empty(), f, fo, r)
                                }
                        }
                }
        }
}

/// Setting up a scenario: a fresh local engine on the scenario asset under the prime policy,
/// the four vaults, then the opening deposits; `f` and `fo` are the engine and operations it
/// leaves.
pub open spec fn fixture_run(f: KeystoneEngine, fo: Seq<OperationReport>, r: KeystoneResult<()>) -> bool {
    exists|e0: KeystoneEngine, e1: KeystoneEngine, t: KeystoneResult<TxId>|
        #[trigger] e0.starts_from(local_config(scenario_asset())) && #[trigger] e0.set_policy_outcome(
            &e1,
            policy_for_tier(RiskTier::Prime),
            t,
        ) && registered(e1, f, fo, r)
}

/// Runs `body` after a scenario's setup: the setup's error where it fails.
pub open spec fn after_setup(r: KeystoneResult<ScenarioReport>, body: spec_fn(KeystoneEngine, Seq<OperationReport>) -> bool) -> bool {
    exists|f: KeystoneEngine, fo: Seq<OperationReport>, rf: KeystoneResult<()>|
        #[trigger] fixture_run(f, fo, rf) && if rf is Err {
            r == Err::<ScenarioReport, KeystoneError>(rf->Err_0)
        } else {
            body(f, fo)
        }
}

/// The primary loan of a scenario: the senior vault lends the borrower vault.
pub open spec fn primary_step(e: KeystoneEngine, o: Seq<OperationReport>, f: KeystoneEngine, fo: Seq<OperationReport>, r: KeystoneResult<LoanId>) -> bool {
    open_step(e, o, senior_vault(), borrower_vault(), Amount(300_000), Amount(360_000), 90, "open_primary"@, f, fo, r)
}

/// The bridge loan of a scenario: the junior vault lends the borrower vault.
pub open spec fn bridge_step(e: KeystoneEngine, o: Seq<OperationReport>, f: KeystoneEngine, fo: Seq<OperationReport>, r: KeystoneResult<LoanId>) -> bool {
    open_step(e, o, junior_vault(), borrower_vault(), Amount(80_000), Amount(96_000), 45, "open_bridge"@, f, fo, r)
}

/// The snapshot scenario: the setup, then the report.
#[verifier::opaque]
pub open spec fn snapshot_run(r: KeystoneResult<ScenarioReport>) -> bool {
    after_setup(r, |f: KeystoneEngine, fo: Seq<OperationReport>| report_of("snapshot"@, f, fo, r))
}

/// The loan scenario: the setup, the primary loan, then the checked report.
#[verifier::opaque]
pub open spec fn loan_run(r: KeystoneResult<ScenarioReport>) -> bool {
    after_setup(
        r,
        |f: KeystoneEngine, fo: Seq<OperationReport>|
            exists|e1: KeystoneEngine, o1: Seq<OperationReport>, r1: KeystoneResult<LoanId>|
                #[trigger] primary_step(f, fo, e1, o1, r1) && if r1 is Err {
                    r == Err::<ScenarioReport, KeystoneError>(r1->Err_0)
                } else {
                    checked_report("loan"@, e1, o1, r)
                },
    )
}

/// After the primary loan and `epochs` more epochs: `body` on the engine, the operations and
/// the loan.
pub open spec fn after_primary_and_wait(
    r: KeystoneResult<ScenarioReport>,
    epochs: u64,
    body: spec_fn(KeystoneEngine, Seq<OperationReport>, LoanId) -> bool,
) -> bool {
    after_setup(
        r,
        |f: KeystoneEngine, fo: Seq<OperationReport>|
            exists|e1: KeystoneEngine, o1: Seq<OperationReport>, r1: KeystoneResult<LoanId>|
                #[trigger] primary_step(f, fo, e1, o1, r1) && if r1 is Err {
                    r == Err::<ScenarioReport, KeystoneError>(r1->Err_0)
                } else {
                    exists|e2: KeystoneEngine, t: KeystoneResult<TxId>|
                        #[trigger] advance_step(e1, e2, epochs, t) && if t is Err {
                            r == Err::<ScenarioReport, KeystoneError>(t->Err_0)
                        } else {
                            body(e2, o1, r1->Ok_0)
                        }
                },
    )
}

/// The repayment scenario: the primary loan repaid as scheduled at maturity.
#[verifier::opaque]
pub open spec fn repayment_run(r: KeystoneResult<ScenarioReport>) -> bool {
    after_primary_and_wait(
        r,
        90,
        |e: KeystoneEngine, o: Seq<OperationReport>, loan: LoanId|
            exists|f: KeystoneEngine, fo: Seq<OperationReport>, q: KeystoneResult<PaymentQuote>, s: KeystoneResult<()>|
                #[trigger] repay_step(e, o, loan, RepaymentMode::Scheduled, None, "scheduled_repay"@, f, fo, q, s)
                && if s is Err {
                    r == Err::<ScenarioReport, KeystoneError>(s->Err_0)
                } else {
                    checked_report("repayment"@, f, fo, r)
                },
    )
}

/// The prepayment scenario: the primary loan repaid early, then a routine redemption.
#[verifier::opaque]
pub open spec fn prepayment_run(r: KeystoneResult<ScenarioReport>) -> bool {
    after_primary_and_wait(
        r,
        30,
        |e: KeystoneEngine, o: Seq<OperationReport>, loan: LoanId|
            exists|f: KeystoneEngine, fo: Seq<OperationReport>, q: KeystoneResult<PaymentQuote>, s: KeystoneResult<()>|
                #[trigger] repay_step(e, o, loan, RepaymentMode::Early, None, "early_repay"@, f, fo, q, s)
                && if s is Err {
                    r == Err::<ScenarioReport, KeystoneError>(s->Err_0)
                } else {
                    exists|g: KeystoneEngine, go: Seq<OperationReport>, d: KeystoneResult<RedemptionQuote>|
                        #[trigger] redeem_step(f, fo, senior_vault(), account_of("junior-lp"), Shares(125_000), "routine_redeem"@, g, go, d)
                        && if d is Err {
                            r == Err::<ScenarioReport, KeystoneError>(d->Err_0)
                        } else {
                            checked_report("prepayment"@, g, go, r)
                        }
                },
    )
}

/// The default scenario: the primary loan marked defaulted past its grace period, recorded
/// with the number of overdue epochs.
#[verifier::opaque]
pub open spec fn default_run(r: KeystoneResult<ScenarioReport>) -> bool {
    after_primary_and_wait(
        r,
        95,
        |e: KeystoneEngine, o: Seq<OperationReport>, loan: LoanId|
            exists|f: KeystoneEngine, d: KeystoneResult<u64>|
                #[trigger] default_step(e, f, loan, d) && if d is Err {
                    r == Err::<ScenarioReport, KeystoneError>(d->Err_0)
                } else {
                    exists|fo: Seq<OperationReport>|
                        #[trigger] one_more(o, fo) && loan_op(
                            fo.last(),
                            "mark_default_"@ + dec_chars(d->Ok_0 as nat),
                            loan,
                            Amount(d->Ok_0),
                        ) && checked_report("default"@, f, fo, r)
                },
    )
}

/// The liquidation scenario: the primary loan defaulted, then liquidated, recorded with the
/// collateral seized.
#[verifier::opaque]
pub open spec fn liquidation_run(r: KeystoneResult<ScenarioReport>) -> bool {
    after_primary_and_wait(
        r,
        95,
        |e: KeystoneEngine, o: Seq<OperationReport>, loan: LoanId|
            exists|f: KeystoneEngine, d: KeystoneResult<u64>|
                #[trigger] default_step(e, f, loan, d) && if d is Err {
                    r == Err::<ScenarioReport, KeystoneError>(d->Err_0)
                } else {
                    exists|g: KeystoneEngine, l: KeystoneResult<LiquidationResult>|
                        #[trigger] liquidate_step(f, g, loan, l) && if l is Err {
                            r == Err::<ScenarioReport, KeystoneError>(l->Err_0)
                        } else {
                            exists|fo: Seq<OperationReport>|
                                #[trigger] one_more(o, fo) && loan_op(fo.last(), "liquidate_primary"@, loan, l->Ok_0.seized)
                                    && checked_report("liquidation"@, g, fo, r)
                        }
                },
    )
}

/// The redistribution scenario: the primary loan repaid as scheduled, then the senior vault's
/// realized interest distributed, recorded with the total of the claims.
#[verifier::opaque]
pub open spec fn redistribution_run(r: KeystoneResult<ScenarioReport>) -> bool {
    after_primary_and_wait(
        r,
        90,
        |e: KeystoneEngine, o: Seq<OperationReport>, loan: LoanId|
            exists|f: KeystoneEngine, fo: Seq<OperationReport>, q: KeystoneResult<PaymentQuote>, s: KeystoneResult<()>|
                #[trigger] repay_step(e, o, loan, RepaymentMode::Scheduled, None, "scheduled_repay"@, f, fo, q, s)
                && if s is Err {
                    r == Err::<ScenarioReport, KeystoneError>(s->Err_0)
                } else {
                    exists|g: KeystoneEngine, c: KeystoneResult<Vec<InterestClaim>>|
                        #[trigger] distribute_step(f, g, senior_vault(), c) && if c is Err {
                            r == Err::<ScenarioReport, KeystoneError>(c->Err_0)
                        } else {
                            match amount_of(claims_total(c->Ok_0@)) {
                                Err(err) => r == Err::<ScenarioReport, KeystoneError>(err),
                                Ok(total) => exists|go: Seq<OperationReport>|
                                    #[trigger] one_more(fo, go) && amount_op(go.last(), "distribute_interest"@, senior_vault(), total)
                                        && checked_report("redistribution"@, g, go, r),
                            }
                        }
                },
    )
}

/// The portfolio scenario: the primary and bridge loans, part of the bridge repaid after
/// twenty epochs, the primary repaid as scheduled seventy epochs later.
#[verifier::opaque]
pub open spec fn portfolio_run(r: KeystoneResult<ScenarioReport>) -> bool {
    after_setup(
        r,
        |f: KeystoneEngine, fo: Seq<OperationReport>|
            exists|e1: KeystoneEngine, o1: Seq<OperationReport>, r1: KeystoneResult<LoanId>|
                #[trigger] primary_step(f, fo, e1, o1, r1) && if r1 is Err {
                    r == Err::<ScenarioReport, KeystoneError>(r1->Err_0)
                } else {
                    exists|e2: KeystoneEngine, o2: Seq<OperationReport>, r2: KeystoneResult<LoanId>|
                        #[trigger] bridge_step(e1, o1, e2, o2, r2) && if r2 is Err {
                            r == Err::<ScenarioReport, KeystoneError>(r2->Err_0)
                        } else {
                            portfolio_repayments(r, e2, o2, r1->Ok_0, r2->Ok_0)
                        }
                },
    )
}

/// The repayments of the portfolio scenario, from engine `e` with operations `o`.
pub open spec fn portfolio_repayments(
    r: KeystoneResult<ScenarioReport>,
    e: KeystoneEngine,
    o: Seq<OperationReport>,
    primary: LoanId,
    bridge: LoanId,
) -> bool {
    exists|e1: KeystoneEngine, t1: KeystoneResult<TxId>|
        #[trigger] advance_step(e, e1, 20, t1) && if t1 is Err {
            r == Err::<ScenarioReport, KeystoneError>(t1->Err_0)
        } else {
            exists|e2: KeystoneEngine, o2: Seq<OperationReport>, q2: KeystoneResult<PaymentQuote>, s2: KeystoneResult<()>|
                #[trigger] repay_step(e1, o, bridge, RepaymentMode::Partial, Some(Amount(30_000)), "partial_bridge_repay"@, e2, o2, q2, s2)
                && if s2 is Err {
                    r == Err::<ScenarioReport, KeystoneError>(s2->Err_0)
                } else {
                    exists|e3: KeystoneEngine, t3: KeystoneResult<TxId>|
                        #[trigger] advance_step(e2, e3, 70, t3) && if t3 is Err {
                            r == Err::<ScenarioReport, KeystoneError>(t3->Err_0)
                        } else {
                            exists|e4: KeystoneEngine, o4: Seq<OperationReport>, q4: KeystoneResult<PaymentQuote>, s4: KeystoneResult<()>|
                                #[trigger] repay_step(e3, o2, primary, RepaymentMode::Scheduled, None, "scheduled_primary_repay"@, e4, o4, q4, s4)
                                && if s4 is Err {
                                    r == Err::<ScenarioReport, KeystoneError>(s4->Err_0)
                                } else {
                                    checked_report("portfolio"@, e4, o4, r)
                                }
                        }
                }
        }
}

} // verus!
