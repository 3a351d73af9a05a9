use vstd::prelude::*;
use vstd::string::StringExecFns;

use crate::amount::{Amount, Shares};
use crate::engine::{EngineConfig, KeystoneEngine};
use crate::error::{push_decimal, KeystoneError, KeystoneResult};
use crate::ids::{AccountId, AssetId, LoanId, VaultId};
use crate::loan::RepaymentMode;
use crate::policy::{ProtocolPolicy, RiskTier};
use crate::reports::{OperationReport, ScenarioReport};
use crate::vault::{InterestClaim, VaultRole};
use crate::engine::local_config;
use crate::policy::policy_for_tier;
use crate::script::{
    account_of, advance_step, repaid, amount_op, default_step, distribute_step, invariant_step, liquidate_step, borrower_vault, bridge_step, checked_report, default_run, deposit_step, fixture_run, junior_vault,
    liquidation_run, loan_op, loan_run, one_more, portfolio_run, prepayment_run, primary_step, redeem_step, redistribution_run,
    open_step, registered, repay_step, repayment_run, report_of, scenario_asset, seeded, senior_vault, snapshot_run, treasury_vault,
};

verus! {

/// The names of the scenarios, in the order they are listed.
pub const SCENARIO_NAMES: [&'static str; 8] = [
    "loan",
    "repayment",
    "prepayment",
    "default",
    "liquidation",
    "redistribution",
    "portfolio",
    "snapshot",
];

#[derive(Clone, Copy)]
struct ScenarioAccounts {
    senior_lp: AccountId,
    junior_lp: AccountId,
    borrower_ops: AccountId,
    treasury: AccountId,
}

#[derive(Clone, Copy)]
struct ScenarioVaults {
    senior: VaultId,
    junior: VaultId,
    borrower: VaultId,
    treasury: VaultId,
}

/// A seeded engine with four vaults and four accounts, and the operations done so far.
struct Fixture {
    engine: KeystoneEngine,
    accounts: ScenarioAccounts,
    vaults: ScenarioVaults,
    operations: Vec<OperationReport>,
}

impl ScenarioAccounts {
    fn new() -> (r: Self)
        ensures
            r.senior_lp == account_of("senior-lp"),
            r.junior_lp == account_of("junior-lp"),
            r.borrower_ops == account_of("borrower-ops"),
            r.treasury == account_of("treasury"),
    {
        Self {
            senior_lp: AccountId::named("senior-lp"),
            junior_lp: AccountId::named("junior-lp"),
            borrower_ops: AccountId::named("borrower-ops"),
            treasury: AccountId::named("treasury"),
        }
    }

    /// The accounts by alias, in alias order.
    fn aliases(&self) -> (r: Vec<(String, AccountId)>)
        ensures
            r@.len() == 4,
            r@[0].0@ == "borrower_ops"@ && r@[0].1 == self.borrower_ops,
            r@[1].0@ == "junior_lp"@ && r@[1].1 == self.junior_lp,
            r@[2].0@ == "senior_lp"@ && r@[2].1 == self.senior_lp,
            r@[3].0@ == "treasury"@ && r@[3].1 == self.treasury,
    {
        vec![
            (String::from_str("borrower_ops"), self.borrower_ops),
            (String::from_str("junior_lp"), self.junior_lp),
            (String::from_str("senior_lp"), self.senior_lp),
            (String::from_str("treasury"), self.treasury),
        ]
    }
}

impl ScenarioVaults {
    /// The vaults by alias, in alias order.
    fn aliases(&self) -> (r: Vec<(String, VaultId)>)
        ensures
            r@.len() == 4,
            r@[0].0@ == "borrower"@ && r@[0].1 == self.borrower,
            r@[1].0@ == "junior"@ && r@[1].1 == self.junior,
            r@[2].0@ == "senior"@ && r@[2].1 == self.senior,
            r@[3].0@ == "treasury"@ && r@[3].1 == self.treasury,
    {
        vec![
            (String::from_str("borrower"), self.borrower),
            (String::from_str("junior"), self.junior),
            (String::from_str("senior"), self.senior),
            (String::from_str("treasury"), self.treasury),
        ]
    }
}

impl Fixture {
    /// The fixture's vaults and accounts are the scenario's, and its engine is sound and
    /// balanced.
    spec fn ready(&self) -> bool {
        &&& self.engine.wf()
        &&& self.engine.balanced()
        &&& self.vaults.senior == senior_vault()
        &&& self.vaults.junior == junior_vault()
        &&& self.vaults.borrower == borrower_vault()
        &&& self.vaults.treasury == treasury_vault()
        &&& self.accounts.senior_lp == account_of("senior-lp")
        &&& self.accounts.junior_lp == account_of("junior-lp")
        &&& self.accounts.borrower_ops == account_of("borrower-ops")
        &&& self.accounts.treasury == account_of("treasury")
    }

    /// Two fixtures with the same vaults and accounts.
    spec fn same_parties(&self, other: &Fixture) -> bool {
        self.vaults == other.vaults && self.accounts == other.accounts
    }

    fn new() -> (r: KeystoneResult<Self>)
        ensures
            r matches Ok(f) ==> f.engine.wf() && f.engine.balanced(),
            r matches Ok(f) ==> f.ready() && fixture_run(f.engine, f.operations@, Ok::<(), KeystoneError>(())),
            r matches Err(e) ==> exists|g: KeystoneEngine, go: Seq<OperationReport>|
                fixture_run(g, go, Err::<(), KeystoneError>(e)),
    {
        let asset = AssetId::native();
        let config = EngineConfig::local(asset)?;
        let mut engine = KeystoneEngine::new(config)?;
        let policy = ProtocolPolicy::for_tier(RiskTier::Prime)?;
        let ghost e0 = engine;
        let t = engine.set_policy(policy);
        let ghost e1 = engine;
        proof {
            assert(asset == scenario_asset());
            assert(e0.starts_from(local_config(scenario_asset())));
            assert(e0.set_policy_outcome(&e1, policy_for_tier(RiskTier::Prime), t));
        }
        t?;
        let r1 = engine.register_vault("atlas-income", VaultRole::Liquidity);
        let ghost e2 = engine;
        proof {
            assert(e1.register_outcome(&e2, "atlas-income", VaultRole::Liquidity, r1));
            if r1 is Err {
                assert(registered(e1, e2, Seq::<OperationReport>::empty(), Err::<(), KeystoneError>(r1->Err_0)));
                assert(fixture_run(e2, Seq::<OperationReport>::empty(), Err::<(), KeystoneError>(r1->Err_0)));
            }
        }
        let senior = r1?;
        let r2 = engine.register_vault("bridge-buffer", VaultRole::Hybrid);
        let ghost e3 = engine;
        proof {
            assert(e2.register_outcome(&e3, "bridge-buffer", VaultRole::Hybrid, r2));
            if r2 is Err {
                assert(registered(e1, e3, Seq::<OperationReport>::empty(), Err::<(), KeystoneError>(r2->Err_0)));
                assert(fixture_run(e3, Seq::<OperationReport>::empty(), Err::<(), KeystoneError>(r2->Err_0)));
            }
        }
        let junior = r2?;
        let r3 = engine.register_vault("delta-maker", VaultRole::Borrower);
        let ghost e4 = engine;
        proof {
            assert(e3.register_outcome(&e4, "delta-maker", VaultRole::Borrower, r3));
            if r3 is Err {
                assert(registered(e1, e4, Seq::<OperationReport>::empty(), Err::<(), KeystoneError>(r3->Err_0)));
                assert(fixture_run(e4, Seq::<OperationReport>::empty(), Err::<(), KeystoneError>(r3->Err_0)));
            }
        }
        let borrower = r3?;
        let r4 = engine.register_vault("keystone-treasury", VaultRole::Treasury);
        let ghost e5 = engine;
        proof {
            assert(e4.register_outcome(&e5, "keystone-treasury", VaultRole::Treasury, r4));
            if r4 is Err {
                assert(registered(e1, e5, Seq::<OperationReport>::empty(), Err::<(), KeystoneError>(r4->Err_0)));
                assert(fixture_run(e5, Seq::<OperationReport>::empty(), Err::<(), KeystoneError>(r4->Err_0)));
            }
        }
        let treasury = r4?;
        let accounts = ScenarioAccounts::new();
        let vaults = ScenarioVaults { senior, junior, borrower, treasury };
        let mut fixture = Self { engine, accounts, vaults, operations: Vec::new() };
        proof {
            assert(fixture.operations@ =~= Seq::<OperationReport>::empty());
        }
        let s = fixture.seed();
        proof {
            assert(registered(e1, fixture.engine, fixture.operations@, s));
            assert(fixture_run(fixture.engine, fixture.operations@, s));
        }
        s?;
        Ok(fixture)
    }

    fn seed(&mut self) -> (r: KeystoneResult<()>)
        requires
            old(self).ready(),
        ensures
            final(self).engine.wf(),
            final(self).engine.balanced(),
            final(self).same_parties(old(self)),
            r is Ok ==> final(self).ready(),
            seeded(old(self).engine, old(self).operations@, final(self).engine, final(self).operations@, r),
    {
        let ghost e0 = self.engine;
        let ghost o0 = self.operations@;
        let d1 = self.engine.deposit(self.vaults.senior, self.accounts.senior_lp, Amount(1_000_000));
        let ghost e1 = self.engine;
        proof {
            if d1 is Err {
                assert(deposit_step(e0, o0, senior_vault(), account_of("senior-lp"), Amount(1_000_000), "seed_senior"@, e1, o0, d1)) by {

                    reveal(deposit_step);

                }
            }
        }
        let receipt = d1?;
        self.operations.push(OperationReport::vault_shares("seed_senior", self.vaults.senior, receipt.amount, receipt.shares));
        let ghost o1 = self.operations@;
        proof {
            assert(o1.drop_last() =~= o0);
            assert(deposit_step(e0, o0, senior_vault(), account_of("senior-lp"), Amount(1_000_000), "seed_senior"@, e1, o1, d1)) by {

                reveal(deposit_step);

            }
        }
        let d2 = self.engine.deposit(self.vaults.senior, self.accounts.junior_lp, Amount(500_000));
        let ghost e2 = self.engine;
        proof {
            if d2 is Err {
                assert(deposit_step(e1, o1, senior_vault(), account_of("junior-lp"), Amount(500_000), "seed_secondary_senior"@, e2, o1, d2)) by {

                    reveal(deposit_step);

                }
            }
        }
        let receipt = d2?;
        self.operations.push(
            OperationReport::vault_shares("seed_secondary_senior", self.vaults.senior, receipt.amount, receipt.shares),
        );
        let ghost o2 = self.operations@;
        proof {
            assert(o2.drop_last() =~= o1);
            assert(deposit_step(e1, o1, senior_vault(), account_of("junior-lp"), Amount(500_000), "seed_secondary_senior"@, e2, o2, d2)) by {

                reveal(deposit_step);

            }
        }
        let d3 = self.engine.deposit(self.vaults.junior, self.accounts.junior_lp, Amount(250_000));
        let ghost e3 = self.engine;
        proof {
            if d3 is Err {
                assert(deposit_step(e2, o2, junior_vault(), account_of("junior-lp"), Amount(250_000), "seed_junior"@, e3, o2, d3)) by {

                    reveal(deposit_step);

                }
            }
        }
        let receipt = d3?;
        self.operations.push(OperationReport::vault_shares("seed_junior", self.vaults.junior, receipt.amount, receipt.shares));
        let ghost o3 = self.operations@;
        proof {
            assert(o3.drop_last() =~= o2);
            assert(deposit_step(e2, o2, junior_vault(), account_of("junior-lp"), Amount(250_000), "seed_junior"@, e3, o3, d3)) by {

                reveal(deposit_step);

            }
        }
        let d4 = self.engine.deposit(self.vaults.borrower, self.accounts.borrower_ops, Amount(650_000));
        let ghost e4 = self.engine;
        proof {
            if d4 is Err {
                assert(deposit_step(e3, o3, borrower_vault(), account_of("borrower-ops"), Amount(650_000), "seed_borrower"@, e4, o3, d4)) by {

                    reveal(deposit_step);

                }
            }
        }
        let receipt = d4?;
        self.operations.push(
            OperationReport::vault_shares("seed_borrower", self.vaults.borrower, receipt.amount, receipt.shares),
        );
        let ghost o4 = self.operations@;
        proof {
            assert(o4.drop_last() =~= o3);
            assert(deposit_step(e3, o3, borrower_vault(), account_of("borrower-ops"), Amount(650_000), "seed_borrower"@, e4, o4, d4)) by {

                reveal(deposit_step);

            }
        }
        let d5 = self.engine.deposit(self.vaults.treasury, self.accounts.treasury, Amount(50_000));
        let ghost e5 = self.engine;
        proof {
            if d5 is Err {
                assert(deposit_step(e4, o4, treasury_vault(), account_of("treasury"), Amount(50_000), "seed_treasury"@, e5, o4, d5)) by {

                    reveal(deposit_step);

                }
            }
        }
        let receipt = d5?;
        self.operations.push(
            OperationReport::vault_shares("seed_treasury", self.vaults.treasury, receipt.amount, receipt.shares),
        );
        proof {
            assert(self.operations@.drop_last() =~= o4);
            assert(deposit_step(e4, o4, treasury_vault(), account_of("treasury"), Amount(50_000), "seed_treasury"@, e5, self.operations@, d5)) by {

                reveal(deposit_step);

            }
        }
        Ok(())
    }

    /// The report of the fixture's engine under a scenario name.
    fn build(self, name: &str) -> (r: KeystoneResult<ScenarioReport>)
        requires
            self.ready(),
        ensures
            r matches Ok(rep) ==> rep.scenario@ == name@ && rep.engine.conservation_ok == self.engine.invariants_hold(),
            report_of(name@, self.engine, self.operations@, r),
    {
        let vault_aliases = self.vaults.aliases();
        let account_aliases = self.accounts.aliases();
        let r = ScenarioReport::build(name, &self.engine, vault_aliases, account_aliases, self.operations);
        proof {
            reveal(report_of);
        }
        r
    }

    fn open_primary_loan(&mut self) -> (r: KeystoneResult<LoanId>)
        requires
            old(self).ready(),
        ensures
            final(self).engine.wf(),
            final(self).same_parties(old(self)),
            r is Ok ==> final(self).ready(),
            primary_step(old(self).engine, old(self).operations@, final(self).engine, final(self).operations@, r),
    {
        let ghost o0 = self.operations@;
        proof {
            reveal(open_step);
        }
        let opened = self.engine.open_loan(self.vaults.senior, self.vaults.borrower, Amount(300_000), Amount(360_000), 90);
        let loan = opened?;
        self.operations.push(OperationReport::loan("open_primary", loan, Amount(300_000)));
        proof {
            assert(self.operations@.drop_last() =~= o0);
        }
        Ok(loan)
    }

    fn open_bridge_loan(&mut self) -> (r: KeystoneResult<LoanId>)
        requires
            old(self).ready(),
        ensures
            final(self).engine.wf(),
            final(self).same_parties(old(self)),
            r is Ok ==> final(self).ready(),
            bridge_step(old(self).engine, old(self).operations@, final(self).engine, final(self).operations@, r),
    {
        let ghost o0 = self.operations@;
        proof {
            reveal(open_step);
        }
        let opened = self.engine.open_loan(self.vaults.junior, self.vaults.borrower, Amount(80_000), Amount(96_000), 45);
        let loan = opened?;
        self.operations.push(OperationReport::loan("open_bridge", loan, Amount(80_000)));
        proof {
            assert(self.operations@.drop_last() =~= o0);
        }
        Ok(loan)
    }
}

/// Runs a scenario by name.
#[verifier::spinoff_prover]
#[verifier::rlimit(100)]
pub fn run_named(name: &str) -> (r: KeystoneResult<ScenarioReport>)
    ensures
        (forall|i: int| 0 <= i < 8 ==> name@ != (#[trigger] SCENARIO_NAMES@[i])@) ==> (r matches Err(
            KeystoneError::ScenarioNotFound(m),
        ) && m@ == name@),
        r matches Ok(rep) ==> rep.scenario@ == name@,
        name@ != "snapshot"@ ==> (r matches Ok(rep) ==> rep.engine.conservation_ok),
        name@ == "loan"@ ==> loan_run(r),
        name@ == "repayment"@ ==> repayment_run(r),
        name@ == "prepayment"@ ==> prepayment_run(r),
        name@ == "default"@ ==> default_run(r),
        name@ == "liquidation"@ ==> liquidation_run(r),
        name@ == "redistribution"@ ==> redistribution_run(r),
        name@ == "portfolio"@ ==> portfolio_run(r),
        name@ == "snapshot"@ ==> snapshot_run(r),
{
    let wanted = String::from_str(name);
    let mut i: usize = 0;
    while i < 8
        invariant
            0 <= i <= 8,
            wanted@ == name@,
            forall|j: int| 0 <= j < i ==> name@ != (#[trigger] SCENARIO_NAMES@[j])@,
        decreases 8 - i,
    {
        let candidate = String::from_str(SCENARIO_NAMES[i]);
        if candidate == wanted {
            proof {
                reveal_strlit("snapshot");
                reveal_strlit("loan");
                reveal_strlit("repayment");
                reveal_strlit("prepayment");
                reveal_strlit("default");
                reveal_strlit("liquidation");
                reveal_strlit("redistribution");
                reveal_strlit("portfolio");
            }
            if i == 0 {
                let r = loan();
                proof {
                    assert(name@ == "loan"@);
                    assert(name@.len() == 4 && name@[0] == 'l' && name@[1] == 'o');
                }
                return r;
            } else if i == 1 {
                let r = repayment();
                proof {
                    assert(name@ == "repayment"@);
                    assert(name@.len() == 9 && name@[0] == 'r' && name@[1] == 'e');
                }
                return r;
            } else if i == 2 {
                let r = prepayment();
                proof {
                    assert(name@ == "prepayment"@);
                    assert(name@.len() == 10 && name@[0] == 'p' && name@[1] == 'r');
                }
                return r;
            } else if i == 3 {
                let r = default_case();
                proof {
                    assert(name@ == "default"@);
                    assert(name@.len() == 7 && name@[0] == 'd' && name@[1] == 'e');
                }
                return r;
            } else if i == 4 {
                let r = liquidation();
                proof {
                    assert(name@ == "liquidation"@);
                    assert(name@.len() == 11 && name@[0] == 'l' && name@[1] == 'i');
                }
                return r;
            } else if i == 5 {
                let r = redistribution();
                proof {
                    assert(name@ == "redistribution"@);
                    assert(name@.len() == 14 && name@[0] == 'r' && name@[1] == 'e');
                }
                return r;
            } else if i == 6 {
                let r = portfolio();
                proof {
                    assert(name@ == "portfolio"@);
                    assert(name@.len() == 9 && name@[0] == 'p' && name@[1] == 'o');
                }
                return r;
            } else {
                let r = snapshot();
                proof {
                    assert(name@ == "snapshot"@);
                    assert(name@.len() == 8 && name@[0] == 's' && name@[1] == 'n');
                }
                return r;
            }
        }
        i = i + 1;
    }
    Err(KeystoneError::scenario(name))
}

#[verifier::spinoff_prover]
#[verifier::rlimit(100)]
pub fn snapshot() -> (r: KeystoneResult<ScenarioReport>)
    ensures
        r matches Ok(rep) ==> rep.scenario@ == "snapshot"@,
        snapshot_run(r),
{
    proof {
        reveal(snapshot_run);
    }
    let fixture = Fixture::new()?;
    let ghost e0 = fixture.engine;
    let ghost o0 = fixture.operations@;
    let r = fixture.build("snapshot");
    proof {
        assert(report_of("snapshot"@, e0, o0, r));
    }
    r
}

#[verifier::spinoff_prover]
#[verifier::rlimit(100)]
pub fn loan() -> (r: KeystoneResult<ScenarioReport>)
    ensures
        r matches Ok(rep) ==> rep.scenario@ == "loan"@ && rep.engine.conservation_ok,
        loan_run(r),
{
    proof {
        reveal(loan_run);
    }
    let mut fixture = Fixture::new()?;
    let ghost e0 = fixture.engine;
    let ghost o0 = fixture.operations@;
    let opened = fixture.open_primary_loan();
    let ghost e1 = fixture.engine;
    let ghost o1 = fixture.operations@;
    proof {
        assert(primary_step(e0, o0, e1, o1, opened));
    }
    opened?;
    let t = check_call(&mut fixture.engine);
    let ghost e2 = fixture.engine;
    t?;
    let r = fixture.build("loan");
    proof {
        assert(report_of("loan"@, e2, o1, r));
        assert(checked_report("loan"@, e1, o1, r));
    }
    r
}

/// Journals the invariant check on an engine.
fn check_call(engine: &mut KeystoneEngine) -> (t: KeystoneResult<crate::ids::TxId>)
    requires
        old(engine).wf(),
    ensures
        final(engine).wf(),
        invariant_step(*old(engine), *final(engine), t),
        t is Ok ==> final(engine).invariants_hold(),
{
    let t = engine.push_invariant_event();
    proof {
        reveal(invariant_step);
    }
    t
}

/// Moves an engine's clock forward.
fn advance_call(engine: &mut KeystoneEngine, epochs: u64) -> (t: KeystoneResult<crate::ids::TxId>)
    requires
        old(engine).wf(),
    ensures
        final(engine).wf(),
        old(engine).balanced() ==> final(engine).balanced(),
        advance_step(*old(engine), *final(engine), epochs, t),
{
    let t = engine.advance_by(epochs);
    proof {
        reveal(advance_step);
    }
    t
}

/// Repays a loan on an engine.
fn repay_call(engine: &mut KeystoneEngine, loan: LoanId, mode: RepaymentMode, principal: Option<Amount>) -> (q:
    KeystoneResult<crate::loan::PaymentQuote>)
    requires
        old(engine).wf(),
    ensures
        final(engine).wf(),
        old(engine).balanced() && q is Ok ==> final(engine).balanced(),
        repaid(*old(engine), *final(engine), loan, mode, principal, q),
{
    let q = engine.repay_loan(loan, mode, principal);
    proof {
        reveal(repaid);
    }
    q
}

/// Marks a loan of an engine defaulted.
fn default_call(engine: &mut KeystoneEngine, loan: LoanId) -> (d: KeystoneResult<u64>)
    requires
        old(engine).wf(),
    ensures
        final(engine).wf(),
        default_step(*old(engine), *final(engine), loan, d),
{
    let d = engine.mark_default(loan);
    proof {
        reveal(default_step);
    }
    d
}

/// Liquidates a loan of an engine.
fn liquidate_call(engine: &mut KeystoneEngine, loan: LoanId) -> (l: KeystoneResult<crate::liquidation::LiquidationResult>)
    requires
        old(engine).wf(),
    ensures
        final(engine).wf(),
        liquidate_step(*old(engine), *final(engine), loan, l),
{
    let l = engine.liquidate(loan);
    proof {
        reveal(liquidate_step);
    }
    l
}

/// Distributes a vault's realized interest on an engine.
#[verifier::spinoff_prover]
#[verifier::rlimit(100)]
fn distribute_call(engine: &mut KeystoneEngine, vault: VaultId) -> (c: KeystoneResult<Vec<InterestClaim>>)
    requires
        old(engine).wf(),
    ensures
        final(engine).wf(),
        distribute_step(*old(engine), *final(engine), vault, c),
{
    let c = engine.distribute_interest(vault);
    proof {
        reveal(distribute_step);
    }
    c
}

/// Redeems shares of a vault on an engine.
fn redeem_call(engine: &mut KeystoneEngine, vault: VaultId, owner: AccountId, shares: Shares) -> (d:
    KeystoneResult<crate::vault::RedemptionQuote>)
    requires
        old(engine).wf(),
    ensures
        final(engine).wf(),
        old(engine).redeem_outcome(final(engine), vault, owner, shares, d),
{
    engine.redeem(vault, owner, shares)
}

/// Opens the primary loan of a fixture and lets `epochs` epochs pass.
fn primary_and_wait(fixture: &mut Fixture, epochs: u64) -> (r: KeystoneResult<LoanId>)
    requires
        old(fixture).ready(),
    ensures
        final(fixture).engine.wf(),
        final(fixture).same_parties(old(fixture)),
        r is Ok ==> final(fixture).ready(),
        exists|e1: KeystoneEngine, o1: Seq<OperationReport>, r1: KeystoneResult<LoanId>|
            #[trigger] primary_step(old(fixture).engine, old(fixture).operations@, e1, o1, r1) && if r1 is Err {
                r == r1 && final(fixture).engine == e1 && final(fixture).operations@ == o1
            } else {
                exists|t: KeystoneResult<crate::ids::TxId>|
                    #[trigger] advance_step(e1, final(fixture).engine, epochs, t) && final(fixture).operations@ == o1
                        && if t is Err {
                        r == Err::<LoanId, KeystoneError>(t->Err_0)
                    } else {
                        r == r1
                    }
            },
{
    let ghost e0 = fixture.engine;
    let ghost o0 = fixture.operations@;
    let opened = fixture.open_primary_loan();
    let ghost e1 = fixture.engine;
    let ghost o1 = fixture.operations@;
    proof {
        assert(primary_step(e0, o0, e1, o1, opened));
    }
    let loan = opened?;
    let t = advance_call(&mut fixture.engine, epochs);
    t?;
    Ok(loan)
}

#[verifier::spinoff_prover]
#[verifier::rlimit(100)]
pub fn repayment() -> (r: KeystoneResult<ScenarioReport>)
    ensures
        r matches Ok(rep) ==> rep.scenario@ == "repayment"@ && rep.engine.conservation_ok,
        repayment_run(r),
{
    proof {
        reveal(repayment_run);
    }
    let mut fixture = Fixture::new()?;
    let ghost e0 = fixture.engine;
    let ghost o0 = fixture.operations@;
    let opened = primary_and_wait(&mut fixture, 90);
    let ghost e2 = fixture.engine;
    let ghost o2 = fixture.operations@;
    let loan = opened?;
    let ghost paid_e = fixture.engine;
    let ghost paid_o = fixture.operations@;
    let paid_q = repay_call(&mut fixture.engine, loan, RepaymentMode::Scheduled, None);
    let ghost paid_f = fixture.engine;
    proof {
        if paid_q is Err {
            assert(repay_step(paid_e, paid_o, loan, RepaymentMode::Scheduled, None, "scheduled_repay"@, paid_f, paid_o, paid_q, Err::<(), KeystoneError>(paid_q->Err_0))) by {
                reveal(repay_step);
            }
        }
    }
    let paid_quote = paid_q?;
    let paid_t = paid_quote.total();
    proof {
        if paid_t is Err {
            assert(repay_step(paid_e, paid_o, loan, RepaymentMode::Scheduled, None, "scheduled_repay"@, paid_f, paid_o, paid_q, Err::<(), KeystoneError>(paid_t->Err_0))) by {
                reveal(repay_step);
            }
        }
    }
    let paid_total = paid_t?;
    fixture.operations.push(OperationReport::loan("scheduled_repay", loan, paid_total));
    proof {
        assert(fixture.operations@.drop_last() =~= paid_o);
        assert(repay_step(paid_e, paid_o, loan, RepaymentMode::Scheduled, None, "scheduled_repay"@, paid_f, fixture.operations@, paid_q, Ok::<(), KeystoneError>(()))) by {
            reveal(repay_step);
        }
    }
    let ghost e3 = fixture.engine;
    let ghost o3 = fixture.operations@;
    let t = check_call(&mut fixture.engine);
    let ghost e4 = fixture.engine;
    t?;
    let r = fixture.build("repayment");
    proof {
        assert(report_of("repayment"@, e4, o3, r));
        assert(checked_report("repayment"@, e3, o3, r));
    }
    r
}

#[verifier::spinoff_prover]
#[verifier::rlimit(100)]
pub fn prepayment() -> (r: KeystoneResult<ScenarioReport>)
    ensures
        r matches Ok(rep) ==> rep.scenario@ == "prepayment"@ && rep.engine.conservation_ok,
        prepayment_run(r),
{
    proof {
        reveal(prepayment_run);
    }
    let mut fixture = Fixture::new()?;
    let opened = primary_and_wait(&mut fixture, 30);
    let loan = opened?;
    let ghost paid_e = fixture.engine;
    let ghost paid_o = fixture.operations@;
    let paid_q = repay_call(&mut fixture.engine, loan, RepaymentMode::Early, None);
    let ghost paid_f = fixture.engine;
    proof {
        if paid_q is Err {
            assert(repay_step(paid_e, paid_o, loan, RepaymentMode::Early, None, "early_repay"@, paid_f, paid_o, paid_q, Err::<(), KeystoneError>(paid_q->Err_0))) by {
                reveal(repay_step);
            }
        }
    }
    let paid_quote = paid_q?;
    let paid_t = paid_quote.total();
    proof {
        if paid_t is Err {
            assert(repay_step(paid_e, paid_o, loan, RepaymentMode::Early, None, "early_repay"@, paid_f, paid_o, paid_q, Err::<(), KeystoneError>(paid_t->Err_0))) by {
                reveal(repay_step);
            }
        }
    }
    let paid_total = paid_t?;
    fixture.operations.push(OperationReport::loan("early_repay", loan, paid_total));
    proof {
        assert(fixture.operations@.drop_last() =~= paid_o);
        assert(repay_step(paid_e, paid_o, loan, RepaymentMode::Early, None, "early_repay"@, paid_f, fixture.operations@, paid_q, Ok::<(), KeystoneError>(()))) by {
            reveal(repay_step);
        }
    }
    let ghost e3 = fixture.engine;
    let ghost o3 = fixture.operations@;
    let d = redeem_call(&mut fixture.engine, fixture.vaults.senior, fixture.accounts.junior_lp, Shares(125_000));
    let ghost e4 = fixture.engine;
    proof {
        if d is Err {
            assert(redeem_step(e3, o3, senior_vault(), account_of("junior-lp"), Shares(125_000), "routine_redeem"@, e4, o3, d)) by {

                reveal(redeem_step);

            }
        }
    }
    let redeem = d?;
    fixture.operations.push(
        OperationReport::vault_shares("routine_redeem", fixture.vaults.senior, redeem.amount, redeem.shares),
    );
    let ghost o4 = fixture.operations@;
    proof {
        assert(o4.drop_last() =~= o3);
        assert(redeem_step(e3, o3, senior_vault(), account_of("junior-lp"), Shares(125_000), "routine_redeem"@, e4, o4, d)) by {

            reveal(redeem_step);

        }
    }
    let t = check_call(&mut fixture.engine);
    let ghost e5 = fixture.engine;
    t?;
    let r = fixture.build("prepayment");
    proof {
        assert(report_of("prepayment"@, e5, o4, r));
        assert(checked_report("prepayment"@, e4, o4, r));
    }
    r
}

#[verifier::spinoff_prover]
#[verifier::rlimit(100)]
pub fn default_case() -> (r: KeystoneResult<ScenarioReport>)
    ensures
        r matches Ok(rep) ==> rep.scenario@ == "default"@ && rep.engine.conservation_ok,
        default_run(r),
{
    proof {
        reveal(default_run);
    }
    let mut fixture = Fixture::new()?;
    let opened = primary_and_wait(&mut fixture, 95);
    let ghost e2 = fixture.engine;
    let ghost o2 = fixture.operations@;
    let loan = opened?;
    let d = default_call(&mut fixture.engine, loan);
    let ghost e3 = fixture.engine;
    let overdue = d?;
    let mut label = String::from_str("mark_default_");
    push_decimal(&mut label, overdue);
    fixture.operations.push(OperationReport::loan(label.as_str(), loan, Amount(overdue)));
    let ghost o3 = fixture.operations@;
    proof {
        assert(o3.drop_last() =~= o2);
        assert(one_more(o2, o3));
    }
    let t = check_call(&mut fixture.engine);
    let ghost e4 = fixture.engine;
    t?;
    let r = fixture.build("default");
    proof {
        assert(report_of("default"@, e4, o3, r));
        assert(checked_report("default"@, e3, o3, r));
    }
    r
}

#[verifier::spinoff_prover]
#[verifier::rlimit(100)]
pub fn liquidation() -> (r: KeystoneResult<ScenarioReport>)
    ensures
        r matches Ok(rep) ==> rep.scenario@ == "liquidation"@ && rep.engine.conservation_ok,
        liquidation_run(r),
{
    proof {
        reveal(liquidation_run);
    }
    let mut fixture = Fixture::new()?;
    let opened = primary_and_wait(&mut fixture, 95);
    let ghost e2 = fixture.engine;
    let ghost o2 = fixture.operations@;
    let loan = opened?;
    let d = default_call(&mut fixture.engine, loan);
    let ghost e3 = fixture.engine;
    d?;
    let l = liquidate_call(&mut fixture.engine, loan);
    let ghost e4 = fixture.engine;
    let result = l?;
    fixture.operations.push(OperationReport::loan("liquidate_primary", loan, result.seized));
    let ghost o4 = fixture.operations@;
    proof {
        assert(o4.drop_last() =~= o2);
        assert(one_more(o2, o4));
    }
    let t = check_call(&mut fixture.engine);
    let ghost e5 = fixture.engine;
    t?;
    let r = fixture.build("liquidation");
    proof {
        assert(report_of("liquidation"@, e5, o4, r));
        assert(checked_report("liquidation"@, e4, o4, r));
    }
    r
}

/// The total of a list of claims, where it fits an amount.
fn claimed_total(claims: &Vec<InterestClaim>) -> (r: KeystoneResult<Amount>)
    ensures
        r == crate::amount::amount_of(crate::vault::claims_total(claims@)),
{
    let mut amounts: Vec<Amount> = Vec::new();
    let mut i: usize = 0;
    while i < claims.len()
        invariant
            0 <= i <= claims@.len(),
            amounts@ == claims@.take(i as int).map_values(|c: InterestClaim| c.amount),
        decreases claims@.len() - i,
    {
        amounts.push(claims[i].amount);
        i = i + 1;
        assert(amounts@ =~= claims@.take(i as int).map_values(|c: InterestClaim| c.amount));
    }
    assert(claims@.take(claims@.len() as int) =~= claims@);
    proof {
        lemma_claims_total(claims@);
    }
    Amount::checked_sum(amounts.as_slice())
}

/// The total of claims is the sum of their amounts.
proof fn lemma_claims_total(c: Seq<InterestClaim>)
    ensures
        crate::amount::sum_amounts(c.map_values(|x: InterestClaim| x.amount)) == crate::vault::claims_total(c),
    decreases c.len(),
{
    if c.len() > 0 {
        lemma_claims_total(c.drop_last());
        assert(c.map_values(|x: InterestClaim| x.amount).drop_last() =~= c.drop_last().map_values(
            |x: InterestClaim| x.amount,
        ));
    }
}

#[verifier::spinoff_prover]
#[verifier::rlimit(100)]
pub fn redistribution() -> (r: KeystoneResult<ScenarioReport>)
    ensures
        r matches Ok(rep) ==> rep.scenario@ == "redistribution"@ && rep.engine.conservation_ok,
        redistribution_run(r),
{
    proof {
        reveal(redistribution_run);
    }
    let mut fixture = Fixture::new()?;
    let opened = primary_and_wait(&mut fixture, 90);
    let loan = opened?;
    let ghost paid_e = fixture.engine;
    let ghost paid_o = fixture.operations@;
    let paid_q = repay_call(&mut fixture.engine, loan, RepaymentMode::Scheduled, None);
    let ghost paid_f = fixture.engine;
    proof {
        if paid_q is Err {
            assert(repay_step(paid_e, paid_o, loan, RepaymentMode::Scheduled, None, "scheduled_repay"@, paid_f, paid_o, paid_q, Err::<(), KeystoneError>(paid_q->Err_0))) by {
                reveal(repay_step);
            }
        }
    }
    let paid_quote = paid_q?;
    let paid_t = paid_quote.total();
    proof {
        if paid_t is Err {
            assert(repay_step(paid_e, paid_o, loan, RepaymentMode::Scheduled, None, "scheduled_repay"@, paid_f, paid_o, paid_q, Err::<(), KeystoneError>(paid_t->Err_0))) by {
                reveal(repay_step);
            }
        }
    }
    let paid_total = paid_t?;
    fixture.operations.push(OperationReport::loan("scheduled_repay", loan, paid_total));
    proof {
        assert(fixture.operations@.drop_last() =~= paid_o);
        assert(repay_step(paid_e, paid_o, loan, RepaymentMode::Scheduled, None, "scheduled_repay"@, paid_f, fixture.operations@, paid_q, Ok::<(), KeystoneError>(()))) by {
            reveal(repay_step);
        }
    }
    let ghost e3 = fixture.engine;
    let ghost o3 = fixture.operations@;
    let c = distribute_call(&mut fixture.engine, fixture.vaults.senior);
    let ghost e4 = fixture.engine;
    let claims = c?;
    let total = claimed_total(&claims)?;
    fixture.operations.push(OperationReport::vault_amount("distribute_interest", fixture.vaults.senior, total));
    let ghost o4 = fixture.operations@;
    proof {
        assert(o4.drop_last() =~= o3);
        assert(one_more(o3, o4));
    }
    let t = check_call(&mut fixture.engine);
    let ghost e5 = fixture.engine;
    t?;
    let r = fixture.build("redistribution");
    proof {
        assert(report_of("redistribution"@, e5, o4, r));
        assert(checked_report("redistribution"@, e4, o4, r));
    }
    r
}

#[verifier::spinoff_prover]
#[verifier::rlimit(100)]
pub fn portfolio() -> (r: KeystoneResult<ScenarioReport>)
    ensures
        r matches Ok(rep) ==> rep.scenario@ == "portfolio"@ && rep.engine.conservation_ok,
        portfolio_run(r),
{
    proof {
        reveal(portfolio_run);
    }
    let mut fixture = Fixture::new()?;
    let ghost e0 = fixture.engine;
    let ghost o0 = fixture.operations@;
    let p = fixture.open_primary_loan();
    let ghost e1 = fixture.engine;
    let ghost o1 = fixture.operations@;
    proof {
        assert(primary_step(e0, o0, e1, o1, p));
    }
    let primary = p?;
    let b = fixture.open_bridge_loan();
    let ghost e2 = fixture.engine;
    let ghost o2 = fixture.operations@;
    proof {
        assert(bridge_step(e1, o1, e2, o2, b));
    }
    let bridge = b?;
    let t1 = advance_call(&mut fixture.engine, 20);
    let ghost e3 = fixture.engine;
    t1?;
    let ghost s2_e = fixture.engine;
    let ghost s2_o = fixture.operations@;
    let s2_q = repay_call(&mut fixture.engine, bridge, RepaymentMode::Partial, Some(Amount(30_000)));
    let ghost s2_f = fixture.engine;
    proof {
        if s2_q is Err {
            assert(repay_step(s2_e, s2_o, bridge, RepaymentMode::Partial, Some(Amount(30_000)), "partial_bridge_repay"@, s2_f, s2_o, s2_q, Err::<(), KeystoneError>(s2_q->Err_0))) by {
                reveal(repay_step);
            }
        }
    }
    let s2_quote = s2_q?;
    let s2_t = s2_quote.total();
    proof {
        if s2_t is Err {
            assert(repay_step(s2_e, s2_o, bridge, RepaymentMode::Partial, Some(Amount(30_000)), "partial_bridge_repay"@, s2_f, s2_o, s2_q, Err::<(), KeystoneError>(s2_t->Err_0))) by {
                reveal(repay_step);
            }
        }
    }
    let s2_total = s2_t?;
    fixture.operations.push(OperationReport::loan("partial_bridge_repay", bridge, s2_total));
    proof {
        assert(fixture.operations@.drop_last() =~= s2_o);
        assert(repay_step(s2_e, s2_o, bridge, RepaymentMode::Partial, Some(Amount(30_000)), "partial_bridge_repay"@, s2_f, fixture.operations@, s2_q, Ok::<(), KeystoneError>(()))) by {
            reveal(repay_step);
        }
    }
    let ghost e4 = fixture.engine;
    let ghost o4 = fixture.operations@;
    let t3 = advance_call(&mut fixture.engine, 70);
    let ghost e5 = fixture.engine;
    t3?;
    let ghost s4_e = fixture.engine;
    let ghost s4_o = fixture.operations@;
    let s4_q = repay_call(&mut fixture.engine, primary, RepaymentMode::Scheduled, None);
    let ghost s4_f = fixture.engine;
    proof {
        if s4_q is Err {
            assert(repay_step(s4_e, s4_o, primary, RepaymentMode::Scheduled, None, "scheduled_primary_repay"@, s4_f, s4_o, s4_q, Err::<(), KeystoneError>(s4_q->Err_0))) by {
                reveal(repay_step);
            }
        }
    }
    let s4_quote = s4_q?;
    let s4_t = s4_quote.total();
    proof {
        if s4_t is Err {
            assert(repay_step(s4_e, s4_o, primary, RepaymentMode::Scheduled, None, "scheduled_primary_repay"@, s4_f, s4_o, s4_q, Err::<(), KeystoneError>(s4_t->Err_0))) by {
                reveal(repay_step);
            }
        }
    }
    let s4_total = s4_t?;
    fixture.operations.push(OperationReport::loan("scheduled_primary_repay", primary, s4_total));
    proof {
        assert(fixture.operations@.drop_last() =~= s4_o);
        assert(repay_step(s4_e, s4_o, primary, RepaymentMode::Scheduled, None, "scheduled_primary_repay"@, s4_f, fixture.operations@, s4_q, Ok::<(), KeystoneError>(()))) by {
            reveal(repay_step);
        }
    }
    let ghost e6 = fixture.engine;
    let ghost o6 = fixture.operations@;
    let t = check_call(&mut fixture.engine);
    let ghost e7 = fixture.engine;
    t?;
    let r = fixture.build("portfolio");
    proof {
        assert(report_of("portfolio"@, e7, o6, r));
        assert(checked_report("portfolio"@, e6, o6, r));
    }
    r
}

} // verus!
