use vstd::prelude::*;
use vstd::string::{StringExecFns, StringSliceAdditionalSpecFns};

use crate::amount::{amount_of, annualized_ceil, div_up, lemma_div_up_share, Amount, Bps, Shares};
use crate::error::{KeystoneError, KeystoneResult};
use crate::events::{event_after, EventKind, Journal};
use crate::ids::{parts_digest, AccountId, AssetId, Digest, LoanId, TxId, VaultId, VAULT_DOMAIN};
use crate::keys::{key_index, lemma_key_index, lemma_key_index_of, OrderedKey, SortedMap};
use crate::loan::{
    balances_unchanged, default_result, early_quote_of, liquidation_close_effect, liquidation_close_result, loan_id_of,
    remaining_sched_of, mode_name, partial_quote_of, repayment_effect, repayment_result, scheduled_quote_of,
    loan_snapshot_of, status_terminal, terms_digest_of, LoanSnapshot, LoanState, LoanStatus, LoanTerms, LoanTermsInput, PaymentQuote, RepaymentMode,
};
use crate::oracle::{json_oracle, unit_price, OracleBook, ORACLE_BOOK_DOMAIN};
use crate::liquidation::{
    interest_covered_of, plan_of, principal_covered_of, reserve_recovery_of, LiquidationPlan, LiquidationResult,
};
use crate::policy::{open_loan_check, policy_for_tier, quoted_rate_of, ProtocolPolicy, RiskTier, POLICY_DOMAIN};
use crate::json::json_protocol_policy;
use crate::sums::{
    lemma_sum_element_le, lemma_sum_insert, lemma_sum_prefix_le, lemma_sum_prefix_le_on, lemma_sum_take_next,
    lemma_sum_update, seq_sum,
};
use crate::canon::{dec, json_array, json_hex, json_join, lemma_join_next, lit, push_dec, push_json_hex, push_lit};
use crate::json::{json_loan_snapshot, json_vault_snapshot, write_loan_snapshot, write_vault_snapshot};
use crate::ids::state_digest_from_json;
use crate::time::{Epoch, EpochClock, Schedule};
use crate::vault::{
    draw_outcome, fund_outcome, pay_repayment_outcome, receive_repayment_outcome, reduce_expected_outcome,
    release_outcome, proceeds_outcome, seize_outcome, extinguish_outcome, lendable_of, lock_result, lock_state, nav_of, role_borrows, role_lends, gross_of, liabilities_of,
    utilization_of, deposit_effect, claims_total, distribution_effect, snapshot_matches, total_shares, InterestClaim,
    VaultSnapshot, redeem_effect, redeem_quote_of, role_name, same_ledger, vault_wf, DepositReceipt, RedemptionQuote, Vault,
    VaultRole,
};

verus! {

pub const ENGINE_STATE_DOMAIN: &'static str = "keystonexdtl-engine-state-v1";

/// How an engine starts: its network, asset, first epoch and policy.
#[derive(Clone, Copy, Debug)]
pub struct EngineConfig {
    pub network_id: u32,
    pub asset: AssetId,
    pub start_epoch: Epoch,
    pub default_policy: ProtocolPolicy,
}

/// The configuration of a local engine for an asset.
pub open spec fn local_config(asset: AssetId) -> EngineConfig {
    EngineConfig {
        network_id: 8_812,
        asset,
        start_epoch: Epoch(1),
        default_policy: policy_for_tier(RiskTier::Prime),
    }
}

impl EngineConfig {
    pub fn local(asset: AssetId) -> (r: KeystoneResult<Self>)
        ensures
            r == Ok::<EngineConfig, KeystoneError>(local_config(asset)),
    {
        Ok(Self { network_id: 8_812, asset, start_epoch: Epoch(1), default_policy: ProtocolPolicy::default_prime()? })
    }
}

/// The credit engine: vaults, the loans between them, the policy, the clock and the journal of
/// everything that happened.
#[derive(Debug)]
pub struct KeystoneEngine {
    config: EngineConfig,
    clock: EpochClock,
    policy: ProtocolPolicy,
    oracle: OracleBook,
    vaults: SortedMap<VaultId, Vault>,
    loans: SortedMap<LoanId, LoanState>,
    journal: Journal,
    next_loan_nonce: u64,
}

/// Principal that lenders have outstanding.
pub open spec fn lent_principal(vs: Seq<Vault>) -> int {
    seq_sum(vs, |v: Vault| v.outstanding_principal.0 as int)
}

/// Principal that borrowers owe.
pub open spec fn borrowed_principal(vs: Seq<Vault>) -> int {
    seq_sum(vs, |v: Vault| v.debt_principal.0 as int)
}

/// Interest that borrowers owe.
pub open spec fn borrowed_interest(vs: Seq<Vault>) -> int {
    seq_sum(vs, |v: Vault| v.debt_interest_due.0 as int)
}

/// The net value of a vault as a number: gross assets less liabilities, which is its net asset
/// value wherever that is an amount.
pub open spec fn net_value_of(v: Vault) -> int {
    gross_of(v) - liabilities_of(v)
}

/// The net value of all the vaults together.
pub open spec fn total_net_value(vs: Seq<Vault>) -> int {
    seq_sum(vs, |v: Vault| net_value_of(v))
}

/// The cash and locked collateral of all the vaults together.
pub open spec fn total_holdings(vs: Seq<Vault>) -> int {
    seq_sum(vs, |v: Vault| v.cash.0 + v.locked_collateral.0)
}

/// The principal a loan still has open: none once it is closed.
pub open spec fn open_principal_of(l: LoanState) -> int {
    if status_terminal(l.status()) {
        0
    } else {
        l.remaining_principal().0 as int
    }
}

/// The scheduled interest a loan has not yet released from its borrower: none once it is closed.
pub open spec fn open_interest_of(l: LoanState) -> int {
    if status_terminal(l.status()) {
        0
    } else {
        l.scheduled_interest().0 - l.borrower_interest_released().0
    }
}

pub open spec fn open_principal(ls: Seq<LoanState>) -> int {
    seq_sum(ls, |l: LoanState| open_principal_of(l))
}

pub open spec fn open_interest(ls: Seq<LoanState>) -> int {
    seq_sum(ls, |l: LoanState| open_interest_of(l))
}

/// The number of loans that are not closed.
pub open spec fn active_count(ls: Seq<LoanState>) -> int {
    seq_sum(ls, |l: LoanState| if status_terminal(l.status()) { 0int } else { 1int })
}

/// Replacing a vault by one with the same lending and borrowing balances keeps every total.
pub proof fn lemma_ledger_swap(vs: Seq<Vault>, i: int, v: Vault)
    requires
        0 <= i < vs.len(),
        same_ledger(vs[i], v),
    ensures
        lent_principal(vs.update(i, v)) == lent_principal(vs),
        borrowed_principal(vs.update(i, v)) == borrowed_principal(vs),
        borrowed_interest(vs.update(i, v)) == borrowed_interest(vs),
{
    lemma_sum_update(vs, i, v, |v: Vault| v.outstanding_principal.0 as int);
    lemma_sum_update(vs, i, v, |v: Vault| v.debt_principal.0 as int);
    lemma_sum_update(vs, i, v, |v: Vault| v.debt_interest_due.0 as int);
}

/// The journal after appending one event at an epoch.
pub open spec fn pushed(j: Journal, f: Journal, epoch: Epoch, kind: EventKind) -> bool {
    let event = event_after(j.spec_digest(), j.spec_events().len() as u64, epoch, kind);
    &&& f.spec_events() == j.spec_events().push(event)
    &&& f.spec_digest() == event.state_digest
}

/// Every key but `k` is in `n` exactly where it is in `m`, with the same value.
pub open spec fn others_kept<K: OrderedKey, V>(m: SortedMap<K, V>, n: SortedMap<K, V>, k: K) -> bool {
    &&& forall|o: K| o != k ==> (#[trigger] n.has(o)) == m.has(o)
    &&& forall|o: K| o != k && m.has(o) ==> #[trigger] n.at(o) == m.at(o)
}

/// The identity of the vault registered under a name for an asset.
pub open spec fn vault_id_of(name: &str, asset: AssetId) -> VaultId {
    VaultId(parts_digest(VAULT_DOMAIN, seq![name.spec_bytes(), asset.0.0@]))
}

/// The checks before a loan is opened, in order: matching assets, lending and borrowing roles,
/// the rate quoted at the lender's utilization, the schedule, the scheduled interest, the
/// borrower's debt after the loan, the policy's opening checks and the lender's lendable cash.
/// They give the rate, the schedule and the scheduled interest.
pub open spec fn open_checks_of(
    l: Vault,
    b: Vault,
    asset: AssetId,
    policy: ProtocolPolicy,
    now: Epoch,
    principal: Amount,
    collateral: Amount,
    tenor: u64,
) -> KeystoneResult<(Bps, Schedule, Amount)> {
    let epy = policy.interest.epochs_per_year;
    if l.asset != b.asset || l.asset != asset {
        Err(KeystoneError::AssetMismatch)
    } else if !role_lends(l.role) || !role_borrows(b.role) {
        Err(KeystoneError::VaultRoleMismatch)
    } else {
        match utilization_of(l) {
            Err(e) => Err(e),
            Ok(u) => match quoted_rate_of(policy.interest, u, policy.collateral.tier) {
                Err(e) => Err(e),
                Ok(rate) => if tenor == 0 || epy == 0 {
                    Err(KeystoneError::InvalidTenor)
                } else if now.0 + tenor > u64::MAX {
                    Err(KeystoneError::AmountOverflow)
                } else {
                    let schedule = Schedule {
                        start: now,
                        maturity: Epoch((now.0 + tenor) as u64),
                        grace_epochs: 3,
                        epochs_per_year: epy,
                    };
                    match annualized_ceil(rate.0 as int, principal.0 as int, tenor as int, epy as int) {
                        Err(e) => Err(e),
                        Ok(si) => {
                            let debt_after = b.debt_principal.0 + principal.0 + b.debt_interest_due.0 + si.0;
                            if debt_after > u64::MAX {
                                Err(KeystoneError::AmountOverflow)
                            } else {
                                match nav_of(l) {
                                    Err(e) => Err(e),
                                    Ok(lnav) => match nav_of(b) {
                                        Err(e) => Err(e),
                                        Ok(bnav) => match open_loan_check(
                                            policy,
                                            principal,
                                            collateral,
                                            lnav,
                                            Amount(debt_after as u64),
                                            if bnav.0 >= 1 { bnav } else { Amount(1) },
                                        ) {
                                            Err(e) => Err(e),
                                            Ok(_) => match lendable_of(l, policy) {
                                                Err(e) => Err(e),
                                                Ok(available) => if principal.0 > available.0 {
                                                    Err(KeystoneError::InsufficientLiquidity)
                                                } else {
                                                    Ok((rate, schedule, si))
                                                },
                                            },
                                        },
                                    },
                                }
                            }
                        },
                    }
                },
            },
        }
    }
}

/// A loan that passes the opening checks is between vaults of the engine's asset that can lend
/// and borrow; it is priced at the rate quoted at the lender's utilization; its schedule starts now
/// and matures after the tenor with three epochs of grace; its scheduled interest is simple
/// interest on the principal at that rate over the tenor, rounded up; it passes the policy's
/// opening checks with the borrower's debt after it; and it lends no more than the lender can.
pub proof fn lemma_open_checks(
    l: Vault,
    b: Vault,
    asset: AssetId,
    policy: ProtocolPolicy,
    now: Epoch,
    principal: Amount,
    collateral: Amount,
    tenor: u64,
)
    requires
        open_checks_of(l, b, asset, policy, now, principal, collateral, tenor) is Ok,
    ensures
        ({
            let (rate, schedule, si) = open_checks_of(l, b, asset, policy, now, principal, collateral, tenor)->Ok_0;
            let epy = policy.interest.epochs_per_year as int;
            let x = rate.0 * principal.0 * tenor;
            &&& l.asset == asset && b.asset == asset
            &&& role_lends(l.role) && role_borrows(b.role)
            &&& utilization_of(l) is Ok
            &&& quoted_rate_of(policy.interest, utilization_of(l)->Ok_0, policy.collateral.tier) == Ok::<
                Bps,
                KeystoneError,
            >(rate)
            &&& tenor > 0 && epy > 0
            &&& schedule.start == now && schedule.maturity.0 == now.0 + tenor && schedule.grace_epochs == 3
                && schedule.epochs_per_year == epy
            &&& si.0 == (if x == 0 { 0 } else { (x + 10_000 * epy - 1) / (10_000 * epy) })
            &&& nav_of(l) is Ok && nav_of(b) is Ok
            &&& open_loan_check(
                policy,
                principal,
                collateral,
                nav_of(l)->Ok_0,
                Amount((b.debt_principal.0 + principal.0 + b.debt_interest_due.0 + si.0) as u64),
                nav_of(b)->Ok_0,
            ) is Ok
            &&& b.debt_principal.0 + principal.0 + b.debt_interest_due.0 + si.0 <= u64::MAX
            &&& lendable_of(l, policy) is Ok && principal.0 <= lendable_of(l, policy)->Ok_0.0
        }),
{
    let (rate, schedule, si) = open_checks_of(l, b, asset, policy, now, principal, collateral, tenor)->Ok_0;
    let r = rate.0 as int;
    let p = principal.0 as int;
    let t = tenor as int;
    assert(r * p * t == p * r * t) by (nonlinear_arith);
    if r == 0 || p == 0 || t == 0 {
        assert(r * p * t == 0) by (nonlinear_arith)
            requires
                r == 0 || p == 0 || t == 0,
        ;
    } else {
        assert(r * p * t > 0) by (nonlinear_arith)
            requires
                r > 0,
                p > 0,
                t > 0,
        ;
    }
}

/// Moving the money of a new loan: the borrower locks the collateral, the lender funds the
/// principal and expects the interest, the borrower draws the principal and owes the interest.
/// The result is that of the first step that fails, if any; on failure nothing moves.
pub open spec fn open_moves_of(l: Vault, b: Vault, principal: Amount, collateral: Amount, si: Amount) -> (
    KeystoneResult<()>,
    Vault,
    Vault,
) {
    let funded = fund_outcome(l, principal, si);
    let drawn = draw_outcome(lock_state(b, collateral), principal, si);
    if lock_result(b, collateral) is Err {
        (lock_result(b, collateral), l, b)
    } else if funded.0 is Err {
        (funded.0, l, b)
    } else if drawn.0 is Err {
        (drawn.0, l, b)
    } else {
        (Ok(()), funded.1, drawn.1)
    }
}

/// The terms of a new loan between two vaults.
pub open spec fn new_terms(
    network_id: u32,
    lender: VaultId,
    borrower: VaultId,
    principal: Amount,
    collateral: Amount,
    rate: Bps,
    schedule: Schedule,
    policy: ProtocolPolicy,
    nonce: u64,
) -> LoanTerms {
    LoanTerms {
        network_id,
        lender,
        borrower,
        principal,
        collateral,
        annual_rate_bps: rate,
        schedule,
        policy_digest: parts_digest(POLICY_DOMAIN, seq![json_protocol_policy(policy)]),
        nonce,
    }
}

/// A loan as `LoanState::activate` makes it from its terms and scheduled interest.
pub open spec fn activated(l: LoanState, terms: LoanTerms, si: Amount) -> bool {
    &&& l.id() == loan_id_of(terms)
    &&& l.terms() == terms
    &&& l.spec_terms_digest() == terms_digest_of(terms)
    &&& l.status() == LoanStatus::Active
    &&& l.remaining_principal() == terms.principal
    &&& l.scheduled_interest() == si
    &&& l.interest_paid() == Amount(0)
    &&& l.borrower_interest_released() == Amount(0)
    &&& l.collateral_locked() == terms.collateral
    &&& l.collateral_released() == Amount(0)
    &&& l.default_epoch() == None::<Epoch>
}

impl KeystoneEngine {
    /// The vaults of `other` with the two under `a` and `b` replaced by this engine's.
    pub open spec fn two_vaults_replaced(&self, other: &KeystoneEngine, a: VaultId, b: VaultId) -> bool {
        &&& self.spec_vaults().keys@ == other.spec_vaults().keys@
        &&& self.spec_vaults().vals@ == other.spec_vaults().vals@.update(
            key_index(other.spec_vaults().keys@, a),
            self.vault_of(a),
        ).update(key_index(other.spec_vaults().keys@, b), self.vault_of(b))
    }

    /// What `open_loan` does: the limit on active loans, the parties, the checks, the moves of
    /// money, the nonce, the terms and the loan are all checked before anything changes; then the
    /// money moves, the loan is stored under its identity and the journal records it. A refused
    /// opening changes nothing.
    pub open spec fn open_loan_outcome(
        &self,
        f: &KeystoneEngine,
        lender: VaultId,
        borrower: VaultId,
        principal: Amount,
        collateral: Amount,
        tenor: u64,
        r: KeystoneResult<LoanId>,
    ) -> bool {
        if active_count(self.spec_loans().vals@) >= self.spec_policy().limits.max_active_loans {
            r == Err::<LoanId, KeystoneError>(KeystoneError::LimitExceeded) && *f == *self
        } else if lender == borrower {
            r == Err::<LoanId, KeystoneError>(KeystoneError::SelfLoan) && *f == *self
        } else if !self.has_vault(lender) || !self.has_vault(borrower) {
            r == Err::<LoanId, KeystoneError>(KeystoneError::VaultNotFound) && *f == *self
        } else {
            let l = self.vault_of(lender);
            let b = self.vault_of(borrower);
            match open_checks_of(
                l,
                b,
                self.spec_config().asset,
                self.spec_policy(),
                self.spec_epoch(),
                principal,
                collateral,
                tenor,
            ) {
                Err(e) => r == Err::<LoanId, KeystoneError>(e) && *f == *self,
                Ok(plan) => {
                    let rate = plan.0;
                    let schedule = plan.1;
                    let si = plan.2;
                    let moves = open_moves_of(l, b, principal, collateral, si);
                    let nonce = self.spec_nonce();
                    let terms = new_terms(
                        self.spec_config().network_id,
                        l.id,
                        b.id,
                        principal,
                        collateral,
                        rate,
                        schedule,
                        self.spec_policy(),
                        nonce,
                    );
                    let id = loan_id_of(terms);
                    if moves.0 is Err {
                        r == Err::<LoanId, KeystoneError>(moves.0->Err_0) && *f == *self
                    } else if nonce == u64::MAX {
                        r == Err::<LoanId, KeystoneError>(KeystoneError::AmountOverflow) && *f == *self
                    } else if principal.0 == 0 {
                        r == Err::<LoanId, KeystoneError>(KeystoneError::ZeroAmount) && *f == *self
                    } else if collateral.0 == 0 {
                        r == Err::<LoanId, KeystoneError>(KeystoneError::InvalidCollateral) && *f == *self
                    } else if self.has_loan(id) {
                        r == Err::<LoanId, KeystoneError>(KeystoneError::LoanAlreadyExists) && *f == *self
                    } else {
                        &&& r == Ok::<LoanId, KeystoneError>(id)
                        &&& f.two_vaults_replaced(self, lender, borrower)
                        &&& f.vault_of(lender) == moves.1
                        &&& f.vault_of(borrower) == moves.2
                        &&& f.spec_config() == self.spec_config()
                        &&& f.spec_clock() == self.spec_clock()
                        &&& f.spec_policy() == self.spec_policy()
                        &&& f.spec_oracle() == self.spec_oracle()
                        &&& f.spec_nonce() == nonce + 1
                        &&& f.has_loan(id)
                        &&& activated(f.loan_of(id), terms, si)
                        &&& others_kept(self.spec_loans(), f.spec_loans(), id)
                        &&& f.spec_loans().keys@.len() == self.spec_loans().keys@.len() + 1
                        &&& pushed(
                            self.spec_journal(),
                            f.spec_journal(),
                            self.spec_epoch(),
                            EventKind::LoanOpened { loan: id, lender, borrower, principal, projected_interest: si },
                        )
                    }
                },
            }
        }
    }
}

/// The journal after appending one event at an epoch, whatever its kind.
pub open spec fn appended_one(j: Journal, f: Journal, epoch: Epoch) -> bool {
    &&& f.spec_events().len() == j.spec_events().len() + 1
    &&& pushed(j, f, epoch, f.spec_events().last().kind)
}

/// The journal after appending two events at an epoch, whatever their kinds.
pub open spec fn appended_two(j: Journal, f: Journal, epoch: Epoch) -> bool {
    let n = j.spec_events().len();
    let first = event_after(j.spec_digest(), n as u64, epoch, f.spec_events()[n as int].kind);
    let second = event_after(first.state_digest, (n + 1) as u64, epoch, f.spec_events()[n + 1int].kind);
    &&& f.spec_events() == j.spec_events().push(first).push(second)
    &&& f.spec_digest() == second.state_digest
}

/// The quote for repaying a loan in a mode at an epoch; a partial repayment of no stated
/// principal repays all of it.
pub open spec fn repayment_quote_of(
    l: LoanState,
    mode: RepaymentMode,
    principal: Option<Amount>,
    now: Epoch,
    epochs_per_year: u64,
) -> KeystoneResult<PaymentQuote> {
    match mode {
        RepaymentMode::Scheduled => scheduled_quote_of(l),
        RepaymentMode::Early => early_quote_of(l, now, epochs_per_year),
        RepaymentMode::Partial => partial_quote_of(
            l,
            now,
            match principal {
                Some(p) => p,
                None => l.remaining_principal(),
            },
            epochs_per_year,
        ),
        RepaymentMode::Recovery => scheduled_quote_of(l),
    }
}

/// Moving the money of a repayment: the borrower pays principal and interest from cash and its
/// interest debt drops, the lender receives them, its expected interest drops by the quoted
/// amount, and the collateral the quote frees goes back to the borrower's cash. The result is
/// that of the first step that fails, if any, and on success the collateral released; on failure
/// nothing moves.
pub open spec fn repay_moves_of(l: Vault, b: Vault, q: PaymentQuote) -> (KeystoneResult<Amount>, Vault, Vault) {
    let total = q.principal.0 + q.interest.0;
    let paid = pay_repayment_outcome(b, q.principal, q.interest, q.borrower_interest_reduction);
    let received = receive_repayment_outcome(l, q.principal, q.interest);
    let reduced = if q.lender_projection_reduction.0 == 0 {
        (Ok(()), received.1)
    } else {
        reduce_expected_outcome(received.1, q.lender_projection_reduction)
    };
    let released = release_outcome(paid.1, q.collateral_release);
    if total > u64::MAX {
        (Err(KeystoneError::AmountOverflow), l, b)
    } else if total > b.cash.0 {
        (Err(KeystoneError::InsufficientCash), l, b)
    } else if paid.0 is Err {
        (Err(paid.0->Err_0), l, b)
    } else if received.0 is Err {
        (Err(received.0->Err_0), l, b)
    } else if reduced.0 is Err {
        (Err(reduced.0->Err_0), l, b)
    } else if released.0 is Err {
        (Err(released.0->Err_0), l, b)
    } else {
        (released.0, reduced.1, released.1)
    }
}

/// The shape of every repayment quote: it is for the loan, the loan is open, a quote that closes
/// the loan repays all its principal and releases all its remaining scheduled interest, and one
/// that does not close it leaves principal outstanding.
pub proof fn lemma_quote_shape(l: LoanState, mode: RepaymentMode, principal: Option<Amount>, now: Epoch, epy: u64)
    requires
        repayment_quote_of(l, mode, principal, now, epy) is Ok,
    ensures
        ({
            let q = repayment_quote_of(l, mode, principal, now, epy)->Ok_0;
            &&& q.loan == l.id()
            &&& !status_terminal(l.status())
            &&& q.closes_loan ==> q.principal == l.remaining_principal() && remaining_sched_of(l) is Ok
                && q.borrower_interest_reduction == remaining_sched_of(l)->Ok_0
            &&& !q.closes_loan ==> q.principal.0 < l.remaining_principal().0
            &&& !q.closes_loan ==> remaining_sched_of(l) is Ok && q.borrower_interest_reduction.0
                <= remaining_sched_of(l)->Ok_0.0
        }),
{
    let q = repayment_quote_of(l, mode, principal, now, epy)->Ok_0;
    if !q.closes_loan {
        let sched = remaining_sched_of(l)->Ok_0.0 as int;
        lemma_div_up_share(sched, q.principal.0 as int, l.remaining_principal().0 as int);
        assert(q.borrower_interest_reduction.0 == div_up(sched * q.principal.0, l.remaining_principal().0 as int));
    }
}

/// Replacing two vaults by ones that have a value keeps every vault valued.
proof fn lemma_values_after(a: Seq<Vault>, f: Seq<Vault>, li: int, bi: int)
    requires
        0 <= li < a.len(),
        0 <= bi < a.len(),
        f == a.update(li, f[li]).update(bi, f[bi]),
        nav_of(f[li]) is Ok,
        nav_of(f[bi]) is Ok,
        forall|i: int| 0 <= i < a.len() ==> nav_of(#[trigger] a[i]) is Ok,
    ensures
        forall|i: int| 0 <= i < f.len() ==> nav_of(#[trigger] f[i]) is Ok,
{
    assert forall|i: int| 0 <= i < f.len() implies nav_of(#[trigger] f[i]) is Ok by {
        if i != li && i != bi {
            assert(f[i] == a[i]);
        }
    }
}

/// Replacing one loan by one whose scheduled interest is in order, where it is open, keeps every
/// open loan in order.
proof fn lemma_schedules_after(a: Seq<LoanState>, f: Seq<LoanState>, k: int)
    requires
        0 <= k < a.len(),
        f == a.update(k, f[k]),
        !status_terminal(f[k].status()) ==> remaining_sched_of(f[k]) is Ok,
        forall|i: int| 0 <= i < a.len() ==> !status_terminal((#[trigger] a[i]).status()) ==> remaining_sched_of(a[i]) is Ok,
    ensures
        forall|i: int| 0 <= i < f.len() ==> !status_terminal((#[trigger] f[i]).status()) ==> remaining_sched_of(f[i]) is Ok,
{
    assert forall|i: int| 0 <= i < f.len() && !status_terminal((#[trigger] f[i]).status()) implies remaining_sched_of(f[i]) is Ok by {
        if i != k {
            assert(f[i] == a[i]);
        }
    }
}

impl KeystoneEngine {
    /// The quote for repaying a loan of the engine now.
    pub open spec fn quote_of(&self, id: LoanId, mode: RepaymentMode, principal: Option<Amount>) -> KeystoneResult<
        PaymentQuote,
    > {
        if !self.has_loan(id) {
            Err(KeystoneError::LoanNotFound)
        } else {
            repayment_quote_of(
                self.loan_of(id),
                mode,
                principal,
                self.spec_epoch(),
                self.spec_policy().interest.epochs_per_year,
            )
        }
    }

    /// What `repay_loan` does: the quote, the parties, the moves of money and the loan's update
    /// are all checked before anything changes; then the money moves, the loan takes the
    /// repayment and the journal records it and any collateral released. A refused repayment
    /// changes nothing.
    pub open spec fn repay_outcome(
        &self,
        f: &KeystoneEngine,
        id: LoanId,
        mode: RepaymentMode,
        principal: Option<Amount>,
        r: KeystoneResult<PaymentQuote>,
    ) -> bool {
        match self.quote_of(id, mode, principal) {
            Err(e) => r == Err::<PaymentQuote, KeystoneError>(e) && *f == *self,
            Ok(q) => {
                let loan = self.loan_of(id);
                let lender = loan.spec_lender();
                let borrower = loan.spec_borrower();
                if q.principal.0 == 0 && q.interest.0 == 0 {
                    r == Err::<PaymentQuote, KeystoneError>(KeystoneError::ZeroAmount) && *f == *self
                } else if lender == borrower {
                    r == Err::<PaymentQuote, KeystoneError>(KeystoneError::SelfLoan) && *f == *self
                } else if !self.has_vault(lender) || !self.has_vault(borrower) {
                    r == Err::<PaymentQuote, KeystoneError>(KeystoneError::VaultNotFound) && *f == *self
                } else {
                    let moves = repay_moves_of(self.vault_of(lender), self.vault_of(borrower), q);
                    match moves.0 {
                        Err(e) => r == Err::<PaymentQuote, KeystoneError>(e) && *f == *self,
                        Ok(released) => {
                            let applied = PaymentQuote { collateral_release: released, ..q };
                            match repayment_result(loan, applied) {
                                Err(e) => r == Err::<PaymentQuote, KeystoneError>(e) && *f == *self,
                                Ok(_) => {
                                    &&& r == Ok::<PaymentQuote, KeystoneError>(applied)
                                    &&& f.two_vaults_replaced(self, lender, borrower)
                                    &&& f.vault_of(lender) == moves.1
                                    &&& f.vault_of(borrower) == moves.2
                                    &&& f.spec_config() == self.spec_config()
                                    &&& f.spec_clock() == self.spec_clock()
                                    &&& f.spec_policy() == self.spec_policy()
                                    &&& f.spec_oracle() == self.spec_oracle()
                                    &&& f.spec_nonce() == self.spec_nonce()
                                    &&& f.spec_loans().keys@ == self.spec_loans().keys@
                                    &&& f.has_loan(id)
                                    &&& others_kept(self.spec_loans(), f.spec_loans(), id)
                                    &&& f.loan_of(id).same_identity(&loan)
                                    &&& repayment_effect(loan, applied, f.loan_of(id))
                                    &&& repaid_journal(
                                        self.spec_journal(),
                                        f.spec_journal(),
                                        self.spec_epoch(),
                                        id,
                                        borrower,
                                        applied,
                                    )
                                },
                            }
                        },
                    }
                }
            },
        }
    }
}

/// The journal entries of a repayment: the repayment itself, then, where collateral was
/// released, the release.
pub open spec fn repaid_journal(j: Journal, f: Journal, epoch: Epoch, id: LoanId, borrower: VaultId, q: PaymentQuote) -> bool {
    let n = j.spec_events().len();
    &&& f.spec_events()[n as int].kind matches EventKind::LoanRepaid { loan, payer, principal, interest, mode }
        && loan == id && payer == borrower && principal == q.principal && interest == q.interest && mode@
        == mode_name(q.mode)@
    &&& if q.collateral_release.0 == 0 {
        appended_one(j, f, epoch)
    } else {
        &&& appended_two(j, f, epoch)
        &&& f.spec_events()[n + 1int].kind == EventKind::CollateralReleased {
            loan: id,
            borrower,
            amount: q.collateral_release,
        }
    }
}

/// A loan as `begin_liquidation` leaves it: liquidating, with every balance and its identity
/// as before.
pub open spec fn liquidating_copy(l: LoanState, l1: LoanState) -> bool {
    &&& l1.status() == LoanStatus::Liquidating
    &&& balances_unchanged(l, l1)
    &&& l1.same_identity(&l)
    &&& l1.default_epoch() == l.default_epoch()
}

/// The interest debt a liquidation cancels: what the seized collateral covers, or, where the
/// liquidation closes all the principal that remains, all the scheduled interest still open.
pub open spec fn interest_cancelled_of(p: LiquidationPlan, loan: LoanState) -> Amount {
    if principal_covered_of(p) == loan.remaining_principal() {
        remaining_sched_of(loan)->Ok_0
    } else {
        interest_covered_of(p)
    }
}

/// Moving the money of a liquidation: the plan's collateral is seized from the borrower, the
/// lender receives it as cash and credits the part beyond the covered debt to its loss reserve, the
/// borrower's debt drops by the principal covered and the interest cancelled, and the lender no
/// longer expects the cancelled interest that was not covered. The result is that of the first
/// step that fails, if any, and on success the collateral actually seized; on failure nothing
/// moves.
pub open spec fn liquidation_moves_of(l: Vault, b: Vault, p: LiquidationPlan, cancelled: Amount) -> (
    KeystoneResult<Amount>,
    Vault,
    Vault,
) {
    let pc = principal_covered_of(p);
    let ic = interest_covered_of(p);
    let seized = seize_outcome(b, p.collateral_to_seize);
    let proceeds = proceeds_outcome(l, pc, ic, reserve_recovery_of(p));
    let extinguished = extinguish_outcome(seized.1, pc, cancelled);
    let written = if cancelled.0 > ic.0 {
        reduce_expected_outcome(proceeds.1, Amount((cancelled.0 - ic.0) as u64))
    } else {
        (Ok(()), proceeds.1)
    };
    if proceeds.0 is Err {
        (Err(proceeds.0->Err_0), l, b)
    } else if extinguished.0 is Err {
        (Err(extinguished.0->Err_0), l, b)
    } else if written.0 is Err {
        (Err(written.0->Err_0), l, b)
    } else {
        (seized.0, written.1, extinguished.1)
    }
}

impl KeystoneEngine {
    /// Whether the vaults under `a` and `b` each have a net asset value.
    pub open spec fn values_fit(&self, a: VaultId, b: VaultId) -> bool {
        nav_of(self.vault_of(a)) is Ok && nav_of(self.vault_of(b)) is Ok
    }

    /// Whether the principal and the scheduled interest open in loans each fit an amount.
    pub open spec fn open_totals_fit(&self) -> bool {
        open_principal(self.spec_loans().vals@) <= u64::MAX && open_interest(self.spec_loans().vals@) <= u64::MAX
    }

    /// Whether the borrower's vault holds all the collateral that the plan for liquidating a
    /// loan seizes.
    pub open spec fn holds_plan_collateral(&self, id: LoanId) -> bool {
        let p = plan_of(self.loan_of(id), self.spec_policy())->Ok_0;
        self.vault_of(p.borrower).locked_collateral.0 >= p.collateral_to_seize.0
    }

    /// What `liquidate` does: the plan, the parties, the moves of money and the loan's closing
    /// are all checked before anything changes; then a defaulted loan starts liquidating, the
    /// collateral and proceeds move, the loan closes what was covered (all of it where no
    /// principal remains), and the journal records the seizure and shortfall. A refused
    /// liquidation changes nothing.
    pub open spec fn liquidate_outcome(&self, f: &KeystoneEngine, id: LoanId, r: KeystoneResult<LiquidationResult>) -> bool {
        if !self.has_loan(id) {
            r == Err::<LiquidationResult, KeystoneError>(KeystoneError::LoanNotFound) && *f == *self
        } else {
            let l0 = self.loan_of(id);
            let fl = f.loan_of(id);
            match plan_of(l0, self.spec_policy()) {
                Err(e) => r == Err::<LiquidationResult, KeystoneError>(e) && *f == *self,
                Ok(p) => {
                    let lender = p.lender;
                    let borrower = p.borrower;
                    if lender == borrower {
                        r == Err::<LiquidationResult, KeystoneError>(KeystoneError::SelfLoan) && *f == *self
                    } else if !self.has_vault(lender) || !self.has_vault(borrower) {
                        r == Err::<LiquidationResult, KeystoneError>(KeystoneError::VaultNotFound) && *f == *self
                    } else {
                        let pc = principal_covered_of(p);
                        let ic = interest_covered_of(p);
                        let moves = liquidation_moves_of(
                            self.vault_of(lender),
                            self.vault_of(borrower),
                            p,
                            interest_cancelled_of(p, l0),
                        );
                        match moves.0 {
                            Err(e) => r == Err::<LiquidationResult, KeystoneError>(e) && *f == *self,
                            Ok(seized) => match liquidation_close_result(l0, pc, ic, seized) {
                                Err(e) => r == Err::<LiquidationResult, KeystoneError>(e) && *f == *self,
                                Ok(_) => {
                                    &&& r == Ok::<LiquidationResult, KeystoneError>(
                                        LiquidationResult {
                                            loan: p.loan,
                                            seized: p.collateral_to_seize,
                                            principal_closed: pc,
                                            interest_closed: ic,
                                            reserve_recovery: reserve_recovery_of(p),
                                            shortfall: p.shortfall,
                                            remaining_principal: fl.remaining_principal(),
                                        },
                                    )
                                    &&& f.two_vaults_replaced(self, lender, borrower)
                                    &&& f.vault_of(lender) == moves.1
                                    &&& f.vault_of(borrower) == moves.2
                                    &&& f.spec_config() == self.spec_config()
                                    &&& f.spec_clock() == self.spec_clock()
                                    &&& f.spec_policy() == self.spec_policy()
                                    &&& f.spec_oracle() == self.spec_oracle()
                                    &&& f.spec_nonce() == self.spec_nonce()
                                    &&& f.spec_loans().keys@ == self.spec_loans().keys@
                                    &&& f.has_loan(id)
                                    &&& others_kept(self.spec_loans(), f.spec_loans(), id)
                                    &&& fl.interest_paid() == l0.interest_paid()
                                    &&& fl.collateral_released() == l0.collateral_released()
                                    &&& fl.same_identity(&l0)
                                    &&& fl.default_epoch() == l0.default_epoch()
                                    &&& exists|l1: LoanState|
                                        liquidating_copy(l0, l1) && liquidation_close_effect(l1, pc, ic, seized, fl)
                                    &&& pushed(
                                        self.spec_journal(),
                                        f.spec_journal(),
                                        self.spec_epoch(),
                                        EventKind::LoanLiquidated {
                                            loan: id,
                                            seized: p.collateral_to_seize,
                                            shortfall: p.shortfall,
                                        },
                                    )
                                },
                            },
                        }
                    }
                },
            }
        }
    }
}

/// Closing part of a loan by liquidation lowers its open principal by the principal covered and
/// its open interest by the interest cancelled.
proof fn lemma_liquidation_closes(l0: LoanState, l1: LoanState, fl: LoanState, p: LiquidationPlan, seized: Amount)
    requires
        l0.status() is Defaulted || l0.status() is Liquidating,
        remaining_sched_of(l0) is Ok,
        l1.status() is Liquidating,
        balances_unchanged(l0, l1),
        l1.scheduled_interest() == l0.scheduled_interest(),
        fl.scheduled_interest() == l0.scheduled_interest(),
        principal_covered_of(p).0 <= l0.remaining_principal().0,
        interest_covered_of(p).0 <= remaining_sched_of(l0)->Ok_0.0,
        liquidation_close_result(l1, principal_covered_of(p), interest_covered_of(p), seized) is Ok,
        liquidation_close_effect(l1, principal_covered_of(p), interest_covered_of(p), seized, fl),
    ensures
        open_principal_of(fl) == open_principal_of(l0) - principal_covered_of(p).0,
        open_interest_of(fl) == open_interest_of(l0) - interest_cancelled_of(p, l0).0,
        !status_terminal(fl.status()) ==> remaining_sched_of(fl) is Ok,
{
}

/// Whether the money of a new loan can move, found without moving it.
fn check_open_moves(l: &Vault, b: &Vault, principal: Amount, collateral: Amount, si: Amount) -> (r: KeystoneResult<()>)
    ensures
        r == open_moves_of(*l, *b, principal, collateral, si).0,
{
    if !b.role.can_borrow() {
        return Err(KeystoneError::VaultRoleMismatch);
    }
    if collateral.0 > b.cash.0 {
        return Err(KeystoneError::InsufficientCollateral);
    }
    if b.locked_collateral.0.checked_add(collateral.0).is_none() {
        return Err(KeystoneError::AmountOverflow);
    }
    if !l.role.can_lend() {
        return Err(KeystoneError::VaultRoleMismatch);
    }
    if principal.0 > l.cash.0 {
        return Err(KeystoneError::InsufficientLiquidity);
    }
    if l.outstanding_principal.0.checked_add(principal.0).is_none() || l.expected_interest.0.checked_add(si.0).is_none() {
        return Err(KeystoneError::AmountOverflow);
    }
    let cash_left = b.cash.0 - collateral.0;
    if cash_left.checked_add(principal.0).is_none() || b.debt_principal.0.checked_add(principal.0).is_none()
        || b.debt_interest_due.0.checked_add(si.0).is_none() {
        return Err(KeystoneError::AmountOverflow);
    }
    Ok(())
}

/// Whether the money of a repayment can move, found without moving it; on success, the
/// collateral it would release.
fn check_repay_moves(l: &Vault, b: &Vault, q: PaymentQuote) -> (r: KeystoneResult<Amount>)
    ensures
        r == repay_moves_of(*l, *b, q).0,
{
    let total = match q.principal.0.checked_add(q.interest.0) {
        Some(t) => t,
        None => {
            return Err(KeystoneError::AmountOverflow);
        },
    };
    if total > b.cash.0 {
        return Err(KeystoneError::InsufficientCash);
    }
    if q.principal.0 > b.debt_principal.0 || q.borrower_interest_reduction.0 > b.debt_interest_due.0 {
        return Err(KeystoneError::AmountUnderflow);
    }
    if l.cash.0.checked_add(total).is_none() {
        return Err(KeystoneError::AmountOverflow);
    }
    if q.principal.0 > l.outstanding_principal.0 {
        return Err(KeystoneError::AmountUnderflow);
    }
    if l.realized_interest.0.checked_add(q.interest.0).is_none() {
        return Err(KeystoneError::AmountOverflow);
    }
    if q.lender_projection_reduction.0 != 0 && q.lender_projection_reduction.0 > l.expected_interest.0 {
        return Err(KeystoneError::AmountUnderflow);
    }
    let released = if q.collateral_release.0 <= b.locked_collateral.0 {
        q.collateral_release
    } else {
        b.locked_collateral
    };
    let cash_left = b.cash.0 - total;
    if cash_left.checked_add(released.0).is_none() {
        return Err(KeystoneError::AmountOverflow);
    }
    Ok(released)
}

/// Whether the money of a liquidation can move, found without moving it; on success, the
/// collateral it would seize.
fn check_liquidation_moves(l: &Vault, b: &Vault, p: LiquidationPlan, cancelled: Amount) -> (r: KeystoneResult<
    Amount,
>)
    ensures
        r == liquidation_moves_of(*l, *b, p, cancelled).0,
{
    let pc = p.principal_covered()?;
    let ic = p.interest_covered();
    let reserve = p.reserve_recovery()?;
    let covered = match pc.0.checked_add(ic.0) {
        Some(t) => t,
        None => {
            return Err(KeystoneError::AmountOverflow);
        },
    };
    let total = match covered.checked_add(reserve.0) {
        Some(t) => t,
        None => {
            return Err(KeystoneError::AmountOverflow);
        },
    };
    if l.cash.0.checked_add(total).is_none() {
        return Err(KeystoneError::AmountOverflow);
    }
    if pc.0 > l.outstanding_principal.0 || ic.0 > l.expected_interest.0 {
        return Err(KeystoneError::AmountUnderflow);
    }
    if l.loss_reserve.0.checked_add(reserve.0).is_none() {
        return Err(KeystoneError::AmountOverflow);
    }
    if pc.0 > b.debt_principal.0 || cancelled.0 > b.debt_interest_due.0 {
        return Err(KeystoneError::AmountUnderflow);
    }
    if cancelled.0 > ic.0 && cancelled.0 - ic.0 > l.expected_interest.0 - ic.0 {
        return Err(KeystoneError::AmountUnderflow);
    }
    let seized = if p.collateral_to_seize.0 <= b.locked_collateral.0 {
        p.collateral_to_seize
    } else {
        b.locked_collateral
    };
    Ok(seized)
}

/// The state of the engine as reports and its digest show it.
#[derive(Clone, Debug)]
pub struct EngineSnapshot {
    pub network_id: u32,
    pub epoch: Epoch,
    pub policy_digest: Digest,
    pub oracle_digest: Digest,
    pub journal_digest: Digest,
    pub vaults: Vec<VaultSnapshot>,
    pub loans: Vec<LoanSnapshot>,
}

/// Why a vault's snapshot cannot be taken, if it cannot.
pub open spec fn snapshot_error_of(v: Vault) -> Option<KeystoneError> {
    if nav_of(v) is Err {
        Some(nav_of(v)->Err_0)
    } else if utilization_of(v) is Err {
        Some(utilization_of(v)->Err_0)
    } else {
        None
    }
}

/// The first vault, in order, whose snapshot cannot be taken, and why.
pub open spec fn vault_snapshot_error(vs: Seq<Vault>) -> Option<KeystoneError>
    decreases vs.len(),
{
    if vs.len() == 0 {
        None
    } else {
        match vault_snapshot_error(vs.drop_last()) {
            Some(e) => Some(e),
            None => snapshot_error_of(vs.last()),
        }
    }
}

/// The snapshots of the loans in order, or the first error.
pub open spec fn loan_snapshots_of(ls: Seq<LoanState>) -> KeystoneResult<Seq<LoanSnapshot>>
    decreases ls.len(),
{
    if ls.len() == 0 {
        Ok(Seq::empty())
    } else {
        match loan_snapshots_of(ls.drop_last()) {
            Err(e) => Err(e),
            Ok(prefix) => match loan_snapshot_of(ls.last()) {
                Err(e) => Err(e),
                Ok(snapshot) => Ok(prefix.push(snapshot)),
            },
        }
    }
}

/// The fields of a snapshot before its vaults, as canonical JSON text.
pub open spec fn json_engine_head(s: EngineSnapshot) -> Seq<u8> {
    lit("{\"network_id\":") + dec(s.network_id as nat) + lit(",\"epoch\":") + dec(s.epoch.0 as nat) + lit(
        ",\"policy_digest\":",
    ) + json_hex(s.policy_digest.0@) + lit(",\"oracle_digest\":") + json_hex(s.oracle_digest.0@) + lit(
        ",\"journal_digest\":",
    ) + json_hex(s.journal_digest.0@)
}

/// The canonical JSON text of an engine snapshot.
pub open spec fn json_engine_snapshot(s: EngineSnapshot) -> Seq<u8> {
    json_engine_head(s) + lit(",\"vaults\":") + json_array(
        s.vaults@.map_values(|v: VaultSnapshot| json_vault_snapshot(v)),
    ) + lit(",\"loans\":") + json_array(s.loans@.map_values(|l: LoanSnapshot| json_loan_snapshot(l))) + lit("}")
}

#[verifier::rlimit(100)]
fn write_vault_snapshots(out: &mut Vec<u8>, items: &Vec<VaultSnapshot>)
    ensures
        final(out)@ == old(out)@ + json_array(items@.map_values(|v: VaultSnapshot| json_vault_snapshot(v))),
{
    let ghost texts = items@.map_values(|v: VaultSnapshot| json_vault_snapshot(v));
    out.push(91);
    let ghost head = out@;
    let mut i: usize = 0;
    while i < items.len()
        invariant
            0 <= i <= items@.len(),
            texts == items@.map_values(|v: VaultSnapshot| json_vault_snapshot(v)),
            out@ == head + json_join(texts.take(i as int)),
        decreases items@.len() - i,
    {
        proof {
            lemma_join_next(texts, i as int);
        }
        if i > 0 {
            out.push(44);
        }
        write_vault_snapshot(out, &items[i]);
        proof {
            assert(out@ =~= head + json_join(texts.take(i as int + 1)));
        }
        i = i + 1;
    }
    out.push(93);
    assert(texts.take(texts.len() as int) =~= texts);
    assert(final(out)@ =~= old(out)@ + json_array(texts));
}

#[verifier::rlimit(100)]
fn write_loan_snapshots(out: &mut Vec<u8>, items: &Vec<LoanSnapshot>)
    ensures
        final(out)@ == old(out)@ + json_array(items@.map_values(|l: LoanSnapshot| json_loan_snapshot(l))),
{
    let ghost texts = items@.map_values(|l: LoanSnapshot| json_loan_snapshot(l));
    out.push(91);
    let ghost head = out@;
    let mut i: usize = 0;
    while i < items.len()
        invariant
            0 <= i <= items@.len(),
            texts == items@.map_values(|l: LoanSnapshot| json_loan_snapshot(l)),
            out@ == head + json_join(texts.take(i as int)),
        decreases items@.len() - i,
    {
        proof {
            lemma_join_next(texts, i as int);
        }
        if i > 0 {
            out.push(44);
        }
        write_loan_snapshot(out, &items[i]);
        proof {
            assert(out@ =~= head + json_join(texts.take(i as int + 1)));
        }
        i = i + 1;
    }
    out.push(93);
    assert(texts.take(texts.len() as int) =~= texts);
    assert(final(out)@ =~= old(out)@ + json_array(texts));
}

fn write_engine_head(out: &mut Vec<u8>, s: &EngineSnapshot)
    ensures
        final(out)@ == old(out)@ + json_engine_head(*s),
{
    let ghost start = out@;
    push_lit(out, "{\"network_id\":");
    push_dec(out, s.network_id as u128);
    push_lit(out, ",\"epoch\":");
    push_dec(out, s.epoch.0 as u128);
    push_lit(out, ",\"policy_digest\":");
    push_json_hex(out, &s.policy_digest.0);
    push_lit(out, ",\"oracle_digest\":");
    push_json_hex(out, &s.oracle_digest.0);
    push_lit(out, ",\"journal_digest\":");
    push_json_hex(out, &s.journal_digest.0);
    assert(final(out)@ =~= start + json_engine_head(*s));
}

#[verifier::spinoff_prover]
pub fn write_engine_snapshot(out: &mut Vec<u8>, s: &EngineSnapshot)
    ensures
        final(out)@ == old(out)@ + json_engine_snapshot(*s),
{
    let ghost start = out@;
    write_engine_head(out, s);
    push_lit(out, ",\"vaults\":");
    write_vault_snapshots(out, &s.vaults);
    push_lit(out, ",\"loans\":");
    write_loan_snapshots(out, &s.loans);
    push_lit(out, "}");
    assert(final(out)@ =~= start + json_engine_snapshot(*s));
}

/// Interest distributed to holders: the total of the claims, which must fit an amount.
pub open spec fn claims_amount(c: Seq<InterestClaim>) -> KeystoneResult<Amount> {
    amount_of(claims_total(c))
}

/// The total of a list of claims, where it fits an amount.
fn claims_sum(claims: &Vec<InterestClaim>) -> (r: KeystoneResult<Amount>)
    ensures
        r == claims_amount(claims@),
{
    let mut total: u64 = 0;
    let mut k: usize = 0;
    while k < claims.len()
        invariant
            0 <= k <= claims@.len(),
            total == claims_total(claims@.take(k as int)),
        decreases claims@.len() - k,
    {
        proof {
            lemma_sum_take_next(claims@, k as int, |c: InterestClaim| c.amount.0 as int);
        }
        match total.checked_add(claims[k].amount.0) {
            Some(t) => {
                total = t;
            },
            None => {
                proof {
                    lemma_sum_prefix_le(claims@, k as int + 1, |c: InterestClaim| c.amount.0 as int);
                }
                return Err(KeystoneError::AmountOverflow);
            },
        }
        k = k + 1;
    }
    assert(claims@.take(claims@.len() as int) =~= claims@);
    Ok(Amount(total))
}

impl KeystoneEngine {
    /// `s` is the engine's snapshot: every vault's and loan's snapshot in key order, the
    /// digests of the policy, the oracle and the journal, the network and the epoch.
    pub open spec fn snapshot_is(&self, s: EngineSnapshot) -> bool {
        let vs = self.spec_vaults().vals@;
        let ls = self.spec_loans().vals@;
        &&& vault_snapshot_error(vs) is None
        &&& loan_snapshots_of(ls) is Ok
        &&& s.network_id == self.spec_config().network_id
        &&& s.epoch == self.spec_epoch()
        &&& s.policy_digest == parts_digest(POLICY_DOMAIN, seq![json_protocol_policy(self.spec_policy())])
        &&& s.oracle_digest == parts_digest(
            ORACLE_BOOK_DOMAIN,
            seq![json_oracle(self.spec_oracle().spec_max_age(), self.spec_oracle().spec_prices().vals@)],
        )
        &&& s.journal_digest == self.spec_journal().spec_digest()
        &&& s.vaults@.len() == vs.len()
        &&& forall|i: int| 0 <= i < vs.len() ==> snapshot_matches(vs[i], Ok(#[trigger] s.vaults@[i]))
        &&& s.loans@ == loan_snapshots_of(ls)->Ok_0
    }

    /// Why the engine's snapshot cannot be taken: the first vault, then the first loan, whose
    /// snapshot fails.
    pub open spec fn snapshot_error(&self) -> Option<KeystoneError> {
        match vault_snapshot_error(self.spec_vaults().vals@) {
            Some(e) => Some(e),
            None => match loan_snapshots_of(self.spec_loans().vals@) {
                Err(e) => Some(e),
                Ok(_) => None,
            },
        }
    }

    /// The engine's state digest: the digest of its snapshot's JSON text.
    pub open spec fn digest_is(&self, d: Digest) -> bool {
        exists|s: EngineSnapshot| self.snapshot_is(s) && d == parts_digest(ENGINE_STATE_DOMAIN, seq![json_engine_snapshot(s)])
    }

    /// The checks of `verify_invariants`: every vault has a value, every open loan has
    /// released no more interest than scheduled, every total fits an amount, and the ledger
    /// balances.
    pub open spec fn invariants_hold(&self) -> bool {
        let vs = self.spec_vaults().vals@;
        let ls = self.spec_loans().vals@;
        &&& forall|i: int| 0 <= i < vs.len() ==> nav_of(#[trigger] vs[i]) is Ok
        &&& forall|i: int|
            0 <= i < ls.len() ==> !status_terminal((#[trigger] ls[i]).status()) ==> remaining_sched_of(ls[i]) is Ok
        &&& open_principal(ls) <= u64::MAX
        &&& open_interest(ls) <= u64::MAX
        &&& lent_principal(vs) <= u64::MAX
        &&& borrowed_principal(vs) <= u64::MAX
        &&& borrowed_interest(vs) <= u64::MAX
        &&& self.balanced()
    }

    /// Everything that `verify_invariants` checks before comparing the totals.
    pub open spec fn totals_fit(&self) -> bool {
        let vs = self.spec_vaults().vals@;
        let ls = self.spec_loans().vals@;
        &&& forall|i: int| 0 <= i < vs.len() ==> nav_of(#[trigger] vs[i]) is Ok
        &&& forall|i: int|
            0 <= i < ls.len() ==> !status_terminal((#[trigger] ls[i]).status()) ==> remaining_sched_of(ls[i]) is Ok
        &&& open_principal(ls) <= u64::MAX
        &&& open_interest(ls) <= u64::MAX
        &&& lent_principal(vs) <= u64::MAX
        &&& borrowed_principal(vs) <= u64::MAX
        &&& borrowed_interest(vs) <= u64::MAX
    }
}

impl KeystoneEngine {
    /// A fresh engine under `config`: no vaults or loans, the first nonce, the configured
    /// policy and epoch, the unit price of its asset and a journal of one opening event.
    pub open spec fn starts_from(&self, config: EngineConfig) -> bool {
        &&& self.wf()
        &&& self.balanced()
        &&& self.spec_config() == config
        &&& self.spec_epoch() == config.start_epoch
        &&& self.spec_policy() == config.default_policy
        &&& self.spec_oracle().price_for(config.asset, config.asset) == Some(
            unit_price(config.asset, config.start_epoch),
        )
        &&& self.spec_vaults().keys@.len() == 0
        &&& self.spec_loans().keys@.len() == 0
        &&& self.spec_nonce() == 1
        &&& self.spec_journal().replays_to(config.network_id, config.start_epoch)
        &&& self.spec_journal().spec_events().len() == 1
        &&& self.spec_journal().spec_events()[0].kind == EventKind::EngineInitialized {
            network_id: config.network_id,
            epoch: config.start_epoch,
        }
    }

    /// What `deposit` does: its result and how the engine changes, from this engine to `f`.
    pub open spec fn deposit_outcome(&self, f: &KeystoneEngine, vault_id: VaultId, owner: AccountId, amount: Amount, r: KeystoneResult<DepositReceipt>) -> bool {
        &&& (!self.has_vault(vault_id) ==> r == Err::<DepositReceipt, KeystoneError>(KeystoneError::VaultNotFound)
            && *f == *self)
        &&& (self.has_vault(vault_id) ==> {
            &&& deposit_effect(self.vault_of(vault_id), owner, amount, f.vault_of(vault_id), r)
            &&& f.vault_replaced(self, vault_id)
            &&& f.same_but_vaults(self)
            &&& r is Err ==> f.spec_journal() == self.spec_journal()
            &&& r matches Ok(receipt) ==> pushed(
                self.spec_journal(),
                f.spec_journal(),
                self.spec_epoch(),
                EventKind::AccountDeposited { vault: vault_id, owner, amount, shares: receipt.shares },
            )
        })
    }

    /// What `redeem` does: its result and how the engine changes, from this engine to `f`.
    pub open spec fn redeem_outcome(&self, f: &KeystoneEngine, vault_id: VaultId, owner: AccountId, shares: Shares, r: KeystoneResult<RedemptionQuote>) -> bool {
        &&& (!self.has_vault(vault_id) ==> r == Err::<RedemptionQuote, KeystoneError>(
            KeystoneError::VaultNotFound,
        ) && *f == *self)
        &&& (self.has_vault(vault_id) ==> {
            &&& redeem_effect(self.vault_of(vault_id), owner, shares, f.vault_of(vault_id), r)
            &&& f.vault_replaced(self, vault_id)
            &&& f.same_but_vaults(self)
            &&& r is Err ==> f.spec_journal() == self.spec_journal()
            &&& r matches Ok(quote) ==> pushed(
                self.spec_journal(),
                f.spec_journal(),
                self.spec_epoch(),
                EventKind::AccountRedeemed { vault: vault_id, owner, amount: quote.amount, shares },
            )
        })
    }

    /// What `register_vault` does: its result and how the engine changes, from this engine to `f`.
    pub open spec fn register_outcome(&self, f: &KeystoneEngine, name: &str, role: VaultRole, r: KeystoneResult<VaultId>) -> bool {
        &&& (self.spec_vaults().keys@.len() >= self.spec_policy().limits.max_vaults ==> r == Err::<
            VaultId,
            KeystoneError,
        >(KeystoneError::LimitExceeded) && *f == *self)
        &&& (self.spec_vaults().keys@.len() < self.spec_policy().limits.max_vaults && self.has_vault(
            vault_id_of(name, self.spec_config().asset),
        ) ==> r == Err::<VaultId, KeystoneError>(KeystoneError::VaultAlreadyExists) && *f == *self)
        &&& (self.spec_vaults().keys@.len() < self.spec_policy().limits.max_vaults && !self.has_vault(
            vault_id_of(name, self.spec_config().asset),
        ) ==> ({
            let id = vault_id_of(name, self.spec_config().asset);
            let v = f.vault_of(id);
            &&& r == Ok::<VaultId, KeystoneError>(id)
            &&& f.same_but_vaults(self)
            &&& f.has_vault(id)
            &&& f.spec_vaults().keys@.len() == self.spec_vaults().keys@.len() + 1
            &&& others_kept(self.spec_vaults(), f.spec_vaults(), id)
            &&& v.id == id && v.name@ == name@ && v.asset == self.spec_config().asset && v.role == role
            &&& !v.paused && !v.frozen && v.share_supply == Shares(0) && v.accounts.keys@.len() == 0
            &&& v.cash == Amount(0) && v.locked_collateral == Amount(0) && v.outstanding_principal == Amount(0)
            &&& v.expected_interest == Amount(0) && v.realized_interest == Amount(0)
            &&& v.debt_principal == Amount(0) && v.debt_interest_due == Amount(0)
            &&& v.loss_reserve == Amount(0) && v.protocol_fees == Amount(0)
            &&& v.distributed_interest == Amount(0) && v.pending_redemptions == Amount(0)
            &&& pushed(
                self.spec_journal(),
                f.spec_journal(),
                self.spec_epoch(),
                f.spec_journal().spec_events().last().kind,
            )
            &&& f.spec_journal().spec_events().last().kind matches EventKind::VaultRegistered {
                vault,
                role: text,
            } && vault == id && text@ == role_name(role)@
        }))
    }

    /// What `set_policy` does: its result and how the engine changes, from this engine to `f`.
    pub open spec fn set_policy_outcome(&self, f: &KeystoneEngine, policy: ProtocolPolicy, r: KeystoneResult<TxId>) -> bool {
        &&& (r is Ok)
        &&& (f.spec_policy() == policy)
        &&& (f.spec_config() == self.spec_config())
        &&& (f.spec_clock() == self.spec_clock())
        &&& (f.spec_oracle() == self.spec_oracle())
        &&& (f.spec_vaults() == self.spec_vaults())
        &&& (f.spec_loans() == self.spec_loans())
        &&& (f.spec_nonce() == self.spec_nonce())
        &&& (pushed(
            self.spec_journal(),
            f.spec_journal(),
            self.spec_epoch(),
            EventKind::PolicyUpdated { digest: parts_digest(crate::policy::POLICY_DOMAIN, seq![crate::json::json_protocol_policy(policy)]) },
        ))
    }

    /// What `advance_by` does: its result and how the engine changes, from this engine to `f`.
    pub open spec fn advance_by_outcome(&self, f: &KeystoneEngine, epochs: u64, r: KeystoneResult<TxId>) -> bool {
        &&& (self.spec_epoch().0 + epochs > u64::MAX ==> r == Err::<TxId, KeystoneError>(
            KeystoneError::AmountOverflow,
        ) && *f == *self)
        &&& (self.spec_epoch().0 + epochs <= u64::MAX ==> {
            let target = Epoch((self.spec_epoch().0 + epochs) as u64);
            &&& r is Ok
            &&& f.spec_epoch() == target
            &&& f.spec_config() == self.spec_config()
            &&& f.spec_policy() == self.spec_policy()
            &&& f.spec_oracle() == self.spec_oracle()
            &&& f.spec_vaults() == self.spec_vaults()
            &&& f.spec_loans() == self.spec_loans()
            &&& f.spec_nonce() == self.spec_nonce()
            &&& pushed(
                self.spec_journal(),
                f.spec_journal(),
                target,
                EventKind::EpochAdvanced { from: self.spec_epoch(), to: target },
            )
        })
    }

    /// What `mark_default` does: its result and how the engine changes, from this engine to `f`.
    pub open spec fn mark_default_outcome(&self, f: &KeystoneEngine, loan_id: LoanId, r: KeystoneResult<u64>) -> bool {
        &&& (!self.has_loan(loan_id) ==> r == Err::<u64, KeystoneError>(KeystoneError::LoanNotFound)
            && *f == *self)
        &&& (self.has_loan(loan_id) ==> {
            let l = self.loan_of(loan_id);
            let fl = f.loan_of(loan_id);
            &&& r == default_result(l, self.spec_epoch())
            &&& f.same_but_loans(self)
            &&& f.spec_loans().keys@ == self.spec_loans().keys@
            &&& f.has_loan(loan_id)
            &&& others_kept(self.spec_loans(), f.spec_loans(), loan_id)
            &&& fl.same_identity(&l)
            &&& r is Err ==> fl == l && f.spec_journal() == self.spec_journal()
            &&& r matches Ok(overdue) ==> {
                &&& fl.status() == LoanStatus::Defaulted
                &&& fl.default_epoch() == Some(self.spec_epoch())
                &&& balances_unchanged(l, fl)
                &&& pushed(
                    self.spec_journal(),
                    f.spec_journal(),
                    self.spec_epoch(),
                    EventKind::LoanDefaulted { loan: loan_id, overdue_epochs: overdue },
                )
            }
        })
    }

    /// What `distribute_interest` does: its result and how the engine changes, from this engine to `f`.
    pub open spec fn distribution_outcome(&self, f: &KeystoneEngine, vault_id: VaultId, r: KeystoneResult<Vec<InterestClaim>>) -> bool {
        &&& (!self.has_vault(vault_id) ==> r == Err::<Vec<InterestClaim>, KeystoneError>(
            KeystoneError::VaultNotFound,
        ) && *f == *self)
        &&& (self.has_vault(vault_id) ==> {
            &&& f.vault_replaced(self, vault_id)
            &&& f.same_but_vaults(self)
            &&& exists|inner: KeystoneResult<Vec<InterestClaim>>|
                distribution_effect(self.vault_of(vault_id), self.spec_policy(), f.vault_of(vault_id), inner)
                && match inner {
                    Err(e) => r == Err::<Vec<InterestClaim>, KeystoneError>(e) && f.spec_journal() == self.spec_journal(),
                    Ok(claims) => match claims_amount(claims@) {
                        Err(e) => r == Err::<Vec<InterestClaim>, KeystoneError>(e) && f.spec_journal() == self.spec_journal(),
                        Ok(amount) => (r matches Ok(c) && c@ == claims@) && pushed(
                            self.spec_journal(),
                            f.spec_journal(),
                            self.spec_epoch(),
                            EventKind::InterestDistributed { vault: vault_id, amount, recipients: claims@.len() as usize },
                        ),
                    },
                }
        })
    }

    /// What `push_invariant_event` does: its result and how the engine changes, from this engine to `f`.
    pub open spec fn invariant_event_outcome(&self, f: &KeystoneEngine, r: KeystoneResult<TxId>) -> bool {
        &&& (r is Ok <==> self.invariants_hold() && self.snapshot_error() is None)
        &&& (r is Err ==> *f == *self)
        &&& (r is Ok ==> {
            &&& f.same_but_vaults(self)
            &&& f.spec_vaults() == self.spec_vaults()
            &&& appended_one(self.spec_journal(), f.spec_journal(), self.spec_epoch())
            &&& f.spec_journal().spec_events().last().kind matches EventKind::InvariantChecked { digest }
                && self.digest_is(digest)
        })
    }
}

/// A vault whose share books are sound passes the sanity check exactly when it has a value.
pub proof fn lemma_sane_when_valued(v: Vault)
    requires
        vault_wf(v),
    ensures
        !(v.share_supply.0 == 0 && v.accounts.keys@.len() > 0),
        total_shares(v.accounts.vals@) <= u64::MAX,
        total_shares(v.accounts.vals@) == v.share_supply.0,
{
    if v.accounts.keys@.len() > 0 {
        lemma_sum_element_le(v.accounts.vals@, 0, |x: Shares| x.0 as int);
        assert(v.accounts.vals@[0].0 > 0);
    }
}

impl KeystoneEngine {
    pub closed spec fn spec_config(&self) -> EngineConfig {
        self.config
    }

    pub closed spec fn spec_clock(&self) -> EpochClock {
        self.clock
    }

    pub closed spec fn spec_policy(&self) -> ProtocolPolicy {
        self.policy
    }

    pub closed spec fn spec_oracle(&self) -> OracleBook {
        self.oracle
    }

    pub closed spec fn spec_vaults(&self) -> SortedMap<VaultId, Vault> {
        self.vaults
    }

    pub closed spec fn spec_loans(&self) -> SortedMap<LoanId, LoanState> {
        self.loans
    }

    pub closed spec fn spec_journal(&self) -> Journal {
        self.journal
    }

    pub closed spec fn spec_nonce(&self) -> u64 {
        self.next_loan_nonce
    }

    pub open spec fn spec_epoch(&self) -> Epoch {
        self.spec_clock().spec_current()
    }

    pub open spec fn has_vault(&self, id: VaultId) -> bool {
        self.spec_vaults().has(id)
    }

    pub open spec fn vault_of(&self, id: VaultId) -> Vault {
        self.spec_vaults().at(id)
    }

    pub open spec fn has_loan(&self, id: LoanId) -> bool {
        self.spec_loans().has(id)
    }

    pub open spec fn loan_of(&self, id: LoanId) -> LoanState {
        self.spec_loans().at(id)
    }

    /// The maps are ordered by key, every vault keeps its share books, each vault and loan is
    /// stored under its own identity, and the journal numbers its events in order.
    pub open spec fn wf(&self) -> bool {
        &&& self.spec_vaults().wf()
        &&& self.spec_loans().wf()
        &&& self.spec_oracle().wf()
        &&& self.spec_journal().wf()
        &&& forall|i: int|
            0 <= i < self.spec_vaults().vals@.len() ==> vault_wf(#[trigger] self.spec_vaults().vals@[i])
        &&& forall|i: int|
            0 <= i < self.spec_vaults().vals@.len() ==> (#[trigger] self.spec_vaults().vals@[i]).pending_redemptions
                == Amount(0)
        &&& forall|i: int|
            0 <= i < self.spec_vaults().vals@.len() ==> (#[trigger] self.spec_vaults().vals@[i]).id
                == self.spec_vaults().keys@[i]
        &&& forall|i: int|
            0 <= i < self.spec_loans().vals@.len() ==> (#[trigger] self.spec_loans().vals@[i]).id()
                == self.spec_loans().keys@[i]
        &&& forall|i: int|
            0 <= i < self.spec_loans().vals@.len() ==> (#[trigger] self.spec_loans().vals@[i]).terms().lender
                != self.spec_loans().vals@[i].terms().borrower
    }

    /// The ledger balances: lenders' outstanding principal and borrowers' principal debt both
    /// equal the principal open in loans, and borrowers' interest debt equals the scheduled
    /// interest open in loans.
    pub open spec fn balanced(&self) -> bool {
        let vs = self.spec_vaults().vals@;
        let ls = self.spec_loans().vals@;
        &&& lent_principal(vs) == open_principal(ls)
        &&& borrowed_principal(vs) == open_principal(ls)
        &&& borrowed_interest(vs) == open_interest(ls)
    }

    /// Everything but the vaults and the journal is as in `other`.
    pub open spec fn same_but_vaults(&self, other: &KeystoneEngine) -> bool {
        &&& self.spec_config() == other.spec_config()
        &&& self.spec_clock() == other.spec_clock()
        &&& self.spec_policy() == other.spec_policy()
        &&& self.spec_oracle() == other.spec_oracle()
        &&& self.spec_loans() == other.spec_loans()
        &&& self.spec_nonce() == other.spec_nonce()
    }

    /// Everything but the loans and the journal is as in `other`.
    pub open spec fn same_but_loans(&self, other: &KeystoneEngine) -> bool {
        &&& self.spec_config() == other.spec_config()
        &&& self.spec_clock() == other.spec_clock()
        &&& self.spec_policy() == other.spec_policy()
        &&& self.spec_oracle() == other.spec_oracle()
        &&& self.spec_vaults() == other.spec_vaults()
        &&& self.spec_nonce() == other.spec_nonce()
    }

    /// The vaults of `other` with the one under `id` replaced by this engine's.
    pub open spec fn vault_replaced(&self, other: &KeystoneEngine, id: VaultId) -> bool {
        &&& self.spec_vaults().keys@ == other.spec_vaults().keys@
        &&& self.spec_vaults().vals@ == other.spec_vaults().vals@.update(
            key_index(other.spec_vaults().keys@, id),
            self.vault_of(id),
        )
    }

    /// Changing only the journal, to one that still numbers its events, keeps the engine well
    /// formed and the ledger as it was.
    proof fn lemma_journal_step(a: KeystoneEngine, b: KeystoneEngine)
        requires
            a.wf(),
            b.journal.wf(),
            b == (KeystoneEngine { journal: b.journal, ..a }),
        ensures
            b.wf(),
            a.balanced() == b.balanced(),
            b.same_but_vaults(&a),
            b.spec_vaults() == a.spec_vaults(),
    {
    }

    /// Replacing one vault in place by one with the same identity and sound share books keeps
    /// the engine well formed; if the replacement keeps the vault's lending and borrowing
    /// balances, it keeps the ledger balanced.
    proof fn lemma_vault_step(a: KeystoneEngine, b: KeystoneEngine, i: int, id: VaultId)
        requires
            a.wf(),
            0 <= i < a.vaults.keys@.len(),
            a.vaults.keys@[i] == id,
            b == (KeystoneEngine { vaults: b.vaults, ..a }),
            b.vaults.keys@ == a.vaults.keys@,
            b.vaults.vals@ == a.vaults.vals@.update(i, b.vaults.vals@[i]),
            vault_wf(b.vaults.vals@[i]),
            b.vaults.vals@[i].id == a.vaults.vals@[i].id,
            b.vaults.vals@[i].pending_redemptions == a.vaults.vals@[i].pending_redemptions,
        ensures
            b.wf(),
            b.has_vault(id),
            b.vault_of(id) == b.vaults.vals@[i],
            a.vault_of(id) == a.vaults.vals@[i],
            key_index(a.vaults.keys@, id) == i,
            b.vault_replaced(&a, id),
            b.same_but_vaults(&a),
            b.spec_journal() == a.spec_journal(),
            a.balanced() && same_ledger(a.vaults.vals@[i], b.vaults.vals@[i]) ==> b.balanced(),
            total_net_value(b.vaults.vals@) == total_net_value(a.vaults.vals@) - net_value_of(a.vaults.vals@[i])
                + net_value_of(b.vaults.vals@[i]),
            total_holdings(b.vaults.vals@) == total_holdings(a.vaults.vals@) - a.vaults.vals@[i].cash.0
                - a.vaults.vals@[i].locked_collateral.0 + b.vaults.vals@[i].cash.0
                + b.vaults.vals@[i].locked_collateral.0,
    {
        lemma_key_index(a.vaults.keys@, i);
        SortedMap::<VaultId, Vault>::lemma_at_update(a.vaults, b.vaults, i, b.vaults.vals@[i], id);
        assert forall|j: int| 0 <= j < b.vaults.vals@.len() implies vault_wf(#[trigger] b.vaults.vals@[j])
            && b.vaults.vals@[j].id == b.vaults.keys@[j] && b.vaults.vals@[j].pending_redemptions == Amount(0) by {
            if j != i {
                assert(b.vaults.vals@[j] == a.vaults.vals@[j]);
            }
        }
        if same_ledger(a.vaults.vals@[i], b.vaults.vals@[i]) {
            lemma_ledger_swap(a.vaults.vals@, i, b.vaults.vals@[i]);
        }
        lemma_sum_update(a.vaults.vals@, i, b.vaults.vals@[i], |v: Vault| net_value_of(v));
        lemma_sum_update(a.vaults.vals@, i, b.vaults.vals@[i], |v: Vault| v.cash.0 + v.locked_collateral.0);
    }

    /// Registering a new vault with empty books keeps the engine well formed and the ledger as
    /// it was.
    proof fn lemma_vault_insert(a: KeystoneEngine, b: KeystoneEngine, p: int, id: VaultId, vault: Vault)
        requires
            a.wf(),
            !a.vaults.has(id),
            b == (KeystoneEngine { vaults: b.vaults, ..a }),
            b.vaults.wf(),
            0 <= p <= a.vaults.keys@.len(),
            b.vaults.keys@ == a.vaults.keys@.insert(p, id),
            b.vaults.vals@ == a.vaults.vals@.insert(p, vault),
            vault_wf(vault),
            vault.id == id,
            vault.pending_redemptions == Amount(0),
            vault.outstanding_principal == Amount(0),
            vault.debt_principal == Amount(0),
            vault.debt_interest_due == Amount(0),
        ensures
            b.wf(),
            a.balanced() ==> b.balanced(),
            b.has_vault(id),
            b.vault_of(id) == vault,
            b.spec_vaults().keys@.len() == a.spec_vaults().keys@.len() + 1,
            others_kept(a.spec_vaults(), b.spec_vaults(), id),
            b.same_but_vaults(&a),
            b.spec_journal() == a.spec_journal(),
    {
        SortedMap::<VaultId, Vault>::lemma_at_insert(a.vaults, b.vaults, p, id, vault, id);
        assert forall|o: VaultId| o != id implies (#[trigger] b.vaults.has(o)) == a.vaults.has(o) by {
            SortedMap::<VaultId, Vault>::lemma_at_insert(a.vaults, b.vaults, p, id, vault, o);
        }
        assert forall|o: VaultId| o != id && a.vaults.has(o) implies #[trigger] b.vaults.at(o) == a.vaults.at(o) by {
            SortedMap::<VaultId, Vault>::lemma_at_insert(a.vaults, b.vaults, p, id, vault, o);
        }
        assert forall|i: int| 0 <= i < b.vaults.vals@.len() implies vault_wf(#[trigger] b.vaults.vals@[i])
            && b.vaults.vals@[i].id == b.vaults.keys@[i] && b.vaults.vals@[i].pending_redemptions == Amount(0) by {
            if i < p {
                assert(b.vaults.vals@[i] == a.vaults.vals@[i]);
            } else if i > p {
                assert(b.vaults.vals@[i] == a.vaults.vals@[i - 1]);
            }
        }
        lemma_sum_insert(a.vaults.vals@, p, vault, |v: Vault| v.outstanding_principal.0 as int);
        lemma_sum_insert(a.vaults.vals@, p, vault, |v: Vault| v.debt_principal.0 as int);
        lemma_sum_insert(a.vaults.vals@, p, vault, |v: Vault| v.debt_interest_due.0 as int);
    }

    /// Replacing two distinct vaults in place by ones with the same identities and sound share
    /// books keeps the engine well formed, and each total moves by the two vaults' changes.
    proof fn lemma_two_vault_step(a: KeystoneEngine, b: KeystoneEngine, li: int, bi: int, lid: VaultId, bid: VaultId)
        requires
            a.wf(),
            0 <= li < a.vaults.keys@.len(),
            0 <= bi < a.vaults.keys@.len(),
            li != bi,
            a.vaults.keys@[li] == lid,
            a.vaults.keys@[bi] == bid,
            b == (KeystoneEngine { vaults: b.vaults, ..a }),
            b.vaults.keys@ == a.vaults.keys@,
            b.vaults.vals@ == a.vaults.vals@.update(li, b.vaults.vals@[li]).update(bi, b.vaults.vals@[bi]),
            vault_wf(b.vaults.vals@[li]),
            vault_wf(b.vaults.vals@[bi]),
            b.vaults.vals@[li].id == a.vaults.vals@[li].id,
            b.vaults.vals@[bi].id == a.vaults.vals@[bi].id,
            b.vaults.vals@[li].pending_redemptions == a.vaults.vals@[li].pending_redemptions,
            b.vaults.vals@[bi].pending_redemptions == a.vaults.vals@[bi].pending_redemptions,
        ensures
            b.wf(),
            b.vault_of(lid) == b.vaults.vals@[li],
            b.vault_of(bid) == b.vaults.vals@[bi],
            a.vault_of(lid) == a.vaults.vals@[li],
            a.vault_of(bid) == a.vaults.vals@[bi],
            b.two_vaults_replaced(&a, lid, bid),
            b.spec_journal() == a.spec_journal(),
            lent_principal(b.vaults.vals@) == lent_principal(a.vaults.vals@) - a.vaults.vals@[li].outstanding_principal.0
                + b.vaults.vals@[li].outstanding_principal.0 - a.vaults.vals@[bi].outstanding_principal.0
                + b.vaults.vals@[bi].outstanding_principal.0,
            borrowed_principal(b.vaults.vals@) == borrowed_principal(a.vaults.vals@) - a.vaults.vals@[li].debt_principal.0
                + b.vaults.vals@[li].debt_principal.0 - a.vaults.vals@[bi].debt_principal.0
                + b.vaults.vals@[bi].debt_principal.0,
            borrowed_interest(b.vaults.vals@) == borrowed_interest(a.vaults.vals@)
                - a.vaults.vals@[li].debt_interest_due.0 + b.vaults.vals@[li].debt_interest_due.0
                - a.vaults.vals@[bi].debt_interest_due.0 + b.vaults.vals@[bi].debt_interest_due.0,
            total_net_value(b.vaults.vals@) == total_net_value(a.vaults.vals@) - net_value_of(a.vaults.vals@[li])
                + net_value_of(b.vaults.vals@[li]) - net_value_of(a.vaults.vals@[bi]) + net_value_of(
                b.vaults.vals@[bi],
            ),
            total_holdings(b.vaults.vals@) == total_holdings(a.vaults.vals@) - a.vaults.vals@[li].cash.0
                - a.vaults.vals@[li].locked_collateral.0 + b.vaults.vals@[li].cash.0
                + b.vaults.vals@[li].locked_collateral.0 - a.vaults.vals@[bi].cash.0
                - a.vaults.vals@[bi].locked_collateral.0 + b.vaults.vals@[bi].cash.0
                + b.vaults.vals@[bi].locked_collateral.0,
    {
        let vs = a.vaults.vals@;
        let mid = vs.update(li, b.vaults.vals@[li]);
        lemma_key_index(a.vaults.keys@, li);
        lemma_key_index(a.vaults.keys@, bi);
        let m = SortedMap::<VaultId, Vault> { keys: b.vaults.keys, vals: b.vaults.vals };
        assert forall|j: int| 0 <= j < b.vaults.vals@.len() implies vault_wf(#[trigger] b.vaults.vals@[j])
            && b.vaults.vals@[j].id == b.vaults.keys@[j] && b.vaults.vals@[j].pending_redemptions == Amount(0) by {
            if j != li && j != bi {
                assert(b.vaults.vals@[j] == vs[j]);
            }
        }
        lemma_sum_update(vs, li, b.vaults.vals@[li], |v: Vault| v.outstanding_principal.0 as int);
        lemma_sum_update(mid, bi, b.vaults.vals@[bi], |v: Vault| v.outstanding_principal.0 as int);
        lemma_sum_update(vs, li, b.vaults.vals@[li], |v: Vault| v.debt_principal.0 as int);
        lemma_sum_update(mid, bi, b.vaults.vals@[bi], |v: Vault| v.debt_principal.0 as int);
        lemma_sum_update(vs, li, b.vaults.vals@[li], |v: Vault| v.debt_interest_due.0 as int);
        lemma_sum_update(mid, bi, b.vaults.vals@[bi], |v: Vault| v.debt_interest_due.0 as int);
        lemma_sum_update(vs, li, b.vaults.vals@[li], |v: Vault| net_value_of(v));
        lemma_sum_update(mid, bi, b.vaults.vals@[bi], |v: Vault| net_value_of(v));
        lemma_sum_update(vs, li, b.vaults.vals@[li], |v: Vault| v.cash.0 + v.locked_collateral.0);
        lemma_sum_update(mid, bi, b.vaults.vals@[bi], |v: Vault| v.cash.0 + v.locked_collateral.0);
        assert(mid[bi] == vs[bi]);
    }

    /// Adding a loan under its own identity keeps the engine well formed; the open totals grow
    /// by what the loan has open.
    proof fn lemma_loan_insert(a: KeystoneEngine, b: KeystoneEngine, p: int, id: LoanId, loan: LoanState)
        requires
            a.wf(),
            !a.loans.has(id),
            b == (KeystoneEngine { loans: b.loans, next_loan_nonce: b.next_loan_nonce, ..a }),
            b.loans.wf(),
            0 <= p <= a.loans.keys@.len(),
            b.loans.keys@ == a.loans.keys@.insert(p, id),
            b.loans.vals@ == a.loans.vals@.insert(p, loan),
            loan.id() == id,
            loan.terms().lender != loan.terms().borrower,
        ensures
            b.wf(),
            b.has_loan(id),
            b.loan_of(id) == loan,
            others_kept(a.spec_loans(), b.spec_loans(), id),
            b.spec_loans().keys@.len() == a.spec_loans().keys@.len() + 1,
            open_principal(b.loans.vals@) == open_principal(a.loans.vals@) + open_principal_of(loan),
            open_interest(b.loans.vals@) == open_interest(a.loans.vals@) + open_interest_of(loan),
    {
        SortedMap::<LoanId, LoanState>::lemma_at_insert(a.loans, b.loans, p, id, loan, id);
        assert forall|o: LoanId| o != id implies (#[trigger] b.loans.has(o)) == a.loans.has(o) by {
            SortedMap::<LoanId, LoanState>::lemma_at_insert(a.loans, b.loans, p, id, loan, o);
        }
        assert forall|o: LoanId| o != id && a.loans.has(o) implies #[trigger] b.loans.at(o) == a.loans.at(o) by {
            SortedMap::<LoanId, LoanState>::lemma_at_insert(a.loans, b.loans, p, id, loan, o);
        }
        assert forall|i: int| 0 <= i < b.loans.vals@.len() implies (#[trigger] b.loans.vals@[i]).id()
            == b.loans.keys@[i] && b.loans.vals@[i].terms().lender != b.loans.vals@[i].terms().borrower by {
            if i < p {
                assert(b.loans.vals@[i] == a.loans.vals@[i]);
            } else if i > p {
                assert(b.loans.vals@[i] == a.loans.vals@[i - 1]);
            }
        }
        lemma_sum_insert(a.loans.vals@, p, loan, |l: LoanState| open_principal_of(l));
        lemma_sum_insert(a.loans.vals@, p, loan, |l: LoanState| open_interest_of(l));
    }

    /// Replacing a loan in place by one with the same identity keeps the engine well formed; the
    /// open totals move by the change in what the loan has open.
    proof fn lemma_loan_step(a: KeystoneEngine, b: KeystoneEngine, k: int, id: LoanId)
        requires
            a.wf(),
            0 <= k < a.loans.keys@.len(),
            a.loans.keys@[k] == id,
            b == (KeystoneEngine { loans: b.loans, next_loan_nonce: b.next_loan_nonce, vaults: b.vaults, ..a }),
            b.vaults.wf(),
            forall|i: int| 0 <= i < b.vaults.vals@.len() ==> vault_wf(#[trigger] b.vaults.vals@[i]),
            forall|i: int| 0 <= i < b.vaults.vals@.len() ==> (#[trigger] b.vaults.vals@[i]).id == b.vaults.keys@[i],
            forall|i: int|
                0 <= i < b.vaults.vals@.len() ==> (#[trigger] b.vaults.vals@[i]).pending_redemptions == Amount(0),
            b.loans.keys@ == a.loans.keys@,
            b.loans.vals@ == a.loans.vals@.update(k, b.loans.vals@[k]),
            b.loans.vals@[k].id() == id,
            b.loans.vals@[k].terms().lender != b.loans.vals@[k].terms().borrower,
        ensures
            b.wf(),
            b.has_loan(id),
            b.loan_of(id) == b.loans.vals@[k],
            a.loan_of(id) == a.loans.vals@[k],
            key_index(a.loans.keys@, id) == k,
            others_kept(a.spec_loans(), b.spec_loans(), id),
            open_principal(b.loans.vals@) == open_principal(a.loans.vals@) - open_principal_of(a.loans.vals@[k])
                + open_principal_of(b.loans.vals@[k]),
            open_interest(b.loans.vals@) == open_interest(a.loans.vals@) - open_interest_of(a.loans.vals@[k])
                + open_interest_of(b.loans.vals@[k]),
    {
        lemma_key_index(a.loans.keys@, k);
        SortedMap::<LoanId, LoanState>::lemma_at_update(a.loans, b.loans, k, b.loans.vals@[k], id);
        assert forall|o: LoanId| o != id implies (#[trigger] b.loans.has(o)) == a.loans.has(o) by {
            SortedMap::<LoanId, LoanState>::lemma_at_update(a.loans, b.loans, k, b.loans.vals@[k], o);
        }
        assert forall|o: LoanId| o != id && a.loans.has(o) implies #[trigger] b.loans.at(o) == a.loans.at(o) by {
            SortedMap::<LoanId, LoanState>::lemma_at_update(a.loans, b.loans, k, b.loans.vals@[k], o);
        }
        assert forall|i: int| 0 <= i < b.loans.vals@.len() implies (#[trigger] b.loans.vals@[i]).id()
            == b.loans.keys@[i] && b.loans.vals@[i].terms().lender != b.loans.vals@[i].terms().borrower by {
            if i != k {
                assert(b.loans.vals@[i] == a.loans.vals@[i]);
            }
        }
        lemma_sum_update(a.loans.vals@, k, b.loans.vals@[k], |l: LoanState| open_principal_of(l));
        lemma_sum_update(a.loans.vals@, k, b.loans.vals@[k], |l: LoanState| open_interest_of(l));
    }

    pub fn new(config: EngineConfig) -> (r: KeystoneResult<Self>)
        ensures
            r matches Ok(e) && e.starts_from(config),
    {
        let mut oracle = OracleBook::default();
        oracle.set_unit_price(config.asset, config.start_epoch)?;
        let vaults: SortedMap<VaultId, Vault> = SortedMap::new();
        let loans: SortedMap<LoanId, LoanState> = SortedMap::new();
        assert(vaults.vals@ =~= Seq::<Vault>::empty());
        assert(loans.vals@ =~= Seq::<LoanState>::empty());
        let journal = Journal::new(config.network_id, config.start_epoch)?;
        Ok(Self {
            config,
            clock: EpochClock::new(config.start_epoch),
            policy: config.default_policy,
            oracle,
            vaults,
            loans,
            journal,
            next_loan_nonce: 1,
        })
    }

    pub fn network_id(&self) -> (r: u32)
        ensures
            r == self.spec_config().network_id,
    {
        self.config.network_id
    }

    pub fn asset(&self) -> (r: AssetId)
        ensures
            r == self.spec_config().asset,
    {
        self.config.asset
    }

    pub fn epoch(&self) -> (r: Epoch)
        ensures
            r == self.spec_epoch(),
    {
        self.clock.current()
    }

    pub fn policy(&self) -> (r: ProtocolPolicy)
        ensures
            r == self.spec_policy(),
    {
        self.policy
    }

    pub fn oracle(&self) -> (r: &OracleBook)
        ensures
            *r == self.spec_oracle(),
    {
        &self.oracle
    }

    pub fn journal(&self) -> (r: &Journal)
        ensures
            *r == self.spec_journal(),
    {
        &self.journal
    }

    pub fn vault_count(&self) -> (r: usize)
        requires
            self.wf(),
        ensures
            r == self.spec_vaults().keys@.len(),
    {
        self.vaults.len()
    }

    pub fn loan_count(&self) -> (r: usize)
        requires
            self.wf(),
        ensures
            r == self.spec_loans().keys@.len(),
    {
        self.loans.len()
    }

    pub fn active_loan_count(&self) -> (r: usize)
        requires
            self.wf(),
        ensures
            r == active_count(self.spec_loans().vals@),
    {
        let mut count: usize = 0;
        let mut i: usize = 0;
        proof {
            crate::sums::lemma_sum_prefix_le(self.loans.vals@, 0, |l: LoanState| if status_terminal(l.status()) { 0int } else { 1int });
        }
        while i < self.loans.vals.len()
            invariant
                0 <= i <= self.loans.vals@.len(),
                count == active_count(self.loans.vals@.take(i as int)),
                count <= i,
            decreases self.loans.vals@.len() - i,
        {
            proof {
                crate::sums::lemma_sum_take_next(
                    self.loans.vals@,
                    i as int,
                    |l: LoanState| if status_terminal(l.status()) { 0int } else { 1int },
                );
            }
            if !self.loans.vals[i].status().is_terminal() {
                count = count + 1;
            }
            i = i + 1;
        }
        assert(self.loans.vals@.take(self.loans.vals@.len() as int) =~= self.loans.vals@);
        count
    }

    pub fn vault_ids(&self) -> (r: Vec<VaultId>)
        ensures
            r@ == self.spec_vaults().keys@,
    {
        let mut out: Vec<VaultId> = Vec::new();
        let mut i: usize = 0;
        while i < self.vaults.keys.len()
            invariant
                0 <= i <= self.vaults.keys@.len(),
                out@ == self.vaults.keys@.take(i as int),
            decreases self.vaults.keys@.len() - i,
        {
            out.push(self.vaults.keys[i]);
            i = i + 1;
            assert(out@ =~= self.vaults.keys@.take(i as int));
        }
        assert(self.vaults.keys@.take(self.vaults.keys@.len() as int) =~= self.vaults.keys@);
        out
    }

    pub fn loan_ids(&self) -> (r: Vec<LoanId>)
        ensures
            r@ == self.spec_loans().keys@,
    {
        let mut out: Vec<LoanId> = Vec::new();
        let mut i: usize = 0;
        while i < self.loans.keys.len()
            invariant
                0 <= i <= self.loans.keys@.len(),
                out@ == self.loans.keys@.take(i as int),
            decreases self.loans.keys@.len() - i,
        {
            out.push(self.loans.keys[i]);
            i = i + 1;
            assert(out@ =~= self.loans.keys@.take(i as int));
        }
        assert(self.loans.keys@.take(self.loans.keys@.len() as int) =~= self.loans.keys@);
        out
    }

    /// The position of a vault, if registered.
    fn vault_index(&self, id: VaultId) -> (r: KeystoneResult<usize>)
        requires
            self.wf(),
        ensures
            !self.has_vault(id) ==> r == Err::<usize, KeystoneError>(KeystoneError::VaultNotFound),
            self.has_vault(id) ==> r == Ok::<usize, KeystoneError>(key_index(self.spec_vaults().keys@, id) as usize),
            r matches Ok(i) ==> i < self.spec_vaults().keys@.len() && self.spec_vaults().keys@[i as int] == id,
    {
        match self.vaults.find(&id) {
            Some(i) => {
                proof {
                    lemma_key_index(self.vaults.keys@, i as int);
                }
                Ok(i)
            },
            None => Err(KeystoneError::VaultNotFound),
        }
    }

    /// The position of a loan, if present.
    fn loan_index(&self, id: LoanId) -> (r: KeystoneResult<usize>)
        requires
            self.wf(),
        ensures
            !self.has_loan(id) ==> r == Err::<usize, KeystoneError>(KeystoneError::LoanNotFound),
            self.has_loan(id) ==> r == Ok::<usize, KeystoneError>(key_index(self.spec_loans().keys@, id) as usize),
            r matches Ok(i) ==> i < self.spec_loans().keys@.len() && self.spec_loans().keys@[i as int] == id,
    {
        match self.loans.find(&id) {
            Some(i) => {
                proof {
                    lemma_key_index(self.loans.keys@, i as int);
                }
                Ok(i)
            },
            None => Err(KeystoneError::LoanNotFound),
        }
    }

    pub fn vault(&self, id: VaultId) -> (r: KeystoneResult<&Vault>)
        requires
            self.wf(),
        ensures
            !self.has_vault(id) ==> r == Err::<&Vault, KeystoneError>(KeystoneError::VaultNotFound),
            self.has_vault(id) ==> (r matches Ok(v) && *v == self.vault_of(id)),
    {
        let i = self.vault_index(id)?;
        Ok(&self.vaults.vals[i])
    }

    /// Mutable access to a vault; what the caller writes through it lands in the engine
    /// unchecked, so the engine is no longer known to be well formed afterwards.
    pub fn vault_mut(&mut self, id: VaultId) -> (r: KeystoneResult<&mut Vault>)
        requires
            old(self).wf(),
        ensures
            !old(self).has_vault(id) ==> (r matches Err(e) && e == KeystoneError::VaultNotFound && *final(self)
                == *old(self)),
            old(self).has_vault(id) ==> (r matches Ok(v) && *v == old(self).vault_of(id) && final(self).vault_of(id)
                == *final(v) && final(self).vault_replaced(old(self), id) && final(self).same_but_vaults(old(self))
                && final(self).spec_journal() == old(self).spec_journal()),
    {
        let i = self.vault_index(id)?;
        Ok(&mut self.vaults.vals[i])
    }

    pub fn loan(&self, id: LoanId) -> (r: KeystoneResult<&LoanState>)
        requires
            self.wf(),
        ensures
            !self.has_loan(id) ==> r == Err::<&LoanState, KeystoneError>(KeystoneError::LoanNotFound),
            self.has_loan(id) ==> (r matches Ok(l) && *l == self.loan_of(id)),
    {
        let i = self.loan_index(id)?;
        Ok(&self.loans.vals[i])
    }

    /// Mutable access to a loan; what the caller writes through it lands in the engine
    /// unchecked, so the engine is no longer known to be well formed afterwards.
    pub fn loan_mut(&mut self, id: LoanId) -> (r: KeystoneResult<&mut LoanState>)
        requires
            old(self).wf(),
        ensures
            !old(self).has_loan(id) ==> (r matches Err(e) && e == KeystoneError::LoanNotFound && *final(self)
                == *old(self)),
            old(self).has_loan(id) ==> (r matches Ok(l) && *l == old(self).loan_of(id) && final(self).loan_of(id)
                == *final(l) && final(self).spec_loans().keys@ == old(self).spec_loans().keys@
                && final(self).spec_loans().vals@ == old(self).spec_loans().vals@.update(
                key_index(old(self).spec_loans().keys@, id),
                *final(l),
            ) && final(self).same_but_loans(old(self)) && final(self).spec_journal() == old(self).spec_journal()),
    {
        let i = self.loan_index(id)?;
        Ok(&mut self.loans.vals[i])
    }

    #[verifier::spinoff_prover]
    #[verifier::rlimit(80)]
    pub fn register_vault(&mut self, name: &str, role: VaultRole) -> (r: KeystoneResult<VaultId>)
        requires
            old(self).wf(),
        ensures
            final(self).wf(),
            old(self).balanced() ==> final(self).balanced(),
            old(self).invariants_hold() ==> final(self).invariants_hold(),
            old(self).register_outcome(final(self), name, role, r),
    {
        if self.vaults.len() >= self.policy.limits.max_vaults {
            return Err(KeystoneError::LimitExceeded);
        }
        let id = VaultId::named(name, self.config.asset);
        if self.vaults.find(&id).is_some() {
            return Err(KeystoneError::VaultAlreadyExists);
        }
        let vault = Vault::new(id, name, self.config.asset, role);
        let ghost before = *self;
        let p = self.vaults.insert_new(id, vault);
        proof {
            Self::lemma_vault_insert(before, *self, p as int, id, vault);
        }
        let epoch = self.clock.current();
        let ghost middle = *self;
        self.journal.push(epoch, EventKind::VaultRegistered { vault: id, role: String::from_str(role.as_str()) })?;
        proof {
            Self::lemma_journal_step(middle, *self);
        }
        Ok(id)
    }

    pub fn deposit(&mut self, vault_id: VaultId, owner: AccountId, amount: Amount) -> (r: KeystoneResult<
        DepositReceipt,
    >)
        requires
            old(self).wf(),
        ensures
            final(self).wf(),
            old(self).balanced() ==> final(self).balanced(),
            old(self).invariants_hold() ==> final(self).invariants_hold(),
            old(self).deposit_outcome(final(self), vault_id, owner, amount, r),
            r is Err ==> *final(self) == *old(self),
            r is Ok ==> total_net_value(final(self).spec_vaults().vals@) == total_net_value(
                old(self).spec_vaults().vals@,
            ) + amount.0 && total_holdings(final(self).spec_vaults().vals@) == total_holdings(
                old(self).spec_vaults().vals@,
            ) + amount.0,
    {
        let i = self.vault_index(vault_id)?;
        let ghost before = *self;
        proof {
            assert(vault_wf(self.vaults.vals@[i as int]));
        }
        proof {
            lemma_key_index(self.vaults.keys@, i as int);
            assert(self.vaults.vals@.update(i as int, self.vaults.vals@[i as int]) =~= self.vaults.vals@);
        }
        self.vaults.vals[i].check_deposit(amount)?;
        let receipt = self.vaults.vals[i].deposit(owner, amount);
        proof {
            Self::lemma_vault_step(before, *self, i as int, vault_id);
        }
        let receipt = receipt?;
        let epoch = self.clock.current();
        let ghost middle = *self;
        self.journal.push(
            epoch,
            EventKind::AccountDeposited { vault: vault_id, owner, amount, shares: receipt.shares },
        )?;
        proof {
            Self::lemma_journal_step(middle, *self);
        }
        Ok(receipt)
    }

    pub fn redeem(&mut self, vault_id: VaultId, owner: AccountId, shares: Shares) -> (r: KeystoneResult<
        RedemptionQuote,
    >)
        requires
            old(self).wf(),
        ensures
            final(self).wf(),
            old(self).balanced() ==> final(self).balanced(),
            old(self).redeem_outcome(final(self), vault_id, owner, shares, r),
            r is Err ==> *final(self) == *old(self),
            old(self).invariants_hold() ==> final(self).invariants_hold(),
            r matches Ok(q) ==> total_net_value(final(self).spec_vaults().vals@) == total_net_value(
                old(self).spec_vaults().vals@,
            ) - q.amount.0 && total_holdings(final(self).spec_vaults().vals@) == total_holdings(
                old(self).spec_vaults().vals@,
            ) - q.amount.0,
    {
        let i = self.vault_index(vault_id)?;
        let ghost before = *self;
        proof {
            assert(vault_wf(self.vaults.vals@[i as int]));
        }
        proof {
            lemma_key_index(self.vaults.keys@, i as int);
            assert(self.vaults.vals@.update(i as int, self.vaults.vals@[i as int]) =~= self.vaults.vals@);
        }
        self.vaults.vals[i].check_redeem(owner, shares)?;
        let quote = self.vaults.vals[i].redeem(owner, shares);
        proof {
            Self::lemma_vault_step(before, *self, i as int, vault_id);
        }
        let quote = quote?;
        let epoch = self.clock.current();
        let ghost middle = *self;
        self.journal.push(epoch, EventKind::AccountRedeemed { vault: vault_id, owner, amount: quote.amount, shares })?;
        proof {
            Self::lemma_journal_step(middle, *self);
        }
        Ok(quote)
    }

    pub fn quote_redeem(&self, vault_id: VaultId, owner: AccountId, shares: Shares) -> (r: KeystoneResult<
        RedemptionQuote,
    >)
        requires
            self.wf(),
        ensures
            !self.has_vault(vault_id) ==> r == Err::<RedemptionQuote, KeystoneError>(KeystoneError::VaultNotFound),
            self.has_vault(vault_id) ==> r == redeem_quote_of(self.vault_of(vault_id), owner, shares),
    {
        let i = self.vault_index(vault_id)?;
        proof {
            assert(vault_wf(self.vaults.vals@[i as int]));
        }
        self.vaults.vals[i].quote_redeem(owner, shares)
    }

    /// The checks before opening a loan between the vaults at two positions.
    fn open_checks(&self, li: usize, bi: usize, principal: Amount, collateral: Amount, tenor_epochs: u64) -> (r:
        KeystoneResult<(Bps, Schedule, Amount)>)
        requires
            self.wf(),
            li < self.vaults.vals@.len(),
            bi < self.vaults.vals@.len(),
        ensures
            r == open_checks_of(
                self.vaults.vals@[li as int],
                self.vaults.vals@[bi as int],
                self.config.asset,
                self.policy,
                self.spec_epoch(),
                principal,
                collateral,
                tenor_epochs,
            ),
    {
        let lender = &self.vaults.vals[li];
        let borrower = &self.vaults.vals[bi];
        if lender.asset != borrower.asset || lender.asset != self.config.asset {
            return Err(KeystoneError::AssetMismatch);
        }
        if !lender.role.can_lend() || !borrower.role.can_borrow() {
            return Err(KeystoneError::VaultRoleMismatch);
        }
        let utilization = lender.utilization_bps()?;
        let annual_rate = self.policy.interest.quoted_rate(utilization, self.policy.collateral.tier)?;
        let schedule = Schedule::new(self.clock.current(), tenor_epochs, 3, self.policy.interest.epochs_per_year)?;
        let scheduled_interest = self.policy.interest.projected_interest(principal, annual_rate, tenor_epochs)?;
        let borrower_debt_after = borrower.debt_principal.checked_add(principal)?.checked_add(
            borrower.debt_interest_due,
        )?.checked_add(scheduled_interest)?;
        let lender_nav = lender.net_asset_value()?;
        let borrower_nav = borrower.net_asset_value()?.max(Amount(1));
        self.policy.check_open_loan(principal, collateral, lender_nav, borrower_debt_after, borrower_nav)?;
        let available = lender.available_to_lend(self.policy)?;
        if principal.0 > available.0 {
            return Err(KeystoneError::InsufficientLiquidity);
        }
        Ok((annual_rate, schedule, scheduled_interest))
    }

    #[verifier::spinoff_prover]
    #[verifier::rlimit(80)]
    pub fn open_loan(
        &mut self,
        lender_id: VaultId,
        borrower_id: VaultId,
        principal: Amount,
        collateral: Amount,
        tenor_epochs: u64,
    ) -> (r: KeystoneResult<LoanId>)
        requires
            old(self).wf(),
        ensures
            final(self).wf(),
            old(self).open_loan_outcome(final(self), lender_id, borrower_id, principal, collateral, tenor_epochs, r),
            r is Err ==> *final(self) == *old(self),
            old(self).balanced() ==> final(self).balanced(),
            r is Ok ==> total_net_value(final(self).spec_vaults().vals@) == total_net_value(old(self).spec_vaults().vals@),
            r is Ok ==> total_holdings(final(self).spec_vaults().vals@) == total_holdings(old(self).spec_vaults().vals@),
            old(self).invariants_hold() && (r is Ok ==> final(self).values_fit(lender_id, borrower_id)
                && final(self).open_totals_fit()) ==> final(self).invariants_hold(),
    {
        if self.active_loan_count() >= self.policy.limits.max_active_loans {
            return Err(KeystoneError::LimitExceeded);
        }
        if lender_id == borrower_id {
            return Err(KeystoneError::SelfLoan);
        }
        let li = self.vault_index(lender_id)?;
        let bi = self.vault_index(borrower_id)?;
        proof {
            lemma_key_index(self.vaults.keys@, li as int);
            lemma_key_index(self.vaults.keys@, bi as int);
            assert(vault_wf(self.vaults.vals@[li as int]));
            assert(vault_wf(self.vaults.vals@[bi as int]));
        }
        let plan = self.open_checks(li, bi, principal, collateral, tenor_epochs)?;
        let annual_rate = plan.0;
        let schedule = plan.1;
        let scheduled_interest = plan.2;
        check_open_moves(&self.vaults.vals[li], &self.vaults.vals[bi], principal, collateral, scheduled_interest)?;
        let nonce = self.next_loan_nonce;
        if nonce == u64::MAX {
            return Err(KeystoneError::AmountOverflow);
        }
        let policy_digest = self.policy.digest()?;
        let terms = LoanTerms::new(
            LoanTermsInput {
                network_id: self.config.network_id,
                lender: self.vaults.vals[li].id,
                borrower: self.vaults.vals[bi].id,
                principal,
                collateral,
                annual_rate_bps: annual_rate,
                schedule,
                policy_digest,
                nonce,
            },
        )?;
        let loan = LoanState::activate(terms, scheduled_interest)?;
        let loan_id = loan.id();
        if self.loans.find(&loan_id).is_some() {
            return Err(KeystoneError::LoanAlreadyExists);
        }
        let ghost s0 = *self;
        let locked = self.vaults.vals[bi].lock_collateral(collateral);
        let funded = self.vaults.vals[li].fund_loan(principal, scheduled_interest);
        let drawn = self.vaults.vals[bi].receive_loan_draw(principal, scheduled_interest);
        proof {
            assert(locked is Ok && funded is Ok && drawn is Ok);
            assert(self.vaults.vals@ =~= s0.vaults.vals@.update(li as int, self.vaults.vals@[li as int]).update(
                bi as int,
                self.vaults.vals@[bi as int],
            ));
            Self::lemma_two_vault_step(s0, *self, li as int, bi as int, lender_id, borrower_id);
        }
        self.next_loan_nonce = nonce + 1;
        let ghost s1 = *self;
        assert(loan.terms().lender != loan.terms().borrower) by {
            assert(s0.vaults.vals@[li as int].id == lender_id);
            assert(s0.vaults.vals@[bi as int].id == borrower_id);
        }
        let p = self.loans.insert_new(loan_id, loan);
        proof {
            Self::lemma_loan_insert(s1, *self, p as int, loan_id, loan);
            if s0.invariants_hold() && nav_of(self.vaults.vals@[li as int]) is Ok && nav_of(
                self.vaults.vals@[bi as int],
            ) is Ok {
                lemma_values_after(s0.vaults.vals@, self.vaults.vals@, li as int, bi as int);
                let a = s1.loans.vals@;
                let f = self.loans.vals@;
                assert forall|i: int| 0 <= i < f.len() && !status_terminal((#[trigger] f[i]).status()) implies remaining_sched_of(f[i]) is Ok by {
                    if i < p {
                        assert(f[i] == a[i]);
                    } else if i > p {
                        assert(f[i] == a[i - 1]);
                    }
                }
            }
        }
        let epoch = self.clock.current();
        let ghost s2 = *self;
        self.journal.push(
            epoch,
            EventKind::LoanOpened {
                loan: loan_id,
                lender: lender_id,
                borrower: borrower_id,
                principal,
                projected_interest: scheduled_interest,
            },
        )?;
        proof {
            Self::lemma_journal_step(s2, *self);
        }
        Ok(loan_id)
    }

    pub fn quote_repayment(&self, loan_id: LoanId, mode: RepaymentMode, principal: Option<Amount>) -> (r:
        KeystoneResult<PaymentQuote>)
        requires
            self.wf(),
        ensures
            r == self.quote_of(loan_id, mode, principal),
    {
        let i = self.loan_index(loan_id)?;
        let loan = &self.loans.vals[i];
        let now = self.clock.current();
        let epochs_per_year = self.policy.interest.epochs_per_year;
        match mode {
            RepaymentMode::Scheduled => loan.quote_scheduled_repayment(),
            RepaymentMode::Early => loan.quote_early_repayment(now, epochs_per_year),
            RepaymentMode::Partial => {
                let amount = match principal {
                    Some(p) => p,
                    None => loan.remaining_principal(),
                };
                loan.quote_partial_repayment(now, amount, epochs_per_year, self.policy.collateral)
            },
            RepaymentMode::Recovery => loan.quote_scheduled_repayment(),
        }
    }

    #[verifier::spinoff_prover]
    #[verifier::rlimit(80)]
    pub fn repay_loan(&mut self, loan_id: LoanId, mode: RepaymentMode, principal: Option<Amount>) -> (r:
        KeystoneResult<PaymentQuote>)
        requires
            old(self).wf(),
        ensures
            final(self).wf(),
            old(self).repay_outcome(final(self), loan_id, mode, principal, r),
            r is Err ==> *final(self) == *old(self),
            old(self).balanced() ==> final(self).balanced(),
            r matches Ok(q) ==> total_net_value(final(self).spec_vaults().vals@) == total_net_value(
                old(self).spec_vaults().vals@,
            ) + q.borrower_interest_reduction.0 - q.lender_projection_reduction.0,
            old(self).invariants_hold() && (r is Ok ==> final(self).values_fit(
                old(self).loan_of(loan_id).spec_lender(),
                old(self).loan_of(loan_id).spec_borrower(),
            )) ==> final(self).invariants_hold(),
            r is Ok ==> total_holdings(final(self).spec_vaults().vals@) == total_holdings(old(self).spec_vaults().vals@),
    {
        let quote = self.quote_repayment(loan_id, mode, principal)?;
        if quote.is_zero() {
            return Err(KeystoneError::ZeroAmount);
        }
        let k = self.loan_index(loan_id)?;
        let lender_id = self.loans.vals[k].lender();
        let borrower_id = self.loans.vals[k].borrower();
        if lender_id == borrower_id {
            return Err(KeystoneError::SelfLoan);
        }
        let li = self.vault_index(lender_id)?;
        let bi = self.vault_index(borrower_id)?;
        proof {
            lemma_key_index(self.vaults.keys@, li as int);
            lemma_key_index(self.vaults.keys@, bi as int);
            lemma_key_index(self.loans.keys@, k as int);
            assert(vault_wf(self.vaults.vals@[li as int]));
            assert(vault_wf(self.vaults.vals@[bi as int]));
            lemma_quote_shape(self.loans.vals@[k as int], mode, principal, self.spec_epoch(), self.policy.interest.epochs_per_year);
        }
        let released = check_repay_moves(&self.vaults.vals[li], &self.vaults.vals[bi], quote)?;
        let applied = PaymentQuote { collateral_release: released, ..quote };
        self.loans.vals[k].check_repayment(applied)?;
        let ghost s0 = *self;
        let paid = self.vaults.vals[bi].pay_repayment_cash(
            quote.principal,
            quote.interest,
            quote.borrower_interest_reduction,
        );
        let received = self.vaults.vals[li].receive_repayment_cash(quote.principal, quote.interest);
        if !quote.lender_projection_reduction.is_zero() {
            let reduced = self.vaults.vals[li].reduce_expected_interest(quote.lender_projection_reduction);
            assert(reduced is Ok);
        }
        let freed = self.vaults.vals[bi].release_collateral(quote.collateral_release);
        proof {
            assert(paid is Ok && received is Ok && freed == Ok::<Amount, KeystoneError>(released));
            assert(self.vaults.vals@ =~= s0.vaults.vals@.update(li as int, self.vaults.vals@[li as int]).update(
                bi as int,
                self.vaults.vals@[bi as int],
            ));
            Self::lemma_two_vault_step(s0, *self, li as int, bi as int, lender_id, borrower_id);
        }
        let ghost s1 = *self;
        let outcome = self.loans.vals[k].apply_repayment(applied);
        proof {
            assert(outcome is Ok);
            Self::lemma_loan_step(s1, *self, k as int, loan_id);
            if s0.invariants_hold() && nav_of(self.vaults.vals@[li as int]) is Ok && nav_of(
                self.vaults.vals@[bi as int],
            ) is Ok {
                lemma_values_after(s0.vaults.vals@, self.vaults.vals@, li as int, bi as int);
                assert(self.loans.vals@ =~= s1.loans.vals@.update(k as int, self.loans.vals@[k as int]));
                lemma_schedules_after(s1.loans.vals@, self.loans.vals@, k as int);
                assert(self.invariants_hold());
            }
        }
        let epoch = self.clock.current();
        let ghost s2 = *self;
        self.journal.push(
            epoch,
            EventKind::LoanRepaid {
                loan: loan_id,
                payer: borrower_id,
                principal: applied.principal,
                interest: applied.interest,
                mode: String::from_str(applied.mode.as_str()),
            },
        )?;
        proof {
            Self::lemma_journal_step(s2, *self);
        }
        if !applied.collateral_release.is_zero() {
            let ghost s3 = *self;
            self.journal.push(
                epoch,
                EventKind::CollateralReleased { loan: loan_id, borrower: borrower_id, amount: applied.collateral_release },
            )?;
            proof {
                Self::lemma_journal_step(s3, *self);
            }
        }
        Ok(applied)
    }

    pub fn mark_default(&mut self, loan_id: LoanId) -> (r: KeystoneResult<u64>)
        requires
            old(self).wf(),
        ensures
            final(self).wf(),
            old(self).balanced() ==> final(self).balanced(),
            old(self).invariants_hold() ==> final(self).invariants_hold(),
            old(self).mark_default_outcome(final(self), loan_id, r),
    {
        let now = self.clock.current();
        let k = self.loan_index(loan_id)?;
        let ghost s0 = *self;
        let overdue = self.loans.vals[k].mark_defaulted(now);
        proof {
            Self::lemma_loan_step(s0, *self, k as int, loan_id);
        }
        let overdue = overdue?;
        let ghost s1 = *self;
        self.journal.push(now, EventKind::LoanDefaulted { loan: loan_id, overdue_epochs: overdue })?;
        proof {
            Self::lemma_journal_step(s1, *self);
        }
        Ok(overdue)
    }

    pub fn liquidation_plan(&self, loan_id: LoanId) -> (r: KeystoneResult<LiquidationPlan>)
        requires
            self.wf(),
        ensures
            !self.has_loan(loan_id) ==> r == Err::<LiquidationPlan, KeystoneError>(KeystoneError::LoanNotFound),
            self.has_loan(loan_id) ==> r == plan_of(self.loan_of(loan_id), self.spec_policy()),
    {
        let k = self.loan_index(loan_id)?;
        LiquidationPlan::build(&self.loans.vals[k], self.policy)
    }

    /// Settles a liquidation that every check has passed: a defaulted loan starts liquidating,
    /// the collateral and proceeds move and the loan closes what was covered.
    #[verifier::spinoff_prover]
    #[verifier::rlimit(100)]
    fn settle_liquidation(
        &mut self,
        k: usize,
        li: usize,
        bi: usize,
        plan: LiquidationPlan,
        cancelled: Amount,
        seized: Amount,
    )
        requires
            old(self).wf(),
            k < old(self).loans.vals@.len(),
            li < old(self).vaults.vals@.len(),
            bi < old(self).vaults.vals@.len(),
            li != bi,
            plan_of(old(self).loans.vals@[k as int], old(self).policy) == Ok::<LiquidationPlan, KeystoneError>(plan),
            old(self).vaults.keys@[li as int] == plan.lender,
            old(self).vaults.keys@[bi as int] == plan.borrower,
            cancelled == interest_cancelled_of(plan, old(self).loans.vals@[k as int]),
            liquidation_moves_of(old(self).vaults.vals@[li as int], old(self).vaults.vals@[bi as int], plan, cancelled).0
                == Ok::<Amount, KeystoneError>(seized),
            liquidation_close_result(
                old(self).loans.vals@[k as int],
                principal_covered_of(plan),
                interest_covered_of(plan),
                seized,
            ) is Ok,
        ensures
            ({
                let a = *old(self);
                let f = *final(self);
                let id = a.loans.keys@[k as int];
                let l0 = a.loans.vals@[k as int];
                let fl = f.loan_of(id);
                let moves = liquidation_moves_of(a.vaults.vals@[li as int], a.vaults.vals@[bi as int], plan, cancelled);
                &&& f.wf()
                &&& f.journal == a.journal
                &&& f.two_vaults_replaced(&a, plan.lender, plan.borrower)
                &&& f.vault_of(plan.lender) == moves.1
                &&& f.vault_of(plan.borrower) == moves.2
                &&& f.spec_config() == a.spec_config()
                &&& f.spec_clock() == a.spec_clock()
                &&& f.spec_policy() == a.spec_policy()
                &&& f.spec_oracle() == a.spec_oracle()
                &&& f.spec_nonce() == a.spec_nonce()
                &&& f.spec_loans().keys@ == a.spec_loans().keys@
                &&& f.has_loan(id)
                &&& a.loan_of(id) == l0
                &&& others_kept(a.spec_loans(), f.spec_loans(), id)
                &&& fl.interest_paid() == l0.interest_paid()
                &&& fl.collateral_released() == l0.collateral_released()
                &&& fl.same_identity(&l0)
                &&& fl.default_epoch() == l0.default_epoch()
                &&& exists|l1: LoanState|
                    liquidating_copy(l0, l1) && liquidation_close_effect(
                        l1,
                        principal_covered_of(plan),
                        interest_covered_of(plan),
                        seized,
                        fl,
                    )
                &&& a.balanced() ==> f.balanced()
                &&& a.invariants_hold() && f.values_fit(plan.lender, plan.borrower) ==> f.invariants_hold()
                &&& a.vaults.vals@[bi as int].locked_collateral.0 >= plan.collateral_to_seize.0 ==> {
                    &&& total_net_value(f.vaults.vals@) == total_net_value(a.vaults.vals@) + reserve_recovery_of(plan).0
                    &&& total_holdings(f.vaults.vals@) == total_holdings(a.vaults.vals@)
                }
            }),
    {
        let ghost s0 = *self;
        let ghost l0 = self.loans.vals@[k as int];
        let ghost loan_id = self.loans.keys@[k as int];
        proof {
            lemma_key_index(self.vaults.keys@, li as int);
            lemma_key_index(self.vaults.keys@, bi as int);
            lemma_key_index(self.loans.keys@, k as int);
            assert(vault_wf(self.vaults.vals@[li as int]));
            assert(vault_wf(self.vaults.vals@[bi as int]));
        }
        let principal_covered = plan.principal_covered().unwrap();
        let interest_covered = plan.interest_covered();
        let reserve_recovery = plan.reserve_recovery().unwrap();
        let defaulted = match self.loans.vals[k].status() {
            LoanStatus::Defaulted => true,
            _ => false,
        };
        if defaulted {
            let begun = self.loans.vals[k].begin_liquidation();
            assert(begun is Ok);
        }
        let ghost l1 = self.loans.vals@[k as int];
        proof {
            if defaulted {
                assert(liquidating_copy(l0, l1));
            } else {
                assert(l1 == l0);
            }
            assert(liquidation_close_result(l1, principal_covered, interest_covered, seized)
                == liquidation_close_result(l0, principal_covered, interest_covered, seized));
        }
        let taken = self.vaults.vals[bi].seize_collateral(plan.collateral_to_seize);
        let proceeds = self.vaults.vals[li].receive_liquidation_proceeds(
            principal_covered,
            interest_covered,
            reserve_recovery,
        );
        let extinguished = self.vaults.vals[bi].extinguish_borrower_debt(principal_covered, cancelled);
        if cancelled.0 > interest_covered.0 {
            let written = self.vaults.vals[li].reduce_expected_interest(Amount(cancelled.0 - interest_covered.0));
            assert(written is Ok);
        }
        proof {
            assert(taken == Ok::<Amount, KeystoneError>(seized) && proceeds is Ok && extinguished is Ok);
        }
        let closed = self.loans.vals[k].complete_liquidation(principal_covered, interest_covered, seized);
        proof {
            assert(closed is Ok);
            assert(self.vaults.vals@ =~= s0.vaults.vals@.update(li as int, self.vaults.vals@[li as int]).update(
                bi as int,
                self.vaults.vals@[bi as int],
            ));
            assert(self.loans.vals@ =~= s0.loans.vals@.update(k as int, self.loans.vals@[k as int]));
            let mid = KeystoneEngine { loans: s0.loans, ..*self };
            Self::lemma_two_vault_step(s0, mid, li as int, bi as int, plan.lender, plan.borrower);
            Self::lemma_loan_step(mid, *self, k as int, loan_id);
            let fl = self.loans.vals@[k as int];
            assert(liquidation_close_effect(l1, principal_covered, interest_covered, seized, fl));
            lemma_liquidation_closes(l0, if defaulted { l1 } else { l0 }, fl, plan, seized);
            assert(liquidating_copy(l0, l1));
            if s0.invariants_hold() && nav_of(self.vaults.vals@[li as int]) is Ok && nav_of(
                self.vaults.vals@[bi as int],
            ) is Ok {
                lemma_values_after(s0.vaults.vals@, self.vaults.vals@, li as int, bi as int);
                lemma_schedules_after(s0.loans.vals@, self.loans.vals@, k as int);
                assert(self.invariants_hold());
            }
        }
    }

    #[verifier::spinoff_prover]
    #[verifier::rlimit(100)]
    pub fn liquidate(&mut self, loan_id: LoanId) -> (r: KeystoneResult<LiquidationResult>)
        requires
            old(self).wf(),
        ensures
            final(self).wf(),
            old(self).liquidate_outcome(final(self), loan_id, r),
            r is Err ==> *final(self) == *old(self),
            old(self).balanced() ==> final(self).balanced(),
            r matches Ok(res) ==> (old(self).holds_plan_collateral(loan_id) ==> total_net_value(
                final(self).spec_vaults().vals@,
            ) == total_net_value(old(self).spec_vaults().vals@) + res.reserve_recovery.0),
            old(self).invariants_hold() && (r is Ok ==> final(self).values_fit(
                old(self).loan_of(loan_id).terms().lender,
                old(self).loan_of(loan_id).terms().borrower,
            )) ==> final(self).invariants_hold(),
            r is Ok && old(self).holds_plan_collateral(loan_id) ==> total_holdings(final(self).spec_vaults().vals@)
                == total_holdings(old(self).spec_vaults().vals@),
    {
        let k = self.loan_index(loan_id)?;
        let plan = LiquidationPlan::build(&self.loans.vals[k], self.policy)?;
        let lender_id = plan.lender;
        let borrower_id = plan.borrower;
        if lender_id == borrower_id {
            return Err(KeystoneError::SelfLoan);
        }
        let li = self.vault_index(lender_id)?;
        let bi = self.vault_index(borrower_id)?;
        proof {
            lemma_key_index(self.vaults.keys@, li as int);
            lemma_key_index(self.vaults.keys@, bi as int);
            lemma_key_index(self.loans.keys@, k as int);
        }
        let principal_covered = plan.principal_covered()?;
        let interest_covered = plan.interest_covered();
        let cancelled = if principal_covered.0 == self.loans.vals[k].remaining_principal().0 {
            self.loans.vals[k].remaining_scheduled_interest()?
        } else {
            interest_covered
        };
        let seized = check_liquidation_moves(&self.vaults.vals[li], &self.vaults.vals[bi], plan, cancelled)?;
        self.loans.vals[k].check_liquidation_close(principal_covered, interest_covered, seized)?;
        self.settle_liquidation(k, li, bi, plan, cancelled, seized);
        let result = plan.result(self.loans.vals[k].remaining_principal())?;
        let epoch = self.clock.current();
        let ghost s3 = *self;
        self.journal.push(
            epoch,
            EventKind::LoanLiquidated { loan: loan_id, seized: result.seized, shortfall: result.shortfall },
        )?;
        proof {
            Self::lemma_journal_step(s3, *self);
        }
        Ok(result)
    }

    pub fn distribute_interest(&mut self, vault_id: VaultId) -> (r: KeystoneResult<Vec<InterestClaim>>)
        requires
            old(self).wf(),
        ensures
            final(self).wf(),
            old(self).balanced() ==> final(self).balanced(),
            old(self).distribution_outcome(final(self), vault_id, r),
            r is Err ==> final(self).spec_vaults().vals@ == old(self).spec_vaults().vals@ && final(self).spec_journal()
                == old(self).spec_journal(),
    {
        let policy = self.policy;
        let i = self.vault_index(vault_id)?;
        let ghost before = *self;
        proof {
            assert(vault_wf(self.vaults.vals@[i as int]));
        }
        let claims = self.vaults.vals[i].distribute_interest(policy);
        proof {
            Self::lemma_vault_step(before, *self, i as int, vault_id);
            if claims is Err {
                assert(self.vaults.vals@ =~= before.vaults.vals@);
            }
        }
        let ghost inner = claims;
        let claims = claims?;
        let total = claims_sum(&claims)?;
        let epoch = self.clock.current();
        let ghost middle = *self;
        self.journal.push(
            epoch,
            EventKind::InterestDistributed { vault: vault_id, amount: total, recipients: claims.len() },
        )?;
        proof {
            Self::lemma_journal_step(middle, *self);
        }
        Ok(claims)
    }

    #[verifier::rlimit(60)]
    pub fn snapshot(&self) -> (r: KeystoneResult<EngineSnapshot>)
        requires
            self.wf(),
        ensures
            match r {
                Ok(s) => self.snapshot_is(s),
                Err(e) => self.snapshot_error() == Some(e),
            },
            r is Ok <==> self.snapshot_error() is None,
    {
        let mut vaults: Vec<VaultSnapshot> = Vec::new();
        let mut i: usize = 0;
        while i < self.vaults.vals.len()
            invariant
                self.wf(),
                0 <= i <= self.vaults.vals@.len(),
                vault_snapshot_error(self.vaults.vals@.take(i as int)) is None,
                vaults@.len() == i,
                forall|j: int| 0 <= j < i ==> snapshot_matches(self.vaults.vals@[j], Ok(#[trigger] vaults@[j])),
            decreases self.vaults.vals@.len() - i,
        {
            assert(self.vaults.vals@.take(i as int + 1).drop_last() =~= self.vaults.vals@.take(i as int));
            let snap = self.vaults.vals[i].snapshot();
            match snap {
                Ok(s) => {
                    vaults.push(s);
                },
                Err(e) => {
                    proof {
                        Self::lemma_vault_error_persists(self.vaults.vals@, i as int + 1);
                    }
                    return Err(e);
                },
            }
            i = i + 1;
        }
        assert(self.vaults.vals@.take(self.vaults.vals@.len() as int) =~= self.vaults.vals@);
        let mut loans: Vec<LoanSnapshot> = Vec::new();
        let mut k: usize = 0;
        while k < self.loans.vals.len()
            invariant
                0 <= k <= self.loans.vals@.len(),
                vault_snapshot_error(self.vaults.vals@) is None,
                vaults@.len() == self.vaults.vals@.len(),
                forall|j: int| 0 <= j < self.vaults.vals@.len() ==> snapshot_matches(self.vaults.vals@[j], Ok(#[trigger] vaults@[j])),
                loan_snapshots_of(self.loans.vals@.take(k as int)) == Ok::<Seq<LoanSnapshot>, KeystoneError>(loans@),
            decreases self.loans.vals@.len() - k,
        {
            assert(self.loans.vals@.take(k as int + 1).drop_last() =~= self.loans.vals@.take(k as int));
            let snap = self.loans.vals[k].snapshot();
            match snap {
                Ok(s) => {
                    loans.push(s);
                },
                Err(e) => {
                    proof {
                        Self::lemma_loan_error_persists(self.loans.vals@, k as int + 1);
                    }
                    return Err(e);
                },
            }
            k = k + 1;
        }
        assert(self.loans.vals@.take(self.loans.vals@.len() as int) =~= self.loans.vals@);
        let policy_digest = self.policy.digest()?;
        let oracle_digest = self.oracle.digest()?;
        Ok(EngineSnapshot {
            network_id: self.config.network_id,
            epoch: self.clock.current(),
            policy_digest,
            oracle_digest,
            journal_digest: self.journal.digest(),
            vaults,
            loans,
        })
    }

    /// Once a prefix of the vaults holds one whose snapshot fails, so does every longer prefix.
    proof fn lemma_vault_error_persists(vs: Seq<Vault>, i: int)
        requires
            0 < i <= vs.len(),
            vault_snapshot_error(vs.take(i)) is Some,
        ensures
            vault_snapshot_error(vs) == vault_snapshot_error(vs.take(i)),
        decreases vs.len() - i,
    {
        if i < vs.len() {
            assert(vs.take(i + 1).drop_last() =~= vs.take(i));
            Self::lemma_vault_error_persists(vs, i + 1);
        } else {
            assert(vs.take(i) =~= vs);
        }
    }

    /// Once a prefix of the loans holds one whose snapshot fails, so does every longer prefix.
    proof fn lemma_loan_error_persists(ls: Seq<LoanState>, i: int)
        requires
            0 < i <= ls.len(),
            loan_snapshots_of(ls.take(i)) is Err,
        ensures
            loan_snapshots_of(ls) == loan_snapshots_of(ls.take(i)),
        decreases ls.len() - i,
    {
        if i < ls.len() {
            assert(ls.take(i + 1).drop_last() =~= ls.take(i));
            Self::lemma_loan_error_persists(ls, i + 1);
        } else {
            assert(ls.take(i) =~= ls);
        }
    }

    pub fn state_digest(&self) -> (r: KeystoneResult<Digest>)
        requires
            self.wf(),
        ensures
            match r {
                Ok(d) => self.digest_is(d),
                Err(e) => self.snapshot_error() == Some(e),
            },
            r is Ok <==> self.snapshot_error() is None,
    {
        let snapshot = self.snapshot()?;
        let mut bytes: Vec<u8> = Vec::new();
        write_engine_snapshot(&mut bytes, &snapshot);
        assert(bytes@ =~= json_engine_snapshot(snapshot));
        let d = state_digest_from_json(ENGINE_STATE_DOMAIN, bytes.as_slice())?;
        assert(self.snapshot_is(snapshot));
        Ok(d)
    }

    pub fn verify_invariants(&self) -> (r: KeystoneResult<()>)
        requires
            self.wf(),
        ensures
            r is Ok <==> self.invariants_hold(),
            self.totals_fit() && lent_principal(self.spec_vaults().vals@) != open_principal(self.spec_loans().vals@)
                ==> (r matches Err(KeystoneError::Invariant(m)) && m@ == "principal ledger mismatch"@),
            self.totals_fit() && lent_principal(self.spec_vaults().vals@) == open_principal(self.spec_loans().vals@)
                && borrowed_principal(self.spec_vaults().vals@) != open_principal(self.spec_loans().vals@)
                ==> (r matches Err(KeystoneError::Invariant(m)) && m@ == "borrower principal mismatch"@),
            self.totals_fit() && lent_principal(self.spec_vaults().vals@) == open_principal(self.spec_loans().vals@)
                && borrowed_principal(self.spec_vaults().vals@) == open_principal(self.spec_loans().vals@)
                && borrowed_interest(self.spec_vaults().vals@) != open_interest(self.spec_loans().vals@)
                ==> (r matches Err(KeystoneError::Invariant(m)) && m@ == "borrower interest mismatch"@),
    {
        let ghost vs = self.vaults.vals@;
        let ghost ls = self.loans.vals@;
        let mut i: usize = 0;
        while i < self.vaults.vals.len()
            invariant
                self.wf(),
                vs == self.vaults.vals@,
                0 <= i <= vs.len(),
                forall|j: int| 0 <= j < i ==> nav_of(#[trigger] vs[j]) is Ok,
            decreases vs.len() - i,
        {
            proof {
                assert(vault_wf(vs[i as int]));
                lemma_sane_when_valued(vs[i as int]);
            }
            self.vaults.vals[i].assert_sane()?;
            i = i + 1;
        }
        let mut loan_principal = Amount(0);
        let mut borrower_debt = Amount(0);
        let mut borrower_interest = Amount(0);
        let mut k: usize = 0;
        while k < self.loans.vals.len()
            invariant
                ls == self.loans.vals@,
                vs == self.vaults.vals@,
                0 <= k <= ls.len(),
                forall|j: int| 0 <= j < vs.len() ==> nav_of(#[trigger] vs[j]) is Ok,
                forall|j: int|
                    0 <= j < k ==> !status_terminal((#[trigger] ls[j]).status()) ==> remaining_sched_of(ls[j]) is Ok,
                loan_principal.0 == open_principal(ls.take(k as int)),
                borrower_debt.0 == open_principal(ls.take(k as int)),
                borrower_interest.0 == open_interest(ls.take(k as int)),
            decreases ls.len() - k,
        {
            proof {
                lemma_sum_take_next(ls, k as int, |l: LoanState| open_principal_of(l));
                lemma_sum_take_next(ls, k as int, |l: LoanState| open_interest_of(l));
            }
            let loan = &self.loans.vals[k];
            if !loan.status().is_terminal() {
                loan_principal = match loan_principal.checked_add(loan.remaining_principal()) {
                    Ok(v) => v,
                    Err(e) => {
                        proof {
                            lemma_sum_prefix_le(ls, k as int + 1, |l: LoanState| open_principal_of(l));
                        }
                        return Err(e);
                    },
                };
                borrower_debt = borrower_debt.checked_add(loan.remaining_principal())?;
                let interest = loan.remaining_scheduled_interest()?;
                borrower_interest = match borrower_interest.checked_add(interest) {
                    Ok(v) => v,
                    Err(e) => {
                        proof {
                            Self::lemma_interest_overflow(ls, k as int + 1);
                        }
                        return Err(e);
                    },
                };
            }
            k = k + 1;
        }
        assert(ls.take(ls.len() as int) =~= ls);
        let mut vault_outstanding = Amount(0);
        let mut vault_borrower_debt = Amount(0);
        let mut vault_borrower_interest = Amount(0);
        let mut j: usize = 0;
        while j < self.vaults.vals.len()
            invariant
                ls == self.loans.vals@,
                vs == self.vaults.vals@,
                0 <= j <= vs.len(),
                forall|i: int| 0 <= i < vs.len() ==> nav_of(#[trigger] vs[i]) is Ok,
                forall|i: int|
                    0 <= i < ls.len() ==> !status_terminal((#[trigger] ls[i]).status()) ==> remaining_sched_of(ls[i]) is Ok,
                loan_principal.0 == open_principal(ls),
                borrower_debt.0 == open_principal(ls),
                borrower_interest.0 == open_interest(ls),
                vault_outstanding.0 == lent_principal(vs.take(j as int)),
                vault_borrower_debt.0 == borrowed_principal(vs.take(j as int)),
                vault_borrower_interest.0 == borrowed_interest(vs.take(j as int)),
            decreases vs.len() - j,
        {
            proof {
                lemma_sum_take_next(vs, j as int, |v: Vault| v.outstanding_principal.0 as int);
                lemma_sum_take_next(vs, j as int, |v: Vault| v.debt_principal.0 as int);
                lemma_sum_take_next(vs, j as int, |v: Vault| v.debt_interest_due.0 as int);
                lemma_sum_prefix_le(vs, j as int + 1, |v: Vault| v.outstanding_principal.0 as int);
                lemma_sum_prefix_le(vs, j as int + 1, |v: Vault| v.debt_principal.0 as int);
                lemma_sum_prefix_le(vs, j as int + 1, |v: Vault| v.debt_interest_due.0 as int);
            }
            let vault = &self.vaults.vals[j];
            vault_outstanding = vault_outstanding.checked_add(vault.outstanding_principal)?;
            vault_borrower_debt = vault_borrower_debt.checked_add(vault.debt_principal)?;
            vault_borrower_interest = vault_borrower_interest.checked_add(vault.debt_interest_due)?;
            j = j + 1;
        }
        assert(vs.take(vs.len() as int) =~= vs);
        if loan_principal.0 != vault_outstanding.0 {
            return Err(KeystoneError::invariant_violation("principal ledger mismatch"));
        }
        if borrower_debt.0 != vault_borrower_debt.0 {
            return Err(KeystoneError::invariant_violation("borrower principal mismatch"));
        }
        if borrower_interest.0 != vault_borrower_interest.0 {
            return Err(KeystoneError::invariant_violation("borrower interest mismatch"));
        }
        Ok(())
    }

    /// An overflowing prefix of the open interest means the checks cannot all pass.
    proof fn lemma_interest_overflow(ls: Seq<LoanState>, i: int)
        requires
            0 <= i <= ls.len(),
            open_interest(ls.take(i)) > u64::MAX,
            forall|j: int| 0 <= j < i ==> !status_terminal((#[trigger] ls[j]).status()) ==> remaining_sched_of(ls[j]) is Ok,
        ensures
            !(forall|j: int|
                0 <= j < ls.len() ==> !status_terminal((#[trigger] ls[j]).status()) ==> remaining_sched_of(ls[j]) is Ok)
                || open_interest(ls) > u64::MAX,
    {
        if forall|j: int|
            0 <= j < ls.len() ==> !status_terminal((#[trigger] ls[j]).status()) ==> remaining_sched_of(ls[j]) is Ok {
            assert forall|j: int| 0 <= j < ls.len() implies #[trigger] open_interest_of(ls[j]) >= 0 by {
                if !status_terminal(ls[j].status()) {
                    assert(remaining_sched_of(ls[j]) is Ok);
                }
            }
            lemma_sum_prefix_le_on(ls, i, |l: LoanState| open_interest_of(l));
        }
    }

    #[verifier::spinoff_prover]
    #[verifier::rlimit(60)]
    pub fn push_invariant_event(&mut self) -> (r: KeystoneResult<TxId>)
        requires
            old(self).wf(),
        ensures
            final(self).wf(),
            old(self).invariant_event_outcome(final(self), r),
    {
        self.verify_invariants()?;
        let digest = self.state_digest()?;
        let epoch = self.clock.current();
        let ghost before = *self;
        let tx = self.journal.push(epoch, EventKind::InvariantChecked { digest });
        proof {
            Self::lemma_journal_step(before, *self);
        }
        tx
    }

    pub fn set_policy(&mut self, policy: ProtocolPolicy) -> (r: KeystoneResult<TxId>)
        requires
            old(self).wf(),
        ensures
            final(self).wf(),
            old(self).balanced() ==> final(self).balanced(),
            old(self).invariants_hold() ==> final(self).invariants_hold(),
            old(self).set_policy_outcome(final(self), policy, r),
    {
        self.policy = policy;
        let digest = policy.digest()?;
        let epoch = self.clock.current();
        self.journal.push(epoch, EventKind::PolicyUpdated { digest })
    }

    pub fn advance_epoch(&mut self, target: Epoch) -> (r: KeystoneResult<TxId>)
        requires
            old(self).wf(),
        ensures
            final(self).wf(),
            old(self).balanced() ==> final(self).balanced(),
            old(self).invariants_hold() ==> final(self).invariants_hold(),
            target.0 < old(self).spec_epoch().0 ==> r == Err::<TxId, KeystoneError>(KeystoneError::InvalidEpoch)
                && *final(self) == *old(self),
            target.0 >= old(self).spec_epoch().0 ==> {
                &&& r is Ok
                &&& final(self).spec_epoch() == target
                &&& final(self).spec_clock().spec_digest() == parts_digest(
                    crate::time::CLOCK_ADVANCE_DOMAIN,
                    seq![old(self).spec_clock().spec_digest().0@, crate::ids::u64_be(target.0 as int)],
                )
                &&& final(self).spec_config() == old(self).spec_config()
                &&& final(self).spec_policy() == old(self).spec_policy()
                &&& final(self).spec_oracle() == old(self).spec_oracle()
                &&& final(self).spec_vaults() == old(self).spec_vaults()
                &&& final(self).spec_loans() == old(self).spec_loans()
                &&& final(self).spec_nonce() == old(self).spec_nonce()
                &&& pushed(
                    old(self).spec_journal(),
                    final(self).spec_journal(),
                    target,
                    EventKind::EpochAdvanced { from: old(self).spec_epoch(), to: target },
                )
            },
    {
        let from = self.clock.current();
        self.clock.advance_to(target)?;
        let epoch = self.clock.current();
        self.journal.push(epoch, EventKind::EpochAdvanced { from, to: target })
    }

    pub fn advance_by(&mut self, epochs: u64) -> (r: KeystoneResult<TxId>)
        requires
            old(self).wf(),
        ensures
            final(self).wf(),
            old(self).balanced() ==> final(self).balanced(),
            old(self).invariants_hold() ==> final(self).invariants_hold(),
            old(self).advance_by_outcome(final(self), epochs, r),
    {
        let target = self.clock.current().checked_add(epochs)?;
        self.advance_epoch(target)
    }
}

} // verus!
