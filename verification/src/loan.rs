use vstd::prelude::*;

use crate::amount::{
    amount_diff, amount_of, annualized_ceil, div_up, lemma_div_up_share, Amount, Bps,
};
use crate::error::{KeystoneError, KeystoneResult};
use crate::ids::{parts_digest, state_digest_from_json, u64_be, Digest, LoanId, VaultId, LOAN_DOMAIN};
use crate::json::{json_loan_snapshot, json_loan_terms, write_loan_snapshot, write_loan_terms};
use crate::policy::CollateralPolicy;
use crate::time::{due_of, elapsed_at, Epoch, Schedule};

verus! {

pub const LOAN_TERMS_DOMAIN: &'static str = "keystonexdtl-loan-terms-v1";

pub const LOAN_STATE_DOMAIN: &'static str = "keystonexdtl-loan-state-v1";

/// Where a loan stands in its life.
#[derive(Clone, Copy, Debug, PartialEq, Eq, Structural)]
pub enum LoanStatus {
    Proposed,
    Active,
    Paid,
    Defaulted,
    Liquidating,
    Liquidated,
    WrittenOff,
}

pub open spec fn status_terminal(s: LoanStatus) -> bool {
    s is Paid || s is Liquidated || s is WrittenOff
}

pub open spec fn status_name(s: LoanStatus) -> &'static str {
    match s {
        LoanStatus::Proposed => "proposed",
        LoanStatus::Active => "active",
        LoanStatus::Paid => "paid",
        LoanStatus::Defaulted => "defaulted",
        LoanStatus::Liquidating => "liquidating",
        LoanStatus::Liquidated => "liquidated",
        LoanStatus::WrittenOff => "written_off",
    }
}

impl LoanStatus {
    pub fn is_terminal(self) -> (r: bool)
        ensures
            r == status_terminal(self),
    {
        match self {
            LoanStatus::Paid | LoanStatus::Liquidated | LoanStatus::WrittenOff => true,
            _ => false,
        }
    }

    pub fn can_repay(self) -> (r: bool)
        ensures
            r == (self is Active || self is Defaulted),
    {
        match self {
            LoanStatus::Active | LoanStatus::Defaulted => true,
            _ => false,
        }
    }

    pub fn can_default(self) -> (r: bool)
        ensures
            r == (self is Active),
    {
        match self {
            LoanStatus::Active => true,
            _ => false,
        }
    }

    pub fn can_liquidate(self) -> (r: bool)
        ensures
            r == (self is Defaulted || self is Liquidating),
    {
        match self {
            LoanStatus::Defaulted | LoanStatus::Liquidating => true,
            _ => false,
        }
    }
}

/// How a repayment is settled.
#[derive(Clone, Copy, Debug, PartialEq, Eq, Structural)]
pub enum RepaymentMode {
    Scheduled,
    Early,
    Partial,
    Recovery,
}

pub open spec fn mode_name(m: RepaymentMode) -> &'static str {
    match m {
        RepaymentMode::Scheduled => "scheduled",
        RepaymentMode::Early => "early",
        RepaymentMode::Partial => "partial",
        RepaymentMode::Recovery => "recovery",
    }
}

impl RepaymentMode {
    pub fn as_str(self) -> (r: &'static str)
        ensures
            r == mode_name(self),
    {
        match self {
            RepaymentMode::Scheduled => "scheduled",
            RepaymentMode::Early => "early",
            RepaymentMode::Partial => "partial",
            RepaymentMode::Recovery => "recovery",
        }
    }
}

/// The proposed terms of a loan, before validation.
#[derive(Clone, Copy, Debug, PartialEq, Eq)]
pub struct LoanTermsInput {
    pub network_id: u32,
    pub lender: VaultId,
    pub borrower: VaultId,
    pub principal: Amount,
    pub collateral: Amount,
    pub annual_rate_bps: Bps,
    pub schedule: Schedule,
    pub policy_digest: Digest,
    pub nonce: u64,
}

/// The validated terms of a loan.
#[derive(Clone, Copy, Debug, PartialEq, Eq)]
pub struct LoanTerms {
    pub network_id: u32,
    pub lender: VaultId,
    pub borrower: VaultId,
    pub principal: Amount,
    pub collateral: Amount,
    pub annual_rate_bps: Bps,
    pub schedule: Schedule,
    pub policy_digest: Digest,
    pub nonce: u64,
}

/// The identity of a loan: its parties, nonce, principal and start.
pub open spec fn loan_id_of(t: LoanTerms) -> LoanId {
    LoanId(
        parts_digest(
            LOAN_DOMAIN,
            seq![
                t.lender.0.0@,
                t.borrower.0.0@,
                u64_be(t.nonce as int),
                u64_be(t.principal.0 as int),
                u64_be(t.schedule.start.0 as int),
            ],
        ),
    )
}

pub open spec fn terms_digest_of(t: LoanTerms) -> Digest {
    parts_digest(LOAN_TERMS_DOMAIN, seq![json_loan_terms(t)])
}

impl LoanTerms {
    pub fn new(input: LoanTermsInput) -> (r: KeystoneResult<Self>)
        ensures
            input.lender == input.borrower ==> r == Err::<LoanTerms, KeystoneError>(KeystoneError::SelfLoan),
            input.lender != input.borrower && input.principal.0 == 0 ==> r == Err::<LoanTerms, KeystoneError>(
                KeystoneError::ZeroAmount,
            ),
            input.lender != input.borrower && input.principal.0 != 0 && input.collateral.0 == 0 ==> r == Err::<
                LoanTerms,
                KeystoneError,
            >(KeystoneError::InvalidCollateral),
            input.lender != input.borrower && input.principal.0 != 0 && input.collateral.0 != 0 ==> r == Ok::<
                LoanTerms,
                KeystoneError,
            >(
                LoanTerms {
                    network_id: input.network_id,
                    lender: input.lender,
                    borrower: input.borrower,
                    principal: input.principal,
                    collateral: input.collateral,
                    annual_rate_bps: input.annual_rate_bps,
                    schedule: input.schedule,
                    policy_digest: input.policy_digest,
                    nonce: input.nonce,
                },
            ),
    {
        if input.lender == input.borrower {
            return Err(KeystoneError::SelfLoan);
        }
        if input.principal.is_zero() {
            return Err(KeystoneError::ZeroAmount);
        }
        if input.collateral.is_zero() {
            return Err(KeystoneError::InvalidCollateral);
        }
        Ok(Self {
            network_id: input.network_id,
            lender: input.lender,
            borrower: input.borrower,
            principal: input.principal,
            collateral: input.collateral,
            annual_rate_bps: input.annual_rate_bps,
            schedule: input.schedule,
            policy_digest: input.policy_digest,
            nonce: input.nonce,
        })
    }

    pub fn loan_id(self) -> (r: LoanId)
        ensures
            r == loan_id_of(self),
    {
        LoanId::derive(self.lender, self.borrower, self.nonce, self.principal.0, self.schedule.start.0)
    }

    pub fn digest(self) -> (r: KeystoneResult<Digest>)
        ensures
            r == Ok::<Digest, KeystoneError>(terms_digest_of(self)),
    {
        let mut bytes: Vec<u8> = Vec::new();
        write_loan_terms(&mut bytes, &self);
        state_digest_from_json(LOAN_TERMS_DOMAIN, bytes.as_slice())
    }
}

/// What a repayment pays and what it changes.
#[derive(Clone, Copy, Debug, PartialEq, Eq)]
pub struct PaymentQuote {
    pub loan: LoanId,
    pub mode: RepaymentMode,
    pub principal: Amount,
    pub interest: Amount,
    pub borrower_interest_reduction: Amount,
    pub lender_projection_reduction: Amount,
    pub collateral_release: Amount,
    pub closes_loan: bool,
}

impl PaymentQuote {
    pub fn total(self) -> (r: KeystoneResult<Amount>)
        ensures
            r == amount_of(self.principal.0 + self.interest.0),
    {
        self.principal.checked_add(self.interest)
    }

    pub fn is_zero(self) -> (r: bool)
        ensures
            r == (self.principal.0 == 0 && self.interest.0 == 0),
    {
        self.principal.is_zero() && self.interest.is_zero()
    }
}

/// The state of a loan as reports and digests show it.
#[derive(Clone, Copy, Debug, PartialEq, Eq)]
pub struct LoanSnapshot {
    pub loan: LoanId,
    pub lender: VaultId,
    pub borrower: VaultId,
    pub status: LoanStatus,
    pub principal: Amount,
    pub remaining_principal: Amount,
    pub scheduled_interest: Amount,
    pub interest_paid: Amount,
    pub borrower_interest_released: Amount,
    pub collateral_locked: Amount,
    pub collateral_released: Amount,
    pub start_epoch: Epoch,
    pub maturity_epoch: Epoch,
    pub due_epoch: Epoch,
    pub annual_rate_bps: Bps,
    pub terms_digest: Digest,
}

/// A loan between two vaults and what has been paid on it.
#[derive(Clone, Debug)]
pub struct LoanState {
    id: LoanId,
    terms: LoanTerms,
    terms_digest: Digest,
    status: LoanStatus,
    remaining_principal: Amount,
    scheduled_interest: Amount,
    interest_paid: Amount,
    borrower_interest_released: Amount,
    collateral_locked: Amount,
    collateral_released: Amount,
    default_epoch: Option<Epoch>,
}

/// The scheduled interest not yet released from the borrower.
pub open spec fn remaining_sched_of(l: LoanState) -> KeystoneResult<Amount> {
    amount_diff(l.scheduled_interest().0 as int, l.borrower_interest_released().0 as int)
}

/// Interest earned at `now`: simple interest on the principal over the elapsed epochs, rounded
/// up, capped at the scheduled interest.
pub open spec fn accrued_of(l: LoanState, now: Epoch, epochs_per_year: u64) -> KeystoneResult<Amount> {
    let s = l.terms().schedule;
    if s.maturity.0 < s.start.0 {
        Err(KeystoneError::InvalidEpoch)
    } else {
        match annualized_ceil(
            l.terms().annual_rate_bps.0 as int,
            l.terms().principal.0 as int,
            elapsed_at(s, now.0 as int),
            epochs_per_year as int,
        ) {
            Err(e) => Err(e),
            Ok(a) => Ok(if a.0 <= l.scheduled_interest().0 { a } else { l.scheduled_interest() }),
        }
    }
}

/// Earned interest not yet paid.
pub open spec fn earned_unpaid(accrued: Amount, paid: Amount) -> Amount {
    if paid.0 <= accrued.0 {
        Amount((accrued.0 - paid.0) as u64)
    } else {
        Amount(0)
    }
}

pub open spec fn scheduled_quote_of(l: LoanState) -> KeystoneResult<PaymentQuote> {
    if !(l.status() is Active || l.status() is Defaulted) {
        Err(KeystoneError::LoanStatusMismatch)
    } else {
        match remaining_sched_of(l) {
            Err(e) => Err(e),
            Ok(interest) => Ok(
                PaymentQuote {
                    loan: l.id(),
                    mode: RepaymentMode::Scheduled,
                    principal: l.remaining_principal(),
                    interest,
                    borrower_interest_reduction: interest,
                    lender_projection_reduction: interest,
                    collateral_release: l.collateral_locked(),
                    closes_loan: true,
                },
            ),
        }
    }
}

/// An early repayment: all the remaining principal and the interest earned so far; the rest of
/// the scheduled interest is cancelled for the borrower, and the lender's projection is left as
/// it was.
pub open spec fn early_quote_of(l: LoanState, now: Epoch, epochs_per_year: u64) -> KeystoneResult<PaymentQuote> {
    if !(l.status() is Active || l.status() is Defaulted) {
        Err(KeystoneError::LoanStatusMismatch)
    } else {
        match accrued_of(l, now, epochs_per_year) {
            Err(e) => Err(e),
            Ok(accrued) => match remaining_sched_of(l) {
                Err(e) => Err(e),
                Ok(reduction) => Ok(
                    PaymentQuote {
                        loan: l.id(),
                        mode: RepaymentMode::Early,
                        principal: l.remaining_principal(),
                        interest: earned_unpaid(accrued, l.interest_paid()),
                        borrower_interest_reduction: reduction,
                        lender_projection_reduction: Amount(0),
                        collateral_release: l.collateral_locked(),
                        closes_loan: true,
                    },
                ),
            },
        }
    }
}

/// A partial repayment of `principal`: the earned interest, the scheduled interest and the
/// collateral move in proportion to the principal repaid, each share rounded up, the lender's
/// projection is left as it was, and the collateral the remaining principal keeps stays locked.
pub open spec fn partial_quote_of(l: LoanState, now: Epoch, principal: Amount, epochs_per_year: u64) -> KeystoneResult<
    PaymentQuote,
> {
    let remaining = l.remaining_principal().0 as int;
    if !(l.status() is Active || l.status() is Defaulted) {
        Err(KeystoneError::LoanStatusMismatch)
    } else if principal.0 == 0 {
        Err(KeystoneError::ZeroAmount)
    } else if principal.0 > remaining {
        Err(KeystoneError::RepaymentTooLarge)
    } else if principal.0 == remaining {
        early_quote_of(l, now, epochs_per_year)
    } else {
        match accrued_of(l, now, epochs_per_year) {
            Err(e) => Err(e),
            Ok(accrued) => match remaining_sched_of(l) {
                Err(e) => Err(e),
                Ok(sched) => {
                    let earned = earned_unpaid(accrued, l.interest_paid()).0 as int;
                    let locked = l.collateral_locked().0 as int;
                    Ok(
                        PaymentQuote {
                            loan: l.id(),
                            mode: RepaymentMode::Partial,
                            principal,
                            interest: Amount(div_up(earned * principal.0, remaining) as u64),
                            borrower_interest_reduction: Amount(div_up(sched.0 * principal.0, remaining) as u64),
                            lender_projection_reduction: Amount(0),
                            collateral_release: Amount(
                                (locked - div_up(locked * (remaining - principal.0), remaining)) as u64,
                            ),
                            closes_loan: false,
                        },
                    )
                },
            },
        }
    }
}

/// Interest earned at an epoch is simple interest on the principal at the annual rate over the
/// epochs elapsed since the start (none before it, at most the tenor), rounded up, and never more
/// than the scheduled interest.
pub proof fn lemma_accrued(l: LoanState, now: Epoch, epochs_per_year: u64)
    requires
        accrued_of(l, now, epochs_per_year) is Ok,
    ensures
        ({
            let a = accrued_of(l, now, epochs_per_year)->Ok_0.0 as int;
            let start = l.terms().schedule.start.0 as int;
            let tenor = l.terms().schedule.maturity.0 - start;
            let elapsed = if now.0 <= start { 0 } else if now.0 - start <= tenor { now.0 - start } else { tenor };
            let x = l.terms().annual_rate_bps.0 * l.terms().principal.0 * elapsed;
            let d = 10_000 * epochs_per_year;
            let earned = if x == 0 { 0 } else { (x + d - 1) / d };
            &&& tenor >= 0
            &&& x > 0 ==> epochs_per_year > 0
            &&& a == (if earned <= l.scheduled_interest().0 { earned } else { l.scheduled_interest().0 as int })
        }),
{
    let start = l.terms().schedule.start.0 as int;
    let tenor = l.terms().schedule.maturity.0 - start;
    let elapsed = if now.0 <= start { 0 } else if now.0 - start <= tenor { now.0 - start } else { tenor };
    let r = l.terms().annual_rate_bps.0 as int;
    let p = l.terms().principal.0 as int;
    assert(r * p * elapsed == p * r * elapsed) by (nonlinear_arith);
    assert(elapsed >= 0);
    if elapsed == 0 || r == 0 || p == 0 {
        assert(r * p * elapsed == 0) by (nonlinear_arith)
            requires
                elapsed == 0 || r == 0 || p == 0,
        ;
    } else {
        assert(r * p * elapsed > 0) by (nonlinear_arith)
            requires
                elapsed > 0,
                r > 0,
                p > 0,
        ;
    }
}

/// A scheduled repayment repays all the remaining principal with all the scheduled interest the
/// borrower still owes, which both sides then no longer count, and releases all the collateral.
pub proof fn lemma_scheduled_quote(l: LoanState)
    requires
        scheduled_quote_of(l) is Ok,
    ensures
        ({
            let q = scheduled_quote_of(l)->Ok_0;
            &&& l.status() is Active || l.status() is Defaulted
            &&& q.principal == l.remaining_principal()
            &&& q.interest.0 + l.borrower_interest_released().0 == l.scheduled_interest().0
            &&& q.borrower_interest_reduction == q.interest
            &&& q.lender_projection_reduction == q.interest
            &&& q.collateral_release == l.collateral_locked()
            &&& q.closes_loan
        }),
{
}

/// An early repayment repays all the remaining principal and charges the interest earned so far
/// less the interest already paid, never below zero; it cancels all the scheduled interest the
/// borrower still owes, leaves the lender's projection, and releases all the locked collateral.
pub proof fn lemma_early_quote(l: LoanState, now: Epoch, epochs_per_year: u64)
    requires
        early_quote_of(l, now, epochs_per_year) is Ok,
    ensures
        ({
            let q = early_quote_of(l, now, epochs_per_year)->Ok_0;
            let accrued = accrued_of(l, now, epochs_per_year)->Ok_0.0 as int;
            let paid = l.interest_paid().0 as int;
            &&& accrued_of(l, now, epochs_per_year) is Ok
            &&& accrued <= l.scheduled_interest().0
            &&& q.interest.0 + (if paid <= accrued { paid } else { accrued }) == accrued
            &&& q.principal == l.remaining_principal()
            &&& q.borrower_interest_reduction.0 + l.borrower_interest_released().0 == l.scheduled_interest().0
            &&& q.lender_projection_reduction.0 == 0
            &&& q.collateral_release == l.collateral_locked()
            &&& q.closes_loan
            &&& q.mode == RepaymentMode::Early
        }),
{
}

/// A partial repayment of less than the remaining principal charges the earned, unpaid interest
/// in proportion to the principal repaid, cancels the same share of the scheduled interest the
/// borrower still owes, each rounded up, leaves the lender's projection, and releases the
/// collateral beyond what the remaining principal keeps in proportion, rounded up; repaying
/// all of it is an early repayment.
pub proof fn lemma_partial_quote(l: LoanState, now: Epoch, principal: Amount, epochs_per_year: u64)
    requires
        partial_quote_of(l, now, principal, epochs_per_year) is Ok,
    ensures
        ({
            let q = partial_quote_of(l, now, principal, epochs_per_year)->Ok_0;
            let rem = l.remaining_principal().0 as int;
            let p = principal.0 as int;
            let accrued = accrued_of(l, now, epochs_per_year)->Ok_0.0 as int;
            let paid = l.interest_paid().0 as int;
            let earned = accrued - (if paid <= accrued { paid } else { accrued });
            let owed = l.scheduled_interest().0 - l.borrower_interest_released().0;
            let locked = l.collateral_locked().0 as int;
            &&& 0 < p <= rem
            &&& p == rem ==> q == early_quote_of(l, now, epochs_per_year)->Ok_0
            &&& p < rem ==> {
                &&& q.mode == RepaymentMode::Partial
                &&& q.principal == principal
                &&& q.interest.0 == (earned * p + rem - 1) / rem
                &&& q.borrower_interest_reduction.0 == (owed * p + rem - 1) / rem
                &&& q.lender_projection_reduction.0 == 0
                &&& q.collateral_release.0 == locked - (locked * (rem - p) + rem - 1) / rem
                &&& !q.closes_loan
            }
        }),
{
    let rem = l.remaining_principal().0 as int;
    let p = principal.0 as int;
    if 0 < p < rem {
        let accrued = accrued_of(l, now, epochs_per_year)->Ok_0.0 as int;
        let paid = l.interest_paid().0 as int;
        let earned = accrued - (if paid <= accrued { paid } else { accrued });
        let owed = l.scheduled_interest().0 - l.borrower_interest_released().0;
        let locked = l.collateral_locked().0 as int;
        lemma_div_up_share(earned, p, rem);
        lemma_div_up_share(owed, p, rem);
        lemma_div_up_share(locked, rem - p, rem);
    }
}

/// `a + b`, where it fits.
pub open spec fn fits_sum(a: Amount, b: Amount) -> bool {
    a.0 + b.0 <= u64::MAX
}

impl LoanState {
    pub closed spec fn spec_id(&self) -> LoanId {
        self.id
    }

    pub closed spec fn spec_terms(&self) -> LoanTerms {
        self.terms
    }

    pub closed spec fn spec_terms_digest(&self) -> Digest {
        self.terms_digest
    }

    pub closed spec fn spec_status(&self) -> LoanStatus {
        self.status
    }

    pub closed spec fn spec_remaining_principal(&self) -> Amount {
        self.remaining_principal
    }

    pub closed spec fn spec_scheduled_interest(&self) -> Amount {
        self.scheduled_interest
    }

    pub closed spec fn spec_interest_paid(&self) -> Amount {
        self.interest_paid
    }

    pub closed spec fn spec_borrower_interest_released(&self) -> Amount {
        self.borrower_interest_released
    }

    pub closed spec fn spec_collateral_locked(&self) -> Amount {
        self.collateral_locked
    }

    pub closed spec fn spec_collateral_released(&self) -> Amount {
        self.collateral_released
    }

    pub closed spec fn spec_default_epoch(&self) -> Option<Epoch> {
        self.default_epoch
    }

    pub open spec fn spec_lender(&self) -> VaultId {
        self.terms().lender
    }

    pub open spec fn spec_borrower(&self) -> VaultId {
        self.terms().borrower
    }

    pub open spec fn spec_principal(&self) -> Amount {
        self.terms().principal
    }

    /// Two loan states that differ at most in the listed balances and status.
    pub open spec fn same_identity(&self, other: &LoanState) -> bool {
        &&& self.id() == other.id()
        &&& self.terms() == other.terms()
        &&& self.spec_terms_digest() == other.spec_terms_digest()
        &&& self.scheduled_interest() == other.scheduled_interest()
    }

    pub fn activate(terms: LoanTerms, scheduled_interest: Amount) -> (r: KeystoneResult<Self>)
        ensures
            r matches Ok(l) && l.id() == loan_id_of(terms) && l.terms() == terms && l.spec_terms_digest()
                == terms_digest_of(terms) && l.status() == LoanStatus::Active && l.remaining_principal()
                == terms.principal && l.scheduled_interest() == scheduled_interest && l.interest_paid() == Amount(0)
                && l.borrower_interest_released() == Amount(0) && l.collateral_locked() == terms.collateral
                && l.collateral_released() == Amount(0) && l.default_epoch() == None::<Epoch>,
    {
        let id = terms.loan_id();
        Ok(Self {
            id,
            terms,
            terms_digest: terms.digest()?,
            status: LoanStatus::Active,
            remaining_principal: terms.principal,
            scheduled_interest,
            interest_paid: Amount(0),
            borrower_interest_released: Amount(0),
            collateral_locked: terms.collateral,
            collateral_released: Amount(0),
            default_epoch: None,
        })
    }

    #[verifier::when_used_as_spec(spec_id)]
    pub fn id(&self) -> (r: LoanId)
        ensures
            r == self.spec_id(),
    {
        self.id
    }

    #[verifier::when_used_as_spec(spec_terms)]
    pub fn terms(&self) -> (r: LoanTerms)
        ensures
            r == self.spec_terms(),
    {
        self.terms
    }

    #[verifier::when_used_as_spec(spec_lender)]
    pub fn lender(&self) -> (r: VaultId)
        ensures
            r == self.spec_lender(),
    {
        self.terms.lender
    }

    #[verifier::when_used_as_spec(spec_borrower)]
    pub fn borrower(&self) -> (r: VaultId)
        ensures
            r == self.spec_borrower(),
    {
        self.terms.borrower
    }

    #[verifier::when_used_as_spec(spec_principal)]
    pub fn principal(&self) -> (r: Amount)
        ensures
            r == self.spec_principal(),
    {
        self.terms.principal
    }

    #[verifier::when_used_as_spec(spec_remaining_principal)]
    pub fn remaining_principal(&self) -> (r: Amount)
        ensures
            r == self.spec_remaining_principal(),
    {
        self.remaining_principal
    }

    #[verifier::when_used_as_spec(spec_scheduled_interest)]
    pub fn scheduled_interest(&self) -> (r: Amount)
        ensures
            r == self.spec_scheduled_interest(),
    {
        self.scheduled_interest
    }

    #[verifier::when_used_as_spec(spec_interest_paid)]
    pub fn interest_paid(&self) -> (r: Amount)
        ensures
            r == self.spec_interest_paid(),
    {
        self.interest_paid
    }

    #[verifier::when_used_as_spec(spec_borrower_interest_released)]
    pub fn borrower_interest_released(&self) -> (r: Amount)
        ensures
            r == self.spec_borrower_interest_released(),
    {
        self.borrower_interest_released
    }

    #[verifier::when_used_as_spec(spec_collateral_locked)]
    pub fn collateral_locked(&self) -> (r: Amount)
        ensures
            r == self.spec_collateral_locked(),
    {
        self.collateral_locked
    }

    #[verifier::when_used_as_spec(spec_collateral_released)]
    pub fn collateral_released(&self) -> (r: Amount)
        ensures
            r == self.spec_collateral_released(),
    {
        self.collateral_released
    }

    #[verifier::when_used_as_spec(spec_status)]
    pub fn status(&self) -> (r: LoanStatus)
        ensures
            r == self.spec_status(),
    {
        self.status
    }

    #[verifier::when_used_as_spec(spec_default_epoch)]
    pub fn default_epoch(&self) -> (r: Option<Epoch>)
        ensures
            r == self.spec_default_epoch(),
    {
        self.default_epoch
    }

    pub fn remaining_scheduled_interest(&self) -> (r: KeystoneResult<Amount>)
        ensures
            r == remaining_sched_of(*self),
    {
        self.scheduled_interest.checked_sub(self.borrower_interest_released)
    }

    pub fn debt_due_for_borrower(&self) -> (r: KeystoneResult<Amount>)
        ensures
            r == (match remaining_sched_of(*self) {
                Err(e) => Err(e),
                Ok(s) => amount_of(self.remaining_principal().0 + s.0),
            }),
    {
        self.remaining_principal.checked_add(self.remaining_scheduled_interest()?)
    }

    pub fn lender_receivable(&self) -> (r: KeystoneResult<Amount>)
        ensures
            r == (match amount_diff(self.scheduled_interest().0 as int, self.interest_paid().0 as int) {
                Err(e) => Err(e),
                Ok(s) => amount_of(self.remaining_principal().0 + s.0),
            }),
    {
        self.remaining_principal.checked_add(self.scheduled_interest.checked_sub(self.interest_paid)?)
    }

    pub fn accrued_interest(&self, now: Epoch, epochs_per_year: u64) -> (r: KeystoneResult<Amount>)
        ensures
            r == accrued_of(*self, now, epochs_per_year),
    {
        let elapsed = self.terms.schedule.elapsed(now)?;
        let accrued = Bps::annualized_for_epochs_ceil(
            self.terms.annual_rate_bps,
            self.terms.principal,
            elapsed,
            epochs_per_year,
        )?;
        Ok(accrued.min(self.scheduled_interest))
    }

    pub fn earned_interest_remaining(&self, now: Epoch, epochs_per_year: u64) -> (r: KeystoneResult<Amount>)
        ensures
            r == (match accrued_of(*self, now, epochs_per_year) {
                Err(e) => Err(e),
                Ok(a) => Ok(earned_unpaid(a, self.interest_paid())),
            }),
    {
        let accrued = self.accrued_interest(now, epochs_per_year)?;
        let second = self.accrued_interest(now, epochs_per_year)?;
        accrued.checked_sub(self.interest_paid.min(second))
    }

    pub fn quote_scheduled_repayment(&self) -> (r: KeystoneResult<PaymentQuote>)
        ensures
            r == scheduled_quote_of(*self),
    {
        if !self.status.can_repay() {
            return Err(KeystoneError::LoanStatusMismatch);
        }
        let interest = self.remaining_scheduled_interest()?;
        Ok(PaymentQuote {
            loan: self.id,
            mode: RepaymentMode::Scheduled,
            principal: self.remaining_principal,
            interest,
            borrower_interest_reduction: interest,
            lender_projection_reduction: interest,
            collateral_release: self.collateral_locked,
            closes_loan: true,
        })
    }

    pub fn quote_early_repayment(&self, now: Epoch, epochs_per_year: u64) -> (r: KeystoneResult<PaymentQuote>)
        ensures
            r == early_quote_of(*self, now, epochs_per_year),
    {
        if !self.status.can_repay() {
            return Err(KeystoneError::LoanStatusMismatch);
        }
        let accrued = self.accrued_interest(now, epochs_per_year)?;
        let interest_due = accrued.checked_sub(self.interest_paid.min(accrued))?;
        let borrower_interest_reduction = self.remaining_scheduled_interest()?;
        Ok(PaymentQuote {
            loan: self.id,
            mode: RepaymentMode::Early,
            principal: self.remaining_principal,
            interest: interest_due,
            borrower_interest_reduction,
            lender_projection_reduction: Amount(0),
            collateral_release: self.collateral_locked,
            closes_loan: true,
        })
    }

    pub fn quote_partial_repayment(
        &self,
        now: Epoch,
        principal: Amount,
        epochs_per_year: u64,
        policy: CollateralPolicy,
    ) -> (r: KeystoneResult<PaymentQuote>)
        ensures
            r == partial_quote_of(*self, now, principal, epochs_per_year),
    {
        if !self.status.can_repay() {
            return Err(KeystoneError::LoanStatusMismatch);
        }
        if principal.is_zero() {
            return Err(KeystoneError::ZeroAmount);
        }
        if principal.0 > self.remaining_principal.0 {
            return Err(KeystoneError::RepaymentTooLarge);
        }
        if principal.0 == self.remaining_principal.0 {
            return self.quote_early_repayment(now, epochs_per_year);
        }
        let ghost remaining = self.remaining_principal.0 as int;
        let accrued = self.accrued_interest(now, epochs_per_year)?;
        let earned_remaining = accrued.checked_sub(self.interest_paid.min(accrued))?;
        proof {
            lemma_div_up_share(earned_remaining.0 as int, principal.0 as int, remaining);
            assert(earned_remaining.0 as int * remaining <= u64::MAX * u64::MAX) by (nonlinear_arith)
                requires
                    0 <= earned_remaining.0 as int <= u64::MAX,
                    0 <= remaining <= u64::MAX,
            ;
        }
        let interest = earned_remaining.proportion_ceil(principal.0 as u128, self.remaining_principal.0 as u128)?;
        let scheduled_remaining = self.remaining_scheduled_interest()?;
        proof {
            lemma_div_up_share(scheduled_remaining.0 as int, principal.0 as int, remaining);
            assert(scheduled_remaining.0 as int * remaining <= u64::MAX * u64::MAX) by (nonlinear_arith)
                requires
                    0 <= scheduled_remaining.0 as int <= u64::MAX,
                    0 <= remaining <= u64::MAX,
            ;
        }
        let borrower_interest_reduction = scheduled_remaining.proportion_ceil(
            principal.0 as u128,
            self.remaining_principal.0 as u128,
        )?;
        let remaining_after = self.remaining_principal.checked_sub(principal)?;
        proof {
            lemma_div_up_share(self.collateral_locked.0 as int, remaining_after.0 as int, remaining);
            assert(self.collateral_locked.0 as int * remaining <= u64::MAX * u64::MAX) by (nonlinear_arith)
                requires
                    0 <= self.collateral_locked.0 as int <= u64::MAX,
                    0 <= remaining <= u64::MAX,
            ;
        }
        let retained_collateral = self.collateral_locked.proportion_ceil(
            remaining_after.0 as u128,
            self.remaining_principal.0 as u128,
        )?;
        let raw_release = self.collateral_locked.checked_sub(retained_collateral)?;
        let release = raw_release.min(
            policy.releasable_after_repay(self.collateral_locked, self.remaining_principal, remaining_after)?,
        );
        Ok(PaymentQuote {
            loan: self.id,
            mode: RepaymentMode::Partial,
            principal,
            interest,
            borrower_interest_reduction,
            lender_projection_reduction: Amount(0),
            collateral_release: release,
            closes_loan: false,
        })
    }

    pub fn apply_repayment(&mut self, quote: PaymentQuote) -> (r: KeystoneResult<()>)
        ensures
            final(self).same_identity(old(self)),
            quote.loan != old(self).id() ==> r == Err::<(), KeystoneError>(KeystoneError::LoanNotFound)
                && *final(self) == *old(self),
            quote.loan == old(self).id() ==> r == repayment_result(*old(self), quote),
            quote.loan == old(self).id() ==> repayment_effect(*old(self), quote, *final(self)),
    {
        if quote.loan != self.id {
            return Err(KeystoneError::LoanNotFound);
        }
        if quote.principal.0 > self.remaining_principal.0 {
            return Err(KeystoneError::RepaymentTooLarge);
        }
        if quote.interest.0 > self.remaining_scheduled_interest()?.0 {
            return Err(KeystoneError::RepaymentTooLarge);
        }
        if quote.collateral_release.0 > self.collateral_locked.0 {
            return Err(KeystoneError::InsufficientCollateral);
        }
        self.remaining_principal = self.remaining_principal.checked_sub(quote.principal)?;
        self.interest_paid = self.interest_paid.checked_add(quote.interest)?;
        self.borrower_interest_released =
            self.borrower_interest_released.checked_add(quote.borrower_interest_reduction)?;
        self.collateral_locked = self.collateral_locked.checked_sub(quote.collateral_release)?;
        self.collateral_released = self.collateral_released.checked_add(quote.collateral_release)?;
        if self.remaining_principal.is_zero() && quote.closes_loan {
            self.status = LoanStatus::Paid;
            self.borrower_interest_released = self.scheduled_interest;
        }
        Ok(())
    }

    /// Whether `apply_repayment` would accept a quote, without applying it.
    pub(crate) fn check_repayment(&self, quote: PaymentQuote) -> (r: KeystoneResult<()>)
        ensures
            r == repayment_result(*self, quote),
    {
        if quote.principal.0 > self.remaining_principal.0 {
            return Err(KeystoneError::RepaymentTooLarge);
        }
        let sched = match self.remaining_scheduled_interest() {
            Ok(a) => a,
            Err(_) => {
                return Err(KeystoneError::AmountUnderflow);
            },
        };
        if quote.interest.0 > sched.0 {
            return Err(KeystoneError::RepaymentTooLarge);
        }
        if quote.collateral_release.0 > self.collateral_locked.0 {
            return Err(KeystoneError::InsufficientCollateral);
        }
        if self.interest_paid.0.checked_add(quote.interest.0).is_none() || self.borrower_interest_released.0.checked_add(
            quote.borrower_interest_reduction.0,
        ).is_none() || self.collateral_released.0.checked_add(quote.collateral_release.0).is_none() {
            return Err(KeystoneError::AmountOverflow);
        }
        Ok(())
    }

    pub fn mark_defaulted(&mut self, now: Epoch) -> (r: KeystoneResult<u64>)
        ensures
            final(self).same_identity(old(self)),
            r == default_result(*old(self), now),
            r is Err ==> *final(self) == *old(self),
            r is Ok ==> final(self).status() == LoanStatus::Defaulted && final(self).default_epoch() == Some(now)
                && final(self).remaining_principal() == old(self).remaining_principal()
                && final(self).interest_paid() == old(self).interest_paid()
                && final(self).borrower_interest_released() == old(self).borrower_interest_released()
                && final(self).collateral_locked() == old(self).collateral_locked()
                && final(self).collateral_released() == old(self).collateral_released(),
    {
        if !self.status.can_default() {
            return Err(KeystoneError::LoanStatusMismatch);
        }
        if !self.terms.schedule.is_overdue(now)? {
            return Err(KeystoneError::LoanNotDue);
        }
        let due = self.terms.schedule.due_epoch()?;
        let overdue = now.checked_sub(due)?;
        self.status = LoanStatus::Defaulted;
        self.default_epoch = Some(now);
        Ok(overdue)
    }

    pub fn begin_liquidation(&mut self) -> (r: KeystoneResult<()>)
        ensures
            !(old(self).status() is Defaulted || old(self).status() is Liquidating) ==> r == Err::<
                (),
                KeystoneError,
            >(KeystoneError::LiquidationNotAllowed) && *final(self) == *old(self),
            (old(self).status() is Defaulted || old(self).status() is Liquidating) ==> r is Ok
                && final(self).status() == LoanStatus::Liquidating && balances_unchanged(*old(self), *final(self)),
            final(self).same_identity(old(self)),
            final(self).default_epoch() == old(self).default_epoch(),
    {
        if !self.status.can_liquidate() {
            return Err(KeystoneError::LiquidationNotAllowed);
        }
        self.status = LoanStatus::Liquidating;
        Ok(())
    }

    pub fn complete_liquidation(
        &mut self,
        principal_closed: Amount,
        interest_closed: Amount,
        collateral_seized: Amount,
    ) -> (r: KeystoneResult<()>)
        ensures
            final(self).same_identity(old(self)),
            final(self).default_epoch() == old(self).default_epoch(),
            final(self).interest_paid() == old(self).interest_paid(),
            final(self).collateral_released() == old(self).collateral_released(),
            r == liquidation_close_result(*old(self), principal_closed, interest_closed, collateral_seized),
            liquidation_close_effect(*old(self), principal_closed, interest_closed, collateral_seized, *final(self)),
    {
        if !(match self.status {
            LoanStatus::Liquidating | LoanStatus::Defaulted => true,
            _ => false,
        }) {
            return Err(KeystoneError::LiquidationNotAllowed);
        }
        if principal_closed.0 > self.remaining_principal.0 {
            return Err(KeystoneError::RepaymentTooLarge);
        }
        if interest_closed.0 > self.remaining_scheduled_interest()?.0 {
            return Err(KeystoneError::RepaymentTooLarge);
        }
        if collateral_seized.0 > self.collateral_locked.0 {
            return Err(KeystoneError::InsufficientCollateral);
        }
        self.remaining_principal = self.remaining_principal.checked_sub(principal_closed)?;
        self.borrower_interest_released = self.borrower_interest_released.checked_add(interest_closed)?;
        self.collateral_locked = self.collateral_locked.checked_sub(collateral_seized)?;
        if self.remaining_principal.is_zero() {
            self.status = LoanStatus::Liquidated;
            self.borrower_interest_released = self.scheduled_interest;
        } else {
            self.status = LoanStatus::Defaulted;
        }
        Ok(())
    }

    /// Whether `complete_liquidation` would accept the amounts, without closing anything.
    pub(crate) fn check_liquidation_close(&self, principal_closed: Amount, interest_closed: Amount, collateral_seized: Amount) -> (r:
        KeystoneResult<()>)
        ensures
            r == liquidation_close_result(*self, principal_closed, interest_closed, collateral_seized),
    {
        if !(match self.status {
            LoanStatus::Liquidating | LoanStatus::Defaulted => true,
            _ => false,
        }) {
            return Err(KeystoneError::LiquidationNotAllowed);
        }
        if principal_closed.0 > self.remaining_principal.0 {
            return Err(KeystoneError::RepaymentTooLarge);
        }
        let sched = match self.remaining_scheduled_interest() {
            Ok(a) => a,
            Err(_) => {
                return Err(KeystoneError::AmountUnderflow);
            },
        };
        if interest_closed.0 > sched.0 {
            return Err(KeystoneError::RepaymentTooLarge);
        }
        if collateral_seized.0 > self.collateral_locked.0 {
            return Err(KeystoneError::InsufficientCollateral);
        }
        if self.borrower_interest_released.0.checked_add(interest_closed.0).is_none() {
            return Err(KeystoneError::AmountOverflow);
        }
        Ok(())
    }

    pub fn write_off(&mut self) -> (r: KeystoneResult<(Amount, Amount)>)
        ensures
            final(self).same_identity(old(self)),
            !(old(self).status() is Defaulted || old(self).status() is Liquidating) ==> r == Err::<
                (Amount, Amount),
                KeystoneError,
            >(KeystoneError::LoanStatusMismatch) && *final(self) == *old(self),
            (old(self).status() is Defaulted || old(self).status() is Liquidating) && remaining_sched_of(*old(self)) is Err
                ==> r == Err::<(Amount, Amount), KeystoneError>(KeystoneError::AmountUnderflow) && *final(self)
                == *old(self),
            (old(self).status() is Defaulted || old(self).status() is Liquidating) && remaining_sched_of(*old(self)) is Ok
                ==> r == Ok::<(Amount, Amount), KeystoneError>(
                (old(self).remaining_principal(), remaining_sched_of(*old(self))->Ok_0),
            ) && final(self).remaining_principal() == Amount(0) && final(self).borrower_interest_released()
                == old(self).scheduled_interest() && final(self).collateral_locked() == Amount(0)
                && final(self).status() == LoanStatus::WrittenOff && final(self).interest_paid()
                == old(self).interest_paid() && final(self).collateral_released() == old(self).collateral_released()
                && final(self).default_epoch() == old(self).default_epoch(),
    {
        if !(match self.status {
            LoanStatus::Defaulted | LoanStatus::Liquidating => true,
            _ => false,
        }) {
            return Err(KeystoneError::LoanStatusMismatch);
        }
        let principal = self.remaining_principal;
        let interest = self.remaining_scheduled_interest()?;
        self.remaining_principal = Amount(0);
        self.borrower_interest_released = self.scheduled_interest;
        self.collateral_locked = Amount(0);
        self.status = LoanStatus::WrittenOff;
        Ok((principal, interest))
    }

    pub fn snapshot(&self) -> (r: KeystoneResult<LoanSnapshot>)
        ensures
            r == loan_snapshot_of(*self),
    {
        Ok(LoanSnapshot {
            loan: self.id,
            lender: self.terms.lender,
            borrower: self.terms.borrower,
            status: self.status,
            principal: self.terms.principal,
            remaining_principal: self.remaining_principal,
            scheduled_interest: self.scheduled_interest,
            interest_paid: self.interest_paid,
            borrower_interest_released: self.borrower_interest_released,
            collateral_locked: self.collateral_locked,
            collateral_released: self.collateral_released,
            start_epoch: self.terms.schedule.start,
            maturity_epoch: self.terms.schedule.maturity,
            due_epoch: self.terms.schedule.due_epoch()?,
            annual_rate_bps: self.terms.annual_rate_bps,
            terms_digest: self.terms_digest,
        })
    }

    pub fn digest(&self) -> (r: KeystoneResult<Digest>)
        ensures
            r == (match loan_snapshot_of(*self) {
                Err(e) => Err(e),
                Ok(s) => Ok(parts_digest(LOAN_STATE_DOMAIN, seq![json_loan_snapshot(s)])),
            }),
    {
        let snapshot = self.snapshot()?;
        let mut bytes: Vec<u8> = Vec::new();
        write_loan_snapshot(&mut bytes, &snapshot);
        state_digest_from_json(LOAN_STATE_DOMAIN, bytes.as_slice())
    }
}

/// The balances of a loan are those of another.
pub open spec fn balances_unchanged(a: LoanState, b: LoanState) -> bool {
    &&& a.remaining_principal() == b.remaining_principal()
    &&& a.interest_paid() == b.interest_paid()
    &&& a.borrower_interest_released() == b.borrower_interest_released()
    &&& a.collateral_locked() == b.collateral_locked()
    &&& a.collateral_released() == b.collateral_released()
}

pub open spec fn loan_snapshot_of(l: LoanState) -> KeystoneResult<LoanSnapshot> {
    let s = l.terms().schedule;
    if due_of(s) > u64::MAX {
        Err(KeystoneError::AmountOverflow)
    } else {
        Ok(
            LoanSnapshot {
                loan: l.id(),
                lender: l.terms().lender,
                borrower: l.terms().borrower,
                status: l.status(),
                principal: l.terms().principal,
                remaining_principal: l.remaining_principal(),
                scheduled_interest: l.scheduled_interest(),
                interest_paid: l.interest_paid(),
                borrower_interest_released: l.borrower_interest_released(),
                collateral_locked: l.collateral_locked(),
                collateral_released: l.collateral_released(),
                start_epoch: s.start,
                maturity_epoch: s.maturity,
                due_epoch: Epoch(due_of(s) as u64),
                annual_rate_bps: l.terms().annual_rate_bps,
                terms_digest: l.spec_terms_digest(),
            },
        )
    }
}

/// Whether a default at `now` is allowed and how many epochs past due it is.
pub open spec fn default_result(l: LoanState, now: Epoch) -> KeystoneResult<u64> {
    let due = due_of(l.terms().schedule);
    if !(l.status() is Active) {
        Err(KeystoneError::LoanStatusMismatch)
    } else if due > u64::MAX {
        Err(KeystoneError::AmountOverflow)
    } else if now.0 <= due {
        Err(KeystoneError::LoanNotDue)
    } else {
        Ok((now.0 - due) as u64)
    }
}

/// The validation a repayment quote passes before it is applied, and the overflow checks of the
/// sums it adds.
pub open spec fn repayment_result(l: LoanState, q: PaymentQuote) -> KeystoneResult<()> {
    if q.principal.0 > l.remaining_principal().0 {
        Err(KeystoneError::RepaymentTooLarge)
    } else if remaining_sched_of(l) is Err {
        Err(KeystoneError::AmountUnderflow)
    } else if q.interest.0 > remaining_sched_of(l)->Ok_0.0 {
        Err(KeystoneError::RepaymentTooLarge)
    } else if q.collateral_release.0 > l.collateral_locked().0 {
        Err(KeystoneError::InsufficientCollateral)
    } else if !fits_sum(l.interest_paid(), q.interest) || !fits_sum(
        l.borrower_interest_released(),
        q.borrower_interest_reduction,
    ) || !fits_sum(l.collateral_released(), q.collateral_release) {
        Err(KeystoneError::AmountOverflow)
    } else {
        Ok(())
    }
}

/// The state after applying a repayment: balances move by the quote, the loan is paid when a
/// closing quote leaves no principal, and a sum that overflows stops the update where it occurs.
pub open spec fn repayment_effect(l: LoanState, q: PaymentQuote, f: LoanState) -> bool {
    let checks_pass = q.principal.0 <= l.remaining_principal().0 && remaining_sched_of(l) is Ok && q.interest.0
        <= remaining_sched_of(l)->Ok_0.0 && q.collateral_release.0 <= l.collateral_locked().0;
    let rp = (l.remaining_principal().0 - q.principal.0) as u64;
    if !checks_pass {
        f == l
    } else {
        &&& f.remaining_principal() == Amount(rp)
        &&& f.default_epoch() == l.default_epoch()
        &&& if !fits_sum(l.interest_paid(), q.interest) {
            &&& f.interest_paid() == l.interest_paid()
            &&& f.borrower_interest_released() == l.borrower_interest_released()
            &&& f.collateral_locked() == l.collateral_locked()
            &&& f.collateral_released() == l.collateral_released()
            &&& f.status() == l.status()
        } else if !fits_sum(l.borrower_interest_released(), q.borrower_interest_reduction) {
            &&& f.interest_paid().0 == l.interest_paid().0 + q.interest.0
            &&& f.borrower_interest_released() == l.borrower_interest_released()
            &&& f.collateral_locked() == l.collateral_locked()
            &&& f.collateral_released() == l.collateral_released()
            &&& f.status() == l.status()
        } else if !fits_sum(l.collateral_released(), q.collateral_release) {
            &&& f.interest_paid().0 == l.interest_paid().0 + q.interest.0
            &&& f.borrower_interest_released().0 == l.borrower_interest_released().0 + q.borrower_interest_reduction.0
            &&& f.collateral_locked().0 == l.collateral_locked().0 - q.collateral_release.0
            &&& f.collateral_released() == l.collateral_released()
            &&& f.status() == l.status()
        } else {
            &&& f.interest_paid().0 == l.interest_paid().0 + q.interest.0
            &&& f.collateral_locked().0 == l.collateral_locked().0 - q.collateral_release.0
            &&& f.collateral_released().0 == l.collateral_released().0 + q.collateral_release.0
            &&& if rp == 0 && q.closes_loan {
                &&& f.status() == LoanStatus::Paid
                &&& f.borrower_interest_released() == l.scheduled_interest()
            } else {
                &&& f.status() == l.status()
                &&& f.borrower_interest_released().0 == l.borrower_interest_released().0
                    + q.borrower_interest_reduction.0
            }
        }
    }
}

/// The validation that closing part of a loan by liquidation passes.
pub open spec fn liquidation_close_result(
    l: LoanState,
    principal_closed: Amount,
    interest_closed: Amount,
    collateral_seized: Amount,
) -> KeystoneResult<()> {
    if !(l.status() is Liquidating || l.status() is Defaulted) {
        Err(KeystoneError::LiquidationNotAllowed)
    } else if principal_closed.0 > l.remaining_principal().0 {
        Err(KeystoneError::RepaymentTooLarge)
    } else if remaining_sched_of(l) is Err {
        Err(KeystoneError::AmountUnderflow)
    } else if interest_closed.0 > remaining_sched_of(l)->Ok_0.0 {
        Err(KeystoneError::RepaymentTooLarge)
    } else if collateral_seized.0 > l.collateral_locked().0 {
        Err(KeystoneError::InsufficientCollateral)
    } else if !fits_sum(l.borrower_interest_released(), interest_closed) {
        Err(KeystoneError::AmountOverflow)
    } else {
        Ok(())
    }
}

/// The state after closing part of a loan by liquidation: principal, released interest and locked
/// collateral move by the amounts closed; the loan is liquidated when no principal remains and
/// stays defaulted otherwise.
pub open spec fn liquidation_close_effect(
    l: LoanState,
    principal_closed: Amount,
    interest_closed: Amount,
    collateral_seized: Amount,
    f: LoanState,
) -> bool {
    let checks_pass = (l.status() is Liquidating || l.status() is Defaulted) && principal_closed.0
        <= l.remaining_principal().0 && remaining_sched_of(l) is Ok && interest_closed.0 <= remaining_sched_of(
        l,
    )->Ok_0.0 && collateral_seized.0 <= l.collateral_locked().0;
    let rp = (l.remaining_principal().0 - principal_closed.0) as u64;
    if !checks_pass {
        f == l
    } else if !fits_sum(l.borrower_interest_released(), interest_closed) {
        &&& f.remaining_principal() == Amount(rp)
        &&& f.borrower_interest_released() == l.borrower_interest_released()
        &&& f.collateral_locked() == l.collateral_locked()
        &&& f.status() == l.status()
    } else {
        &&& f.remaining_principal() == Amount(rp)
        &&& f.collateral_locked().0 == l.collateral_locked().0 - collateral_seized.0
        &&& if rp == 0 {
            &&& f.status() == LoanStatus::Liquidated
            &&& f.borrower_interest_released() == l.scheduled_interest()
        } else {
            &&& f.status() == LoanStatus::Defaulted
            &&& f.borrower_interest_released().0 == l.borrower_interest_released().0 + interest_closed.0
        }
    }
}

} // verus!
