use vstd::prelude::*;

use crate::amount::{amount_diff, amount_of, bps_ceil, checked_ratio_bps, ratio_bps, Amount, Bps};
use crate::error::{KeystoneError, KeystoneResult};
use crate::ids::{LoanId, VaultId};
use crate::loan::{remaining_sched_of, LoanState};
use crate::policy::{tier_bonus, ProtocolPolicy};

verus! {

/// How much of a defaulted loan a liquidation closes and what collateral it takes.
#[derive(Clone, Copy, Debug, PartialEq, Eq)]
pub struct LiquidationPlan {
    pub loan: LoanId,
    pub lender: VaultId,
    pub borrower: VaultId,
    pub debt: Amount,
    pub close_principal: Amount,
    pub close_interest: Amount,
    pub collateral_available: Amount,
    pub collateral_to_seize: Amount,
    pub liquidation_bonus: Amount,
    pub shortfall: Amount,
}

/// What a liquidation did.
#[derive(Clone, Copy, Debug, PartialEq, Eq)]
pub struct LiquidationResult {
    pub loan: LoanId,
    pub seized: Amount,
    pub principal_closed: Amount,
    pub interest_closed: Amount,
    pub reserve_recovery: Amount,
    pub shortfall: Amount,
    pub remaining_principal: Amount,
}

pub open spec fn min_amount(a: Amount, b: Amount) -> Amount {
    if a.0 <= b.0 {
        a
    } else {
        b
    }
}

/// The plan for liquidating a loan: the close factor of the remaining principal and of the
/// remaining interest (rounded up, capped at what remains), plus the tier's bonus on that debt,
/// taken from the locked collateral as far as it goes; what it does not cover is the shortfall.
pub open spec fn plan_of(l: LoanState, policy: ProtocolPolicy) -> KeystoneResult<LiquidationPlan> {
    let cf = policy.liquidation_close_factor_bps.0 as int;
    if !(l.status() is Defaulted || l.status() is Liquidating) {
        Err(KeystoneError::LiquidationNotAllowed)
    } else {
        match remaining_sched_of(l) {
            Err(e) => Err(e),
            Ok(interest_due) => match amount_of(l.remaining_principal().0 + interest_due.0) {
                Err(e) => Err(e),
                Ok(debt) => match amount_of(bps_ceil(cf, l.remaining_principal().0 as int)) {
                    Err(e) => Err(e),
                    Ok(cp_raw) => match amount_of(bps_ceil(cf, interest_due.0 as int)) {
                        Err(e) => Err(e),
                        Ok(ci_raw) => {
                            let cp = min_amount(cp_raw, l.remaining_principal());
                            let ci = min_amount(ci_raw, interest_due);
                            match amount_of(cp.0 + ci.0) {
                                Err(e) => Err(e),
                                Ok(close_debt) => match amount_of(
                                    bps_ceil(tier_bonus(policy.collateral.tier) as int, close_debt.0 as int),
                                ) {
                                    Err(e) => Err(e),
                                    Ok(bonus) => match amount_of(close_debt.0 + bonus.0) {
                                        Err(e) => Err(e),
                                        Ok(target) => {
                                            let seize = min_amount(target, l.collateral_locked());
                                            Ok(
                                                LiquidationPlan {
                                                    loan: l.id(),
                                                    lender: l.terms().lender,
                                                    borrower: l.terms().borrower,
                                                    debt,
                                                    close_principal: cp,
                                                    close_interest: ci,
                                                    collateral_available: l.collateral_locked(),
                                                    collateral_to_seize: seize,
                                                    liquidation_bonus: bonus,
                                                    shortfall: Amount((target.0 - seize.0) as u64),
                                                },
                                            )
                                        },
                                    },
                                },
                            }
                        },
                    },
                },
            },
        }
    }
}

/// The principal that the seized collateral covers, after the interest.
pub open spec fn principal_covered_of(p: LiquidationPlan) -> Amount {
    if p.collateral_to_seize.0 >= p.close_interest.0 {
        min_amount(Amount((p.collateral_to_seize.0 - p.close_interest.0) as u64), p.close_principal)
    } else {
        Amount(0)
    }
}

/// The interest that the seized collateral covers first.
pub open spec fn interest_covered_of(p: LiquidationPlan) -> Amount {
    min_amount(p.collateral_to_seize, p.close_interest)
}

/// Seized collateral beyond the debt it covers.
pub open spec fn reserve_recovery_of(p: LiquidationPlan) -> Amount {
    Amount((p.collateral_to_seize.0 - principal_covered_of(p).0 - interest_covered_of(p).0) as u64)
}

/// A liquidation closes the close factor's share of the remaining principal and of the remaining
/// scheduled interest, each rounded up and capped at what remains, and seizes the debt it closes
/// plus the tier's liquidation bonus on that debt, rounded up, as far as the collateral locked in
/// the loan goes; what it cannot seize is the shortfall.
pub proof fn lemma_plan_seizes_bonus(l: LoanState, policy: ProtocolPolicy)
    requires
        plan_of(l, policy) is Ok,
    ensures
        ({
            let p = plan_of(l, policy)->Ok_0;
            let cf = policy.liquidation_close_factor_bps.0 as int;
            let rp = l.remaining_principal().0 as int;
            let ri = l.scheduled_interest().0 - l.borrower_interest_released().0;
            let closed = p.close_principal.0 + p.close_interest.0;
            let bonus = (closed * tier_bonus(policy.collateral.tier) + 9_999) / 10_000;
            &&& l.status() is Defaulted || l.status() is Liquidating
            &&& p.close_principal.0 == (if (rp * cf + 9_999) / 10_000 <= rp { (rp * cf + 9_999) / 10_000 } else { rp })
            &&& p.close_interest.0 == (if (ri * cf + 9_999) / 10_000 <= ri { (ri * cf + 9_999) / 10_000 } else { ri })
            &&& p.liquidation_bonus.0 == bonus
            &&& p.collateral_available == l.collateral_locked()
            &&& closed + bonus <= l.collateral_locked().0 ==> p.collateral_to_seize.0 == closed + bonus
                && p.shortfall.0 == 0
            &&& closed + bonus > l.collateral_locked().0 ==> p.collateral_to_seize == l.collateral_locked()
                && p.shortfall.0 == closed + bonus - l.collateral_locked().0
        }),
{
}

/// The collateral a plan seizes covers the interest it closes first, then the principal it
/// closes, and whatever is left is the reserve recovery: the three add up to the seizure.
pub proof fn lemma_plan_cover(p: LiquidationPlan)
    ensures
        interest_covered_of(p).0 == (if p.collateral_to_seize.0 <= p.close_interest.0 {
            p.collateral_to_seize.0
        } else {
            p.close_interest.0
        }),
        principal_covered_of(p).0 == (if p.collateral_to_seize.0 <= p.close_interest.0 {
            0
        } else if p.collateral_to_seize.0 - p.close_interest.0 <= p.close_principal.0 {
            p.collateral_to_seize.0 - p.close_interest.0
        } else {
            p.close_principal.0 as int
        }),
        principal_covered_of(p).0 + interest_covered_of(p).0 + reserve_recovery_of(p).0 == p.collateral_to_seize.0,
{
}

impl LiquidationPlan {
    pub fn build(loan: &LoanState, policy: ProtocolPolicy) -> (r: KeystoneResult<Self>)
        ensures
            r == plan_of(*loan, policy),
    {
        if !loan.status().can_liquidate() {
            return Err(KeystoneError::LiquidationNotAllowed);
        }
        let debt = loan.debt_due_for_borrower()?;
        let close_principal = policy.liquidation_close_factor_bps.apply_ceil(loan.remaining_principal())?.min(
            loan.remaining_principal(),
        );
        let interest_due = loan.remaining_scheduled_interest()?;
        let close_interest = policy.liquidation_close_factor_bps.apply_ceil(interest_due)?.min(interest_due);
        let close_debt = close_principal.checked_add(close_interest)?;
        let bonus_rate = policy.collateral.tier.liquidation_bonus()?;
        let liquidation_bonus = bonus_rate.apply_ceil(close_debt)?;
        let target_seizure = close_debt.checked_add(liquidation_bonus)?;
        let collateral_available = loan.collateral_locked();
        let collateral_to_seize = target_seizure.min(collateral_available);
        let shortfall = target_seizure.saturating_sub(collateral_to_seize);
        Ok(Self {
            loan: loan.id(),
            lender: loan.lender(),
            borrower: loan.borrower(),
            debt,
            close_principal,
            close_interest,
            collateral_available,
            collateral_to_seize,
            liquidation_bonus,
            shortfall,
        })
    }

    pub fn principal_covered(self) -> (r: KeystoneResult<Amount>)
        ensures
            r == Ok::<Amount, KeystoneError>(principal_covered_of(self)),
    {
        if self.collateral_to_seize.0 >= self.close_interest.0 {
            Ok(self.collateral_to_seize.checked_sub(self.close_interest)?.min(self.close_principal))
        } else {
            Ok(Amount(0))
        }
    }

    pub fn interest_covered(self) -> (r: Amount)
        ensures
            r == interest_covered_of(self),
    {
        self.collateral_to_seize.min(self.close_interest)
    }

    pub fn reserve_recovery(self) -> (r: KeystoneResult<Amount>)
        ensures
            r == Ok::<Amount, KeystoneError>(reserve_recovery_of(self)),
            principal_covered_of(self).0 + interest_covered_of(self).0 + reserve_recovery_of(self).0
                == self.collateral_to_seize.0,
    {
        let covered_debt = self.principal_covered()?.checked_add(self.interest_covered())?;
        Ok(self.collateral_to_seize.saturating_sub(covered_debt))
    }

    pub fn result(self, remaining_principal: Amount) -> (r: KeystoneResult<LiquidationResult>)
        ensures
            r == Ok::<LiquidationResult, KeystoneError>(
                LiquidationResult {
                    loan: self.loan,
                    seized: self.collateral_to_seize,
                    principal_closed: principal_covered_of(self),
                    interest_closed: interest_covered_of(self),
                    reserve_recovery: reserve_recovery_of(self),
                    shortfall: self.shortfall,
                    remaining_principal,
                },
            ),
    {
        Ok(LiquidationResult {
            loan: self.loan,
            seized: self.collateral_to_seize,
            principal_closed: self.principal_covered()?,
            interest_closed: self.interest_covered(),
            reserve_recovery: self.reserve_recovery()?,
            shortfall: self.shortfall,
            remaining_principal,
        })
    }

    pub fn health_after(self, remaining_collateral: Amount) -> (r: KeystoneResult<Bps>)
        ensures
            r == (match amount_of(self.close_principal.0 + self.close_interest.0) {
                Err(e) => Err(e),
                Ok(closed) => match amount_diff(self.debt.0 as int, closed.0 as int) {
                    Err(e) => Err(e),
                    Ok(rest) => if rest.0 == 0 {
                        Ok(Bps(10_000))
                    } else {
                        ratio_bps(remaining_collateral.0 as int, rest.0 as int)
                    },
                },
            }),
    {
        let remaining_debt = self.debt.checked_sub(self.close_principal.checked_add(self.close_interest)?)?;
        if remaining_debt.is_zero() {
            return Bps::strict(10_000);
        }
        checked_ratio_bps(remaining_collateral, remaining_debt)
    }
}

} // verus!
