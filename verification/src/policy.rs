use vstd::prelude::*;

use crate::amount::{amount_diff, amount_of, bps_add, bps_ceil, bps_floor, bps_of, Amount, Bps};
use crate::error::{KeystoneError, KeystoneResult};
use crate::ids::{parts_digest, state_digest_from_json, Digest};
use crate::json::{json_protocol_policy, write_protocol_policy};

verus! {

/// The credit quality class that a policy is written for.
#[derive(Clone, Copy, Debug, PartialEq, Eq, Structural)]
pub enum RiskTier {
    Prime,
    Standard,
    Watch,
    Restricted,
}

pub open spec fn tier_haircut(t: RiskTier) -> u32 {
    match t {
        RiskTier::Prime => 500,
        RiskTier::Standard => 1_000,
        RiskTier::Watch => 1_750,
        RiskTier::Restricted => 3_500,
    }
}

pub open spec fn tier_max_ltv(t: RiskTier) -> u32 {
    match t {
        RiskTier::Prime => 8_500,
        RiskTier::Standard => 7_000,
        RiskTier::Watch => 5_500,
        RiskTier::Restricted => 3_000,
    }
}

pub open spec fn tier_bonus(t: RiskTier) -> u32 {
    match t {
        RiskTier::Prime => 300,
        RiskTier::Standard => 500,
        RiskTier::Watch => 800,
        RiskTier::Restricted => 1_250,
    }
}

pub open spec fn tier_risk_addon(t: RiskTier) -> u32 {
    match t {
        RiskTier::Prime => 0,
        RiskTier::Standard => 150,
        RiskTier::Watch => 450,
        RiskTier::Restricted => 1_000,
    }
}

pub open spec fn tier_min_collateral(t: RiskTier) -> u32 {
    match t {
        RiskTier::Prime => 11_800,
        RiskTier::Standard => 14_500,
        RiskTier::Watch => 18_000,
        RiskTier::Restricted => 26_000,
    }
}

pub open spec fn tier_maintenance(t: RiskTier) -> u32 {
    match t {
        RiskTier::Prime => 10_700,
        RiskTier::Standard => 12_800,
        RiskTier::Watch => 16_200,
        RiskTier::Restricted => 22_000,
    }
}

impl RiskTier {
    pub fn base_haircut(self) -> (r: KeystoneResult<Bps>)
        ensures
            r == Ok::<Bps, KeystoneError>(Bps(tier_haircut(self))),
    {
        match self {
            RiskTier::Prime => Bps::strict(500),
            RiskTier::Standard => Bps::strict(1_000),
            RiskTier::Watch => Bps::strict(1_750),
            RiskTier::Restricted => Bps::strict(3_500),
        }
    }

    pub fn max_ltv(self) -> (r: KeystoneResult<Bps>)
        ensures
            r == Ok::<Bps, KeystoneError>(Bps(tier_max_ltv(self))),
    {
        match self {
            RiskTier::Prime => Bps::strict(8_500),
            RiskTier::Standard => Bps::strict(7_000),
            RiskTier::Watch => Bps::strict(5_500),
            RiskTier::Restricted => Bps::strict(3_000),
        }
    }

    pub fn liquidation_bonus(self) -> (r: KeystoneResult<Bps>)
        ensures
            r == Ok::<Bps, KeystoneError>(Bps(tier_bonus(self))),
    {
        match self {
            RiskTier::Prime => Bps::strict(300),
            RiskTier::Standard => Bps::strict(500),
            RiskTier::Watch => Bps::strict(800),
            RiskTier::Restricted => Bps::strict(1_250),
        }
    }

    pub fn admits_new_credit(self) -> (r: bool)
        ensures
            r == !(self is Restricted),
    {
        match self {
            RiskTier::Restricted => false,
            _ => true,
        }
    }
}

pub open spec fn tier_name(t: RiskTier) -> &'static str {
    match t {
        RiskTier::Prime => "prime",
        RiskTier::Standard => "standard",
        RiskTier::Watch => "watch",
        RiskTier::Restricted => "restricted",
    }
}

/// How loan rates are quoted and how interest is split.
#[derive(Clone, Copy, Debug, PartialEq, Eq, Structural)]
pub struct InterestModel {
    pub base_rate_bps: Bps,
    pub utilization_slope_bps: Bps,
    pub reserve_factor_bps: Bps,
    pub overdue_penalty_bps: Bps,
    pub epochs_per_year: u64,
}

/// The annual rate quoted at a lender utilization for a tier: the base rate, plus the slope
/// applied to the utilization, plus the tier's add-on, each sum validated as basis points.
pub open spec fn quoted_rate_of(m: InterestModel, utilization: Bps, tier: RiskTier) -> KeystoneResult<Bps> {
    let slope = bps_floor(m.utilization_slope_bps.0 as int, utilization.0 as int);
    match bps_of((slope % 0x1_0000_0000) as u32) {
        Err(e) => Err(e),
        Ok(s) => match bps_add(m.base_rate_bps, s) {
            Err(e) => Err(e),
            Ok(b) => bps_add(b, Bps(tier_risk_addon(tier))),
        },
    }
}

/// The rate quoted at a utilization is the base rate, plus the utilization slope's share of the
/// utilization rounded down, plus the tier's risk add-on (none for prime, 150, 450 and 1,000 bps
/// for the others).
pub proof fn lemma_quoted_rate(m: InterestModel, utilization: Bps, tier: RiskTier)
    requires
        quoted_rate_of(m, utilization, tier) is Ok,
        utilization.0 * m.utilization_slope_bps.0 / 10_000 < 0x1_0000_0000,
    ensures
        quoted_rate_of(m, utilization, tier)->Ok_0.0 == m.base_rate_bps.0 + utilization.0
            * m.utilization_slope_bps.0 / 10_000 + (match tier {
            RiskTier::Prime => 0int,
            RiskTier::Standard => 150int,
            RiskTier::Watch => 450int,
            RiskTier::Restricted => 1_000int,
        }),
{
    let slope = utilization.0 * m.utilization_slope_bps.0 / 10_000;
    assert(0 <= slope) by (nonlinear_arith)
        requires
            slope == utilization.0 * m.utilization_slope_bps.0 / 10_000,
            m.utilization_slope_bps.0 >= 0,
            utilization.0 >= 0,
    ;
    assert(slope % 0x1_0000_0000 == slope);
}

/// A lender that is more utilized is quoted at least the rate of a less utilized one, under the
/// same model and tier.
pub proof fn lemma_quoted_rate_grows(m: InterestModel, low: Bps, high: Bps, tier: RiskTier)
    requires
        low.0 <= high.0,
        quoted_rate_of(m, low, tier) is Ok,
        quoted_rate_of(m, high, tier) is Ok,
        high.0 * m.utilization_slope_bps.0 / 10_000 < 0x1_0000_0000,
    ensures
        quoted_rate_of(m, low, tier)->Ok_0.0 <= quoted_rate_of(m, high, tier)->Ok_0.0,
        low.0 * m.utilization_slope_bps.0 / 10_000 < high.0 * m.utilization_slope_bps.0 / 10_000
            ==> quoted_rate_of(m, low, tier)->Ok_0.0 < quoted_rate_of(m, high, tier)->Ok_0.0,
{
    let s = m.utilization_slope_bps.0 as int;
    assert(low.0 * s / 10_000 <= high.0 * s / 10_000) by (nonlinear_arith)
        requires
            0 <= low.0 <= high.0,
            s >= 0,
    {
        assert(low.0 * s <= high.0 * s);
    }
    lemma_quoted_rate(m, low, tier);
    lemma_quoted_rate(m, high, tier);
}

impl InterestModel {
    pub fn conservative() -> (r: KeystoneResult<Self>)
        ensures
            r == Ok::<InterestModel, KeystoneError>(
                InterestModel {
                    base_rate_bps: Bps(900),
                    utilization_slope_bps: Bps(1_800),
                    reserve_factor_bps: Bps(1_000),
                    overdue_penalty_bps: Bps(700),
                    epochs_per_year: 360,
                },
            ),
    {
        Ok(Self {
            base_rate_bps: Bps::strict(900)?,
            utilization_slope_bps: Bps::strict(1_800)?,
            reserve_factor_bps: Bps::strict(1_000)?,
            overdue_penalty_bps: Bps::strict(700)?,
            epochs_per_year: 360,
        })
    }

    pub fn stable() -> (r: KeystoneResult<Self>)
        ensures
            r == Ok::<InterestModel, KeystoneError>(stable_model()),
    {
        Ok(Self {
            base_rate_bps: Bps::strict(1_200)?,
            utilization_slope_bps: Bps::strict(2_400)?,
            reserve_factor_bps: Bps::strict(800)?,
            overdue_penalty_bps: Bps::strict(900)?,
            epochs_per_year: 360,
        })
    }

    pub fn quoted_rate(self, utilization_bps: Bps, risk_tier: RiskTier) -> (r: KeystoneResult<Bps>)
        ensures
            r == quoted_rate_of(self, utilization_bps, risk_tier),
    {
        let utilization_component = Amount(utilization_bps.0 as u64);
        proof {
            let u = utilization_bps.0 as int;
            let sl = self.utilization_slope_bps.0 as int;
            assert(u * sl <= u32::MAX * u32::MAX) by (nonlinear_arith)
                requires
                    0 <= u <= u32::MAX,
                    0 <= sl <= u32::MAX,
            ;
            assert(u * sl >= 0) by (nonlinear_arith)
                requires
                    0 <= u,
                    0 <= sl,
            ;
            assert(bps_floor(sl, u) <= u64::MAX);
        }
        let slope = self.utilization_slope_bps.apply_floor(utilization_component)?;
        let risk_addon: u32 = match risk_tier {
            RiskTier::Prime => 0,
            RiskTier::Standard => 150,
            RiskTier::Watch => 450,
            RiskTier::Restricted => 1_000,
        };
        self.base_rate_bps.checked_add(Bps::new((slope.0 % 0x1_0000_0000) as u32)?)?.checked_add(
            Bps::new(risk_addon)?,
        )
    }

    pub fn projected_interest(self, principal: Amount, annual_rate: Bps, tenor_epochs: u64) -> (r: KeystoneResult<Amount>)
        ensures
            r == crate::amount::annualized_ceil(
                annual_rate.0 as int,
                principal.0 as int,
                tenor_epochs as int,
                self.epochs_per_year as int,
            ),
    {
        Bps::annualized_for_epochs_ceil(annual_rate, principal, tenor_epochs, self.epochs_per_year)
    }

    pub fn accrued_interest(self, principal: Amount, annual_rate: Bps, elapsed_epochs: u64) -> (r: KeystoneResult<Amount>)
        ensures
            r == crate::amount::annualized_ceil(
                annual_rate.0 as int,
                principal.0 as int,
                elapsed_epochs as int,
                self.epochs_per_year as int,
            ),
    {
        Bps::annualized_for_epochs_ceil(annual_rate, principal, elapsed_epochs, self.epochs_per_year)
    }

    pub fn reserve_cut(self, interest: Amount) -> (r: KeystoneResult<Amount>)
        ensures
            r == amount_of(bps_floor(self.reserve_factor_bps.0 as int, interest.0 as int)),
    {
        self.reserve_factor_bps.apply_floor(interest)
    }

    pub fn lender_cut(self, interest: Amount) -> (r: KeystoneResult<Amount>)
        ensures
            bps_floor(self.reserve_factor_bps.0 as int, interest.0 as int) > u64::MAX ==> r == Err::<
                Amount,
                KeystoneError,
            >(KeystoneError::AmountOverflow),
            bps_floor(self.reserve_factor_bps.0 as int, interest.0 as int) <= u64::MAX ==> r == amount_diff(
                interest.0 as int,
                bps_floor(self.reserve_factor_bps.0 as int, interest.0 as int),
            ),
    {
        proof {
            assert(interest.0 * self.reserve_factor_bps.0 >= 0) by (nonlinear_arith);
        }
        interest.checked_sub(self.reserve_cut(interest)?)
    }
}

pub open spec fn stable_model() -> InterestModel {
    InterestModel {
        base_rate_bps: Bps(1_200),
        utilization_slope_bps: Bps(2_400),
        reserve_factor_bps: Bps(800),
        overdue_penalty_bps: Bps(900),
        epochs_per_year: 360,
    }
}

/// Collateral requirements for one tier.
#[derive(Clone, Copy, Debug, PartialEq, Eq, Structural)]
pub struct CollateralPolicy {
    pub tier: RiskTier,
    pub min_collateral_bps: Bps,
    pub maintenance_bps: Bps,
    pub release_buffer_bps: Bps,
    pub max_single_loan_bps: Bps,
}

pub open spec fn collateral_policy_of(tier: RiskTier) -> CollateralPolicy {
    CollateralPolicy {
        tier,
        min_collateral_bps: Bps(tier_min_collateral(tier)),
        maintenance_bps: Bps(tier_maintenance(tier)),
        release_buffer_bps: Bps(500),
        max_single_loan_bps: Bps(tier_max_ltv(tier)),
    }
}

/// Collateral that a partial repayment frees: what exceeds the share of the collateral that the
/// remaining principal keeps, rounded in favour of the lender.
pub open spec fn releasable_of(collateral: int, principal: int, remaining: int) -> KeystoneResult<Amount> {
    if principal == 0 || remaining >= principal {
        Ok(Amount(0))
    } else if collateral * remaining > u128::MAX {
        Err(KeystoneError::AmountOverflow)
    } else {
        match amount_of(crate::amount::div_up(collateral * remaining, principal)) {
            Err(e) => Err(e),
            Ok(retained) => amount_diff(collateral, retained.0 as int),
        }
    }
}

/// The checks that opening a loan passes: the tier admits credit, the collateral covers the
/// minimum ratio, and the principal stays within the single-loan share of the lender's value.
pub open spec fn opening_check(p: CollateralPolicy, principal: Amount, collateral: Amount, lender_nav: Amount) -> KeystoneResult<()> {
    if p.tier is Restricted {
        Err(KeystoneError::RiskTierBlocked)
    } else {
        match amount_of(bps_ceil(p.min_collateral_bps.0 as int, principal.0 as int)) {
            Err(e) => Err(e),
            Ok(required) => if collateral.0 < required.0 {
                Err(KeystoneError::InsufficientCollateral)
            } else {
                match amount_of(bps_floor(p.max_single_loan_bps.0 as int, lender_nav.0 as int)) {
                    Err(e) => Err(e),
                    Ok(max_single) => if principal.0 > max_single.0 {
                        Err(KeystoneError::LimitExceeded)
                    } else {
                        Ok(())
                    },
                }
            },
        }
    }
}

impl CollateralPolicy {
    pub fn for_tier(tier: RiskTier) -> (r: KeystoneResult<Self>)
        ensures
            r == Ok::<CollateralPolicy, KeystoneError>(collateral_policy_of(tier)),
    {
        let min_collateral_bps = match tier {
            RiskTier::Prime => Bps::new(11_800)?,
            RiskTier::Standard => Bps::new(14_500)?,
            RiskTier::Watch => Bps::new(18_000)?,
            RiskTier::Restricted => Bps::new(26_000)?,
        };
        let maintenance_bps = match tier {
            RiskTier::Prime => Bps::new(10_700)?,
            RiskTier::Standard => Bps::new(12_800)?,
            RiskTier::Watch => Bps::new(16_200)?,
            RiskTier::Restricted => Bps::new(22_000)?,
        };
        Ok(Self {
            tier,
            min_collateral_bps,
            maintenance_bps,
            release_buffer_bps: Bps::strict(500)?,
            max_single_loan_bps: tier.max_ltv()?,
        })
    }

    pub fn required_for_principal(self, principal: Amount) -> (r: KeystoneResult<Amount>)
        ensures
            r == amount_of(bps_ceil(self.min_collateral_bps.0 as int, principal.0 as int)),
    {
        self.min_collateral_bps.apply_ceil(principal)
    }

    pub fn maintenance_for_debt(self, debt: Amount) -> (r: KeystoneResult<Amount>)
        ensures
            r == amount_of(bps_ceil(self.maintenance_bps.0 as int, debt.0 as int)),
    {
        self.maintenance_bps.apply_ceil(debt)
    }

    pub fn releasable_after_repay(
        self,
        original_collateral: Amount,
        original_principal: Amount,
        remaining_principal: Amount,
    ) -> (r: KeystoneResult<Amount>)
        ensures
            r == releasable_of(original_collateral.0 as int, original_principal.0 as int, remaining_principal.0 as int),
    {
        if original_principal.is_zero() || remaining_principal.0 >= original_principal.0 {
            return Ok(Amount(0));
        }
        let retained = original_collateral.proportion_ceil(remaining_principal.0 as u128, original_principal.0 as u128)?;
        original_collateral.checked_sub(retained)
    }

    pub fn check_opening(self, principal: Amount, collateral: Amount, lender_nav: Amount) -> (r: KeystoneResult<()>)
        ensures
            r == opening_check(self, principal, collateral, lender_nav),
    {
        if !self.tier.admits_new_credit() {
            return Err(KeystoneError::RiskTierBlocked);
        }
        let required = self.required_for_principal(principal)?;
        if collateral.0 < required.0 {
            return Err(KeystoneError::InsufficientCollateral);
        }
        let max_single = self.max_single_loan_bps.apply_floor(lender_nav)?;
        if principal.0 > max_single.0 {
            return Err(KeystoneError::LimitExceeded);
        }
        Ok(())
    }
}

/// Caps on utilization, borrower leverage, registry size and the cash kept for redemptions.
#[derive(Clone, Copy, Debug, PartialEq, Eq, Structural)]
pub struct LimitPolicy {
    pub max_utilization_bps: Bps,
    pub max_borrower_debt_bps: Bps,
    pub max_vaults: usize,
    pub max_active_loans: usize,
    pub redemption_liquidity_floor_bps: Bps,
}

pub open spec fn institutional_limits() -> LimitPolicy {
    LimitPolicy {
        max_utilization_bps: Bps(8_500),
        max_borrower_debt_bps: Bps(7_500),
        max_vaults: 64,
        max_active_loans: 256,
        redemption_liquidity_floor_bps: Bps(800),
    }
}

/// `amount` stays within `rate` of `nav`, which must not be zero.
pub open spec fn cap_check(rate: Bps, amount: Amount, nav: Amount, zero_error: KeystoneError) -> KeystoneResult<()> {
    if nav.0 == 0 {
        Err(zero_error)
    } else {
        match amount_of(bps_floor(rate.0 as int, nav.0 as int)) {
            Err(e) => Err(e),
            Ok(max) => if amount.0 > max.0 {
                Err(KeystoneError::LimitExceeded)
            } else {
                Ok(())
            },
        }
    }
}

impl LimitPolicy {
    pub fn institutional() -> (r: KeystoneResult<Self>)
        ensures
            r == Ok::<LimitPolicy, KeystoneError>(institutional_limits()),
    {
        Ok(Self {
            max_utilization_bps: Bps::strict(8_500)?,
            max_borrower_debt_bps: Bps::strict(7_500)?,
            max_vaults: 64,
            max_active_loans: 256,
            redemption_liquidity_floor_bps: Bps::strict(800)?,
        })
    }

    pub fn check_utilization(self, borrowed: Amount, nav: Amount) -> (r: KeystoneResult<()>)
        ensures
            r == cap_check(self.max_utilization_bps, borrowed, nav, KeystoneError::InsufficientLiquidity),
    {
        if nav.is_zero() {
            return Err(KeystoneError::InsufficientLiquidity);
        }
        let max = self.max_utilization_bps.apply_floor(nav)?;
        if borrowed.0 > max.0 {
            return Err(KeystoneError::LimitExceeded);
        }
        Ok(())
    }

    pub fn check_borrower_debt(self, debt: Amount, nav: Amount) -> (r: KeystoneResult<()>)
        ensures
            r == cap_check(self.max_borrower_debt_bps, debt, nav, KeystoneError::InsufficientCollateral),
    {
        if nav.is_zero() {
            return Err(KeystoneError::InsufficientCollateral);
        }
        let max = self.max_borrower_debt_bps.apply_floor(nav)?;
        if debt.0 > max.0 {
            return Err(KeystoneError::LimitExceeded);
        }
        Ok(())
    }

    pub fn cash_floor(self, nav: Amount) -> (r: KeystoneResult<Amount>)
        ensures
            r == amount_of(bps_floor(self.redemption_liquidity_floor_bps.0 as int, nav.0 as int)),
    {
        self.redemption_liquidity_floor_bps.apply_floor(nav)
    }
}

pub const POLICY_DOMAIN: &'static str = "keystonexdtl-policy-v1";

/// The whole parameter set of the protocol.
#[derive(Clone, Copy, Debug, PartialEq, Eq, Structural)]
pub struct ProtocolPolicy {
    pub collateral: CollateralPolicy,
    pub interest: InterestModel,
    pub limits: LimitPolicy,
    pub liquidation_close_factor_bps: Bps,
    pub protocol_fee_bps: Bps,
}

pub open spec fn policy_for_tier(tier: RiskTier) -> ProtocolPolicy {
    ProtocolPolicy {
        collateral: collateral_policy_of(tier),
        interest: stable_model(),
        limits: institutional_limits(),
        liquidation_close_factor_bps: Bps(5_000),
        protocol_fee_bps: Bps(50),
    }
}

/// The checks for opening a loan at the protocol level: the collateral policy's checks, then the
/// borrower's leverage cap against its value (taken as at least one unit).
pub open spec fn open_loan_check(
    p: ProtocolPolicy,
    principal: Amount,
    collateral: Amount,
    lender_nav: Amount,
    borrower_debt_after: Amount,
    borrower_nav: Amount,
) -> KeystoneResult<()> {
    match opening_check(p.collateral, principal, collateral, lender_nav) {
        Err(e) => Err(e),
        Ok(_) => cap_check(
            p.limits.max_borrower_debt_bps,
            borrower_debt_after,
            if borrower_nav.0 >= 1 { borrower_nav } else { Amount(1) },
            KeystoneError::InsufficientCollateral,
        ),
    }
}

/// A loan passes the policy's opening checks only if its tier is not restricted, its collateral
/// is at least the tier's minimum ratio of the principal, the principal is at most the single-loan
/// share of the lender's net value, and the borrower's debt after the loan is at most the debt cap
/// share of the borrower's net value (counted as at least one).
pub proof fn lemma_opening_checks(
    p: ProtocolPolicy,
    principal: Amount,
    collateral: Amount,
    lender_nav: Amount,
    debt_after: Amount,
    borrower_nav: Amount,
)
    requires
        open_loan_check(p, principal, collateral, lender_nav, debt_after, borrower_nav) is Ok,
    ensures
        !(p.collateral.tier is Restricted),
        collateral.0 * 10_000 >= principal.0 * p.collateral.min_collateral_bps.0,
        principal.0 * 10_000 <= lender_nav.0 * p.collateral.max_single_loan_bps.0,
        debt_after.0 * 10_000 <= (if borrower_nav.0 >= 1 { borrower_nav.0 as int } else { 1int })
            * p.limits.max_borrower_debt_bps.0,
{
    let mc = p.collateral.min_collateral_bps.0 as int;
    let ms = p.collateral.max_single_loan_bps.0 as int;
    let md = p.limits.max_borrower_debt_bps.0 as int;
    let bn = if borrower_nav.0 >= 1 { borrower_nav.0 as int } else { 1int };
    let req = (principal.0 * mc + 9_999) / 10_000;
    assert(collateral.0 >= req);
    assert(collateral.0 * 10_000 >= principal.0 * mc) by (nonlinear_arith)
        requires
            collateral.0 >= req,
            req == (principal.0 * mc + 9_999) / 10_000,
            principal.0 * mc >= 0,
    ;
    let single = lender_nav.0 * ms / 10_000;
    assert(principal.0 <= single);
    assert(principal.0 * 10_000 <= lender_nav.0 * ms) by (nonlinear_arith)
        requires
            principal.0 <= single,
            single == lender_nav.0 * ms / 10_000,
            lender_nav.0 * ms >= 0,
    ;
    let cap = bn * md / 10_000;
    assert(debt_after.0 <= cap);
    assert(debt_after.0 * 10_000 <= bn * md) by (nonlinear_arith)
        requires
            debt_after.0 <= cap,
            cap == bn * md / 10_000,
            bn * md >= 0,
    ;
}

impl ProtocolPolicy {
    pub fn default_prime() -> (r: KeystoneResult<Self>)
        ensures
            r == Ok::<ProtocolPolicy, KeystoneError>(policy_for_tier(RiskTier::Prime)),
    {
        Ok(Self {
            collateral: CollateralPolicy::for_tier(RiskTier::Prime)?,
            interest: InterestModel::stable()?,
            limits: LimitPolicy::institutional()?,
            liquidation_close_factor_bps: Bps::strict(5_000)?,
            protocol_fee_bps: Bps::strict(50)?,
        })
    }

    pub fn for_tier(tier: RiskTier) -> (r: KeystoneResult<Self>)
        ensures
            r == Ok::<ProtocolPolicy, KeystoneError>(policy_for_tier(tier)),
    {
        Ok(Self {
            collateral: CollateralPolicy::for_tier(tier)?,
            interest: InterestModel::stable()?,
            limits: LimitPolicy::institutional()?,
            liquidation_close_factor_bps: Bps::strict(5_000)?,
            protocol_fee_bps: Bps::strict(50)?,
        })
    }

    pub fn digest(self) -> (r: KeystoneResult<Digest>)
        ensures
            r == Ok::<Digest, KeystoneError>(parts_digest(POLICY_DOMAIN, seq![json_protocol_policy(self)])),
    {
        let mut bytes: Vec<u8> = Vec::new();
        write_protocol_policy(&mut bytes, &self);
        state_digest_from_json(POLICY_DOMAIN, bytes.as_slice())
    }

    pub fn protocol_fee(self, interest: Amount) -> (r: KeystoneResult<Amount>)
        ensures
            r == amount_of(bps_floor(self.protocol_fee_bps.0 as int, interest.0 as int)),
    {
        self.protocol_fee_bps.apply_floor(interest)
    }

    pub fn distributable_interest(self, interest: Amount) -> (r: KeystoneResult<Amount>)
        ensures
            r == (match amount_of(bps_floor(self.protocol_fee_bps.0 as int, interest.0 as int)) {
                Err(e) => Err(e),
                Ok(fee) => amount_diff(interest.0 as int, fee.0 as int),
            }),
    {
        interest.checked_sub(self.protocol_fee(interest)?)
    }

    pub fn check_open_loan(
        self,
        principal: Amount,
        collateral: Amount,
        lender_nav: Amount,
        borrower_debt_after: Amount,
        borrower_nav: Amount,
    ) -> (r: KeystoneResult<()>)
        ensures
            r == open_loan_check(self, principal, collateral, lender_nav, borrower_debt_after, borrower_nav),
    {
        self.collateral.check_opening(principal, collateral, lender_nav)?;
        self.limits.check_borrower_debt(borrower_debt_after, borrower_nav.max(Amount(1)))?;
        Ok(())
    }
}

/// The parameters of a policy that reports show, with its digest.
#[derive(Clone, Debug)]
pub struct PolicySnapshot {
    pub digest: Digest,
    pub risk_tier: RiskTier,
    pub min_collateral_bps: Bps,
    pub maintenance_bps: Bps,
    pub max_utilization_bps: Bps,
    pub reserve_factor_bps: Bps,
    pub protocol_fee_bps: Bps,
}

impl PolicySnapshot {
    pub fn from_policy(policy: ProtocolPolicy) -> (r: KeystoneResult<Self>)
        ensures
            r matches Ok(snap) && snap.digest == parts_digest(POLICY_DOMAIN, seq![json_protocol_policy(policy)])
                && snap.risk_tier == policy.collateral.tier && snap.min_collateral_bps
                == policy.collateral.min_collateral_bps && snap.maintenance_bps == policy.collateral.maintenance_bps
                && snap.max_utilization_bps == policy.limits.max_utilization_bps && snap.reserve_factor_bps
                == policy.interest.reserve_factor_bps && snap.protocol_fee_bps == policy.protocol_fee_bps,
    {
        Ok(Self {
            digest: policy.digest()?,
            risk_tier: policy.collateral.tier,
            min_collateral_bps: policy.collateral.min_collateral_bps,
            maintenance_bps: policy.collateral.maintenance_bps,
            max_utilization_bps: policy.limits.max_utilization_bps,
            reserve_factor_bps: policy.interest.reserve_factor_bps,
            protocol_fee_bps: policy.protocol_fee_bps,
        })
    }
}

} // verus!
