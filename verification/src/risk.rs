use vstd::prelude::*;

use crate::amount::{amount_diff, amount_of, bps_ceil, bps_of, checked_ratio_bps, ratio_bps, Amount, Bps};
use crate::engine::{EngineSnapshot, KeystoneEngine};
use crate::error::{KeystoneError, KeystoneResult};
use crate::ids::{LoanId, VaultId};
use crate::loan::{status_terminal, LoanSnapshot, LoanStatus};
use crate::policy::ProtocolPolicy;
use crate::sums::{lemma_sum_at_most, lemma_sum_take_next, seq_sum};
use crate::time::{epoch_diff, Epoch};
use crate::vault::VaultSnapshot;

verus! {

/// How worrying an item is, from green to red; closed loans apart.
#[derive(Clone, Copy, Debug, PartialEq, Eq, Structural)]
pub enum RiskGrade {
    Green,
    Yellow,
    Orange,
    Red,
    Closed,
}

pub open spec fn grade_ordinal(g: RiskGrade) -> int {
    match g {
        RiskGrade::Green => 0,
        RiskGrade::Yellow => 1,
        RiskGrade::Orange => 2,
        RiskGrade::Red => 3,
        RiskGrade::Closed => 4,
    }
}

/// The grade of a value against three ascending thresholds.
pub open spec fn grade_of_bps(value: Bps, green: u32, yellow: u32, orange: u32) -> RiskGrade {
    if value.0 <= green {
        RiskGrade::Green
    } else if value.0 <= yellow {
        RiskGrade::Yellow
    } else if value.0 <= orange {
        RiskGrade::Orange
    } else {
        RiskGrade::Red
    }
}

impl RiskGrade {
    pub fn from_bps(value: Bps, green: u32, yellow: u32, orange: u32) -> (r: Self)
        ensures
            r == grade_of_bps(value, green, yellow, orange),
    {
        if value.0 <= green {
            RiskGrade::Green
        } else if value.0 <= yellow {
            RiskGrade::Yellow
        } else if value.0 <= orange {
            RiskGrade::Orange
        } else {
            RiskGrade::Red
        }
    }

    pub fn ordinal(self) -> (r: u8)
        ensures
            r == grade_ordinal(self),
    {
        match self {
            RiskGrade::Green => 0,
            RiskGrade::Yellow => 1,
            RiskGrade::Orange => 2,
            RiskGrade::Red => 3,
            RiskGrade::Closed => 4,
        }
    }
}

/// The risk of one vault.
#[derive(Clone, Debug, PartialEq, Eq)]
pub struct VaultRiskReport {
    pub vault: VaultId,
    pub name: String,
    pub liquidity_bps: Bps,
    pub utilization_bps: Bps,
    pub leverage_bps: Bps,
    pub collateral_buffer: Amount,
    pub grade: RiskGrade,
}

/// The risk of one loan.
#[derive(Clone, Copy, Debug, PartialEq, Eq)]
pub struct LoanRiskReport {
    pub loan: LoanId,
    pub status: LoanStatus,
    pub progress_bps: Bps,
    pub collateralization_bps: Bps,
    pub remaining_principal: Amount,
    pub remaining_interest: Amount,
    pub overdue_epochs: u64,
    pub grade: RiskGrade,
}

/// The risk of every vault and loan, with the worst grade of each kind.
#[derive(Clone, Debug, PartialEq, Eq)]
pub struct RiskDashboard {
    pub epoch: Epoch,
    pub vaults: Vec<VaultRiskReport>,
    pub loans: Vec<LoanRiskReport>,
    pub max_vault_grade: RiskGrade,
    pub max_loan_grade: RiskGrade,
}

/// A ratio of a vault measure to its value, zero for a vault of no value.
pub open spec fn value_ratio(amount: Amount, nav: Amount) -> KeystoneResult<Bps> {
    if nav.0 == 0 {
        Ok(Bps(0))
    } else {
        ratio_bps(amount.0 as int, nav.0 as int)
    }
}

/// The grade of a vault's liquidity: below five, ten and twenty percent of its value in cash.
pub open spec fn liquidity_grade(liquidity: Bps) -> RiskGrade {
    if liquidity.0 < 500 {
        RiskGrade::Red
    } else if liquidity.0 < 1_000 {
        RiskGrade::Orange
    } else if liquidity.0 < 2_000 {
        RiskGrade::Yellow
    } else {
        RiskGrade::Green
    }
}

/// The worse of two grades, the first on a tie.
pub open spec fn worse(a: RiskGrade, b: RiskGrade) -> RiskGrade {
    if grade_ordinal(b) > grade_ordinal(a) {
        b
    } else {
        a
    }
}

/// The worst of a list of grades, starting from green, the first on a tie.
pub open spec fn max_grade_of(gs: Seq<RiskGrade>) -> RiskGrade
    decreases gs.len(),
{
    if gs.len() == 0 {
        RiskGrade::Green
    } else {
        worse(max_grade_of(gs.drop_last()), gs.last())
    }
}

/// The vault risk report of a snapshot under a policy: its liquidity and leverage against its
/// value, its utilization, the collateral it locks beyond the maintenance level of its debt, and
/// the worst of the three grades.
pub open spec fn vault_risk_matches(s: VaultSnapshot, policy: ProtocolPolicy, r: KeystoneResult<VaultRiskReport>) -> bool {
    match value_ratio(s.cash, s.nav) {
        Err(e) => r == Err::<VaultRiskReport, KeystoneError>(e),
        Ok(liquidity) => match value_ratio(s.liabilities, s.nav) {
            Err(e) => r == Err::<VaultRiskReport, KeystoneError>(e),
            Ok(leverage) => match amount_of(s.debt_principal.0 + s.debt_interest_due.0) {
                Err(e) => r == Err::<VaultRiskReport, KeystoneError>(e),
                Ok(debt) => match amount_of(bps_ceil(policy.collateral.maintenance_bps.0 as int, debt.0 as int)) {
                    Err(e) => r == Err::<VaultRiskReport, KeystoneError>(e),
                    Ok(maintenance) => r matches Ok(report) && {
                        &&& report.vault == s.id
                        &&& report.name@ == s.name@
                        &&& report.liquidity_bps == liquidity
                        &&& report.utilization_bps == s.utilization_bps
                        &&& report.leverage_bps == leverage
                        &&& report.collateral_buffer == (if s.locked_collateral.0 >= maintenance.0 {
                            Amount((s.locked_collateral.0 - maintenance.0) as u64)
                        } else {
                            Amount(0)
                        })
                        &&& report.grade == max_grade_of(
                            seq![
                                liquidity_grade(liquidity),
                                grade_of_bps(s.utilization_bps, 4_000, 7_000, 8_500),
                                grade_of_bps(leverage, 3_000, 6_000, 8_000),
                            ],
                        )
                    },
                },
            },
        },
    }
}

/// A vault's grade is the worst of three: its liquidity, cash against net value (red below 500
/// bps, orange below 1,000, yellow below 2,000, green from there); its utilization (green up to
/// 4,000 bps, yellow up to 7,000, orange up to 8,500, red above); and its leverage, liabilities
/// against net value (green up to 3,000 bps, yellow up to 6,000, orange up to 8,000, red above).
/// The grade is at least as bad as each of them and is one of them.
pub proof fn lemma_vault_grade(s: VaultSnapshot, policy: ProtocolPolicy, report: VaultRiskReport)
    requires
        vault_risk_matches(s, policy, Ok(report)),
    ensures
        ({
            let liq = report.liquidity_bps.0;
            let util = report.utilization_bps.0;
            let lev = report.leverage_bps.0;
            let liq_rank = if liq < 500 { 3int } else if liq < 1_000 { 2int } else if liq < 2_000 { 1int } else { 0int };
            let util_rank = if util <= 4_000 { 0int } else if util <= 7_000 { 1int } else if util <= 8_500 { 2int } else { 3int };
            let lev_rank = if lev <= 3_000 { 0int } else if lev <= 6_000 { 1int } else if lev <= 8_000 { 2int } else { 3int };
            let g = grade_ordinal(report.grade);
            &&& g >= liq_rank && g >= util_rank && g >= lev_rank
            &&& g == liq_rank || g == util_rank || g == lev_rank
            &&& report.utilization_bps == s.utilization_bps
            &&& s.nav.0 == 0 ==> liq == 0 && lev == 0
            &&& s.nav.0 > 0 && s.cash.0 * 10_000 / (s.nav.0 as int) < 0x1_0000_0000 ==> liq == s.cash.0 * 10_000 / (s.nav.0 as int)
            &&& s.nav.0 > 0 && s.liabilities.0 * 10_000 / (s.nav.0 as int) < 0x1_0000_0000 ==> lev == s.liabilities.0 * 10_000
                / (s.nav.0 as int)
        }),
{
    let a = liquidity_grade(report.liquidity_bps);
    let b = grade_of_bps(report.utilization_bps, 4_000, 7_000, 8_500);
    let c = grade_of_bps(report.leverage_bps, 3_000, 6_000, 8_000);
    let gs = seq![a, b, c];
    assert(gs.drop_last() =~= seq![a, b]);
    assert(gs.drop_last().drop_last() =~= seq![a]);
    assert(gs.drop_last().drop_last().drop_last() =~= Seq::<RiskGrade>::empty());
    assert(seq![a].drop_last() =~= Seq::<RiskGrade>::empty());
    assert(seq![a, b].drop_last() =~= seq![a]);
    assert(max_grade_of(Seq::<RiskGrade>::empty()) == RiskGrade::Green);
    assert(max_grade_of(seq![a]) == worse(RiskGrade::Green, a));
    assert(max_grade_of(seq![a, b]) == worse(worse(RiskGrade::Green, a), b));
    assert(max_grade_of(gs) == worse(worse(worse(RiskGrade::Green, a), b), c));
    if s.nav.0 > 0 {
        let x = s.cash.0 * 10_000 / (s.nav.0 as int);
        let y = s.liabilities.0 * 10_000 / (s.nav.0 as int);
        assert(x >= 0 && y >= 0) by (nonlinear_arith)
            requires
                x == s.cash.0 * 10_000 / (s.nav.0 as int),
                y == s.liabilities.0 * 10_000 / (s.nav.0 as int),
                s.nav.0 > 0,
                s.cash.0 >= 0,
                s.liabilities.0 >= 0,
        ;
    }
}

/// A closed loan is graded closed. An open loan is red once it is past its due epoch or
/// defaulted; otherwise orange while its collateral covers its remaining debt (principal and
/// unpaid interest) by less than the maintenance ratio; otherwise yellow past 85% of its tenor;
/// otherwise green.
pub proof fn lemma_loan_grade(s: LoanSnapshot, now: Epoch, policy: ProtocolPolicy)
    requires
        loan_risk_of(s, now, policy) is Ok,
    ensures
        ({
            let r = loan_risk_of(s, now, policy)->Ok_0;
            let debt = s.remaining_principal.0 + s.scheduled_interest.0 - s.interest_paid.0;
            let m = policy.collateral.maintenance_bps.0 as int;
            &&& status_terminal(s.status) ==> r.grade == RiskGrade::Closed
            &&& !status_terminal(s.status) ==> {
                &&& r.remaining_interest.0 == s.scheduled_interest.0 - s.interest_paid.0
                &&& r.overdue_epochs == (if now.0 > s.due_epoch.0 { now.0 - s.due_epoch.0 } else { 0 })
                &&& (now.0 > s.due_epoch.0 || s.status is Defaulted) <==> r.grade == RiskGrade::Red
                &&& debt > 0 && s.collateral_locked.0 * 10_000 / debt < 0x1_0000_0000 ==> r.collateralization_bps.0
                    == s.collateral_locked.0 * 10_000 / debt
                &&& r.grade == RiskGrade::Orange <==> !(now.0 > s.due_epoch.0 || s.status is Defaulted)
                    && r.collateralization_bps.0 < m
                &&& r.grade == RiskGrade::Green ==> r.collateralization_bps.0 >= m && r.progress_bps.0 <= 8_500
            }
        }),
{
}

/// The share of a loan's tenor elapsed at an epoch, in basis points.
pub open spec fn progress_of(s: LoanSnapshot, now: Epoch) -> KeystoneResult<Bps> {
    match epoch_diff(s.maturity_epoch.0 as int, s.start_epoch.0 as int) {
        Err(e) => Err(e),
        Ok(tenor) => {
            let elapsed = if now.0 <= s.start_epoch.0 {
                0
            } else if now.0 - s.start_epoch.0 <= tenor {
                now.0 - s.start_epoch.0
            } else {
                tenor as int
            };
            if tenor == 0 {
                Ok(Bps(10_000))
            } else {
                bps_of((elapsed * 10_000 / (tenor as int)) as u32)
            }
        },
    }
}

/// The risk report of a loan at an epoch under a policy: a closed loan is complete and closed;
/// an open one is red when overdue or defaulted, orange when its collateral covers its debt less
/// than the maintenance ratio, yellow past eighty-five percent of its tenor, green otherwise.
pub open spec fn loan_risk_of(s: LoanSnapshot, now: Epoch, policy: ProtocolPolicy) -> KeystoneResult<LoanRiskReport> {
    if status_terminal(s.status) {
        Ok(
            LoanRiskReport {
                loan: s.loan,
                status: s.status,
                progress_bps: Bps(10_000),
                collateralization_bps: Bps(0),
                remaining_principal: s.remaining_principal,
                remaining_interest: Amount(0),
                overdue_epochs: 0,
                grade: RiskGrade::Closed,
            },
        )
    } else {
        match progress_of(s, now) {
            Err(e) => Err(e),
            Ok(progress) => match amount_diff(s.scheduled_interest.0 as int, s.interest_paid.0 as int) {
                Err(e) => Err(e),
                Ok(remaining_interest) => match amount_of(s.remaining_principal.0 + remaining_interest.0) {
                    Err(e) => Err(e),
                    Ok(debt) => match (if debt.0 == 0 {
                        Ok(Bps(10_000))
                    } else {
                        ratio_bps(s.collateral_locked.0 as int, debt.0 as int)
                    }) {
                        Err(e) => Err(e),
                        Ok(collateralization) => {
                            let overdue: int = if now.0 > s.due_epoch.0 { now.0 - s.due_epoch.0 } else { 0 };
                            let grade = if overdue > 0 || s.status is Defaulted {
                                RiskGrade::Red
                            } else if collateralization.0 < policy.collateral.maintenance_bps.0 {
                                RiskGrade::Orange
                            } else if progress.0 > 8_500 {
                                RiskGrade::Yellow
                            } else {
                                RiskGrade::Green
                            };
                            Ok(
                                LoanRiskReport {
                                    loan: s.loan,
                                    status: s.status,
                                    progress_bps: progress,
                                    collateralization_bps: collateralization,
                                    remaining_principal: s.remaining_principal,
                                    remaining_interest,
                                    overdue_epochs: overdue as u64,
                                    grade,
                                },
                            )
                        },
                    },
                },
            },
        }
    }
}

fn ratio_to_value(amount: Amount, nav: Amount) -> (r: KeystoneResult<Bps>)
    ensures
        r == value_ratio(amount, nav),
{
    if nav.is_zero() {
        Bps::strict(0)
    } else {
        checked_ratio_bps(amount, nav)
    }
}

fn max_grade(values: &[RiskGrade]) -> (r: RiskGrade)
    ensures
        r == max_grade_of(values@),
{
    let mut max = RiskGrade::Green;
    let mut i: usize = 0;
    while i < values.len()
        invariant
            0 <= i <= values@.len(),
            max == max_grade_of(values@.take(i as int)),
        decreases values@.len() - i,
    {
        assert(values@.take(i as int + 1).drop_last() =~= values@.take(i as int));
        let value = values[i];
        if value.ordinal() > max.ordinal() {
            max = value;
        }
        i = i + 1;
    }
    assert(values@.take(values@.len() as int) =~= values@);
    max
}

impl VaultRiskReport {
    pub fn from_snapshot(snapshot: &VaultSnapshot, policy: ProtocolPolicy) -> (r: KeystoneResult<Self>)
        ensures
            vault_risk_matches(*snapshot, policy, r),
    {
        let liquidity_bps = ratio_to_value(snapshot.cash, snapshot.nav)?;
        let utilization_bps = snapshot.utilization_bps;
        let leverage_bps = ratio_to_value(snapshot.liabilities, snapshot.nav)?;
        let maintenance = policy.collateral.maintenance_for_debt(
            snapshot.debt_principal.checked_add(snapshot.debt_interest_due)?,
        )?;
        let collateral_buffer = snapshot.locked_collateral.saturating_sub(maintenance);
        let liquidity_grade = if liquidity_bps.0 < 500 {
            RiskGrade::Red
        } else if liquidity_bps.0 < 1_000 {
            RiskGrade::Orange
        } else if liquidity_bps.0 < 2_000 {
            RiskGrade::Yellow
        } else {
            RiskGrade::Green
        };
        let utilization_grade = RiskGrade::from_bps(utilization_bps, 4_000, 7_000, 8_500);
        let leverage_grade = RiskGrade::from_bps(leverage_bps, 3_000, 6_000, 8_000);
        let grades = [liquidity_grade, utilization_grade, leverage_grade];
        assert(grades@ =~= seq![liquidity_grade, utilization_grade, leverage_grade]);
        let grade = max_grade(grades.as_slice());
        Ok(Self {
            vault: snapshot.id,
            name: snapshot.name.clone(),
            liquidity_bps,
            utilization_bps,
            leverage_bps,
            collateral_buffer,
            grade,
        })
    }
}

fn progress(snapshot: &LoanSnapshot, now: Epoch) -> (r: KeystoneResult<Bps>)
    ensures
        r == progress_of(*snapshot, now),
{
    let tenor = snapshot.maturity_epoch.checked_sub(snapshot.start_epoch)?;
    let elapsed = if now.0 <= snapshot.start_epoch.0 {
        0
    } else {
        let since = now.checked_sub(snapshot.start_epoch)?;
        if since <= tenor {
            since
        } else {
            tenor
        }
    };
    if tenor == 0 {
        return Bps::strict(10_000);
    }
    assert(elapsed * 10_000 <= tenor * 10_000) by (nonlinear_arith)
        requires
            elapsed <= tenor,
    ;
    assert(elapsed * 10_000 / (tenor as int) <= 10_000) by (nonlinear_arith)
        requires
            elapsed * 10_000 <= tenor * 10_000,
            tenor > 0,
    ;
    let value = (elapsed as u128) * 10_000 / (tenor as u128);
    Bps::new(value as u32)
}

impl LoanRiskReport {
    pub fn from_snapshot(snapshot: &LoanSnapshot, now: Epoch, policy: ProtocolPolicy) -> (r: KeystoneResult<Self>)
        ensures
            r == loan_risk_of(*snapshot, now, policy),
    {
        if snapshot.status.is_terminal() {
            return Ok(Self {
                loan: snapshot.loan,
                status: snapshot.status,
                progress_bps: Bps::strict(10_000)?,
                collateralization_bps: Bps::strict(0)?,
                remaining_principal: snapshot.remaining_principal,
                remaining_interest: Amount(0),
                overdue_epochs: 0,
                grade: RiskGrade::Closed,
            });
        }
        let progress_bps = progress(snapshot, now)?;
        let remaining_interest = snapshot.scheduled_interest.checked_sub(snapshot.interest_paid)?;
        let debt = snapshot.remaining_principal.checked_add(remaining_interest)?;
        let collateralization_bps = if debt.is_zero() {
            Bps::strict(10_000)?
        } else {
            checked_ratio_bps(snapshot.collateral_locked, debt)?
        };
        let overdue_epochs = if now.0 > snapshot.due_epoch.0 {
            now.checked_sub(snapshot.due_epoch)?
        } else {
            0
        };
        let defaulted = match snapshot.status {
            LoanStatus::Defaulted => true,
            _ => false,
        };
        let grade = if overdue_epochs > 0 || defaulted {
            RiskGrade::Red
        } else if collateralization_bps.0 < policy.collateral.maintenance_bps.0 {
            RiskGrade::Orange
        } else if progress_bps.0 > 8_500 {
            RiskGrade::Yellow
        } else {
            RiskGrade::Green
        };
        Ok(Self {
            loan: snapshot.loan,
            status: snapshot.status,
            progress_bps,
            collateralization_bps,
            remaining_principal: snapshot.remaining_principal,
            remaining_interest,
            overdue_epochs,
            grade,
        })
    }
}

/// The first vault snapshot, in order, whose risk report fails, and why.
pub open spec fn vault_risk_error(vs: Seq<VaultSnapshot>, policy: ProtocolPolicy) -> Option<KeystoneError>
    decreases vs.len(),
{
    if vs.len() == 0 {
        None
    } else {
        match vault_risk_error(vs.drop_last(), policy) {
            Some(e) => Some(e),
            None => if exists|e: KeystoneError|
                vault_risk_matches(vs.last(), policy, Err::<VaultRiskReport, KeystoneError>(e)) {
                Some(choose|e: KeystoneError| vault_risk_matches(vs.last(), policy, Err::<VaultRiskReport, KeystoneError>(e)))
            } else {
                None
            },
        }
    }
}

/// The risk reports of the loans in order, or the first error.
pub open spec fn loan_risks_of(ls: Seq<LoanSnapshot>, now: Epoch, policy: ProtocolPolicy) -> KeystoneResult<Seq<LoanRiskReport>>
    decreases ls.len(),
{
    if ls.len() == 0 {
        Ok(Seq::empty())
    } else {
        match loan_risks_of(ls.drop_last(), now, policy) {
            Err(e) => Err(e),
            Ok(prefix) => match loan_risk_of(ls.last(), now, policy) {
                Err(e) => Err(e),
                Ok(report) => Ok(prefix.push(report)),
            },
        }
    }
}

/// The grades of a list of loan risk reports.
pub open spec fn loan_grades(rs: Seq<LoanRiskReport>) -> Seq<RiskGrade> {
    rs.map_values(|r: LoanRiskReport| r.grade)
}

/// The grades of a list of vault risk reports.
pub open spec fn vault_grades(rs: Seq<VaultRiskReport>) -> Seq<RiskGrade> {
    rs.map_values(|r: VaultRiskReport| r.grade)
}

/// The dashboard of a snapshot under a policy: every vault's report, then every loan's at the
/// snapshot's epoch, and the worst grades; or the first error among the vaults, then the loans.
pub open spec fn dashboard_of(s: EngineSnapshot, policy: ProtocolPolicy, r: KeystoneResult<RiskDashboard>) -> bool {
    match vault_risk_error(s.vaults@, policy) {
        Some(e) => r == Err::<RiskDashboard, KeystoneError>(e),
        None => match loan_risks_of(s.loans@, s.epoch, policy) {
            Err(e) => r == Err::<RiskDashboard, KeystoneError>(e),
            Ok(loans) => r matches Ok(d) && {
                &&& d.epoch == s.epoch
                &&& d.vaults@.len() == s.vaults@.len()
                &&& forall|i: int|
                    0 <= i < s.vaults@.len() ==> vault_risk_matches(
                        s.vaults@[i],
                        policy,
                        Ok::<VaultRiskReport, KeystoneError>(#[trigger] d.vaults@[i]),
                    )
                &&& d.loans@ == loans
                &&& d.max_vault_grade == max_grade_of(vault_grades(d.vaults@))
                &&& d.max_loan_grade == max_grade_of(loan_grades(loans))
            },
        },
    }
}

/// The number of red reports.
pub open spec fn red_count(vs: Seq<VaultRiskReport>, ls: Seq<LoanRiskReport>) -> int {
    seq_sum(vs, |r: VaultRiskReport| if r.grade == RiskGrade::Red { 1int } else { 0int }) + seq_sum(
        ls,
        |r: LoanRiskReport| if r.grade == RiskGrade::Red { 1int } else { 0int },
    )
}

impl RiskDashboard {
    pub fn from_snapshot(snapshot: &EngineSnapshot, policy: ProtocolPolicy) -> (r: KeystoneResult<Self>)
        ensures
            dashboard_of(*snapshot, policy, r),
    {
        let ghost vs = snapshot.vaults@;
        let ghost ls = snapshot.loans@;
        let mut vaults: Vec<VaultRiskReport> = Vec::new();
        let mut vault_grade_list: Vec<RiskGrade> = Vec::new();
        let mut i: usize = 0;
        while i < snapshot.vaults.len()
            invariant
                vs == snapshot.vaults@,
                0 <= i <= vs.len(),
                vault_risk_error(vs.take(i as int), policy) is None,
                vaults@.len() == i,
                vault_grade_list@ == vault_grades(vaults@),
                forall|j: int| 0 <= j < i ==> vault_risk_matches(vs[j], policy, Ok::<VaultRiskReport, KeystoneError>(#[trigger] vaults@[j])),
            decreases vs.len() - i,
        {
            assert(vs.take(i as int + 1).drop_last() =~= vs.take(i as int));
            let report = VaultRiskReport::from_snapshot(&snapshot.vaults[i], policy);
            match report {
                Ok(report) => {
                    vault_grade_list.push(report.grade);
                    vaults.push(report);
                    assert(vault_grade_list@ =~= vault_grades(vaults@));
                },
                Err(e) => {
                    proof {
                        let next = vs.take(i as int + 1);
                        assert(next.last() == vs[i as int]);
                        assert(vault_risk_matches(next.last(), policy, Err::<VaultRiskReport, KeystoneError>(e)));
                        let c = choose|c: KeystoneError| vault_risk_matches(next.last(), policy, Err::<VaultRiskReport, KeystoneError>(c));
                        assert(vault_risk_matches(next.last(), policy, Err::<VaultRiskReport, KeystoneError>(c)));
                        assert(c == e);
                        assert(vault_risk_error(next, policy) == Some(e));
                        Self::lemma_vault_error_persists(vs, i as int + 1, policy);
                        assert(vault_risk_error(snapshot.vaults@, policy) == Some(e));
                    }
                    return Err(e);
                },
            }
            i = i + 1;
        }
        assert(vs.take(vs.len() as int) =~= vs);
        let mut loans: Vec<LoanRiskReport> = Vec::new();
        let mut loan_grade_list: Vec<RiskGrade> = Vec::new();
        let mut k: usize = 0;
        while k < snapshot.loans.len()
            invariant
                ls == snapshot.loans@,
                vs == snapshot.vaults@,
                vault_risk_error(vs, policy) is None,
                vaults@.len() == vs.len(),
                vault_grade_list@ == vault_grades(vaults@),
                forall|j: int| 0 <= j < vs.len() ==> vault_risk_matches(vs[j], policy, Ok::<VaultRiskReport, KeystoneError>(#[trigger] vaults@[j])),
                0 <= k <= ls.len(),
                loan_risks_of(ls.take(k as int), snapshot.epoch, policy) == Ok::<Seq<LoanRiskReport>, KeystoneError>(loans@),
                loan_grade_list@ == loan_grades(loans@),
            decreases ls.len() - k,
        {
            assert(ls.take(k as int + 1).drop_last() =~= ls.take(k as int));
            let report = LoanRiskReport::from_snapshot(&snapshot.loans[k], snapshot.epoch, policy);
            match report {
                Ok(report) => {
                    loan_grade_list.push(report.grade);
                    loans.push(report);
                    assert(loan_grade_list@ =~= loan_grades(loans@));
                },
                Err(e) => {
                    proof {
                        Self::lemma_loan_error_persists(ls, k as int + 1, snapshot.epoch, policy);
                    }
                    return Err(e);
                },
            }
            k = k + 1;
        }
        assert(ls.take(ls.len() as int) =~= ls);
        let max_vault_grade = max_grade(vault_grade_list.as_slice());
        let max_loan_grade = max_grade(loan_grade_list.as_slice());
        Ok(Self { epoch: snapshot.epoch, vaults, loans, max_vault_grade, max_loan_grade })
    }

    proof fn lemma_vault_error_persists(vs: Seq<VaultSnapshot>, i: int, policy: ProtocolPolicy)
        requires
            0 < i <= vs.len(),
            vault_risk_error(vs.take(i), policy) is Some,
        ensures
            vault_risk_error(vs, policy) == vault_risk_error(vs.take(i), policy),
        decreases vs.len() - i,
    {
        if i < vs.len() {
            assert(vs.take(i + 1).drop_last() =~= vs.take(i));
            Self::lemma_vault_error_persists(vs, i + 1, policy);
        } else {
            assert(vs.take(i) =~= vs);
        }
    }

    proof fn lemma_loan_error_persists(ls: Seq<LoanSnapshot>, i: int, now: Epoch, policy: ProtocolPolicy)
        requires
            0 < i <= ls.len(),
            loan_risks_of(ls.take(i), now, policy) is Err,
        ensures
            loan_risks_of(ls, now, policy) == loan_risks_of(ls.take(i), now, policy),
        decreases ls.len() - i,
    {
        if i < ls.len() {
            assert(ls.take(i + 1).drop_last() =~= ls.take(i));
            Self::lemma_loan_error_persists(ls, i + 1, now, policy);
        } else {
            assert(ls.take(i) =~= ls);
        }
    }

    pub fn from_engine(engine: &KeystoneEngine) -> (r: KeystoneResult<Self>)
        requires
            engine.wf(),
        ensures
            engine.snapshot_error() matches Some(e) ==> r == Err::<RiskDashboard, KeystoneError>(e),
            engine.snapshot_error() is None ==> exists|s: EngineSnapshot|
                engine.snapshot_is(s) && dashboard_of(s, engine.spec_policy(), r),
    {
        let snapshot = engine.snapshot()?;
        Self::from_snapshot(&snapshot, engine.policy())
    }

    pub fn red_items(&self) -> (r: usize)
        requires
            self.vaults@.len() + self.loans@.len() <= usize::MAX,
        ensures
            r == red_count(self.vaults@, self.loans@),
    {
        let mut count: usize = 0;
        let mut i: usize = 0;
        while i < self.vaults.len()
            invariant
                0 <= i <= self.vaults@.len(),
                count == seq_sum(self.vaults@.take(i as int), |r: VaultRiskReport| if r.grade == RiskGrade::Red { 1int } else { 0int }),
                count <= i,
            decreases self.vaults@.len() - i,
        {
            proof {
                lemma_sum_take_next(self.vaults@, i as int, |r: VaultRiskReport| if r.grade == RiskGrade::Red { 1int } else { 0int });
            }
            if self.vaults[i].grade == RiskGrade::Red {
                count = count + 1;
            }
            i = i + 1;
        }
        assert(self.vaults@.take(self.vaults@.len() as int) =~= self.vaults@);
        let mut k: usize = 0;
        let mut loan_count: usize = 0;
        while k < self.loans.len()
            invariant
                0 <= k <= self.loans@.len(),
                loan_count == seq_sum(self.loans@.take(k as int), |r: LoanRiskReport| if r.grade == RiskGrade::Red { 1int } else { 0int }),
                loan_count <= k,
            decreases self.loans@.len() - k,
        {
            proof {
                lemma_sum_take_next(self.loans@, k as int, |r: LoanRiskReport| if r.grade == RiskGrade::Red { 1int } else { 0int });
            }
            if self.loans[k].grade == RiskGrade::Red {
                loan_count = loan_count + 1;
            }
            k = k + 1;
        }
        assert(self.loans@.take(self.loans@.len() as int) =~= self.loans@);
        count + loan_count
    }

    pub fn loan(&self, loan: LoanId) -> (r: Option<&LoanRiskReport>)
        ensures
            r is None <==> forall|i: int| 0 <= i < self.loans@.len() ==> (#[trigger] self.loans@[i]).loan != loan,
            r matches Some(x) ==> exists|i: int|
                0 <= i < self.loans@.len() && *x == self.loans@[i] && x.loan == loan && forall|j: int|
                    0 <= j < i ==> (#[trigger] self.loans@[j]).loan != loan,
    {
        let mut i: usize = 0;
        while i < self.loans.len()
            invariant
                0 <= i <= self.loans@.len(),
                forall|j: int| 0 <= j < i ==> (#[trigger] self.loans@[j]).loan != loan,
            decreases self.loans@.len() - i,
        {
            if self.loans[i].loan == loan {
                return Some(&self.loans[i]);
            }
            i = i + 1;
        }
        None
    }

    pub fn vault(&self, vault: VaultId) -> (r: Option<&VaultRiskReport>)
        ensures
            r is None <==> forall|i: int| 0 <= i < self.vaults@.len() ==> (#[trigger] self.vaults@[i]).vault != vault,
            r matches Some(x) ==> exists|i: int|
                0 <= i < self.vaults@.len() && *x == self.vaults@[i] && x.vault == vault && forall|j: int|
                    0 <= j < i ==> (#[trigger] self.vaults@[j]).vault != vault,
    {
        let mut i: usize = 0;
        while i < self.vaults.len()
            invariant
                0 <= i <= self.vaults@.len(),
                forall|j: int| 0 <= j < i ==> (#[trigger] self.vaults@[j]).vault != vault,
            decreases self.vaults@.len() - i,
        {
            if self.vaults[i].vault == vault {
                return Some(&self.vaults[i]);
            }
            i = i + 1;
        }
        None
    }

    pub fn assert_no_red(&self) -> (r: KeystoneResult<()>)
        requires
            self.vaults@.len() + self.loans@.len() <= usize::MAX,
        ensures
            red_count(self.vaults@, self.loans@) == 0 ==> r is Ok,
            red_count(self.vaults@, self.loans@) > 0 ==> (r matches Err(KeystoneError::Invariant(m)) && m@
                == "risk dashboard contains red items"@),
    {
        if self.red_items() > 0 {
            return Err(KeystoneError::invariant_violation("risk dashboard contains red items"));
        }
        Ok(())
    }
}

/// The mean utilization of a list of vault reports, rounded down; zero for none.
pub open spec fn mean_utilization(vs: Seq<VaultRiskReport>) -> KeystoneResult<Bps> {
    if vs.len() == 0 {
        Ok(Bps(0))
    } else {
        bps_of(((seq_sum(vs, |v: VaultRiskReport| v.utilization_bps.0 as int) / (vs.len() as int)) % 0x1_0000_0000) as u32)
    }
}

pub fn weighted_average_utilization(vaults: &[VaultRiskReport]) -> (r: KeystoneResult<Bps>)
    ensures
        r == mean_utilization(vaults@),
{
    if vaults.len() == 0 {
        return Bps::strict(0);
    }
    let mut sum: u128 = 0;
    let mut i: usize = 0;
    while i < vaults.len()
        invariant
            0 <= i <= vaults@.len(),
            sum == seq_sum(vaults@.take(i as int), |v: VaultRiskReport| v.utilization_bps.0 as int),
        decreases vaults@.len() - i,
    {
        proof {
            lemma_sum_take_next(vaults@, i as int, |v: VaultRiskReport| v.utilization_bps.0 as int);
            lemma_sum_at_most(vaults@.take(i as int), |v: VaultRiskReport| v.utilization_bps.0 as int, u32::MAX as int);
            assert(u32::MAX * i <= u32::MAX * usize::MAX) by (nonlinear_arith)
                requires
                    i <= usize::MAX,
            ;
        }
        sum = sum + vaults[i].utilization_bps.0 as u128;
        i = i + 1;
    }
    assert(vaults@.take(vaults@.len() as int) =~= vaults@);
    Bps::new(((sum / vaults.len() as u128) % 0x1_0000_0000) as u32)
}

/// The number of grades of each ordinal in a list.
pub open spec fn grade_count(gs: Seq<RiskGrade>, ordinal: int) -> int {
    seq_sum(gs, |g: RiskGrade| if grade_ordinal(g) == ordinal { 1int } else { 0int })
}

/// Counts the items of each grade, as `grade_of` grades them, by the grade's ordinal.
pub fn count_by_grade<T, F: Fn(&T) -> RiskGrade>(items: &[T], grade_of: F) -> (r: [usize; 5])
    requires
        forall|i: int| 0 <= i < items@.len() ==> call_requires(grade_of, (&items@[i],)),
    ensures
        exists|gs: Seq<RiskGrade>|
            gs.len() == items@.len() && (forall|i: int| 0 <= i < gs.len() ==> call_ensures(grade_of, (&items@[i],), #[trigger] gs[i]))
                && forall|o: int| 0 <= o < 5 ==> #[trigger] r@[o] == grade_count(gs, o),
{
    let mut c0: usize = 0;
    let mut c1: usize = 0;
    let mut c2: usize = 0;
    let mut c3: usize = 0;
    let mut c4: usize = 0;
    let ghost mut gs: Seq<RiskGrade> = Seq::empty();
    let mut i: usize = 0;
    while i < items.len()
        invariant
            0 <= i <= items@.len(),
            forall|j: int| 0 <= j < items@.len() ==> call_requires(grade_of, (&items@[j],)),
            gs.len() == i,
            forall|j: int| 0 <= j < i ==> call_ensures(grade_of, (&items@[j],), #[trigger] gs[j]),
            c0 == grade_count(gs, 0),
            c1 == grade_count(gs, 1),
            c2 == grade_count(gs, 2),
            c3 == grade_count(gs, 3),
            c4 == grade_count(gs, 4),
            c0 <= i && c1 <= i && c2 <= i && c3 <= i && c4 <= i,
        decreases items@.len() - i,
    {
        let grade = grade_of(&items[i]);
        proof {
            let next = gs.push(grade);
            assert(next.drop_last() =~= gs);
            gs = next;
        }
        match grade {
            RiskGrade::Green => {
                c0 = c0 + 1;
            },
            RiskGrade::Yellow => {
                c1 = c1 + 1;
            },
            RiskGrade::Orange => {
                c2 = c2 + 1;
            },
            RiskGrade::Red => {
                c3 = c3 + 1;
            },
            RiskGrade::Closed => {
                c4 = c4 + 1;
            },
        }
        i = i + 1;
    }
    let r = [c0, c1, c2, c3, c4];
    assert(r@ =~= seq![c0, c1, c2, c3, c4]);
    r
}

} // verus!
