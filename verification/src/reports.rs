use vstd::prelude::*;
use vstd::string::StringExecFns;

use crate::amount::{Amount, Bps, Shares};
use crate::engine::{EngineSnapshot, KeystoneEngine};
use crate::error::{KeystoneError, KeystoneResult};
use crate::events::{Event, EventKind};
use crate::ids::{AccountId, AssetId, Digest, LoanId, TxId, VaultId};
use crate::loan::{LoanSnapshot, LoanStatus};
use crate::sums::seq_sum;
use crate::time::Epoch;
use crate::vault::{VaultRole, VaultSnapshot};

verus! {

/// A vault as a report shows it.
#[derive(Clone, Debug)]
pub struct VaultReport {
    pub id: VaultId,
    pub name: String,
    pub role: VaultRole,
    pub cash: Amount,
    pub shares: Shares,
    pub nav: Amount,
    pub gross_assets: Amount,
    pub liabilities: Amount,
    pub outstanding_principal: Amount,
    pub expected_interest: Amount,
    pub realized_interest: Amount,
    pub debt_principal: Amount,
    pub debt_interest_due: Amount,
    pub locked_collateral: Amount,
    pub distributed_interest: Amount,
    pub utilization_bps: Bps,
    pub holder_count: usize,
}

/// A loan as a report shows it.
#[derive(Clone, Copy, Debug)]
pub struct LoanReport {
    pub id: LoanId,
    pub lender: VaultId,
    pub borrower: VaultId,
    pub status: LoanStatus,
    pub principal: Amount,
    pub remaining_principal: Amount,
    pub scheduled_interest: Amount,
    pub interest_paid: Amount,
    pub collateral_locked: Amount,
    pub collateral_released: Amount,
    pub start_epoch: Epoch,
    pub maturity_epoch: Epoch,
    pub due_epoch: Epoch,
    pub annual_rate_bps: Bps,
}

/// The balances of all vaults added up.
#[derive(Clone, Copy, Debug, PartialEq, Eq, Structural)]
pub struct TotalsReport {
    pub cash: Amount,
    pub locked_collateral: Amount,
    pub outstanding_principal: Amount,
    pub expected_interest: Amount,
    pub realized_interest: Amount,
    pub debt_principal: Amount,
    pub debt_interest_due: Amount,
    pub distributed_interest: Amount,
    pub nav: Amount,
}

/// The state of an engine as a report shows it: vaults and loans in identity order.
#[derive(Clone, Debug)]
pub struct EngineReport {
    pub network_id: u32,
    pub epoch: Epoch,
    pub asset: AssetId,
    pub state_digest: Digest,
    pub policy_digest: Digest,
    pub journal_digest: Digest,
    pub vaults: Vec<VaultReport>,
    pub loans: Vec<LoanReport>,
    pub totals: TotalsReport,
    pub event_count: usize,
    pub conservation_ok: bool,
}

/// One step of a scenario.
#[derive(Clone, Debug)]
pub struct OperationReport {
    pub name: String,
    pub tx: Option<TxId>,
    pub loan: Option<LoanId>,
    pub vault: Option<VaultId>,
    pub amount: Option<Amount>,
    pub shares: Option<Shares>,
}

/// What a scenario did and where it left the engine; aliases in name order.
#[derive(Clone, Debug)]
pub struct ScenarioReport {
    pub scenario: String,
    pub engine: EngineReport,
    pub vault_aliases: Vec<(String, VaultId)>,
    pub account_aliases: Vec<(String, AccountId)>,
    pub operations: Vec<OperationReport>,
    pub events: Vec<Event>,
}

/// The report of a vault snapshot.
pub open spec fn vault_report_of(s: VaultSnapshot, r: VaultReport) -> bool {
    &&& r.id == s.id
    &&& r.name@ == s.name@
    &&& r.role == s.role
    &&& r.cash == s.cash
    &&& r.shares == s.share_supply
    &&& r.nav == s.nav
    &&& r.gross_assets == s.gross_assets
    &&& r.liabilities == s.liabilities
    &&& r.outstanding_principal == s.outstanding_principal
    &&& r.expected_interest == s.expected_interest
    &&& r.realized_interest == s.realized_interest
    &&& r.debt_principal == s.debt_principal
    &&& r.debt_interest_due == s.debt_interest_due
    &&& r.locked_collateral == s.locked_collateral
    &&& r.distributed_interest == s.distributed_interest
    &&& r.utilization_bps == s.utilization_bps
    &&& r.holder_count == s.holder_count
}

/// The report of a loan snapshot.
pub open spec fn loan_report_of(s: LoanSnapshot) -> LoanReport {
    LoanReport {
        id: s.loan,
        lender: s.lender,
        borrower: s.borrower,
        status: s.status,
        principal: s.principal,
        remaining_principal: s.remaining_principal,
        scheduled_interest: s.scheduled_interest,
        interest_paid: s.interest_paid,
        collateral_locked: s.collateral_locked,
        collateral_released: s.collateral_released,
        start_epoch: s.start_epoch,
        maturity_epoch: s.maturity_epoch,
        due_epoch: s.due_epoch,
        annual_rate_bps: s.annual_rate_bps,
    }
}

impl VaultReport {
    pub fn from_snapshot(snapshot: VaultSnapshot) -> (r: Self)
        ensures
            vault_report_of(snapshot, r),
    {
        Self {
            id: snapshot.id,
            name: snapshot.name,
            role: snapshot.role,
            cash: snapshot.cash,
            shares: snapshot.share_supply,
            nav: snapshot.nav,
            gross_assets: snapshot.gross_assets,
            liabilities: snapshot.liabilities,
            outstanding_principal: snapshot.outstanding_principal,
            expected_interest: snapshot.expected_interest,
            realized_interest: snapshot.realized_interest,
            debt_principal: snapshot.debt_principal,
            debt_interest_due: snapshot.debt_interest_due,
            locked_collateral: snapshot.locked_collateral,
            distributed_interest: snapshot.distributed_interest,
            utilization_bps: snapshot.utilization_bps,
            holder_count: snapshot.holder_count,
        }
    }
}

impl LoanReport {
    pub fn from_snapshot(snapshot: LoanSnapshot) -> (r: Self)
        ensures
            r == loan_report_of(snapshot),
    {
        Self {
            id: snapshot.loan,
            lender: snapshot.lender,
            borrower: snapshot.borrower,
            status: snapshot.status,
            principal: snapshot.principal,
            remaining_principal: snapshot.remaining_principal,
            scheduled_interest: snapshot.scheduled_interest,
            interest_paid: snapshot.interest_paid,
            collateral_locked: snapshot.collateral_locked,
            collateral_released: snapshot.collateral_released,
            start_epoch: snapshot.start_epoch,
            maturity_epoch: snapshot.maturity_epoch,
            due_epoch: snapshot.due_epoch,
            annual_rate_bps: snapshot.annual_rate_bps,
        }
    }
}

/// Totals that are all zero.
pub open spec fn zero_totals() -> TotalsReport {
    TotalsReport {
        cash: Amount(0),
        locked_collateral: Amount(0),
        outstanding_principal: Amount(0),
        expected_interest: Amount(0),
        realized_interest: Amount(0),
        debt_principal: Amount(0),
        debt_interest_due: Amount(0),
        distributed_interest: Amount(0),
        nav: Amount(0),
    }
}

impl Default for TotalsReport {
    fn default() -> (r: Self)
        ensures
            r == zero_totals(),
    {
        TotalsReport {
            cash: Amount(0),
            locked_collateral: Amount(0),
            outstanding_principal: Amount(0),
            expected_interest: Amount(0),
            realized_interest: Amount(0),
            debt_principal: Amount(0),
            debt_interest_due: Amount(0),
            distributed_interest: Amount(0),
            nav: Amount(0),
        }
    }
}

/// The totals with the first `n` of a vault report's balances added, in the order cash, locked
/// collateral, outstanding principal, expected and realized interest, borrowed principal and
/// interest, distributed interest and value.
pub open spec fn totals_with(t: TotalsReport, v: VaultReport, n: int) -> TotalsReport {
    TotalsReport {
        cash: if n > 0 { Amount((t.cash.0 + v.cash.0) as u64) } else { t.cash },
        locked_collateral: if n > 1 { Amount((t.locked_collateral.0 + v.locked_collateral.0) as u64) } else { t.locked_collateral },
        outstanding_principal: if n > 2 { Amount((t.outstanding_principal.0 + v.outstanding_principal.0) as u64) } else { t.outstanding_principal },
        expected_interest: if n > 3 { Amount((t.expected_interest.0 + v.expected_interest.0) as u64) } else { t.expected_interest },
        realized_interest: if n > 4 { Amount((t.realized_interest.0 + v.realized_interest.0) as u64) } else { t.realized_interest },
        debt_principal: if n > 5 { Amount((t.debt_principal.0 + v.debt_principal.0) as u64) } else { t.debt_principal },
        debt_interest_due: if n > 6 { Amount((t.debt_interest_due.0 + v.debt_interest_due.0) as u64) } else { t.debt_interest_due },
        distributed_interest: if n > 7 { Amount((t.distributed_interest.0 + v.distributed_interest.0) as u64) } else { t.distributed_interest },
        nav: if n > 8 { Amount((t.nav.0 + v.nav.0) as u64) } else { t.nav },
    }
}

/// Adding a vault report to the totals: the first total that overflows stops the others, and
/// what was added before it stays.
pub open spec fn add_report_outcome(t: TotalsReport, v: VaultReport) -> (KeystoneResult<()>, TotalsReport) {
    if t.cash.0 + v.cash.0 > u64::MAX {
        (Err(KeystoneError::AmountOverflow), totals_with(t, v, 0))
    } else if t.locked_collateral.0 + v.locked_collateral.0 > u64::MAX {
        (Err(KeystoneError::AmountOverflow), totals_with(t, v, 1))
    } else if t.outstanding_principal.0 + v.outstanding_principal.0 > u64::MAX {
        (Err(KeystoneError::AmountOverflow), totals_with(t, v, 2))
    } else if t.expected_interest.0 + v.expected_interest.0 > u64::MAX {
        (Err(KeystoneError::AmountOverflow), totals_with(t, v, 3))
    } else if t.realized_interest.0 + v.realized_interest.0 > u64::MAX {
        (Err(KeystoneError::AmountOverflow), totals_with(t, v, 4))
    } else if t.debt_principal.0 + v.debt_principal.0 > u64::MAX {
        (Err(KeystoneError::AmountOverflow), totals_with(t, v, 5))
    } else if t.debt_interest_due.0 + v.debt_interest_due.0 > u64::MAX {
        (Err(KeystoneError::AmountOverflow), totals_with(t, v, 6))
    } else if t.distributed_interest.0 + v.distributed_interest.0 > u64::MAX {
        (Err(KeystoneError::AmountOverflow), totals_with(t, v, 7))
    } else if t.nav.0 + v.nav.0 > u64::MAX {
        (Err(KeystoneError::AmountOverflow), totals_with(t, v, 8))
    } else {
        (Ok(()), totals_with(t, v, 9))
    }
}

impl TotalsReport {
    pub fn add_vault(&mut self, vault: &VaultReport) -> (r: KeystoneResult<()>)
        ensures
            (r, *final(self)) == add_report_outcome(*old(self), *vault),
    {
        self.cash = self.cash.checked_add(vault.cash)?;
        self.locked_collateral = self.locked_collateral.checked_add(vault.locked_collateral)?;
        self.outstanding_principal = self.outstanding_principal.checked_add(vault.outstanding_principal)?;
        self.expected_interest = self.expected_interest.checked_add(vault.expected_interest)?;
        self.realized_interest = self.realized_interest.checked_add(vault.realized_interest)?;
        self.debt_principal = self.debt_principal.checked_add(vault.debt_principal)?;
        self.debt_interest_due = self.debt_interest_due.checked_add(vault.debt_interest_due)?;
        self.distributed_interest = self.distributed_interest.checked_add(vault.distributed_interest)?;
        self.nav = self.nav.checked_add(vault.nav)?;
        Ok(())
    }
}

/// The totals of the vault reports of a list of snapshots, or the first overflow. Only the
/// snapshots' balances count, and each report carries them unchanged.
pub open spec fn totals_of(vs: Seq<VaultSnapshot>) -> KeystoneResult<TotalsReport>
    decreases vs.len(),
{
    if vs.len() == 0 {
        Ok(zero_totals())
    } else {
        match totals_of(vs.drop_last()) {
            Err(e) => Err(e),
            Ok(t) => {
                let s = vs.last();
                let added = add_snapshot_outcome(t, s);
                if added.0 is Err {
                    Err(added.0->Err_0)
                } else {
                    Ok(added.1)
                }
            },
        }
    }
}

/// Where the totals of a list of snapshots can be made, each of them is the sum of its field
/// over the snapshots.
pub proof fn lemma_totals_are_sums(vs: Seq<VaultSnapshot>)
    ensures
        totals_of(vs) matches Ok(t) ==> {
            &&& t.cash.0 == seq_sum(vs, |s: VaultSnapshot| s.cash.0 as int)
            &&& t.locked_collateral.0 == seq_sum(vs, |s: VaultSnapshot| s.locked_collateral.0 as int)
            &&& t.outstanding_principal.0 == seq_sum(vs, |s: VaultSnapshot| s.outstanding_principal.0 as int)
            &&& t.expected_interest.0 == seq_sum(vs, |s: VaultSnapshot| s.expected_interest.0 as int)
            &&& t.realized_interest.0 == seq_sum(vs, |s: VaultSnapshot| s.realized_interest.0 as int)
            &&& t.debt_principal.0 == seq_sum(vs, |s: VaultSnapshot| s.debt_principal.0 as int)
            &&& t.debt_interest_due.0 == seq_sum(vs, |s: VaultSnapshot| s.debt_interest_due.0 as int)
            &&& t.distributed_interest.0 == seq_sum(vs, |s: VaultSnapshot| s.distributed_interest.0 as int)
            &&& t.nav.0 == seq_sum(vs, |s: VaultSnapshot| s.nav.0 as int)
        },
    decreases vs.len(),
{
    if vs.len() > 0 {
        lemma_totals_are_sums(vs.drop_last());
    }
}

/// `add_report_outcome` for the report of a vault snapshot.
pub open spec fn add_snapshot_outcome(t: TotalsReport, s: VaultSnapshot) -> (KeystoneResult<()>, TotalsReport) {
    if t.cash.0 + s.cash.0 > u64::MAX || t.locked_collateral.0 + s.locked_collateral.0 > u64::MAX
        || t.outstanding_principal.0 + s.outstanding_principal.0 > u64::MAX || t.expected_interest.0
        + s.expected_interest.0 > u64::MAX || t.realized_interest.0 + s.realized_interest.0 > u64::MAX
        || t.debt_principal.0 + s.debt_principal.0 > u64::MAX || t.debt_interest_due.0 + s.debt_interest_due.0
        > u64::MAX || t.distributed_interest.0 + s.distributed_interest.0 > u64::MAX || t.nav.0 + s.nav.0 > u64::MAX {
        (Err(KeystoneError::AmountOverflow), t)
    } else {
        (
            Ok(()),
            TotalsReport {
                cash: Amount((t.cash.0 + s.cash.0) as u64),
                locked_collateral: Amount((t.locked_collateral.0 + s.locked_collateral.0) as u64),
                outstanding_principal: Amount((t.outstanding_principal.0 + s.outstanding_principal.0) as u64),
                expected_interest: Amount((t.expected_interest.0 + s.expected_interest.0) as u64),
                realized_interest: Amount((t.realized_interest.0 + s.realized_interest.0) as u64),
                debt_principal: Amount((t.debt_principal.0 + s.debt_principal.0) as u64),
                debt_interest_due: Amount((t.debt_interest_due.0 + s.debt_interest_due.0) as u64),
                distributed_interest: Amount((t.distributed_interest.0 + s.distributed_interest.0) as u64),
                nav: Amount((t.nav.0 + s.nav.0) as u64),
            },
        )
    }
}

/// The report of an engine from one of its snapshots: the snapshot's vaults and loans in order
/// with their totals, the engine's asset, state digest, journal length and whether its
/// invariants hold; or the first error, an overflowing total, then the state digest's.
pub open spec fn engine_report_of(engine: KeystoneEngine, s: EngineSnapshot, r: KeystoneResult<EngineReport>) -> bool {
    match totals_of(s.vaults@) {
        Err(e) => r == Err::<EngineReport, KeystoneError>(e),
        Ok(totals) => match engine.snapshot_error() {
            Some(e) => r == Err::<EngineReport, KeystoneError>(e),
            None => r matches Ok(rep) && {
                &&& rep.network_id == s.network_id
                &&& rep.epoch == s.epoch
                &&& rep.asset == engine.spec_config().asset
                &&& engine.digest_is(rep.state_digest)
                &&& rep.policy_digest == s.policy_digest
                &&& rep.journal_digest == s.journal_digest
                &&& rep.vaults@.len() == s.vaults@.len()
                &&& forall|i: int| 0 <= i < s.vaults@.len() ==> vault_report_of(s.vaults@[i], #[trigger] rep.vaults@[i])
                &&& rep.loans@ == s.loans@.map_values(|l: LoanSnapshot| loan_report_of(l))
                &&& rep.totals == totals
                &&& rep.event_count == engine.spec_journal().spec_events().len()
                &&& rep.conservation_ok == engine.invariants_hold()
            },
        },
    }
}


/// A copy of a vault snapshot.
fn copy_snapshot(s: &VaultSnapshot) -> (r: VaultSnapshot)
    ensures
        r == *s,
{
    VaultSnapshot {
        id: s.id,
        name: s.name.clone(),
        role: s.role,
        cash: s.cash,
        share_supply: s.share_supply,
        gross_assets: s.gross_assets,
        liabilities: s.liabilities,
        nav: s.nav,
        outstanding_principal: s.outstanding_principal,
        expected_interest: s.expected_interest,
        realized_interest: s.realized_interest,
        debt_principal: s.debt_principal,
        debt_interest_due: s.debt_interest_due,
        locked_collateral: s.locked_collateral,
        loss_reserve: s.loss_reserve,
        protocol_fees: s.protocol_fees,
        distributed_interest: s.distributed_interest,
        utilization_bps: s.utilization_bps,
        holder_count: s.holder_count,
    }
}

/// The reports of a list of vault snapshots and their totals.
fn vault_reports(snapshots: &Vec<VaultSnapshot>) -> (r: KeystoneResult<(Vec<VaultReport>, TotalsReport)>)
    ensures
        match totals_of(snapshots@) {
            Err(e) => r == Err::<(Vec<VaultReport>, TotalsReport), KeystoneError>(e),
            Ok(totals) => r matches Ok(out) && out.1 == totals && out.0@.len() == snapshots@.len() && forall|i: int|
                0 <= i < snapshots@.len() ==> vault_report_of(snapshots@[i], #[trigger] out.0@[i]),
        },
{
    let ghost vs = snapshots@;
    let mut vaults: Vec<VaultReport> = Vec::new();
    let mut totals = TotalsReport::default();
    let mut i: usize = 0;
    while i < snapshots.len()
        invariant
            vs == snapshots@,
            0 <= i <= vs.len(),
            totals_of(vs.take(i as int)) == Ok::<TotalsReport, KeystoneError>(totals),
            vaults@.len() == i,
            forall|j: int| 0 <= j < i ==> vault_report_of(vs[j], #[trigger] vaults@[j]),
        decreases vs.len() - i,
    {
        assert(vs.take(i as int + 1).drop_last() =~= vs.take(i as int));
        let report = VaultReport::from_snapshot(copy_snapshot(&snapshots[i]));
        let added = totals.add_vault(&report);
        if let Err(e) = added {
            proof {
                EngineReport::lemma_totals_error_persists(vs, i as int + 1);
            }
            return Err(e);
        }
        vaults.push(report);
        i = i + 1;
    }
    assert(vs.take(vs.len() as int) =~= vs);
    Ok((vaults, totals))
}

/// The reports of a list of loan snapshots.
fn loan_reports(snapshots: &Vec<LoanSnapshot>) -> (r: Vec<LoanReport>)
    ensures
        r@ == snapshots@.map_values(|l: LoanSnapshot| loan_report_of(l)),
{
    let ghost ls = snapshots@;
    let mut loans: Vec<LoanReport> = Vec::new();
    let mut k: usize = 0;
    while k < snapshots.len()
        invariant
            ls == snapshots@,
            0 <= k <= ls.len(),
            loans@ == ls.take(k as int).map_values(|l: LoanSnapshot| loan_report_of(l)),
        decreases ls.len() - k,
    {
        loans.push(LoanReport::from_snapshot(snapshots[k]));
        k = k + 1;
        assert(loans@ =~= ls.take(k as int).map_values(|l: LoanSnapshot| loan_report_of(l)));
    }
    assert(ls.take(ls.len() as int) =~= ls);
    loans
}

impl EngineReport {
    pub fn from_engine(engine: &KeystoneEngine) -> (r: KeystoneResult<Self>)
        requires
            engine.wf(),
        ensures
            engine.snapshot_error() matches Some(e) ==> r == Err::<EngineReport, KeystoneError>(e),
            engine.snapshot_error() is None ==> exists|s: EngineSnapshot|
                engine.snapshot_is(s) && engine_report_of(*engine, s, r),
    {
        let snapshot = engine.snapshot()?;
        Self::from_snapshot(engine, snapshot)
    }

    pub fn from_snapshot(engine: &KeystoneEngine, snapshot: EngineSnapshot) -> (r: KeystoneResult<Self>)
        requires
            engine.wf(),
        ensures
            engine_report_of(*engine, snapshot, r),
    {
        let network_id = snapshot.network_id;
        let epoch = snapshot.epoch;
        let policy_digest = snapshot.policy_digest;
        let journal_digest = snapshot.journal_digest;
        let (vaults, totals) = vault_reports(&snapshot.vaults)?;
        let loans = loan_reports(&snapshot.loans);
        let state_digest = engine.state_digest()?;
        Ok(Self {
            network_id,
            epoch,
            asset: engine.asset(),
            state_digest,
            policy_digest,
            journal_digest,
            vaults,
            loans,
            totals,
            event_count: engine.journal().len(),
            conservation_ok: engine.verify_invariants().is_ok(),
        })
    }

    proof fn lemma_totals_error_persists(vs: Seq<VaultSnapshot>, i: int)
        requires
            0 < i <= vs.len(),
            totals_of(vs.take(i)) is Err,
        ensures
            totals_of(vs) == totals_of(vs.take(i)),
        decreases vs.len() - i,
    {
        if i < vs.len() {
            assert(vs.take(i + 1).drop_last() =~= vs.take(i));
            Self::lemma_totals_error_persists(vs, i + 1);
        } else {
            assert(vs.take(i) =~= vs);
        }
    }
}

impl OperationReport {
    pub fn tx(name: &str, tx: TxId) -> (r: Self)
        ensures
            r.name@ == name@ && r.tx == Some(tx) && r.loan is None && r.vault is None && r.amount is None
                && r.shares is None,
    {
        Self { name: String::from_str(name), tx: Some(tx), loan: None, vault: None, amount: None, shares: None }
    }

    pub fn loan(name: &str, loan: LoanId, amount: Amount) -> (r: Self)
        ensures
            r.name@ == name@ && r.tx is None && r.loan == Some(loan) && r.vault is None && r.amount == Some(amount)
                && r.shares is None,
    {
        Self { name: String::from_str(name), tx: None, loan: Some(loan), vault: None, amount: Some(amount), shares: None }
    }

    pub fn vault_amount(name: &str, vault: VaultId, amount: Amount) -> (r: Self)
        ensures
            r.name@ == name@ && r.tx is None && r.loan is None && r.vault == Some(vault) && r.amount == Some(amount)
                && r.shares is None,
    {
        Self {
            name: String::from_str(name),
            tx: None,
            loan: None,
            vault: Some(vault),
            amount: Some(amount),
            shares: None,
        }
    }

    pub fn vault_shares(name: &str, vault: VaultId, amount: Amount, shares: Shares) -> (r: Self)
        ensures
            r.name@ == name@ && r.tx is None && r.loan is None && r.vault == Some(vault) && r.amount == Some(amount)
                && r.shares == Some(shares),
    {
        Self {
            name: String::from_str(name),
            tx: None,
            loan: None,
            vault: Some(vault),
            amount: Some(amount),
            shares: Some(shares),
        }
    }
}

/// A copy of an event kind.
fn copy_kind(kind: &EventKind) -> (r: EventKind)
    ensures
        r == *kind,
{
    match kind {
        EventKind::EngineInitialized { network_id, epoch } => EventKind::EngineInitialized {
            network_id: *network_id,
            epoch: *epoch,
        },
        EventKind::VaultRegistered { vault, role } => EventKind::VaultRegistered { vault: *vault, role: role.clone() },
        EventKind::AccountDeposited { vault, owner, amount, shares } => EventKind::AccountDeposited {
            vault: *vault,
            owner: *owner,
            amount: *amount,
            shares: *shares,
        },
        EventKind::AccountRedeemed { vault, owner, amount, shares } => EventKind::AccountRedeemed {
            vault: *vault,
            owner: *owner,
            amount: *amount,
            shares: *shares,
        },
        EventKind::LoanOpened { loan, lender, borrower, principal, projected_interest } => EventKind::LoanOpened {
            loan: *loan,
            lender: *lender,
            borrower: *borrower,
            principal: *principal,
            projected_interest: *projected_interest,
        },
        EventKind::LoanRepaid { loan, payer, principal, interest, mode } => EventKind::LoanRepaid {
            loan: *loan,
            payer: *payer,
            principal: *principal,
            interest: *interest,
            mode: mode.clone(),
        },
        EventKind::CollateralReleased { loan, borrower, amount } => EventKind::CollateralReleased {
            loan: *loan,
            borrower: *borrower,
            amount: *amount,
        },
        EventKind::LoanDefaulted { loan, overdue_epochs } => EventKind::LoanDefaulted {
            loan: *loan,
            overdue_epochs: *overdue_epochs,
        },
        EventKind::LoanLiquidated { loan, seized, shortfall } => EventKind::LoanLiquidated {
            loan: *loan,
            seized: *seized,
            shortfall: *shortfall,
        },
        EventKind::InterestDistributed { vault, amount, recipients } => EventKind::InterestDistributed {
            vault: *vault,
            amount: *amount,
            recipients: *recipients,
        },
        EventKind::EpochAdvanced { from, to } => EventKind::EpochAdvanced { from: *from, to: *to },
        EventKind::PolicyUpdated { digest } => EventKind::PolicyUpdated { digest: *digest },
        EventKind::InvariantChecked { digest } => EventKind::InvariantChecked { digest: *digest },
    }
}

/// A copy of the journal's events.
fn copy_events(events: &[Event]) -> (r: Vec<Event>)
    ensures
        r@ == events@,
{
    let mut out: Vec<Event> = Vec::new();
    let mut i: usize = 0;
    while i < events.len()
        invariant
            0 <= i <= events@.len(),
            out@ == events@.take(i as int),
        decreases events@.len() - i,
    {
        let e = &events[i];
        out.push(Event { sequence: e.sequence, tx: e.tx, epoch: e.epoch, state_digest: e.state_digest, kind: copy_kind(&e.kind) });
        i = i + 1;
        assert(out@ =~= events@.take(i as int));
    }
    assert(events@.take(events@.len() as int) =~= events@);
    out
}

impl ScenarioReport {
    pub fn build(
        scenario: &str,
        engine: &KeystoneEngine,
        vault_aliases: Vec<(String, VaultId)>,
        account_aliases: Vec<(String, AccountId)>,
        operations: Vec<OperationReport>,
    ) -> (r: KeystoneResult<Self>)
        requires
            engine.wf(),
        ensures
            engine.snapshot_error() matches Some(e) ==> r == Err::<ScenarioReport, KeystoneError>(e),
            r matches Ok(rep) ==> {
                &&& rep.scenario@ == scenario@
                &&& exists|s: EngineSnapshot|
                    engine.snapshot_is(s) && engine_report_of(*engine, s, Ok::<EngineReport, KeystoneError>(rep.engine))
                &&& rep.vault_aliases == vault_aliases
                &&& rep.account_aliases == account_aliases
                &&& rep.operations == operations
                &&& rep.events@ == engine.spec_journal().spec_events()
            },
            engine.snapshot_error() is None ==> (r is Err ==> exists|s: EngineSnapshot|
                engine.snapshot_is(s) && engine_report_of(*engine, s, Err::<EngineReport, KeystoneError>(r->Err_0))),
    {
        let events = copy_events(engine.journal().events());
        let report = EngineReport::from_engine(engine)?;
        Ok(Self {
            scenario: String::from_str(scenario),
            engine: report,
            vault_aliases,
            account_aliases,
            operations,
            events,
        })
    }
}

} // verus!
