use vstd::prelude::*;

use crate::amount::{amount_diff, amount_of, bps_strict_of, checked_ratio_bps, ratio_bps, Amount, Bps};
use crate::error::{KeystoneError, KeystoneResult};
use crate::ids::{VaultId, VaultPair};
use crate::keys::{key_lt, lemma_key_index, OrderedKey, SortedMap};
use crate::loan::{status_terminal, LoanSnapshot, LoanStatus};
use crate::vault::VaultSnapshot;
use crate::engine::{EngineSnapshot, KeystoneEngine};
use crate::sums::{
    lemma_sum_at_most, lemma_sum_nonneg, lemma_sum_pointwise_le, lemma_sum_prefix_le, lemma_sum_take_next, lemma_sum_zero,
    seq_sum,
};
use crate::time::Epoch;

verus! {

/// Where an open loan stands against its maturity.
#[derive(Clone, Copy, Debug, PartialEq, Eq, PartialOrd, Ord, Structural)]
pub enum MaturityBucketKind {
    Closed,
    Current,
    Short,
    Medium,
    Long,
    Overdue,
}

/// The position of a bucket kind in kind order.
pub open spec fn kind_index(k: MaturityBucketKind) -> int {
    match k {
        MaturityBucketKind::Closed => 0,
        MaturityBucketKind::Current => 1,
        MaturityBucketKind::Short => 2,
        MaturityBucketKind::Medium => 3,
        MaturityBucketKind::Long => 4,
        MaturityBucketKind::Overdue => 5,
    }
}

/// The bucket kind at a position in kind order.
pub open spec fn kind_at(i: int) -> MaturityBucketKind {
    if i == 0 {
        MaturityBucketKind::Closed
    } else if i == 1 {
        MaturityBucketKind::Current
    } else if i == 2 {
        MaturityBucketKind::Short
    } else if i == 3 {
        MaturityBucketKind::Medium
    } else if i == 4 {
        MaturityBucketKind::Long
    } else {
        MaturityBucketKind::Overdue
    }
}

fn kind_position(k: MaturityBucketKind) -> (r: usize)
    ensures
        r == kind_index(k),
{
    match k {
        MaturityBucketKind::Closed => 0,
        MaturityBucketKind::Current => 1,
        MaturityBucketKind::Short => 2,
        MaturityBucketKind::Medium => 3,
        MaturityBucketKind::Long => 4,
        MaturityBucketKind::Overdue => 5,
    }
}

/// The principal, interest and number of the loans in one bucket.
#[derive(Clone, Copy, Debug, PartialEq, Eq)]
pub struct MaturityBucket {
    pub principal: Amount,
    pub interest: Amount,
    pub count: usize,
}

impl Default for MaturityBucket {
    fn default() -> (r: Self)
        ensures
            r == (MaturityBucket { principal: Amount(0), interest: Amount(0), count: 0 }),
    {
        MaturityBucket { principal: Amount(0), interest: Amount(0), count: 0 }
    }
}

/// What one vault lends and borrows.
#[derive(Clone, Copy, Debug, PartialEq, Eq)]
pub struct ExposureRow {
    pub vault: VaultId,
    pub lent_principal: Amount,
    pub borrowed_principal: Amount,
    pub expected_interest: Amount,
    pub locked_collateral: Amount,
    pub realized_interest: Amount,
    pub net_creditor_exposure: Amount,
    pub net_debtor_exposure: Amount,
}

/// How concentrated lending and borrowing are in the largest vault of each side.
#[derive(Clone, Copy, Debug, PartialEq, Eq)]
pub struct PortfolioConcentration {
    pub largest_lender: Option<VaultId>,
    pub largest_lender_bps: Bps,
    pub largest_borrower: Option<VaultId>,
    pub largest_borrower_bps: Bps,
    pub total_lent: Amount,
    pub total_borrowed: Amount,
}

/// The open loans from one lender to one borrower.
#[derive(Clone, Copy, Debug, PartialEq, Eq)]
pub struct CounterpartyExposure {
    pub lender: VaultId,
    pub borrower: VaultId,
    pub open_principal: Amount,
    pub open_interest: Amount,
    pub collateral: Amount,
    pub loan_count: usize,
    pub overdue_count: usize,
}

/// Open exposure by pair of lender and borrower, with its totals.
#[derive(Clone, Debug, PartialEq, Eq)]
pub struct ExposureMatrix {
    pub rows: Vec<CounterpartyExposure>,
    pub total_open_principal: Amount,
    pub total_open_interest: Amount,
    pub total_collateral: Amount,
}

impl Default for ExposureMatrix {
    fn default() -> (r: Self)
        ensures
            r.rows@.len() == 0,
            r.total_open_principal == Amount(0),
            r.total_open_interest == Amount(0),
            r.total_collateral == Amount(0),
    {
        ExposureMatrix {
            rows: Vec::new(),
            total_open_principal: Amount(0),
            total_open_interest: Amount(0),
            total_collateral: Amount(0),
        }
    }
}

/// The analytics of a portfolio at an epoch: loans by maturity bucket (one per kind, in kind
/// order), exposure by vault (in identity order), concentration and the counterparty matrix.
#[derive(Clone, Debug)]
pub struct PortfolioAnalytics {
    pub epoch: Epoch,
    pub buckets: Vec<MaturityBucket>,
    pub exposures: SortedMap<VaultId, ExposureRow>,
    pub concentration: PortfolioConcentration,
    pub matrix: ExposureMatrix,
}

impl MaturityBucket {
    pub fn add(&mut self, principal: Amount, interest: Amount) -> (r: KeystoneResult<()>)
        requires
            old(self).count < usize::MAX,
        ensures
            old(self).principal.0 + principal.0 > u64::MAX ==> r == Err::<(), KeystoneError>(
                KeystoneError::AmountOverflow,
            ) && *final(self) == *old(self),
            old(self).principal.0 + principal.0 <= u64::MAX && old(self).interest.0 + interest.0 > u64::MAX ==> r
                == Err::<(), KeystoneError>(KeystoneError::AmountOverflow) && *final(self) == (MaturityBucket {
                principal: Amount((old(self).principal.0 + principal.0) as u64),
                ..*old(self)
            }),
            old(self).principal.0 + principal.0 <= u64::MAX && old(self).interest.0 + interest.0 <= u64::MAX ==> r
                is Ok && *final(self) == (MaturityBucket {
                principal: Amount((old(self).principal.0 + principal.0) as u64),
                interest: Amount((old(self).interest.0 + interest.0) as u64),
                count: (old(self).count + 1) as usize,
            }),
    {
        self.principal = self.principal.checked_add(principal)?;
        self.interest = self.interest.checked_add(interest)?;
        self.count = self.count + 1;
        Ok(())
    }

    pub fn total(self) -> (r: KeystoneResult<Amount>)
        ensures
            r == amount_of(self.principal.0 + self.interest.0),
    {
        self.principal.checked_add(self.interest)
    }
}

/// Net exposure: what a vault lends beyond what it borrows, or the reverse.
pub open spec fn with_net(row: ExposureRow) -> ExposureRow {
    if row.lent_principal.0 >= row.borrowed_principal.0 {
        ExposureRow {
            net_creditor_exposure: Amount((row.lent_principal.0 - row.borrowed_principal.0) as u64),
            net_debtor_exposure: Amount(0),
            ..row
        }
    } else {
        ExposureRow {
            net_debtor_exposure: Amount((row.borrowed_principal.0 - row.lent_principal.0) as u64),
            net_creditor_exposure: Amount(0),
            ..row
        }
    }
}

/// The exposure row of a vault with nothing lent or borrowed.
pub open spec fn empty_row(vault: VaultId) -> ExposureRow {
    ExposureRow {
        vault,
        lent_principal: Amount(0),
        borrowed_principal: Amount(0),
        expected_interest: Amount(0),
        locked_collateral: Amount(0),
        realized_interest: Amount(0),
        net_creditor_exposure: Amount(0),
        net_debtor_exposure: Amount(0),
    }
}

impl ExposureRow {
    pub fn new(vault: VaultId) -> (r: Self)
        ensures
            r == empty_row(vault),
    {
        Self {
            vault,
            lent_principal: Amount(0),
            borrowed_principal: Amount(0),
            expected_interest: Amount(0),
            locked_collateral: Amount(0),
            realized_interest: Amount(0),
            net_creditor_exposure: Amount(0),
            net_debtor_exposure: Amount(0),
        }
    }

    pub fn add_lending(&mut self, principal: Amount, expected_interest: Amount) -> (r: KeystoneResult<()>)
        ensures
            old(self).lent_principal.0 + principal.0 > u64::MAX ==> r == Err::<(), KeystoneError>(
                KeystoneError::AmountOverflow,
            ) && *final(self) == *old(self),
            old(self).lent_principal.0 + principal.0 <= u64::MAX && old(self).expected_interest.0
                + expected_interest.0 > u64::MAX ==> r == Err::<(), KeystoneError>(KeystoneError::AmountOverflow)
                && *final(self) == (ExposureRow {
                lent_principal: Amount((old(self).lent_principal.0 + principal.0) as u64),
                ..*old(self)
            }),
            old(self).lent_principal.0 + principal.0 <= u64::MAX && old(self).expected_interest.0
                + expected_interest.0 <= u64::MAX ==> r is Ok && *final(self) == with_net(
                ExposureRow {
                    lent_principal: Amount((old(self).lent_principal.0 + principal.0) as u64),
                    expected_interest: Amount((old(self).expected_interest.0 + expected_interest.0) as u64),
                    ..*old(self)
                },
            ),
    {
        self.lent_principal = self.lent_principal.checked_add(principal)?;
        self.expected_interest = self.expected_interest.checked_add(expected_interest)?;
        self.recompute_net()
    }

    pub fn add_borrowing(&mut self, principal: Amount, collateral: Amount) -> (r: KeystoneResult<()>)
        ensures
            old(self).borrowed_principal.0 + principal.0 > u64::MAX ==> r == Err::<(), KeystoneError>(
                KeystoneError::AmountOverflow,
            ) && *final(self) == *old(self),
            old(self).borrowed_principal.0 + principal.0 <= u64::MAX && old(self).locked_collateral.0 + collateral.0
                > u64::MAX ==> r == Err::<(), KeystoneError>(KeystoneError::AmountOverflow) && *final(self) == (
            ExposureRow { borrowed_principal: Amount((old(self).borrowed_principal.0 + principal.0) as u64), ..*old(self) }),
            old(self).borrowed_principal.0 + principal.0 <= u64::MAX && old(self).locked_collateral.0 + collateral.0
                <= u64::MAX ==> r is Ok && *final(self) == with_net(
                ExposureRow {
                    borrowed_principal: Amount((old(self).borrowed_principal.0 + principal.0) as u64),
                    locked_collateral: Amount((old(self).locked_collateral.0 + collateral.0) as u64),
                    ..*old(self)
                },
            ),
    {
        self.borrowed_principal = self.borrowed_principal.checked_add(principal)?;
        self.locked_collateral = self.locked_collateral.checked_add(collateral)?;
        self.recompute_net()
    }

    pub fn add_realized_interest(&mut self, amount: Amount) -> (r: KeystoneResult<()>)
        ensures
            old(self).realized_interest.0 + amount.0 > u64::MAX ==> r == Err::<(), KeystoneError>(
                KeystoneError::AmountOverflow,
            ) && *final(self) == *old(self),
            old(self).realized_interest.0 + amount.0 <= u64::MAX ==> r is Ok && *final(self) == (ExposureRow {
                realized_interest: Amount((old(self).realized_interest.0 + amount.0) as u64),
                ..*old(self)
            }),
    {
        self.realized_interest = self.realized_interest.checked_add(amount)?;
        Ok(())
    }

    pub fn recompute_net(&mut self) -> (r: KeystoneResult<()>)
        ensures
            r is Ok,
            *final(self) == with_net(*old(self)),
    {
        if self.lent_principal.0 >= self.borrowed_principal.0 {
            self.net_creditor_exposure = self.lent_principal.checked_sub(self.borrowed_principal)?;
            self.net_debtor_exposure = Amount(0);
        } else {
            self.net_debtor_exposure = self.borrowed_principal.checked_sub(self.lent_principal)?;
            self.net_creditor_exposure = Amount(0);
        }
        Ok(())
    }

    pub fn collateralization_bps(self) -> (r: KeystoneResult<Bps>)
        ensures
            r == (if self.borrowed_principal.0 == 0 {
                Ok(Bps(10_000))
            } else {
                ratio_bps(self.locked_collateral.0 as int, self.borrowed_principal.0 as int)
            }),
    {
        if self.borrowed_principal.is_zero() {
            return Bps::strict(10_000);
        }
        checked_ratio_bps(self.locked_collateral, self.borrowed_principal)
    }
}

/// The empty exposure of a pair.
pub open spec fn empty_pair(lender: VaultId, borrower: VaultId) -> CounterpartyExposure {
    CounterpartyExposure {
        lender,
        borrower,
        open_principal: Amount(0),
        open_interest: Amount(0),
        collateral: Amount(0),
        loan_count: 0,
        overdue_count: 0,
    }
}

impl CounterpartyExposure {
    pub fn new(lender: VaultId, borrower: VaultId) -> (r: Self)
        ensures
            r == empty_pair(lender, borrower),
    {
        Self {
            lender,
            borrower,
            open_principal: Amount(0),
            open_interest: Amount(0),
            collateral: Amount(0),
            loan_count: 0,
            overdue_count: 0,
        }
    }

    pub fn add_loan(&mut self, principal: Amount, interest: Amount, collateral: Amount, overdue: bool) -> (r:
        KeystoneResult<()>)
        requires
            old(self).loan_count < usize::MAX,
            old(self).overdue_count < usize::MAX,
        ensures
            ({
                let s = *old(self);
                if s.open_principal.0 + principal.0 > u64::MAX {
                    r == Err::<(), KeystoneError>(KeystoneError::AmountOverflow) && *final(self) == s
                } else if s.open_interest.0 + interest.0 > u64::MAX {
                    r == Err::<(), KeystoneError>(KeystoneError::AmountOverflow) && *final(self) == (
                    CounterpartyExposure { open_principal: Amount((s.open_principal.0 + principal.0) as u64), ..s })
                } else if s.collateral.0 + collateral.0 > u64::MAX {
                    r == Err::<(), KeystoneError>(KeystoneError::AmountOverflow) && *final(self) == (
                    CounterpartyExposure {
                        open_principal: Amount((s.open_principal.0 + principal.0) as u64),
                        open_interest: Amount((s.open_interest.0 + interest.0) as u64),
                        ..s
                    })
                } else {
                    r is Ok && *final(self) == (CounterpartyExposure {
                        open_principal: Amount((s.open_principal.0 + principal.0) as u64),
                        open_interest: Amount((s.open_interest.0 + interest.0) as u64),
                        collateral: Amount((s.collateral.0 + collateral.0) as u64),
                        loan_count: (s.loan_count + 1) as usize,
                        overdue_count: if overdue { (s.overdue_count + 1) as usize } else { s.overdue_count },
                        ..s
                    })
                }
            }),
    {
        self.open_principal = self.open_principal.checked_add(principal)?;
        self.open_interest = self.open_interest.checked_add(interest)?;
        self.collateral = self.collateral.checked_add(collateral)?;
        self.loan_count = self.loan_count + 1;
        if overdue {
            self.overdue_count = self.overdue_count + 1;
        }
        Ok(())
    }

    pub fn total_debt(self) -> (r: KeystoneResult<Amount>)
        ensures
            r == amount_of(self.open_principal.0 + self.open_interest.0),
    {
        self.open_principal.checked_add(self.open_interest)
    }

    pub fn collateralization_bps(self) -> (r: KeystoneResult<Bps>)
        ensures
            r == (match amount_of(self.open_principal.0 + self.open_interest.0) {
                Err(e) => Err(e),
                Ok(debt) => if debt.0 == 0 {
                    Ok(Bps(10_000))
                } else {
                    ratio_bps(self.collateral.0 as int, debt.0 as int)
                },
            }),
    {
        let debt = self.total_debt()?;
        if debt.is_zero() {
            return Bps::strict(10_000);
        }
        checked_ratio_bps(self.collateral, debt)
    }

    pub fn has_open_risk(self) -> (r: bool)
        ensures
            r == (self.open_principal.0 != 0 || self.open_interest.0 != 0),
    {
        !self.open_principal.is_zero() || !self.open_interest.is_zero()
    }
}

/// The running largest of a measure over the first `n` rows of a map, in key order: a later
/// row replaces the current one only when strictly larger. Nothing is chosen while every measure
/// is zero.
pub open spec fn running_largest(keys: Seq<VaultId>, vals: Seq<ExposureRow>, n: int, lender: bool) -> (
    Option<VaultId>,
    int,
)
    decreases n,
{
    if n <= 0 {
        (None, 0)
    } else {
        let prev = running_largest(keys, vals, n - 1, lender);
        let v = if lender { vals[n - 1].lent_principal.0 as int } else { vals[n - 1].borrowed_principal.0 as int };
        if v > prev.1 {
            (Some(keys[n - 1]), v)
        } else {
            prev
        }
    }
}

/// The measure that picks the largest lender (lent principal) or borrower (borrowed principal).
pub open spec fn row_measure(r: ExposureRow, lender: bool) -> int {
    if lender {
        r.lent_principal.0 as int
    } else {
        r.borrowed_principal.0 as int
    }
}

/// The running largest over the first `n` rows is the first of them, in key order, whose measure
/// is the largest, together with that measure; nothing is chosen, and the measure is zero,
/// exactly when every measure is zero.
pub proof fn lemma_running_largest(keys: Seq<VaultId>, vals: Seq<ExposureRow>, n: int, lender: bool)
    requires
        0 <= n <= vals.len(),
        keys.len() == vals.len(),
    ensures
        ({
            let best = running_largest(keys, vals, n, lender);
            &&& forall|i: int| 0 <= i < n ==> row_measure(#[trigger] vals[i], lender) <= best.1
            &&& best.0 is None <==> forall|i: int| 0 <= i < n ==> row_measure(#[trigger] vals[i], lender) == 0
            &&& best.0 is None ==> best.1 == 0
            &&& best.0 matches Some(k) ==> exists|i: int|
                0 <= i < n && keys[i] == k && row_measure(#[trigger] vals[i], lender) == best.1 && forall|j: int|
                    0 <= j < i ==> row_measure(#[trigger] vals[j], lender) < best.1
        }),
    decreases n,
{
    if n > 0 {
        lemma_running_largest(keys, vals, n - 1, lender);
        let prev = running_largest(keys, vals, n - 1, lender);
        let v = row_measure(vals[n - 1], lender);
        if v > prev.1 {
            assert(forall|j: int| 0 <= j < n - 1 ==> row_measure(#[trigger] vals[j], lender) < v);
            assert(keys[n - 1] == keys[n - 1] && row_measure(vals[n - 1], lender) == v);
        } else {
            if prev.0 is None {
                assert(row_measure(vals[n - 1], lender) == 0);
            } else {
                assert(!(forall|i: int| 0 <= i < n ==> row_measure(#[trigger] vals[i], lender) == 0)) by {
                    let i = choose|i: int|
                        0 <= i < n - 1 && keys[i] == prev.0->Some_0 && row_measure(#[trigger] vals[i], lender)
                            == prev.1 && forall|j: int| 0 <= j < i ==> row_measure(#[trigger] vals[j], lender) < prev.1;
                    assert(row_measure(vals[i], lender) > 0);
                }
            }
        }
    }
}

/// The vault that the concentration of an exposure map names as largest is, of the vaults with
/// the largest measure, the least in key order.
pub proof fn lemma_largest_is_least_key(m: SortedMap<VaultId, ExposureRow>, lender: bool)
    requires
        m.wf(),
    ensures
        ({
            let best = running_largest(m.keys@, m.vals@, m.keys@.len() as int, lender);
            best.0 matches Some(k) ==> exists|i: int|
                0 <= i < m.keys@.len() && m.keys@[i] == k && row_measure(m.vals@[i], lender) == best.1 && forall|j: int|
                    0 <= j < m.keys@.len() && row_measure(#[trigger] m.vals@[j], lender) == best.1 ==> j == i
                        || key_lt(k, m.keys@[j])
        }),
{
    let keys = m.keys@;
    let vals = m.vals@;
    let n = keys.len() as int;
    lemma_running_largest(keys, vals, n, lender);
    let best = running_largest(keys, vals, n, lender);
    if best.0 is Some {
        let k = best.0->Some_0;
        let i = choose|i: int|
            0 <= i < n && keys[i] == k && row_measure(#[trigger] vals[i], lender) == best.1 && forall|j: int|
                0 <= j < i ==> row_measure(#[trigger] vals[j], lender) < best.1;
        assert forall|j: int| 0 <= j < n && row_measure(#[trigger] vals[j], lender) == best.1 implies j == i
            || key_lt(k, keys[j]) by {
            if j > i {
                assert(key_lt(keys[i], keys[j]));
            }
        }
        assert(0 <= i < n && keys[i] == k && row_measure(vals[i], lender) == best.1);
    }
}

pub open spec fn total_lent_of(rows: Seq<ExposureRow>) -> int {
    seq_sum(rows, |r: ExposureRow| r.lent_principal.0 as int)
}

pub open spec fn total_borrowed_of(rows: Seq<ExposureRow>) -> int {
    seq_sum(rows, |r: ExposureRow| r.borrowed_principal.0 as int)
}

/// The share of the largest measure in the total, zero for a zero total.
pub open spec fn share_bps(largest: int, total: int) -> KeystoneResult<Bps> {
    if total == 0 {
        Ok(Bps(0))
    } else {
        ratio_bps(largest, total)
    }
}

/// The concentration of a map of exposure rows.
pub open spec fn concentration_of(m: SortedMap<VaultId, ExposureRow>) -> KeystoneResult<PortfolioConcentration> {
    let n = m.keys@.len() as int;
    let lent = total_lent_of(m.vals@);
    let borrowed = total_borrowed_of(m.vals@);
    let lender = running_largest(m.keys@, m.vals@, n, true);
    let borrower = running_largest(m.keys@, m.vals@, n, false);
    if lent > u64::MAX || borrowed > u64::MAX {
        Err(KeystoneError::AmountOverflow)
    } else {
        match share_bps(lender.1, lent) {
            Err(e) => Err(e),
            Ok(lender_bps) => match share_bps(borrower.1, borrowed) {
                Err(e) => Err(e),
                Ok(borrower_bps) => Ok(
                    PortfolioConcentration {
                        largest_lender: lender.0,
                        largest_lender_bps: lender_bps,
                        largest_borrower: borrower.0,
                        largest_borrower_bps: borrower_bps,
                        total_lent: Amount(lent as u64),
                        total_borrowed: Amount(borrowed as u64),
                    },
                ),
            },
        }
    }
}

fn sum_rows(rows: &Vec<ExposureRow>, lender: bool) -> (r: KeystoneResult<Amount>)
    ensures
        r == amount_of(if lender { total_lent_of(rows@) } else { total_borrowed_of(rows@) }),
{
    let mut total: u64 = 0;
    let mut i: usize = 0;
    while i < rows.len()
        invariant
            0 <= i <= rows@.len(),
            total == (if lender { total_lent_of(rows@.take(i as int)) } else { total_borrowed_of(rows@.take(i as int)) }),
        decreases rows@.len() - i,
    {
        proof {
            lemma_sum_take_next(rows@, i as int, |r: ExposureRow| r.lent_principal.0 as int);
            lemma_sum_take_next(rows@, i as int, |r: ExposureRow| r.borrowed_principal.0 as int);
            lemma_sum_prefix_le(rows@, i as int + 1, |r: ExposureRow| r.lent_principal.0 as int);
            lemma_sum_prefix_le(rows@, i as int + 1, |r: ExposureRow| r.borrowed_principal.0 as int);
        }
        let v = if lender { rows[i].lent_principal.0 } else { rows[i].borrowed_principal.0 };
        match total.checked_add(v) {
            Some(t) => {
                total = t;
            },
            None => {
                return Err(KeystoneError::AmountOverflow);
            },
        }
        i = i + 1;
    }
    assert(rows@.take(rows@.len() as int) =~= rows@);
    Ok(Amount(total))
}

fn share_of(largest: Amount, total: Amount) -> (r: KeystoneResult<Bps>)
    ensures
        r == share_bps(largest.0 as int, total.0 as int),
{
    if total.is_zero() {
        Bps::strict(0)
    } else {
        checked_ratio_bps(largest, total)
    }
}

impl PortfolioConcentration {
    pub fn from_exposures(exposures: &SortedMap<VaultId, ExposureRow>) -> (r: KeystoneResult<Self>)
        requires
            exposures.wf(),
        ensures
            r == concentration_of(*exposures),
    {
        proof {
            lemma_sum_nonneg(exposures.vals@, |r: ExposureRow| r.lent_principal.0 as int);
            lemma_sum_nonneg(exposures.vals@, |r: ExposureRow| r.borrowed_principal.0 as int);
        }
        let total_lent = sum_rows(&exposures.vals, true)?;
        let total_borrowed = sum_rows(&exposures.vals, false)?;
        let mut largest_lender: Option<VaultId> = None;
        let mut largest_lender_amount = Amount(0);
        let mut largest_borrower: Option<VaultId> = None;
        let mut largest_borrower_amount = Amount(0);
        let mut i: usize = 0;
        while i < exposures.keys.len()
            invariant
                exposures.wf(),
                0 <= i <= exposures.keys@.len(),
                running_largest(exposures.keys@, exposures.vals@, i as int, true) == (
                    largest_lender,
                    largest_lender_amount.0 as int,
                ),
                running_largest(exposures.keys@, exposures.vals@, i as int, false) == (
                    largest_borrower,
                    largest_borrower_amount.0 as int,
                ),
            decreases exposures.keys@.len() - i,
        {
            let vault = exposures.keys[i];
            let row = exposures.vals[i];
            if row.lent_principal.0 > largest_lender_amount.0 {
                largest_lender = Some(vault);
                largest_lender_amount = row.lent_principal;
            }
            if row.borrowed_principal.0 > largest_borrower_amount.0 {
                largest_borrower = Some(vault);
                largest_borrower_amount = row.borrowed_principal;
            }
            i = i + 1;
        }
        let largest_lender_bps = share_of(largest_lender_amount, total_lent)?;
        let largest_borrower_bps = share_of(largest_borrower_amount, total_borrowed)?;
        Ok(Self {
            largest_lender,
            largest_lender_bps,
            largest_borrower,
            largest_borrower_bps,
            total_lent,
            total_borrowed,
        })
    }
}

pub open spec fn is_open(l: LoanSnapshot) -> bool {
    !status_terminal(l.status)
}

/// Scheduled interest not yet paid, never below zero.
pub open spec fn unpaid_interest(l: LoanSnapshot) -> int {
    if l.interest_paid.0 <= l.scheduled_interest.0 {
        l.scheduled_interest.0 - l.interest_paid.0
    } else {
        0
    }
}

/// Past its due epoch or defaulted.
pub open spec fn overdue_at(l: LoanSnapshot, now: Epoch) -> bool {
    now.0 > l.due_epoch.0 || l.status is Defaulted
}

pub open spec fn pair_of(l: LoanSnapshot) -> VaultPair {
    VaultPair(l.lender, l.borrower)
}

pub open spec fn row_pair(r: CounterpartyExposure) -> VaultPair {
    VaultPair(r.lender, r.borrower)
}

/// An open loan between the pair.
pub open spec fn in_pair(l: LoanSnapshot, p: VaultPair) -> bool {
    is_open(l) && pair_of(l) == p
}

pub open spec fn pair_principal(ls: Seq<LoanSnapshot>, p: VaultPair) -> int {
    seq_sum(ls, |l: LoanSnapshot| if in_pair(l, p) { l.remaining_principal.0 as int } else { 0int })
}

pub open spec fn pair_interest(ls: Seq<LoanSnapshot>, p: VaultPair) -> int {
    seq_sum(ls, |l: LoanSnapshot| if in_pair(l, p) { unpaid_interest(l) } else { 0int })
}

pub open spec fn pair_collateral(ls: Seq<LoanSnapshot>, p: VaultPair) -> int {
    seq_sum(ls, |l: LoanSnapshot| if in_pair(l, p) { l.collateral_locked.0 as int } else { 0int })
}

pub open spec fn pair_loans(ls: Seq<LoanSnapshot>, p: VaultPair) -> int {
    seq_sum(ls, |l: LoanSnapshot| if in_pair(l, p) { 1int } else { 0int })
}

pub open spec fn pair_overdue(ls: Seq<LoanSnapshot>, p: VaultPair, now: Epoch) -> int {
    seq_sum(ls, |l: LoanSnapshot| if in_pair(l, p) && overdue_at(l, now) { 1int } else { 0int })
}

pub open spec fn open_principal_total(ls: Seq<LoanSnapshot>) -> int {
    seq_sum(ls, |l: LoanSnapshot| if is_open(l) { l.remaining_principal.0 as int } else { 0int })
}

pub open spec fn open_interest_total(ls: Seq<LoanSnapshot>) -> int {
    seq_sum(ls, |l: LoanSnapshot| if is_open(l) { unpaid_interest(l) } else { 0int })
}

pub open spec fn open_collateral_total(ls: Seq<LoanSnapshot>) -> int {
    seq_sum(ls, |l: LoanSnapshot| if is_open(l) { l.collateral_locked.0 as int } else { 0int })
}

/// The exposure of a pair over a list of loans.
pub open spec fn row_of(ls: Seq<LoanSnapshot>, p: VaultPair, now: Epoch) -> CounterpartyExposure {
    CounterpartyExposure {
        lender: p.0,
        borrower: p.1,
        open_principal: Amount(pair_principal(ls, p) as u64),
        open_interest: Amount(pair_interest(ls, p) as u64),
        collateral: Amount(pair_collateral(ls, p) as u64),
        loan_count: pair_loans(ls, p) as usize,
        overdue_count: pair_overdue(ls, p, now) as usize,
    }
}

/// The rows of a counterparty matrix over a list of loans: one row per pair with open loans,
/// in pair order, each summing that pair's open loans.
pub open spec fn matrix_rows(rows: Seq<CounterpartyExposure>, ls: Seq<LoanSnapshot>, now: Epoch) -> bool {
    &&& forall|i: int, j: int| 0 <= i < j < rows.len() ==> key_lt(row_pair(#[trigger] rows[i]), row_pair(#[trigger] rows[j]))
    &&& forall|i: int| 0 <= i < rows.len() ==> #[trigger] rows[i] == row_of(ls, row_pair(rows[i]), now)
    &&& forall|i: int| 0 <= i < rows.len() ==> pair_loans(ls, row_pair(#[trigger] rows[i])) > 0
    &&& forall|k: int| 0 <= k < ls.len() && is_open(#[trigger] ls[k]) ==> exists|i: int| 0 <= i < rows.len() && row_pair(rows[i]) == pair_of(ls[k])
}

/// Adding the next loan to every pair's sums.
pub proof fn lemma_pair_step(ls: Seq<LoanSnapshot>, k: int, p: VaultPair, now: Epoch)
    requires
        0 <= k < ls.len(),
    ensures
        pair_principal(ls.take(k + 1), p) == pair_principal(ls.take(k), p) + if in_pair(ls[k], p) { ls[k].remaining_principal.0 as int } else { 0int },
        pair_interest(ls.take(k + 1), p) == pair_interest(ls.take(k), p) + if in_pair(ls[k], p) { unpaid_interest(ls[k]) } else { 0int },
        pair_collateral(ls.take(k + 1), p) == pair_collateral(ls.take(k), p) + if in_pair(ls[k], p) { ls[k].collateral_locked.0 as int } else { 0int },
        pair_loans(ls.take(k + 1), p) == pair_loans(ls.take(k), p) + if in_pair(ls[k], p) { 1int } else { 0int },
        pair_overdue(ls.take(k + 1), p, now) == pair_overdue(ls.take(k), p, now) + if in_pair(ls[k], p) && overdue_at(ls[k], now) { 1int } else { 0int },
        open_principal_total(ls.take(k + 1)) == open_principal_total(ls.take(k)) + if is_open(ls[k]) { ls[k].remaining_principal.0 as int } else { 0int },
        open_interest_total(ls.take(k + 1)) == open_interest_total(ls.take(k)) + if is_open(ls[k]) { unpaid_interest(ls[k]) } else { 0int },
        open_collateral_total(ls.take(k + 1)) == open_collateral_total(ls.take(k)) + if is_open(ls[k]) { ls[k].collateral_locked.0 as int } else { 0int },
{
    lemma_sum_take_next(ls, k, |l: LoanSnapshot| if in_pair(l, p) { l.remaining_principal.0 as int } else { 0int });
    lemma_sum_take_next(ls, k, |l: LoanSnapshot| if in_pair(l, p) { unpaid_interest(l) } else { 0int });
    lemma_sum_take_next(ls, k, |l: LoanSnapshot| if in_pair(l, p) { l.collateral_locked.0 as int } else { 0int });
    lemma_sum_take_next(ls, k, |l: LoanSnapshot| if in_pair(l, p) { 1int } else { 0int });
    lemma_sum_take_next(ls, k, |l: LoanSnapshot| if in_pair(l, p) && overdue_at(l, now) { 1int } else { 0int });
    lemma_sum_take_next(ls, k, |l: LoanSnapshot| if is_open(l) { l.remaining_principal.0 as int } else { 0int });
    lemma_sum_take_next(ls, k, |l: LoanSnapshot| if is_open(l) { unpaid_interest(l) } else { 0int });
    lemma_sum_take_next(ls, k, |l: LoanSnapshot| if is_open(l) { l.collateral_locked.0 as int } else { 0int });
}

/// A pair's sums never exceed the totals over all open loans, nor its count their number.
pub proof fn lemma_pair_bounds(ls: Seq<LoanSnapshot>, p: VaultPair, now: Epoch)
    ensures
        pair_principal(ls, p) <= open_principal_total(ls),
        pair_interest(ls, p) <= open_interest_total(ls),
        pair_collateral(ls, p) <= open_collateral_total(ls),
        0 <= pair_loans(ls, p) <= ls.len(),
        0 <= pair_overdue(ls, p, now) <= pair_loans(ls, p),
        0 <= pair_principal(ls, p),
        0 <= pair_interest(ls, p),
        0 <= pair_collateral(ls, p),
{
    lemma_sum_pointwise_le(ls, |l: LoanSnapshot| if in_pair(l, p) { l.remaining_principal.0 as int } else { 0int }, |l: LoanSnapshot| if is_open(l) { l.remaining_principal.0 as int } else { 0int });
    lemma_sum_pointwise_le(ls, |l: LoanSnapshot| if in_pair(l, p) { unpaid_interest(l) } else { 0int }, |l: LoanSnapshot| if is_open(l) { unpaid_interest(l) } else { 0int });
    lemma_sum_pointwise_le(ls, |l: LoanSnapshot| if in_pair(l, p) { l.collateral_locked.0 as int } else { 0int }, |l: LoanSnapshot| if is_open(l) { l.collateral_locked.0 as int } else { 0int });
    lemma_sum_at_most(ls, |l: LoanSnapshot| if in_pair(l, p) { 1int } else { 0int }, 1);
    lemma_sum_pointwise_le(ls, |l: LoanSnapshot| if in_pair(l, p) && overdue_at(l, now) { 1int } else { 0int }, |l: LoanSnapshot| if in_pair(l, p) { 1int } else { 0int });
    lemma_sum_nonneg(ls, |l: LoanSnapshot| if in_pair(l, p) && overdue_at(l, now) { 1int } else { 0int });
    lemma_sum_nonneg(ls, |l: LoanSnapshot| if in_pair(l, p) { 1int } else { 0int });
    lemma_sum_nonneg(ls, |l: LoanSnapshot| if in_pair(l, p) { l.remaining_principal.0 as int } else { 0int });
    lemma_sum_nonneg(ls, |l: LoanSnapshot| if in_pair(l, p) { unpaid_interest(l) } else { 0int });
    lemma_sum_nonneg(ls, |l: LoanSnapshot| if in_pair(l, p) { l.collateral_locked.0 as int } else { 0int });
}

/// A pair with no open loan in a list has the empty row.
pub proof fn lemma_pair_absent(ls: Seq<LoanSnapshot>, p: VaultPair, now: Epoch)
    requires
        forall|j: int| 0 <= j < ls.len() ==> !in_pair(#[trigger] ls[j], p),
    ensures
        row_of(ls, p, now) == empty_pair(p.0, p.1),
        pair_loans(ls, p) == 0,
{
    lemma_sum_zero(ls, |l: LoanSnapshot| if in_pair(l, p) { l.remaining_principal.0 as int } else { 0int });
    lemma_sum_zero(ls, |l: LoanSnapshot| if in_pair(l, p) { unpaid_interest(l) } else { 0int });
    lemma_sum_zero(ls, |l: LoanSnapshot| if in_pair(l, p) { l.collateral_locked.0 as int } else { 0int });
    lemma_sum_zero(ls, |l: LoanSnapshot| if in_pair(l, p) { 1int } else { 0int });
    lemma_sum_zero(ls, |l: LoanSnapshot| if in_pair(l, p) && overdue_at(l, now) { 1int } else { 0int });
}

/// Open totals only grow along a list.
pub proof fn lemma_open_prefix(ls: Seq<LoanSnapshot>, k: int)
    requires
        0 <= k <= ls.len(),
    ensures
        open_principal_total(ls.take(k)) <= open_principal_total(ls),
        open_interest_total(ls.take(k)) <= open_interest_total(ls),
        open_collateral_total(ls.take(k)) <= open_collateral_total(ls),
{
    lemma_sum_prefix_le(ls, k, |l: LoanSnapshot| if is_open(l) { l.remaining_principal.0 as int } else { 0int });
    lemma_sum_prefix_le(ls, k, |l: LoanSnapshot| if is_open(l) { unpaid_interest(l) } else { 0int });
    lemma_sum_prefix_le(ls, k, |l: LoanSnapshot| if is_open(l) { l.collateral_locked.0 as int } else { 0int });
}

fn unpaid(l: &LoanSnapshot) -> (r: Amount)
    ensures
        r.0 == unpaid_interest(*l),
{
    l.scheduled_interest.saturating_sub(l.interest_paid)
}

impl ExposureMatrix {
    pub fn from_loans(loans: &[LoanSnapshot], now: Epoch) -> (r: KeystoneResult<Self>)
        ensures
            open_principal_total(loans@) > u64::MAX || open_interest_total(loans@) > u64::MAX
                || open_collateral_total(loans@) > u64::MAX ==> r == Err::<ExposureMatrix, KeystoneError>(
                KeystoneError::AmountOverflow,
            ),
            open_principal_total(loans@) <= u64::MAX && open_interest_total(loans@) <= u64::MAX
                && open_collateral_total(loans@) <= u64::MAX ==> (r matches Ok(m) && {
                &&& matrix_rows(m.rows@, loans@, now)
                &&& m.total_open_principal.0 == open_principal_total(loans@)
                &&& m.total_open_interest.0 == open_interest_total(loans@)
                &&& m.total_collateral.0 == open_collateral_total(loans@)
            }),
    {
        let mut rows: SortedMap<VaultPair, CounterpartyExposure> = SortedMap::new();
        let mut total_open_principal = Amount(0);
        let mut total_open_interest = Amount(0);
        let mut total_collateral = Amount(0);
        let ghost ls = loans@;
        let mut k: usize = 0;
        while k < loans.len()
            invariant
                ls == loans@,
                0 <= k <= ls.len(),
                rows.wf(),
                forall|i: int| 0 <= i < rows.keys@.len() ==> #[trigger] rows.keys@[i] == row_pair(rows.vals@[i]),
                forall|i: int| 0 <= i < rows.keys@.len() ==> #[trigger] rows.vals@[i] == row_of(ls.take(k as int), rows.keys@[i], now),
                forall|i: int| 0 <= i < rows.keys@.len() ==> pair_loans(ls.take(k as int), #[trigger] rows.keys@[i]) > 0,
                forall|j: int| 0 <= j < k && is_open(#[trigger] ls[j]) ==> rows.has(pair_of(ls[j])),
                total_open_principal.0 == open_principal_total(ls.take(k as int)),
                total_open_interest.0 == open_interest_total(ls.take(k as int)),
                total_collateral.0 == open_collateral_total(ls.take(k as int)),
            decreases ls.len() - k,
        {
            let loan = &loans[k];
            proof {
                assert forall|i: int| 0 <= i < rows.keys@.len() implies row_of(ls.take(k as int + 1), rows.keys@[i], now)
                    == (if in_pair(ls[k as int], rows.keys@[i]) {
                    CounterpartyExposure {
                        open_principal: Amount((rows.vals@[i].open_principal.0 + ls[k as int].remaining_principal.0) as u64),
                        open_interest: Amount((rows.vals@[i].open_interest.0 + unpaid_interest(ls[k as int])) as u64),
                        collateral: Amount((rows.vals@[i].collateral.0 + ls[k as int].collateral_locked.0) as u64),
                        loan_count: (rows.vals@[i].loan_count + 1) as usize,
                        overdue_count: if overdue_at(ls[k as int], now) { (rows.vals@[i].overdue_count + 1) as usize } else { rows.vals@[i].overdue_count },
                        ..rows.vals@[i]
                    }
                } else {
                    rows.vals@[i]
                }) && pair_loans(ls.take(k as int + 1), rows.keys@[i]) > 0 by {
                    lemma_pair_step(ls, k as int, rows.keys@[i], now);
                    lemma_pair_bounds(ls.take(k as int), rows.keys@[i], now);
                }
                lemma_pair_step(ls, k as int, pair_of(ls[k as int]), now);
                lemma_open_prefix(ls, k as int + 1);
            }
            if loan.status.is_terminal() {
                proof {
                    assert forall|j: int| 0 <= j < k + 1 && is_open(#[trigger] ls[j]) implies rows.has(pair_of(ls[j])) by {
                    }
                }
                k = k + 1;
                continue;
            }
            let key = VaultPair(loan.lender, loan.borrower);
            let remaining_interest = unpaid(loan);
            let overdue = now.0 > loan.due_epoch.0 || match loan.status {
                LoanStatus::Defaulted => true,
                _ => false,
            };
            let ghost before = rows;
            let i = match rows.find(&key) {
                Some(i) => i,
                None => {
                    proof {
                        assert forall|j: int| 0 <= j < k implies !in_pair(#[trigger] ls.take(k as int)[j], key) by {
                            assert(ls.take(k as int)[j] == ls[j]);
                        }
                        lemma_pair_absent(ls.take(k as int), key, now);
                    }
                    let p = rows.insert_new(key, CounterpartyExposure::new(loan.lender, loan.borrower));
                    proof {
                        assert forall|o: VaultPair| before.has(o) implies rows.has(o) by {
                            let q = choose|q: int| 0 <= q < before.keys@.len() && before.keys@[q] == o;
                            if q < p {
                                assert(rows.keys@[q] == o);
                            } else {
                                assert(rows.keys@[q + 1] == o);
                            }
                        }
                        assert forall|o: int| 0 <= o < rows.keys@.len() implies #[trigger] rows.keys@[o] == row_pair(rows.vals@[o])
                            && rows.vals@[o] == row_of(ls.take(k as int), rows.keys@[o], now) by {
                            if o < p {
                                assert(rows.keys@[o] == before.keys@[o]);
                                assert(rows.vals@[o] == before.vals@[o]);
                            } else if o > p {
                                assert(rows.keys@[o] == before.keys@[o - 1]);
                                assert(rows.vals@[o] == before.vals@[o - 1]);
                            }
                        }
                    }
                    p
                },
            };
            let ghost mid = rows;
            proof {
                lemma_key_index(rows.keys@, i as int);
                lemma_pair_bounds(ls.take(k as int), key, now);
                lemma_sum_at_most(ls.take(k as int), |l: LoanSnapshot| if in_pair(l, key) { 1int } else { 0int }, 1);
            }
            rows.vals[i].add_loan(loan.remaining_principal, remaining_interest, loan.collateral_locked, overdue)?;
            total_open_principal = total_open_principal.checked_add(loan.remaining_principal)?;
            total_open_interest = total_open_interest.checked_add(remaining_interest)?;
            total_collateral = total_collateral.checked_add(loan.collateral_locked)?;
            proof {
                assert forall|o: int| 0 <= o < rows.keys@.len() implies #[trigger] rows.keys@[o] == row_pair(rows.vals@[o])
                    && rows.vals@[o] == row_of(ls.take(k as int + 1), rows.keys@[o], now)
                    && pair_loans(ls.take(k as int + 1), rows.keys@[o]) > 0 by {
                    lemma_pair_step(ls, k as int, rows.keys@[o], now);
                    lemma_pair_bounds(ls.take(k as int), rows.keys@[o], now);
                    if o != i {
                        assert(rows.vals@[o] == mid.vals@[o]);
                        if rows.keys@[o] == rows.keys@[i as int] {
                            crate::keys::lemma_sorted_unique(rows.keys@, o, i as int);
                        }
                    }
                }
                assert forall|j: int| 0 <= j < k + 1 && is_open(#[trigger] ls[j]) implies rows.has(pair_of(ls[j])) by {
                    if j < k {
                        assert(before.has(pair_of(ls[j])));
                        assert(mid.has(pair_of(ls[j])));
                    } else {
                        assert(rows.keys@[i as int] == key);
                    }
                }
            }
            k = k + 1;
        }
        assert(ls.take(ls.len() as int) =~= ls);
        proof {
            assert forall|i: int, j: int| 0 <= i < j < rows.vals@.len() implies key_lt(row_pair(#[trigger] rows.vals@[i]), row_pair(#[trigger] rows.vals@[j])) by {
                assert(rows.keys@[i] == row_pair(rows.vals@[i]));
                assert(rows.keys@[j] == row_pair(rows.vals@[j]));
            }
            assert forall|q: int| 0 <= q < ls.len() && is_open(#[trigger] ls[q]) implies exists|i: int| 0 <= i < rows.vals@.len() && row_pair(rows.vals@[i]) == pair_of(ls[q]) by {
                assert(rows.has(pair_of(ls[q])));
                let i = choose|i: int| 0 <= i < rows.keys@.len() && rows.keys@[i] == pair_of(ls[q]);
                assert(rows.keys@[i] == row_pair(rows.vals@[i]));
            }
        }
        Ok(ExposureMatrix { rows: rows.vals, total_open_principal, total_open_interest, total_collateral })
    }
}

/// The number of rows with an overdue loan.
pub open spec fn overdue_rows(rows: Seq<CounterpartyExposure>) -> int {
    seq_sum(rows, |r: CounterpartyExposure| if r.overdue_count > 0 { 1int } else { 0int })
}

/// The row that `largest_pair` picks: the last among those with the most open principal.
pub open spec fn is_largest_at(rows: Seq<CounterpartyExposure>, i: int) -> bool {
    &&& 0 <= i < rows.len()
    &&& forall|j: int| 0 <= j < rows.len() ==> (#[trigger] rows[j]).open_principal.0 <= rows[i].open_principal.0
    &&& forall|j: int| i < j < rows.len() ==> (#[trigger] rows[j]).open_principal.0 < rows[i].open_principal.0
}

impl ExposureMatrix {
    pub fn pair(&self, lender: VaultId, borrower: VaultId) -> (r: Option<CounterpartyExposure>)
        ensures
            r is None <==> forall|i: int|
                0 <= i < self.rows@.len() ==> !((#[trigger] self.rows@[i]).lender == lender && self.rows@[i].borrower == borrower),
            r matches Some(x) ==> exists|i: int|
                0 <= i < self.rows@.len() && x == self.rows@[i] && x.lender == lender && x.borrower == borrower && forall|
                    j: int,
                | 0 <= j < i ==> !((#[trigger] self.rows@[j]).lender == lender && self.rows@[j].borrower == borrower),
    {
        let mut i: usize = 0;
        while i < self.rows.len()
            invariant
                0 <= i <= self.rows@.len(),
                forall|j: int| 0 <= j < i ==> !((#[trigger] self.rows@[j]).lender == lender && self.rows@[j].borrower == borrower),
            decreases self.rows@.len() - i,
        {
            let row = self.rows[i];
            if row.lender == lender && row.borrower == borrower {
                return Some(row);
            }
            i = i + 1;
        }
        None
    }

    pub fn pair_count(&self) -> (r: usize)
        ensures
            r == self.rows@.len(),
    {
        self.rows.len()
    }

    pub fn overdue_pair_count(&self) -> (r: usize)
        ensures
            r == overdue_rows(self.rows@),
    {
        let mut count: usize = 0;
        let mut i: usize = 0;
        while i < self.rows.len()
            invariant
                0 <= i <= self.rows@.len(),
                count == overdue_rows(self.rows@.take(i as int)),
            decreases self.rows@.len() - i,
        {
            proof {
                lemma_sum_take_next(self.rows@, i as int, |r: CounterpartyExposure| if r.overdue_count > 0 { 1int } else { 0int });
                lemma_sum_at_most(self.rows@.take(i as int), |r: CounterpartyExposure| if r.overdue_count > 0 { 1int } else { 0int }, 1);
            }
            if self.rows[i].overdue_count > 0 {
                count = count + 1;
            }
            i = i + 1;
        }
        assert(self.rows@.take(self.rows@.len() as int) =~= self.rows@);
        count
    }

    pub fn largest_pair(&self) -> (r: Option<CounterpartyExposure>)
        ensures
            self.rows@.len() == 0 ==> r is None,
            self.rows@.len() > 0 ==> (r matches Some(x) && exists|i: int| is_largest_at(self.rows@, i) && x == self.rows@[i]),
    {
        if self.rows.len() == 0 {
            return None;
        }
        let mut best: usize = 0;
        let mut i: usize = 1;
        while i < self.rows.len()
            invariant
                1 <= i <= self.rows@.len(),
                best < i,
                forall|j: int| 0 <= j < i ==> (#[trigger] self.rows@[j]).open_principal.0 <= self.rows@[best as int].open_principal.0,
                forall|j: int| best < j < i ==> (#[trigger] self.rows@[j]).open_principal.0 < self.rows@[best as int].open_principal.0,
            decreases self.rows@.len() - i,
        {
            if self.rows[i].open_principal.0 >= self.rows[best].open_principal.0 {
                best = i;
            }
            i = i + 1;
        }
        assert(is_largest_at(self.rows@, best as int));
        Some(self.rows[best])
    }

    pub fn collateralization_bps(&self) -> (r: KeystoneResult<Bps>)
        ensures
            r == (match amount_of(self.total_open_principal.0 + self.total_open_interest.0) {
                Err(e) => Err(e),
                Ok(debt) => if debt.0 == 0 {
                    Ok(Bps(10_000))
                } else {
                    ratio_bps(self.total_collateral.0 as int, debt.0 as int)
                },
            }),
    {
        let total_debt = self.total_open_principal.checked_add(self.total_open_interest)?;
        if total_debt.is_zero() {
            return Bps::strict(10_000);
        }
        checked_ratio_bps(self.total_collateral, total_debt)
    }

    pub fn concentration_bps(&self) -> (r: KeystoneResult<Bps>)
        ensures
            self.total_open_principal.0 == 0 ==> r == Ok::<Bps, KeystoneError>(Bps(0)),
            self.total_open_principal.0 != 0 && self.rows@.len() == 0 ==> r == ratio_bps(0, self.total_open_principal.0 as int),
            self.total_open_principal.0 != 0 && self.rows@.len() > 0 ==> exists|i: int|
                is_largest_at(self.rows@, i) && r == ratio_bps(self.rows@[i].open_principal.0 as int, self.total_open_principal.0 as int),
    {
        if self.total_open_principal.is_zero() {
            return Bps::strict(0);
        }
        let largest = match self.largest_pair() {
            Some(row) => row.open_principal,
            None => Amount(0),
        };
        checked_ratio_bps(largest, self.total_open_principal)
    }
}

/// The maturity bucket of a loan at an epoch: closed loans apart; defaulted, liquidating or past
/// their due epoch overdue; at or past maturity current; otherwise by the epochs left to
/// maturity, up to thirty short, up to ninety medium, beyond that long.
pub open spec fn bucket_of(l: LoanSnapshot, now: Epoch) -> MaturityBucketKind {
    if status_terminal(l.status) {
        MaturityBucketKind::Closed
    } else if l.status is Defaulted || l.status is Liquidating || now.0 > l.due_epoch.0 {
        MaturityBucketKind::Overdue
    } else if now.0 >= l.maturity_epoch.0 {
        MaturityBucketKind::Current
    } else if l.maturity_epoch.0 - now.0 <= 30 {
        MaturityBucketKind::Short
    } else if l.maturity_epoch.0 - now.0 <= 90 {
        MaturityBucketKind::Medium
    } else {
        MaturityBucketKind::Long
    }
}

fn bucket_for_loan(loan: &LoanSnapshot, now: Epoch) -> (r: MaturityBucketKind)
    ensures
        r == bucket_of(*loan, now),
{
    if loan.status.is_terminal() {
        return MaturityBucketKind::Closed;
    }
    let late = match loan.status {
        LoanStatus::Defaulted | LoanStatus::Liquidating => true,
        _ => false,
    };
    if late || now.0 > loan.due_epoch.0 {
        return MaturityBucketKind::Overdue;
    }
    if now.0 >= loan.maturity_epoch.0 {
        return MaturityBucketKind::Current;
    }
    let remaining = loan.maturity_epoch.0 - now.0;
    if remaining <= 30 {
        MaturityBucketKind::Short
    } else if remaining <= 90 {
        MaturityBucketKind::Medium
    } else {
        MaturityBucketKind::Long
    }
}

pub open spec fn bucket_principal(ls: Seq<LoanSnapshot>, k: MaturityBucketKind, now: Epoch) -> int {
    seq_sum(ls, |l: LoanSnapshot| if bucket_of(l, now) == k { l.remaining_principal.0 as int } else { 0int })
}

pub open spec fn bucket_interest(ls: Seq<LoanSnapshot>, k: MaturityBucketKind, now: Epoch) -> int {
    seq_sum(ls, |l: LoanSnapshot| if bucket_of(l, now) == k { unpaid_interest(l) } else { 0int })
}

pub open spec fn bucket_loans(ls: Seq<LoanSnapshot>, k: MaturityBucketKind, now: Epoch) -> int {
    seq_sum(ls, |l: LoanSnapshot| if bucket_of(l, now) == k { 1int } else { 0int })
}

/// The bucket of a kind over a list of loans.
pub open spec fn bucket_over(ls: Seq<LoanSnapshot>, k: MaturityBucketKind, now: Epoch) -> MaturityBucket {
    MaturityBucket {
        principal: Amount(bucket_principal(ls, k, now) as u64),
        interest: Amount(bucket_interest(ls, k, now) as u64),
        count: bucket_loans(ls, k, now) as usize,
    }
}

/// Every bucket's sums fit.
pub open spec fn buckets_fit(ls: Seq<LoanSnapshot>, now: Epoch) -> bool {
    forall|i: int| 0 <= i < 6 ==> bucket_principal(ls, kind_at(i), now) <= u64::MAX && bucket_interest(
        ls,
        kind_at(i),
        now,
    ) <= u64::MAX
}

/// The exposure row of a vault snapshot.
pub open spec fn vault_row(s: VaultSnapshot) -> ExposureRow {
    with_net(
        ExposureRow {
            vault: s.id,
            lent_principal: s.outstanding_principal,
            borrowed_principal: s.debt_principal,
            expected_interest: s.expected_interest,
            locked_collateral: s.locked_collateral,
            realized_interest: s.realized_interest,
            net_creditor_exposure: Amount(0),
            net_debtor_exposure: Amount(0),
        },
    )
}

/// The exposure map of a list of vault snapshots: one row per vault identity, from the last
/// snapshot with that identity.
pub open spec fn exposures_of(m: SortedMap<VaultId, ExposureRow>, vs: Seq<VaultSnapshot>) -> bool {
    &&& m.wf()
    &&& forall|i: int| 0 <= i < vs.len() ==> m.has(#[trigger] vs[i].id)
    &&& forall|o: VaultId| #[trigger] m.has(o) ==> exists|i: int|
        0 <= i < vs.len() && vs[i].id == o && m.at(o) == vault_row(vs[i]) && forall|j: int|
            i < j < vs.len() ==> (#[trigger] vs[j]).id != o
}

pub proof fn lemma_bucket_step(ls: Seq<LoanSnapshot>, k: int, b: MaturityBucketKind, now: Epoch)
    requires
        0 <= k < ls.len(),
    ensures
        bucket_principal(ls.take(k + 1), b, now) == bucket_principal(ls.take(k), b, now) + if bucket_of(ls[k], now) == b { ls[k].remaining_principal.0 as int } else { 0int },
        bucket_interest(ls.take(k + 1), b, now) == bucket_interest(ls.take(k), b, now) + if bucket_of(ls[k], now) == b { unpaid_interest(ls[k]) } else { 0int },
        bucket_loans(ls.take(k + 1), b, now) == bucket_loans(ls.take(k), b, now) + if bucket_of(ls[k], now) == b { 1int } else { 0int },
        0 <= bucket_loans(ls.take(k), b, now) <= k,
        bucket_principal(ls.take(k), b, now) >= 0,
        bucket_interest(ls.take(k), b, now) >= 0,
{
    lemma_sum_take_next(ls, k, |l: LoanSnapshot| if bucket_of(l, now) == b { l.remaining_principal.0 as int } else { 0int });
    lemma_sum_take_next(ls, k, |l: LoanSnapshot| if bucket_of(l, now) == b { unpaid_interest(l) } else { 0int });
    lemma_sum_take_next(ls, k, |l: LoanSnapshot| if bucket_of(l, now) == b { 1int } else { 0int });
    lemma_sum_at_most(ls.take(k), |l: LoanSnapshot| if bucket_of(l, now) == b { 1int } else { 0int }, 1);
    lemma_sum_nonneg(ls.take(k), |l: LoanSnapshot| if bucket_of(l, now) == b { 1int } else { 0int });
    lemma_sum_nonneg(ls.take(k), |l: LoanSnapshot| if bucket_of(l, now) == b { l.remaining_principal.0 as int } else { 0int });
    lemma_sum_nonneg(ls.take(k), |l: LoanSnapshot| if bucket_of(l, now) == b { unpaid_interest(l) } else { 0int });
}

pub proof fn lemma_bucket_prefix(ls: Seq<LoanSnapshot>, k: int, b: MaturityBucketKind, now: Epoch)
    requires
        0 <= k <= ls.len(),
    ensures
        bucket_principal(ls.take(k), b, now) <= bucket_principal(ls, b, now),
        bucket_interest(ls.take(k), b, now) <= bucket_interest(ls, b, now),
{
    lemma_sum_prefix_le(ls, k, |l: LoanSnapshot| if bucket_of(l, now) == b { l.remaining_principal.0 as int } else { 0int });
    lemma_sum_prefix_le(ls, k, |l: LoanSnapshot| if bucket_of(l, now) == b { unpaid_interest(l) } else { 0int });
}

/// The buckets after the first, which holds the closed loans.
pub open spec fn rest_of(bs: Seq<MaturityBucket>) -> Seq<MaturityBucket> {
    if bs.len() == 0 {
        Seq::empty()
    } else {
        bs.skip(1)
    }
}

/// The number of buckets after the first with any loan.
pub open spec fn open_buckets(bs: Seq<MaturityBucket>) -> int {
    seq_sum(rest_of(bs), |b: MaturityBucket| if b.count > 0 { 1int } else { 0int })
}

/// The loans in the buckets after the first.
pub open spec fn open_bucket_loans(bs: Seq<MaturityBucket>) -> int {
    seq_sum(rest_of(bs), |b: MaturityBucket| b.count as int)
}

pub open spec fn open_bucket_principal(bs: Seq<MaturityBucket>) -> int {
    seq_sum(rest_of(bs), |b: MaturityBucket| b.principal.0 as int)
}

pub open spec fn open_bucket_interest(bs: Seq<MaturityBucket>) -> int {
    seq_sum(rest_of(bs), |b: MaturityBucket| b.interest.0 as int)
}

/// Over every kind but closed, the buckets hold exactly the principal and unpaid interest of the
/// loans that are not closed.
proof fn lemma_open_kinds(ls: Seq<LoanSnapshot>, now: Epoch)
    ensures
        bucket_principal(ls, kind_at(1), now) + bucket_principal(ls, kind_at(2), now) + bucket_principal(
            ls,
            kind_at(3),
            now,
        ) + bucket_principal(ls, kind_at(4), now) + bucket_principal(ls, kind_at(5), now) == open_principal_total(ls),
        bucket_interest(ls, kind_at(1), now) + bucket_interest(ls, kind_at(2), now) + bucket_interest(
            ls,
            kind_at(3),
            now,
        ) + bucket_interest(ls, kind_at(4), now) + bucket_interest(ls, kind_at(5), now) == open_interest_total(ls),
    decreases ls.len(),
{
    if ls.len() > 0 {
        lemma_open_kinds(ls.drop_last(), now);
    }
}

/// The open principal and interest of a portfolio's buckets are those of the snapshot's loans
/// that are not closed, the same totals its counterparty matrix holds.
pub proof fn lemma_open_buckets_total(s: EngineSnapshot, a: PortfolioAnalytics)
    requires
        analytics_of(s, Ok(a)),
    ensures
        open_bucket_principal(a.buckets@) == open_principal_total(s.loans@),
        open_bucket_interest(a.buckets@) == open_interest_total(s.loans@),
        open_bucket_principal(a.buckets@) == a.matrix.total_open_principal.0,
{
    let ls = s.loans@;
    let now = s.epoch;
    let bs = a.buckets@;
    lemma_open_kinds(ls, now);
    assert(rest_of(bs) =~= seq![bs[1], bs[2], bs[3], bs[4], bs[5]]);
    assert forall|i: int| 1 <= i < 6 implies bs[i].principal.0 == bucket_principal(ls, kind_at(i), now)
        && bs[i].interest.0 == bucket_interest(ls, kind_at(i), now) by {
        assert(bs[i] == bucket_over(ls, kind_at(i), now));
        lemma_sum_nonneg(ls, |l: LoanSnapshot| if bucket_of(l, now) == kind_at(i) { l.remaining_principal.0 as int } else { 0int });
        lemma_sum_nonneg(ls, |l: LoanSnapshot| if bucket_of(l, now) == kind_at(i) { unpaid_interest(l) } else { 0int });
    }
    lemma_sum_of_five(rest_of(bs), |b: MaturityBucket| b.principal.0 as int);
    lemma_sum_of_five(rest_of(bs), |b: MaturityBucket| b.interest.0 as int);
}

/// A sum over five items, written out.
proof fn lemma_sum_of_five<T>(s: Seq<T>, f: spec_fn(T) -> int)
    requires
        s.len() == 5,
    ensures
        seq_sum(s, f) == f(s[0]) + f(s[1]) + f(s[2]) + f(s[3]) + f(s[4]),
{
    let s4 = s.drop_last();
    let s3 = s4.drop_last();
    let s2 = s3.drop_last();
    let s1 = s2.drop_last();
    let s0 = s1.drop_last();
    assert(seq_sum(s0, f) == 0);
    assert(seq_sum(s1, f) == f(s[0]));
    assert(seq_sum(s2, f) == f(s[0]) + f(s[1]));
    assert(seq_sum(s3, f) == f(s[0]) + f(s[1]) + f(s[2]));
    assert(seq_sum(s4, f) == f(s[0]) + f(s[1]) + f(s[2]) + f(s[3]));
}

/// What `from_snapshot` gives for a snapshot: the buckets of its loans, the exposure map of
/// its vaults and that map's concentration, and the counterparty matrix of its loans; or the
/// first error, an overflowing bucket, the concentration's error, then an overflowing total.
pub open spec fn analytics_of(s: EngineSnapshot, r: KeystoneResult<PortfolioAnalytics>) -> bool {
    let ls = s.loans@;
    let vs = s.vaults@;
    let totals_fit = open_principal_total(ls) <= u64::MAX && open_interest_total(ls) <= u64::MAX
        && open_collateral_total(ls) <= u64::MAX;
    match r {
        Err(e) => {
            ||| !buckets_fit(ls, s.epoch) && e == KeystoneError::AmountOverflow
            ||| buckets_fit(ls, s.epoch) && exists|m: SortedMap<VaultId, ExposureRow>|
                exposures_of(m, vs) && concentration_of(m) == Err::<PortfolioConcentration, KeystoneError>(e)
            ||| buckets_fit(ls, s.epoch) && !totals_fit && e == KeystoneError::AmountOverflow
        },
        Ok(a) => {
            &&& buckets_fit(ls, s.epoch)
            &&& totals_fit
            &&& a.epoch == s.epoch
            &&& a.buckets@.len() == 6
            &&& forall|i: int| 0 <= i < 6 ==> #[trigger] a.buckets@[i] == bucket_over(ls, kind_at(i), s.epoch)
            &&& exposures_of(a.exposures, vs)
            &&& concentration_of(a.exposures) == Ok::<PortfolioConcentration, KeystoneError>(a.concentration)
            &&& matrix_rows(a.matrix.rows@, ls, s.epoch)
            &&& a.matrix.total_open_principal.0 == open_principal_total(ls)
            &&& a.matrix.total_open_interest.0 == open_interest_total(ls)
            &&& a.matrix.total_collateral.0 == open_collateral_total(ls)
        },
    }
}

/// Exposure rows keyed by vault, the last row for a vault replacing earlier ones.
fn exposure_map(vaults: &Vec<VaultSnapshot>) -> (r: SortedMap<VaultId, ExposureRow>)
    ensures
        exposures_of(r, vaults@),
{
    let mut m: SortedMap<VaultId, ExposureRow> = SortedMap::new();
    let ghost vs = vaults@;
    let mut i: usize = 0;
    while i < vaults.len()
        invariant
            vs == vaults@,
            0 <= i <= vs.len(),
            exposures_of(m, vs.take(i as int)),
        decreases vs.len() - i,
    {
        let vault = &vaults[i];
        let mut row = ExposureRow::new(vault.id);
        let lent = row.add_lending(vault.outstanding_principal, vault.expected_interest);
        let borrowed = row.add_borrowing(vault.debt_principal, vault.locked_collateral);
        let realized = row.add_realized_interest(vault.realized_interest);
        assert(row == vault_row(vs[i as int]));
        let ghost before = m;
        let ghost next = vs.take(i as int + 1);
        assert(next.drop_last() =~= vs.take(i as int));
        match m.find(&vault.id) {
            Some(k) => {
                m.vals.set(k, row);
                proof {
                    lemma_key_index(before.keys@, k as int);
                    assert forall|j: int| 0 <= j < next.len() implies m.has(#[trigger] next[j].id) by {
                        if j < i {
                            assert(next[j] == vs.take(i as int)[j]);
                        }
                    }
                    assert forall|o: VaultId| #[trigger] m.has(o) implies exists|q: int|
                        0 <= q < next.len() && next[q].id == o && m.at(o) == vault_row(next[q]) && forall|j: int|
                            q < j < next.len() ==> (#[trigger] next[j]).id != o by {
                        SortedMap::<VaultId, ExposureRow>::lemma_at_update(before, m, k as int, row, o);
                        if o == vault.id {
                            assert(next[i as int] == vs[i as int]);
                        } else {
                            let q = choose|q: int|
                                0 <= q < vs.take(i as int).len() && vs.take(i as int)[q].id == o && before.at(o) == vault_row(
                                    vs.take(i as int)[q],
                                ) && forall|j: int| q < j < vs.take(i as int).len() ==> (#[trigger] vs.take(i as int)[j]).id != o;
                            assert(next[q] == vs.take(i as int)[q]);
                            assert forall|j: int| q < j < next.len() implies (#[trigger] next[j]).id != o by {
                                if j < i {
                                    assert(next[j] == vs.take(i as int)[j]);
                                }
                            }
                        }
                    }
                }
            },
            None => {
                let p = m.insert_new(vault.id, row);
                proof {
                    assert forall|j: int| 0 <= j < next.len() implies m.has(#[trigger] next[j].id) by {
                        SortedMap::<VaultId, ExposureRow>::lemma_at_insert(before, m, p as int, vault.id, row, next[j].id);
                        if j < i {
                            assert(next[j] == vs.take(i as int)[j]);
                        }
                    }
                    assert forall|o: VaultId| #[trigger] m.has(o) implies exists|q: int|
                        0 <= q < next.len() && next[q].id == o && m.at(o) == vault_row(next[q]) && forall|j: int|
                            q < j < next.len() ==> (#[trigger] next[j]).id != o by {
                        SortedMap::<VaultId, ExposureRow>::lemma_at_insert(before, m, p as int, vault.id, row, o);
                        if o == vault.id {
                            assert(next[i as int] == vs[i as int]);
                        } else {
                            let q = choose|q: int|
                                0 <= q < vs.take(i as int).len() && vs.take(i as int)[q].id == o && before.at(o) == vault_row(
                                    vs.take(i as int)[q],
                                ) && forall|j: int| q < j < vs.take(i as int).len() ==> (#[trigger] vs.take(i as int)[j]).id != o;
                            assert(next[q] == vs.take(i as int)[q]);
                            assert forall|j: int| q < j < next.len() implies (#[trigger] next[j]).id != o by {
                                if j < i {
                                    assert(next[j] == vs.take(i as int)[j]);
                                }
                            }
                        }
                    }
                }
            },
        }
        i = i + 1;
    }
    assert(vs.take(vs.len() as int) =~= vs);
    m
}

/// The six buckets hold what the first `k` loans put in them, and each total fits an amount.
pub open spec fn buckets_over_prefix(b: Seq<MaturityBucket>, ls: Seq<LoanSnapshot>, k: int, now: Epoch) -> bool {
    forall|i: int|
        0 <= i < 6 ==> #[trigger] b[i] == bucket_over(ls.take(k), kind_at(i), now) && bucket_principal(
            ls.take(k),
            kind_at(i),
            now,
        ) <= u64::MAX && bucket_interest(ls.take(k), kind_at(i), now) <= u64::MAX
}

/// The six maturity buckets of a list of loans, in kind order.
#[verifier::spinoff_prover]
fn bucket_list(loans: &Vec<LoanSnapshot>, now: Epoch) -> (r: KeystoneResult<Vec<MaturityBucket>>)
    ensures
        !buckets_fit(loans@, now) ==> r == Err::<Vec<MaturityBucket>, KeystoneError>(KeystoneError::AmountOverflow),
        buckets_fit(loans@, now) ==> (r matches Ok(b) && b@.len() == 6 && forall|i: int|
            0 <= i < 6 ==> #[trigger] b@[i] == bucket_over(loans@, kind_at(i), now)),
{
    let ghost ls = loans@;
    let mut buckets: Vec<MaturityBucket> = Vec::new();
    let mut n: usize = 0;
    while n < 6
        invariant
            0 <= n <= 6,
            buckets@.len() == n,
            forall|i: int| 0 <= i < n ==> #[trigger] buckets@[i] == MaturityBucket::default_value(),
        decreases 6 - n,
    {
        buckets.push(MaturityBucket::default());
        n = n + 1;
    }
    proof {
        assert(ls.take(0) =~= Seq::<LoanSnapshot>::empty());
        assert forall|i: int| 0 <= i < 6 implies #[trigger] buckets@[i] == bucket_over(ls.take(0), kind_at(i), now)
            && bucket_principal(ls.take(0), kind_at(i), now) <= u64::MAX && bucket_interest(ls.take(0), kind_at(i), now)
            <= u64::MAX by {
        }
        assert(buckets_over_prefix(buckets@, ls, 0, now));
    }
    let mut k: usize = 0;
    while k < loans.len()
        invariant
            ls == loans@,
            0 <= k <= ls.len(),
            buckets@.len() == 6,
            buckets_over_prefix(buckets@, ls, k as int, now),
        decreases ls.len() - k,
    {
        let loan = &loans[k];
        let kind = bucket_for_loan(loan, now);
        let idx = kind_position(kind);
        let remaining_interest = unpaid(loan);
        proof {
            lemma_bucket_step(ls, k as int, kind, now);
            lemma_bucket_prefix(ls, k as int + 1, kind, now);
            assert(kind_at(idx as int) == kind);
        }
        let ghost old_buckets = buckets@;
        let added = buckets[idx].add(loan.remaining_principal, remaining_interest);
        if let Err(e) = added {
            proof {
                assert(!(bucket_principal(ls, kind_at(idx as int), now) <= u64::MAX && bucket_interest(ls, kind_at(idx as int), now) <= u64::MAX));
            }
            return Err(e);
        }
        let ghost next = ls.take(k as int + 1);
        proof {
            assert forall|i: int| 0 <= i < 6 implies #[trigger] buckets@[i] == bucket_over(next, kind_at(i), now)
                && bucket_principal(next, kind_at(i), now) <= u64::MAX
                && bucket_interest(next, kind_at(i), now) <= u64::MAX by {
                lemma_bucket_step(ls, k as int, kind_at(i), now);
                if i != idx {
                    assert(buckets@[i] == old_buckets[i]);
                    assert(kind_at(i) != kind);
                }
            }
        }
        assert(buckets_over_prefix(buckets@, ls, k as int + 1, now));
        k = k + 1;
    }
    assert(ls.take(ls.len() as int) =~= ls);
    assert(buckets_over_prefix(buckets@, ls, ls.len() as int, now));
    assert forall|i: int| 0 <= i < 6 implies bucket_principal(ls, kind_at(i), now) <= u64::MAX && bucket_interest(
        ls,
        kind_at(i),
        now,
    ) <= u64::MAX by {
        assert(buckets@[i] == bucket_over(ls.take(ls.len() as int), kind_at(i), now));
    }
    Ok(buckets)
}

impl MaturityBucket {
    /// The empty bucket.
    pub open spec fn default_value() -> MaturityBucket {
        MaturityBucket { principal: Amount(0), interest: Amount(0), count: 0 }
    }
}

impl PortfolioAnalytics {
    pub fn from_snapshot(snapshot: &EngineSnapshot) -> (r: KeystoneResult<Self>)
        ensures
            analytics_of(*snapshot, r),
            buckets_fit(snapshot.loans@, snapshot.epoch) && open_principal_total(snapshot.loans@) <= u64::MAX
                && open_interest_total(snapshot.loans@) <= u64::MAX && open_collateral_total(snapshot.loans@) <= u64::MAX
                && (forall|m: SortedMap<VaultId, ExposureRow>| exposures_of(m, snapshot.vaults@) ==> concentration_of(m) is Ok)
                ==> r is Ok,
    {
        let buckets = bucket_list(&snapshot.loans, snapshot.epoch)?;
        let exposures = exposure_map(&snapshot.vaults);
        let concentration = PortfolioConcentration::from_exposures(&exposures)?;
        let matrix = ExposureMatrix::from_loans(snapshot.loans.as_slice(), snapshot.epoch)?;
        Ok(Self { epoch: snapshot.epoch, buckets, exposures, concentration, matrix })
    }

    pub fn from_engine(engine: &KeystoneEngine) -> (r: KeystoneResult<Self>)
        requires
            engine.wf(),
        ensures
            engine.snapshot_error() matches Some(e) ==> r == Err::<PortfolioAnalytics, KeystoneError>(e),
            engine.snapshot_error() is None ==> exists|s: EngineSnapshot| engine.snapshot_is(s) && analytics_of(s, r),
    {
        let snapshot = engine.snapshot()?;
        Self::from_snapshot(&snapshot)
    }

    pub fn bucket(&self, kind: MaturityBucketKind) -> (r: MaturityBucket)
        ensures
            kind_index(kind) < self.buckets@.len() ==> r == self.buckets@[kind_index(kind)],
            kind_index(kind) >= self.buckets@.len() ==> r == MaturityBucket::default_value(),
    {
        let idx = kind_position(kind);
        if idx < self.buckets.len() {
            self.buckets[idx]
        } else {
            MaturityBucket::default()
        }
    }

    pub fn bucket_count(&self, kind: MaturityBucketKind) -> (r: usize)
        ensures
            kind_index(kind) < self.buckets@.len() ==> r == self.buckets@[kind_index(kind)].count,
            kind_index(kind) >= self.buckets@.len() ==> r == 0,
    {
        self.bucket(kind).count
    }

    pub fn open_bucket_count(&self) -> (r: usize)
        ensures
            r == open_buckets(self.buckets@),
    {
        let ghost rest = rest_of(self.buckets@);
        let mut count: usize = 0;
        let mut i: usize = 1;
        if self.buckets.len() == 0 {
            return 0;
        }
        while i < self.buckets.len()
            invariant
                1 <= i <= self.buckets@.len(),
                rest == self.buckets@.skip(1),
                rest == rest_of(self.buckets@),
                count == seq_sum(rest.take(i - 1), |b: MaturityBucket| if b.count > 0 { 1int } else { 0int }),
            decreases self.buckets@.len() - i,
        {
            proof {
                lemma_sum_take_next(rest, i - 1, |b: MaturityBucket| if b.count > 0 { 1int } else { 0int });
                lemma_sum_at_most(rest.take(i - 1), |b: MaturityBucket| if b.count > 0 { 1int } else { 0int }, 1);
            }
            if self.buckets[i].count > 0 {
                count = count + 1;
            }
            i = i + 1;
        }
        assert(rest.take(rest.len() as int) =~= rest);
        count
    }

    pub fn total_bucket_debt(&self, kind: MaturityBucketKind) -> (r: KeystoneResult<Amount>)
        ensures
            kind_index(kind) < self.buckets@.len() ==> r == amount_of(
                self.buckets@[kind_index(kind)].principal.0 + self.buckets@[kind_index(kind)].interest.0,
            ),
            kind_index(kind) >= self.buckets@.len() ==> r == Ok::<Amount, KeystoneError>(Amount(0)),
    {
        self.bucket(kind).total()
    }

    pub fn has_overdue(&self) -> (r: bool)
        ensures
            r == ((kind_index(MaturityBucketKind::Overdue) < self.buckets@.len() && self.buckets@[5].count > 0)
                || overdue_rows(self.matrix.rows@) > 0),
    {
        self.bucket(MaturityBucketKind::Overdue).count > 0 || self.matrix.overdue_pair_count() > 0
    }

    pub fn open_loan_count(&self) -> (r: usize)
        requires
            open_bucket_loans(self.buckets@) <= usize::MAX,
        ensures
            r == open_bucket_loans(self.buckets@),
    {
        let ghost rest = rest_of(self.buckets@);
        if self.buckets.len() == 0 {
            return 0;
        }
        let mut count: usize = 0;
        let mut i: usize = 1;
        while i < self.buckets.len()
            invariant
                1 <= i <= self.buckets@.len(),
                rest == self.buckets@.skip(1),
                rest == rest_of(self.buckets@),
                seq_sum(rest, |b: MaturityBucket| b.count as int) <= usize::MAX,
                count == seq_sum(rest.take(i - 1), |b: MaturityBucket| b.count as int),
            decreases self.buckets@.len() - i,
        {
            proof {
                lemma_sum_take_next(rest, i - 1, |b: MaturityBucket| b.count as int);
                lemma_sum_prefix_le(rest, i as int, |b: MaturityBucket| b.count as int);
            }
            count = count + self.buckets[i].count;
            i = i + 1;
        }
        assert(rest.take(rest.len() as int) =~= rest);
        count
    }

    pub fn closed_loan_count(&self) -> (r: usize)
        ensures
            self.buckets@.len() > 0 ==> r == self.buckets@[0].count,
            self.buckets@.len() == 0 ==> r == 0,
    {
        self.bucket(MaturityBucketKind::Closed).count
    }

    pub fn has_active_credit(&self) -> (r: bool)
        requires
            open_bucket_loans(self.buckets@) <= usize::MAX,
        ensures
            r == (open_bucket_loans(self.buckets@) > 0),
    {
        self.open_loan_count() > 0
    }

    pub fn has_concentrated_pair(&self, threshold: Bps) -> (r: KeystoneResult<bool>)
        ensures
            self.matrix.total_open_principal.0 == 0 ==> r == Ok::<bool, KeystoneError>(0 > threshold.0),
            self.matrix.total_open_principal.0 != 0 && self.matrix.rows@.len() == 0 ==> r == (match ratio_bps(
                0,
                self.matrix.total_open_principal.0 as int,
            ) {
                Err(e) => Err(e),
                Ok(b) => Ok(b.0 > threshold.0),
            }),
            self.matrix.total_open_principal.0 != 0 && self.matrix.rows@.len() > 0 ==> exists|i: int|
                is_largest_at(self.matrix.rows@, i) && r == (match ratio_bps(
                    self.matrix.rows@[i].open_principal.0 as int,
                    self.matrix.total_open_principal.0 as int,
                ) {
                    Err(e) => Err(e),
                    Ok(b) => Ok(b.0 > threshold.0),
                }),
    {
        let bps = self.largest_pair_concentration_bps()?;
        Ok(bps.0 > threshold.0)
    }

    pub fn total_matrix_debt(&self) -> (r: KeystoneResult<Amount>)
        ensures
            r == amount_of(self.matrix.total_open_principal.0 + self.matrix.total_open_interest.0),
    {
        self.matrix.total_open_principal.checked_add(self.matrix.total_open_interest)
    }

    pub fn total_open_principal(&self) -> (r: KeystoneResult<Amount>)
        ensures
            r == amount_of(open_bucket_principal(self.buckets@)),
    {
        self.open_bucket_sum(true)
    }

    pub fn total_open_interest(&self) -> (r: KeystoneResult<Amount>)
        ensures
            r == amount_of(open_bucket_interest(self.buckets@)),
    {
        self.open_bucket_sum(false)
    }

    fn open_bucket_sum(&self, principal: bool) -> (r: KeystoneResult<Amount>)
        ensures
            r == amount_of(if principal { open_bucket_principal(self.buckets@) } else { open_bucket_interest(self.buckets@) }),
    {
        let ghost rest = rest_of(self.buckets@);
        proof {
            lemma_sum_nonneg(rest, |b: MaturityBucket| b.principal.0 as int);
            lemma_sum_nonneg(rest, |b: MaturityBucket| b.interest.0 as int);
        }
        if self.buckets.len() == 0 {
            return Ok(Amount(0));
        }
        let mut total: u64 = 0;
        let mut i: usize = 1;
        while i < self.buckets.len()
            invariant
                1 <= i <= self.buckets@.len(),
                rest == self.buckets@.skip(1),
                rest == rest_of(self.buckets@),
                total == (if principal {
                    seq_sum(rest.take(i - 1), |b: MaturityBucket| b.principal.0 as int)
                } else {
                    seq_sum(rest.take(i - 1), |b: MaturityBucket| b.interest.0 as int)
                }),
            decreases self.buckets@.len() - i,
        {
            proof {
                lemma_sum_take_next(rest, i - 1, |b: MaturityBucket| b.principal.0 as int);
                lemma_sum_take_next(rest, i - 1, |b: MaturityBucket| b.interest.0 as int);
                lemma_sum_prefix_le(rest, i as int, |b: MaturityBucket| b.principal.0 as int);
                lemma_sum_prefix_le(rest, i as int, |b: MaturityBucket| b.interest.0 as int);
            }
            let v = if principal { self.buckets[i].principal.0 } else { self.buckets[i].interest.0 };
            match total.checked_add(v) {
                Some(t) => {
                    total = t;
                },
                None => {
                    return Err(KeystoneError::AmountOverflow);
                },
            }
            i = i + 1;
        }
        assert(rest.take(rest.len() as int) =~= rest);
        Ok(Amount(total))
    }

    pub fn exposure(&self, vault: VaultId) -> (r: Option<ExposureRow>)
        requires
            self.exposures.wf(),
        ensures
            self.exposures.has(vault) ==> r == Some(self.exposures.at(vault)),
            !self.exposures.has(vault) ==> r is None,
    {
        match self.exposures.find(&vault) {
            Some(i) => {
                proof {
                    lemma_key_index(self.exposures.keys@, i as int);
                }
                Some(self.exposures.vals[i])
            },
            None => None,
        }
    }

    pub fn lender_count(&self) -> (r: usize)
        ensures
            r == seq_sum(self.exposures.vals@, |row: ExposureRow| if row.lent_principal.0 != 0 { 1int } else { 0int }),
    {
        self.count_rows(true)
    }

    pub fn borrower_count(&self) -> (r: usize)
        ensures
            r == seq_sum(self.exposures.vals@, |row: ExposureRow| if row.borrowed_principal.0 != 0 { 1int } else { 0int }),
    {
        self.count_rows(false)
    }

    fn count_rows(&self, lender: bool) -> (r: usize)
        ensures
            lender ==> r == seq_sum(self.exposures.vals@, |row: ExposureRow| if row.lent_principal.0 != 0 { 1int } else { 0int }),
            !lender ==> r == seq_sum(self.exposures.vals@, |row: ExposureRow| if row.borrowed_principal.0 != 0 { 1int } else { 0int }),
    {
        let ghost rows = self.exposures.vals@;
        let mut count: usize = 0;
        let mut i: usize = 0;
        while i < self.exposures.vals.len()
            invariant
                rows == self.exposures.vals@,
                0 <= i <= rows.len(),
                lender ==> count == seq_sum(rows.take(i as int), |row: ExposureRow| if row.lent_principal.0 != 0 { 1int } else { 0int }),
                !lender ==> count == seq_sum(rows.take(i as int), |row: ExposureRow| if row.borrowed_principal.0 != 0 { 1int } else { 0int }),
            decreases rows.len() - i,
        {
            proof {
                lemma_sum_take_next(rows, i as int, |row: ExposureRow| if row.lent_principal.0 != 0 { 1int } else { 0int });
                lemma_sum_take_next(rows, i as int, |row: ExposureRow| if row.borrowed_principal.0 != 0 { 1int } else { 0int });
                lemma_sum_at_most(rows.take(i as int), |row: ExposureRow| if row.lent_principal.0 != 0 { 1int } else { 0int }, 1);
                lemma_sum_at_most(rows.take(i as int), |row: ExposureRow| if row.borrowed_principal.0 != 0 { 1int } else { 0int }, 1);
            }
            let row = self.exposures.vals[i];
            let counted = if lender { row.lent_principal.0 != 0 } else { row.borrowed_principal.0 != 0 };
            if counted {
                count = count + 1;
            }
            i = i + 1;
        }
        assert(rows.take(rows.len() as int) =~= rows);
        count
    }

    pub fn counterparty_pair_count(&self) -> (r: usize)
        ensures
            r == self.matrix.rows@.len(),
    {
        self.matrix.pair_count()
    }

    pub fn overdue_pair_count(&self) -> (r: usize)
        ensures
            r == overdue_rows(self.matrix.rows@),
    {
        self.matrix.overdue_pair_count()
    }

    pub fn largest_pair_concentration_bps(&self) -> (r: KeystoneResult<Bps>)
        ensures
            self.matrix.total_open_principal.0 == 0 ==> r == Ok::<Bps, KeystoneError>(Bps(0)),
            self.matrix.total_open_principal.0 != 0 && self.matrix.rows@.len() == 0 ==> r == ratio_bps(
                0,
                self.matrix.total_open_principal.0 as int,
            ),
            self.matrix.total_open_principal.0 != 0 && self.matrix.rows@.len() > 0 ==> exists|i: int|
                is_largest_at(self.matrix.rows@, i) && r == ratio_bps(
                    self.matrix.rows@[i].open_principal.0 as int,
                    self.matrix.total_open_principal.0 as int,
                ),
    {
        self.matrix.concentration_bps()
    }
}

} // verus!
