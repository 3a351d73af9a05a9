use vstd::prelude::*;
use vstd::string::StringExecFns;

use crate::amount::{amount_diff, amount_of, Amount};
use crate::engine::{borrowed_principal, lent_principal, loan_snapshots_of, open_principal, EngineSnapshot, KeystoneEngine};
use crate::error::{KeystoneError, KeystoneResult};
use crate::ids::VaultId;
use crate::loan::{status_terminal, LoanSnapshot, LoanStatus};
use crate::sums::{lemma_sum_nonneg, lemma_sum_prefix_le, lemma_sum_take_next, seq_sum};
use crate::vault::{snapshot_matches, Vault, VaultSnapshot};

verus! {

/// Where a line of a vault's books stands.
#[derive(Clone, Copy, Debug, PartialEq, Eq, Structural)]
pub enum AccountingSide {
    Asset,
    Liability,
    Equity,
    Memo,
}

/// One line of a vault's books.
#[derive(Clone, Debug, PartialEq, Eq)]
pub struct AccountingLine {
    pub side: AccountingSide,
    pub code: String,
    pub amount: Amount,
}

/// The books of one vault: its lines and the total of each side.
#[derive(Clone, Debug, PartialEq, Eq)]
pub struct VaultAccounting {
    pub vault: VaultId,
    pub name: String,
    pub lines: Vec<AccountingLine>,
    pub assets: Amount,
    pub liabilities: Amount,
    pub equity: Amount,
}

/// The books of all vaults together, with open and closed loan principal.
#[derive(Clone, Copy, Debug, PartialEq, Eq, Structural)]
pub struct SystemAccounting {
    pub cash: Amount,
    pub locked_collateral: Amount,
    pub receivable_principal: Amount,
    pub receivable_interest: Amount,
    pub realized_interest: Amount,
    pub borrower_principal: Amount,
    pub borrower_interest: Amount,
    pub protocol_fees: Amount,
    pub equity: Amount,
    pub active_principal: Amount,
    pub terminal_principal: Amount,
}

/// The books of an engine.
#[derive(Clone, Debug, PartialEq, Eq)]
pub struct AccountingBook {
    pub vaults: Vec<VaultAccounting>,
    pub system: SystemAccounting,
    pub balanced: bool,
}

/// System totals that are all zero.
pub open spec fn zero_system() -> SystemAccounting {
    SystemAccounting {
        cash: Amount(0),
        locked_collateral: Amount(0),
        receivable_principal: Amount(0),
        receivable_interest: Amount(0),
        realized_interest: Amount(0),
        borrower_principal: Amount(0),
        borrower_interest: Amount(0),
        protocol_fees: Amount(0),
        equity: Amount(0),
        active_principal: Amount(0),
        terminal_principal: Amount(0),
    }
}

impl Default for SystemAccounting {
    fn default() -> (r: Self)
        ensures
            r == zero_system(),
    {
        SystemAccounting {
            cash: Amount(0),
            locked_collateral: Amount(0),
            receivable_principal: Amount(0),
            receivable_interest: Amount(0),
            realized_interest: Amount(0),
            borrower_principal: Amount(0),
            borrower_interest: Amount(0),
            protocol_fees: Amount(0),
            equity: Amount(0),
            active_principal: Amount(0),
            terminal_principal: Amount(0),
        }
    }
}

impl AccountingLine {
    pub fn asset(code: &str, amount: Amount) -> (r: Self)
        ensures
            r.side == AccountingSide::Asset && r.code@ == code@ && r.amount == amount,
    {
        Self { side: AccountingSide::Asset, code: String::from_str(code), amount }
    }

    pub fn liability(code: &str, amount: Amount) -> (r: Self)
        ensures
            r.side == AccountingSide::Liability && r.code@ == code@ && r.amount == amount,
    {
        Self { side: AccountingSide::Liability, code: String::from_str(code), amount }
    }

    pub fn equity(code: &str, amount: Amount) -> (r: Self)
        ensures
            r.side == AccountingSide::Equity && r.code@ == code@ && r.amount == amount,
    {
        Self { side: AccountingSide::Equity, code: String::from_str(code), amount }
    }

    pub fn memo(code: &str, amount: Amount) -> (r: Self)
        ensures
            r.side == AccountingSide::Memo && r.code@ == code@ && r.amount == amount,
    {
        Self { side: AccountingSide::Memo, code: String::from_str(code), amount }
    }
}

/// The total of the lines on one side.
pub open spec fn side_total(lines: Seq<AccountingLine>, side: AccountingSide) -> int {
    seq_sum(lines, |l: AccountingLine| if l.side == side { l.amount.0 as int } else { 0int })
}

/// A vault's assets in its books: cash, locked collateral, receivable principal and interest,
/// and the loss reserve.
pub open spec fn book_assets(s: VaultSnapshot) -> int {
    s.cash.0 + s.locked_collateral.0 + s.outstanding_principal.0 + s.expected_interest.0 + s.loss_reserve.0
}

/// A vault's liabilities in its books: borrowed principal and interest, and protocol fees.
pub open spec fn book_liabilities(s: VaultSnapshot) -> int {
    s.debt_principal.0 + s.debt_interest_due.0 + s.protocol_fees.0
}

/// Whether a line has a side, a code and an amount.
pub open spec fn line_is(l: AccountingLine, side: AccountingSide, code: &str, amount: Amount) -> bool {
    l.side == side && l.code@ == code@ && l.amount == amount
}

/// The books of a vault snapshot: eleven lines in a fixed order, and the total of each side.
pub open spec fn vault_books(s: VaultSnapshot, a: VaultAccounting) -> bool {
    let l = a.lines@;
    &&& a.vault == s.id
    &&& a.name@ == s.name@
    &&& l.len() == 11
    &&& line_is(l[0], AccountingSide::Asset, "cash", s.cash)
    &&& line_is(l[1], AccountingSide::Asset, "locked_collateral", s.locked_collateral)
    &&& line_is(l[2], AccountingSide::Asset, "receivable_principal", s.outstanding_principal)
    &&& line_is(l[3], AccountingSide::Asset, "receivable_interest", s.expected_interest)
    &&& line_is(l[4], AccountingSide::Asset, "loss_reserve", s.loss_reserve)
    &&& line_is(l[5], AccountingSide::Liability, "borrowed_principal", s.debt_principal)
    &&& line_is(l[6], AccountingSide::Liability, "borrowed_interest", s.debt_interest_due)
    &&& line_is(l[7], AccountingSide::Liability, "protocol_fees", s.protocol_fees)
    &&& line_is(l[8], AccountingSide::Equity, "net_asset_value", s.nav)
    &&& line_is(l[9], AccountingSide::Memo, "realized_interest", s.realized_interest)
    &&& line_is(l[10], AccountingSide::Memo, "distributed_interest", s.distributed_interest)
    &&& a.assets.0 == book_assets(s)
    &&& a.liabilities.0 == book_liabilities(s)
    &&& a.equity == s.nav
}

/// Whether the books of a vault snapshot balance: assets less liabilities equal its value; the
/// error where a side overflows or liabilities exceed assets.
pub open spec fn books_balance(s: VaultSnapshot) -> KeystoneResult<bool> {
    if book_assets(s) > u64::MAX || book_liabilities(s) > u64::MAX {
        Err(KeystoneError::AmountOverflow)
    } else if book_assets(s) < book_liabilities(s) {
        Err(KeystoneError::AmountUnderflow)
    } else {
        Ok(book_assets(s) - book_liabilities(s) == s.nav.0)
    }
}

fn sum_side(lines: &[AccountingLine], side: AccountingSide) -> (r: KeystoneResult<Amount>)
    ensures
        r == amount_of(side_total(lines@, side)),
{
    proof {
        lemma_sum_nonneg(lines@, |l: AccountingLine| if l.side == side { l.amount.0 as int } else { 0int });
    }
    let mut total: u64 = 0;
    let mut i: usize = 0;
    while i < lines.len()
        invariant
            0 <= i <= lines@.len(),
            total == side_total(lines@.take(i as int), side),
        decreases lines@.len() - i,
    {
        proof {
            lemma_sum_take_next(lines@, i as int, |l: AccountingLine| if l.side == side { l.amount.0 as int } else { 0int });
            lemma_sum_prefix_le(lines@, i as int + 1, |l: AccountingLine| if l.side == side { l.amount.0 as int } else { 0int });
        }
        if lines[i].side == side {
            match total.checked_add(lines[i].amount.0) {
                Some(t) => {
                    total = t;
                },
                None => {
                    return Err(KeystoneError::AmountOverflow);
                },
            }
        }
        i = i + 1;
    }
    assert(lines@.take(lines@.len() as int) =~= lines@);
    Ok(Amount(total))
}

/// Each line adds its amount to the total of its own side, and nothing to the others.
proof fn lemma_side_steps(l: Seq<AccountingLine>, n: int)
    requires
        0 <= n <= l.len(),
    ensures
        forall|i: int, side: AccountingSide|
            0 < i <= n ==> #[trigger] side_total(l.take(i), side) == side_total(l.take(i - 1), side) + (if l[i
                - 1].side == side {
                l[i - 1].amount.0 as int
            } else {
                0int
            }),
    decreases n,
{
    if n > 0 {
        lemma_side_steps(l, n - 1);
        assert forall|side: AccountingSide| #[trigger] side_total(l.take(n), side) == side_total(l.take(n - 1), side) + (
        if l[n - 1].side == side {
            l[n - 1].amount.0 as int
        } else {
            0int
        }) by {
            lemma_sum_take_next(l, n - 1, |x: AccountingLine| if x.side == side { x.amount.0 as int } else { 0int });
        }
    }
}

impl VaultAccounting {
    pub fn from_snapshot(snapshot: &VaultSnapshot) -> (r: KeystoneResult<Self>)
        ensures
            book_assets(*snapshot) > u64::MAX || book_liabilities(*snapshot) > u64::MAX ==> r == Err::<
                VaultAccounting,
                KeystoneError,
            >(KeystoneError::AmountOverflow),
            book_assets(*snapshot) <= u64::MAX && book_liabilities(*snapshot) <= u64::MAX ==> (r matches Ok(a)
                && vault_books(*snapshot, a)),
    {
        let lines = vec![
            AccountingLine::asset("cash", snapshot.cash),
            AccountingLine::asset("locked_collateral", snapshot.locked_collateral),
            AccountingLine::asset("receivable_principal", snapshot.outstanding_principal),
            AccountingLine::asset("receivable_interest", snapshot.expected_interest),
            AccountingLine::asset("loss_reserve", snapshot.loss_reserve),
            AccountingLine::liability("borrowed_principal", snapshot.debt_principal),
            AccountingLine::liability("borrowed_interest", snapshot.debt_interest_due),
            AccountingLine::liability("protocol_fees", snapshot.protocol_fees),
            AccountingLine::equity("net_asset_value", snapshot.nav),
            AccountingLine::memo("realized_interest", snapshot.realized_interest),
            AccountingLine::memo("distributed_interest", snapshot.distributed_interest),
        ];
        proof {
            Self::lemma_side_totals(lines@, *snapshot);
        }
        let assets = sum_side(lines.as_slice(), AccountingSide::Asset)?;
        let liabilities = sum_side(lines.as_slice(), AccountingSide::Liability)?;
        let equity = sum_side(lines.as_slice(), AccountingSide::Equity)?;
        Ok(Self { vault: snapshot.id, name: snapshot.name.clone(), lines, assets, liabilities, equity })
    }

    proof fn lemma_side_totals(l: Seq<AccountingLine>, s: VaultSnapshot)
        requires
            l.len() == 11,
            l[0].side == AccountingSide::Asset && l[0].amount == s.cash,
            l[1].side == AccountingSide::Asset && l[1].amount == s.locked_collateral,
            l[2].side == AccountingSide::Asset && l[2].amount == s.outstanding_principal,
            l[3].side == AccountingSide::Asset && l[3].amount == s.expected_interest,
            l[4].side == AccountingSide::Asset && l[4].amount == s.loss_reserve,
            l[5].side == AccountingSide::Liability && l[5].amount == s.debt_principal,
            l[6].side == AccountingSide::Liability && l[6].amount == s.debt_interest_due,
            l[7].side == AccountingSide::Liability && l[7].amount == s.protocol_fees,
            l[8].side == AccountingSide::Equity && l[8].amount == s.nav,
            l[9].side == AccountingSide::Memo,
            l[10].side == AccountingSide::Memo,
        ensures
            side_total(l, AccountingSide::Asset) == book_assets(s),
            side_total(l, AccountingSide::Liability) == book_liabilities(s),
            side_total(l, AccountingSide::Equity) == s.nav.0,
    {
        assert(l.take(0) =~= Seq::<AccountingLine>::empty());
        lemma_side_steps(l, 11);
        assert(l.take(11) =~= l);
    }

    pub fn computed_equity(&self) -> (r: KeystoneResult<Amount>)
        ensures
            r == amount_diff(self.assets.0 as int, self.liabilities.0 as int),
    {
        self.assets.checked_sub(self.liabilities)
    }

    pub fn is_balanced(&self) -> (r: KeystoneResult<bool>)
        ensures
            r == (match amount_diff(self.assets.0 as int, self.liabilities.0 as int) {
                Err(e) => Err(e),
                Ok(c) => Ok(c == self.equity),
            }),
    {
        let computed = self.computed_equity()?;
        Ok(computed.0 == self.equity.0)
    }

    pub fn line(&self, code: &str) -> (r: Option<Amount>)
        ensures
            r is None <==> forall|i: int| 0 <= i < self.lines@.len() ==> (#[trigger] self.lines@[i]).code@ != code@,
            r matches Some(a) ==> exists|i: int|
                0 <= i < self.lines@.len() && self.lines@[i].code@ == code@ && a == self.lines@[i].amount && forall|
                    j: int,
                | 0 <= j < i ==> (#[trigger] self.lines@[j]).code@ != code@,
    {
        let wanted = String::from_str(code);
        let mut i: usize = 0;
        while i < self.lines.len()
            invariant
                0 <= i <= self.lines@.len(),
                wanted@ == code@,
                forall|j: int| 0 <= j < i ==> (#[trigger] self.lines@[j]).code@ != code@,
            decreases self.lines@.len() - i,
        {
            if self.lines[i].code == wanted {
                return Some(self.lines[i].amount);
            }
            i = i + 1;
        }
        None
    }

    pub fn non_zero_lines(&self) -> (r: Vec<&AccountingLine>)
        ensures
            r@.len() == nonzero_lines(self.lines@).len(),
            forall|i: int| 0 <= i < r@.len() ==> *(#[trigger] r@[i]) == nonzero_lines(self.lines@)[i],
    {
        let mut out: Vec<&AccountingLine> = Vec::new();
        let mut i: usize = 0;
        while i < self.lines.len()
            invariant
                0 <= i <= self.lines@.len(),
                out@.len() == nonzero_lines(self.lines@.take(i as int)).len(),
                forall|j: int| 0 <= j < out@.len() ==> *(#[trigger] out@[j]) == nonzero_lines(self.lines@.take(i as int))[j],
            decreases self.lines@.len() - i,
        {
            assert(self.lines@.take(i as int + 1).drop_last() =~= self.lines@.take(i as int));
            let line = &self.lines[i];
            if line.amount.0 != 0 {
                out.push(line);
            }
            i = i + 1;
        }
        assert(self.lines@.take(self.lines@.len() as int) =~= self.lines@);
        out
    }
}

/// The lines of non-zero amount, in order.
pub open spec fn nonzero_lines(lines: Seq<AccountingLine>) -> Seq<AccountingLine>
    decreases lines.len(),
{
    if lines.len() == 0 {
        Seq::empty()
    } else {
        let prev = nonzero_lines(lines.drop_last());
        if lines.last().amount.0 != 0 {
            prev.push(lines.last())
        } else {
            prev
        }
    }
}

/// The system totals with the first `n` of a vault snapshot's balances added, in the order
/// cash, locked collateral, receivable principal and interest, realized interest, borrowed
/// principal and interest, protocol fees and equity.
pub open spec fn system_with(s: SystemAccounting, v: VaultSnapshot, n: int) -> SystemAccounting {
    SystemAccounting {
        cash: if n > 0 { Amount((s.cash.0 + v.cash.0) as u64) } else { s.cash },
        locked_collateral: if n > 1 { Amount((s.locked_collateral.0 + v.locked_collateral.0) as u64) } else { s.locked_collateral },
        receivable_principal: if n > 2 { Amount((s.receivable_principal.0 + v.outstanding_principal.0) as u64) } else { s.receivable_principal },
        receivable_interest: if n > 3 { Amount((s.receivable_interest.0 + v.expected_interest.0) as u64) } else { s.receivable_interest },
        realized_interest: if n > 4 { Amount((s.realized_interest.0 + v.realized_interest.0) as u64) } else { s.realized_interest },
        borrower_principal: if n > 5 { Amount((s.borrower_principal.0 + v.debt_principal.0) as u64) } else { s.borrower_principal },
        borrower_interest: if n > 6 { Amount((s.borrower_interest.0 + v.debt_interest_due.0) as u64) } else { s.borrower_interest },
        protocol_fees: if n > 7 { Amount((s.protocol_fees.0 + v.protocol_fees.0) as u64) } else { s.protocol_fees },
        equity: if n > 8 { Amount((s.equity.0 + v.nav.0) as u64) } else { s.equity },
        ..s
    }
}

/// Adding a vault snapshot to the system totals: the first total that overflows stops the
/// others, and what was added before it stays.
pub open spec fn add_vault_outcome(s: SystemAccounting, v: VaultSnapshot) -> (KeystoneResult<()>, SystemAccounting) {
    if s.cash.0 + v.cash.0 > u64::MAX {
        (Err(KeystoneError::AmountOverflow), system_with(s, v, 0))
    } else if s.locked_collateral.0 + v.locked_collateral.0 > u64::MAX {
        (Err(KeystoneError::AmountOverflow), system_with(s, v, 1))
    } else if s.receivable_principal.0 + v.outstanding_principal.0 > u64::MAX {
        (Err(KeystoneError::AmountOverflow), system_with(s, v, 2))
    } else if s.receivable_interest.0 + v.expected_interest.0 > u64::MAX {
        (Err(KeystoneError::AmountOverflow), system_with(s, v, 3))
    } else if s.realized_interest.0 + v.realized_interest.0 > u64::MAX {
        (Err(KeystoneError::AmountOverflow), system_with(s, v, 4))
    } else if s.borrower_principal.0 + v.debt_principal.0 > u64::MAX {
        (Err(KeystoneError::AmountOverflow), system_with(s, v, 5))
    } else if s.borrower_interest.0 + v.debt_interest_due.0 > u64::MAX {
        (Err(KeystoneError::AmountOverflow), system_with(s, v, 6))
    } else if s.protocol_fees.0 + v.protocol_fees.0 > u64::MAX {
        (Err(KeystoneError::AmountOverflow), system_with(s, v, 7))
    } else if s.equity.0 + v.nav.0 > u64::MAX {
        (Err(KeystoneError::AmountOverflow), system_with(s, v, 8))
    } else {
        (Ok(()), system_with(s, v, 9))
    }
}

/// Adding a loan snapshot to the system totals: its remaining principal goes to closed or open
/// principal by its status.
pub open spec fn add_loan_outcome(s: SystemAccounting, l: LoanSnapshot) -> (KeystoneResult<()>, SystemAccounting) {
    if status_terminal(l.status) {
        if s.terminal_principal.0 + l.remaining_principal.0 > u64::MAX {
            (Err(KeystoneError::AmountOverflow), s)
        } else {
            (Ok(()), SystemAccounting { terminal_principal: Amount((s.terminal_principal.0 + l.remaining_principal.0) as u64), ..s })
        }
    } else {
        if s.active_principal.0 + l.remaining_principal.0 > u64::MAX {
            (Err(KeystoneError::AmountOverflow), s)
        } else {
            (Ok(()), SystemAccounting { active_principal: Amount((s.active_principal.0 + l.remaining_principal.0) as u64), ..s })
        }
    }
}

impl SystemAccounting {
    pub fn add_vault(&mut self, snapshot: &VaultSnapshot) -> (r: KeystoneResult<()>)
        ensures
            (r, *final(self)) == add_vault_outcome(*old(self), *snapshot),
    {
        self.cash = self.cash.checked_add(snapshot.cash)?;
        self.locked_collateral = self.locked_collateral.checked_add(snapshot.locked_collateral)?;
        self.receivable_principal = self.receivable_principal.checked_add(snapshot.outstanding_principal)?;
        self.receivable_interest = self.receivable_interest.checked_add(snapshot.expected_interest)?;
        self.realized_interest = self.realized_interest.checked_add(snapshot.realized_interest)?;
        self.borrower_principal = self.borrower_principal.checked_add(snapshot.debt_principal)?;
        self.borrower_interest = self.borrower_interest.checked_add(snapshot.debt_interest_due)?;
        self.protocol_fees = self.protocol_fees.checked_add(snapshot.protocol_fees)?;
        self.equity = self.equity.checked_add(snapshot.nav)?;
        Ok(())
    }

    pub fn add_loan(&mut self, snapshot: &LoanSnapshot) -> (r: KeystoneResult<()>)
        ensures
            (r, *final(self)) == add_loan_outcome(*old(self), *snapshot),
    {
        if snapshot.status.is_terminal() {
            self.terminal_principal = self.terminal_principal.checked_add(snapshot.remaining_principal)?;
        } else {
            self.active_principal = self.active_principal.checked_add(snapshot.remaining_principal)?;
        }
        Ok(())
    }

    pub fn net_cash_assets(&self) -> (r: KeystoneResult<Amount>)
        ensures
            r == amount_of(self.cash.0 + self.locked_collateral.0),
    {
        self.cash.checked_add(self.locked_collateral)
    }

    pub fn receivables(&self) -> (r: KeystoneResult<Amount>)
        ensures
            r == amount_of(self.receivable_principal.0 + self.receivable_interest.0),
    {
        self.receivable_principal.checked_add(self.receivable_interest)
    }

    pub fn borrower_debts(&self) -> (r: KeystoneResult<Amount>)
        ensures
            r == amount_of(self.borrower_principal.0 + self.borrower_interest.0),
    {
        self.borrower_principal.checked_add(self.borrower_interest)
    }

    pub fn accounting_spread(&self) -> (r: KeystoneResult<i128>)
        ensures
            self.receivable_principal.0 + self.receivable_interest.0 > u64::MAX ==> r == Err::<i128, KeystoneError>(
                KeystoneError::AmountOverflow,
            ),
            self.receivable_principal.0 + self.receivable_interest.0 <= u64::MAX && self.borrower_principal.0
                + self.borrower_interest.0 > u64::MAX ==> r == Err::<i128, KeystoneError>(KeystoneError::AmountOverflow),
            self.receivable_principal.0 + self.receivable_interest.0 <= u64::MAX && self.borrower_principal.0
                + self.borrower_interest.0 <= u64::MAX ==> r == Ok::<i128, KeystoneError>(
                (self.receivable_principal.0 + self.receivable_interest.0 - self.borrower_principal.0
                    - self.borrower_interest.0) as i128,
            ),
    {
        let receivables = self.receivables()?.0 as i128;
        let debts = self.borrower_debts()?.0 as i128;
        Ok(receivables - debts)
    }

    pub fn principal_matched(&self) -> (r: bool)
        ensures
            r == (self.receivable_principal == self.borrower_principal),
    {
        self.receivable_principal.0 == self.borrower_principal.0
    }

    pub fn active_principal_matched(&self) -> (r: bool)
        ensures
            r == (self.receivable_principal == self.active_principal),
    {
        self.receivable_principal.0 == self.active_principal.0
    }
}

/// The system totals and balance flag after the vaults of a snapshot, or the first error: for
/// each vault in order, its balances join the totals, then its own books are made and checked.
pub open spec fn book_vaults(vs: Seq<VaultSnapshot>) -> KeystoneResult<(SystemAccounting, bool)>
    decreases vs.len(),
{
    if vs.len() == 0 {
        Ok((zero_system(), true))
    } else {
        match book_vaults(vs.drop_last()) {
            Err(e) => Err(e),
            Ok(prev) => {
                let added = add_vault_outcome(prev.0, vs.last());
                if added.0 is Err {
                    Err(added.0->Err_0)
                } else {
                    match books_balance(vs.last()) {
                        Err(e) => Err(e),
                        Ok(ok) => Ok((added.1, prev.1 && ok)),
                    }
                }
            },
        }
    }
}

/// The system totals after the loans of a snapshot, or the first error.
pub open spec fn book_loans(s: SystemAccounting, ls: Seq<LoanSnapshot>) -> KeystoneResult<SystemAccounting>
    decreases ls.len(),
{
    if ls.len() == 0 {
        Ok(s)
    } else {
        match book_loans(s, ls.drop_last()) {
            Err(e) => Err(e),
            Ok(prev) => {
                let added = add_loan_outcome(prev, ls.last());
                if added.0 is Err {
                    Err(added.0->Err_0)
                } else {
                    Ok(added.1)
                }
            },
        }
    }
}

/// The books of a snapshot: each vault's books in order, the system totals of vaults and loans,
/// and whether every vault's books balance.
pub open spec fn books_of(s: EngineSnapshot, r: KeystoneResult<AccountingBook>) -> bool {
    match book_vaults(s.vaults@) {
        Err(e) => r == Err::<AccountingBook, KeystoneError>(e),
        Ok(v) => match book_loans(v.0, s.loans@) {
            Err(e) => r == Err::<AccountingBook, KeystoneError>(e),
            Ok(system) => r matches Ok(book) && {
                &&& book.system == system
                &&& book.balanced == v.1
                &&& book.vaults@.len() == s.vaults@.len()
                &&& forall|i: int| 0 <= i < s.vaults@.len() ==> vault_books(s.vaults@[i], #[trigger] book.vaults@[i])
            },
        },
    }
}

/// Where every vault's books balance, the book made from them is marked balanced.
proof fn lemma_book_vaults_balanced(vs: Seq<VaultSnapshot>)
    requires
        forall|i: int| 0 <= i < vs.len() ==> books_balance(#[trigger] vs[i]) == Ok::<bool, KeystoneError>(true),
    ensures
        book_vaults(vs) matches Ok(v) ==> v.1,
    decreases vs.len(),
{
    if vs.len() > 0 {
        let prefix = vs.drop_last();
        assert forall|i: int| 0 <= i < prefix.len() implies books_balance(#[trigger] prefix[i]) == Ok::<
            bool,
            KeystoneError,
        >(true) by {
            assert(prefix[i] == vs[i]);
        }
        lemma_book_vaults_balanced(prefix);
        assert(books_balance(vs[vs.len() - 1]) == Ok::<bool, KeystoneError>(true));
    }
}

/// The books of an engine balance in every state it can reach: wherever its accounting book can
/// be made, the book is marked balanced, and each vault's assets less its liabilities equal its
/// net asset value.
pub proof fn lemma_engine_books_balance(engine: KeystoneEngine, s: EngineSnapshot, book: AccountingBook)
    requires
        engine.wf(),
        engine.snapshot_is(s),
        books_of(s, Ok(book)),
    ensures
        book.balanced,
        forall|i: int|
            0 <= i < book.vaults@.len() ==> (#[trigger] book.vaults@[i]).assets.0 >= book.vaults@[i].liabilities.0
                && book.vaults@[i].assets.0 - book.vaults@[i].liabilities.0 == book.vaults@[i].equity.0,
{
    let ev = engine.spec_vaults().vals@;
    let vs = s.vaults@;
    assert forall|i: int| 0 <= i < vs.len() implies books_balance(#[trigger] vs[i]) == Ok::<bool, KeystoneError>(
        true,
    ) by {
        assert(snapshot_matches(ev[i], Ok(vs[i])));
        assert(ev[i].pending_redemptions == Amount(0));
    }
    lemma_book_vaults_balanced(vs);
    assert forall|i: int| 0 <= i < book.vaults@.len() implies (#[trigger] book.vaults@[i]).assets.0
        >= book.vaults@[i].liabilities.0 && book.vaults@[i].assets.0 - book.vaults@[i].liabilities.0
        == book.vaults@[i].equity.0 by {
        assert(vault_books(vs[i], book.vaults@[i]));
        assert(books_balance(vs[i]) == Ok::<bool, KeystoneError>(true));
    }
}

/// Open principal over loan snapshots: the remaining principal of every loan that is not closed.
pub open spec fn open_snapshot_principal(ls: Seq<LoanSnapshot>) -> int {
    seq_sum(ls, |l: LoanSnapshot| if status_terminal(l.status) { 0int } else { l.remaining_principal.0 as int })
}

/// Closed principal over loan snapshots: the remaining principal of every loan that is closed.
pub open spec fn closed_snapshot_principal(ls: Seq<LoanSnapshot>) -> int {
    seq_sum(ls, |l: LoanSnapshot| if status_terminal(l.status) { l.remaining_principal.0 as int } else { 0int })
}

/// The system totals of a book: equity, receivable and borrowed principal summed over the
/// vault snapshots, and the remaining principal of the loans split into open and closed.
pub proof fn lemma_book_totals(s: EngineSnapshot, book: AccountingBook)
    requires
        books_of(s, Ok(book)),
    ensures
        book.system.equity.0 == seq_sum(s.vaults@, |x: VaultSnapshot| x.nav.0 as int),
        book.system.receivable_principal.0 == seq_sum(s.vaults@, |x: VaultSnapshot| x.outstanding_principal.0 as int),
        book.system.borrower_principal.0 == seq_sum(s.vaults@, |x: VaultSnapshot| x.debt_principal.0 as int),
        book.system.active_principal.0 == open_snapshot_principal(s.loans@),
        book.system.terminal_principal.0 == closed_snapshot_principal(s.loans@),
{
    lemma_book_vault_sums(s.vaults@);
    lemma_book_loan_sums(book_vaults(s.vaults@)->Ok_0.0, s.loans@);
}

/// The books of a vault of an engine: its assets, liabilities and equity are the gross assets,
/// liabilities and net asset value of its snapshot, and they balance.
pub proof fn lemma_vault_books_match(v: Vault, snapshot: VaultSnapshot, a: VaultAccounting)
    requires
        v.pending_redemptions == Amount(0),
        snapshot_matches(v, Ok(snapshot)),
        vault_books(snapshot, a),
    ensures
        a.assets == snapshot.gross_assets,
        a.liabilities == snapshot.liabilities,
        a.equity == snapshot.nav,
        a.assets.0 - a.liabilities.0 == a.equity.0,
{
}

/// The system totals of vault snapshots sum what lenders have lent and borrowers owe, and hold
/// no loan principal yet.
proof fn lemma_book_vault_sums(vs: Seq<VaultSnapshot>)
    ensures
        book_vaults(vs) matches Ok(v) ==> {
            &&& v.0.receivable_principal.0 == seq_sum(vs, |x: VaultSnapshot| x.outstanding_principal.0 as int)
            &&& v.0.borrower_principal.0 == seq_sum(vs, |x: VaultSnapshot| x.debt_principal.0 as int)
            &&& v.0.equity.0 == seq_sum(vs, |x: VaultSnapshot| x.nav.0 as int)
            &&& v.0.active_principal.0 == 0
            &&& v.0.terminal_principal.0 == 0
        },
    decreases vs.len(),
{
    if vs.len() > 0 {
        lemma_book_vault_sums(vs.drop_last());
    }
}

/// Adding loan snapshots to system totals keeps the vault totals and adds the open principal.
proof fn lemma_book_loan_sums(s: SystemAccounting, ls: Seq<LoanSnapshot>)
    ensures
        book_loans(s, ls) matches Ok(t) ==> {
            &&& t.receivable_principal == s.receivable_principal
            &&& t.borrower_principal == s.borrower_principal
            &&& t.equity == s.equity
            &&& t.active_principal.0 == s.active_principal.0 + open_snapshot_principal(ls)
            &&& t.terminal_principal.0 == s.terminal_principal.0 + closed_snapshot_principal(ls)
        },
    decreases ls.len(),
{
    if ls.len() > 0 {
        lemma_book_loan_sums(s, ls.drop_last());
    }
}

/// The snapshots of vaults carry what each has lent and owes.
proof fn lemma_snapshot_vault_sums(vs: Seq<Vault>, ss: Seq<VaultSnapshot>)
    requires
        vs.len() == ss.len(),
        forall|i: int| 0 <= i < vs.len() ==> snapshot_matches(vs[i], Ok(#[trigger] ss[i])),
    ensures
        seq_sum(ss, |x: VaultSnapshot| x.outstanding_principal.0 as int) == lent_principal(vs),
        seq_sum(ss, |x: VaultSnapshot| x.debt_principal.0 as int) == borrowed_principal(vs),
    decreases vs.len(),
{
    if vs.len() > 0 {
        let n = vs.len() - 1;
        assert forall|i: int| 0 <= i < n implies snapshot_matches(vs.drop_last()[i], Ok(#[trigger] ss.drop_last()[i])) by {
            assert(snapshot_matches(vs[i], Ok(ss[i])));
        }
        lemma_snapshot_vault_sums(vs.drop_last(), ss.drop_last());
        assert(snapshot_matches(vs[n], Ok(ss[n])));
    }
}

/// The snapshots of loans carry the principal each has open.
proof fn lemma_snapshot_loan_sums(ls: Seq<crate::loan::LoanState>)
    requires
        loan_snapshots_of(ls) is Ok,
    ensures
        open_snapshot_principal(loan_snapshots_of(ls)->Ok_0) == open_principal(ls),
    decreases ls.len(),
{
    if ls.len() > 0 {
        lemma_snapshot_loan_sums(ls.drop_last());
        let prefix = loan_snapshots_of(ls.drop_last())->Ok_0;
        let all = loan_snapshots_of(ls)->Ok_0;
        assert(all.drop_last() =~= prefix);
    }
}

/// The books of a balanced engine agree on principal: what lenders have lent and what borrowers
/// owe are both the principal its open loans carry.
pub proof fn lemma_engine_books_principal(engine: KeystoneEngine, s: EngineSnapshot, book: AccountingBook)
    requires
        engine.wf(),
        engine.balanced(),
        engine.snapshot_is(s),
        books_of(s, Ok(book)),
    ensures
        book.system.receivable_principal == book.system.active_principal,
        book.system.borrower_principal == book.system.active_principal,
{
    let v = book_vaults(s.vaults@)->Ok_0;
    lemma_book_vault_sums(s.vaults@);
    lemma_book_loan_sums(v.0, s.loans@);
    lemma_snapshot_vault_sums(engine.spec_vaults().vals@, s.vaults@);
    lemma_snapshot_loan_sums(engine.spec_loans().vals@);
}

impl AccountingBook {
    pub fn from_snapshot(snapshot: &EngineSnapshot) -> (r: KeystoneResult<Self>)
        ensures
            books_of(*snapshot, r),
    {
        let ghost vs = snapshot.vaults@;
        let ghost ls = snapshot.loans@;
        let mut vaults: Vec<VaultAccounting> = Vec::new();
        let mut system = SystemAccounting::default();
        let mut balanced = true;
        let mut i: usize = 0;
        while i < snapshot.vaults.len()
            invariant
                vs == snapshot.vaults@,
                0 <= i <= vs.len(),
                book_vaults(vs.take(i as int)) == Ok::<(SystemAccounting, bool), KeystoneError>((system, balanced)),
                vaults@.len() == i,
                forall|j: int| 0 <= j < i ==> vault_books(vs[j], #[trigger] vaults@[j]),
            decreases vs.len() - i,
        {
            assert(vs.take(i as int + 1).drop_last() =~= vs.take(i as int));
            let vault = &snapshot.vaults[i];
            let added = system.add_vault(vault);
            if let Err(e) = added {
                proof {
                    Self::lemma_vault_error_persists(vs, i as int + 1);
                }
                return Err(e);
            }
            let accounting = match VaultAccounting::from_snapshot(vault) {
                Ok(a) => a,
                Err(e) => {
                    proof {
                        Self::lemma_vault_error_persists(vs, i as int + 1);
                    }
                    return Err(e);
                },
            };
            let ok = match accounting.is_balanced() {
                Ok(b) => b,
                Err(e) => {
                    proof {
                        Self::lemma_vault_error_persists(vs, i as int + 1);
                    }
                    return Err(e);
                },
            };
            balanced = balanced && ok;
            vaults.push(accounting);
            i = i + 1;
        }
        assert(vs.take(vs.len() as int) =~= vs);
        let ghost after_vaults = system;
        let mut k: usize = 0;
        while k < snapshot.loans.len()
            invariant
                ls == snapshot.loans@,
                vs == snapshot.vaults@,
                book_vaults(vs) == Ok::<(SystemAccounting, bool), KeystoneError>((after_vaults, balanced)),
                vaults@.len() == vs.len(),
                forall|j: int| 0 <= j < vs.len() ==> vault_books(vs[j], #[trigger] vaults@[j]),
                0 <= k <= ls.len(),
                book_loans(after_vaults, ls.take(k as int)) == Ok::<SystemAccounting, KeystoneError>(system),
            decreases ls.len() - k,
        {
            assert(ls.take(k as int + 1).drop_last() =~= ls.take(k as int));
            let added = system.add_loan(&snapshot.loans[k]);
            if let Err(e) = added {
                proof {
                    Self::lemma_loan_error_persists(after_vaults, ls, k as int + 1);
                }
                return Err(e);
            }
            k = k + 1;
        }
        assert(ls.take(ls.len() as int) =~= ls);
        Ok(Self { vaults, system, balanced })
    }

    proof fn lemma_vault_error_persists(vs: Seq<VaultSnapshot>, i: int)
        requires
            0 < i <= vs.len(),
            book_vaults(vs.take(i)) is Err,
        ensures
            book_vaults(vs) == book_vaults(vs.take(i)),
        decreases vs.len() - i,
    {
        if i < vs.len() {
            assert(vs.take(i + 1).drop_last() =~= vs.take(i));
            Self::lemma_vault_error_persists(vs, i + 1);
        } else {
            assert(vs.take(i) =~= vs);
        }
    }

    proof fn lemma_loan_error_persists(s: SystemAccounting, ls: Seq<LoanSnapshot>, i: int)
        requires
            0 < i <= ls.len(),
            book_loans(s, ls.take(i)) is Err,
        ensures
            book_loans(s, ls) == book_loans(s, ls.take(i)),
        decreases ls.len() - i,
    {
        if i < ls.len() {
            assert(ls.take(i + 1).drop_last() =~= ls.take(i));
            Self::lemma_loan_error_persists(s, ls, i + 1);
        } else {
            assert(ls.take(i) =~= ls);
        }
    }

    pub fn from_engine(engine: &KeystoneEngine) -> (r: KeystoneResult<Self>)
        requires
            engine.wf(),
        ensures
            engine.snapshot_error() matches Some(e) ==> r == Err::<AccountingBook, KeystoneError>(e),
            engine.snapshot_error() is None ==> exists|s: EngineSnapshot| engine.snapshot_is(s) && books_of(s, r),
    {
        let snapshot = engine.snapshot()?;
        Self::from_snapshot(&snapshot)
    }

    pub fn vault(&self, id: VaultId) -> (r: Option<&VaultAccounting>)
        ensures
            r is None <==> forall|i: int| 0 <= i < self.vaults@.len() ==> (#[trigger] self.vaults@[i]).vault != id,
            r matches Some(x) ==> exists|i: int|
                0 <= i < self.vaults@.len() && *x == self.vaults@[i] && x.vault == id && forall|j: int|
                    0 <= j < i ==> (#[trigger] self.vaults@[j]).vault != id,
    {
        let mut i: usize = 0;
        while i < self.vaults.len()
            invariant
                0 <= i <= self.vaults@.len(),
                forall|j: int| 0 <= j < i ==> (#[trigger] self.vaults@[j]).vault != id,
            decreases self.vaults@.len() - i,
        {
            if self.vaults[i].vault == id {
                return Some(&self.vaults[i]);
            }
            i = i + 1;
        }
        None
    }

    pub fn assert_balanced(&self) -> (r: KeystoneResult<()>)
        ensures
            !self.balanced ==> (r matches Err(KeystoneError::Invariant(m)) && m@ == "accounting book is not balanced"@),
            self.balanced ==> (r is Ok <==> forall|i: int|
                0 <= i < self.vaults@.len() ==> (#[trigger] self.vaults@[i]).assets.0 >= self.vaults@[i].liabilities.0
                    && self.vaults@[i].assets.0 - self.vaults@[i].liabilities.0 == self.vaults@[i].equity.0),
    {
        if !self.balanced {
            return Err(KeystoneError::invariant_violation("accounting book is not balanced"));
        }
        let mut i: usize = 0;
        while i < self.vaults.len()
            invariant
                self.balanced,
                0 <= i <= self.vaults@.len(),
                forall|j: int|
                    0 <= j < i ==> (#[trigger] self.vaults@[j]).assets.0 >= self.vaults@[j].liabilities.0
                        && self.vaults@[j].assets.0 - self.vaults@[j].liabilities.0 == self.vaults@[j].equity.0,
            decreases self.vaults@.len() - i,
        {
            let vault = &self.vaults[i];
            match vault.is_balanced() {
                Ok(true) => {},
                Ok(false) => {
                    return Err(KeystoneError::invariant_violation("vault accounting is not balanced"));
                },
                Err(e) => {
                    return Err(e);
                },
            }
            i = i + 1;
        }
        Ok(())
    }

    pub fn active_loans_match_vaults(&self) -> (r: bool)
        ensures
            r == (self.system.receivable_principal == self.system.active_principal),
    {
        self.system.active_principal_matched()
    }

    pub fn total_equity(&self) -> (r: Amount)
        ensures
            r == self.system.equity,
    {
        self.system.equity
    }
}

/// The rank of a loan status in its life.
pub open spec fn status_weight(s: LoanStatus) -> u8 {
    match s {
        LoanStatus::Proposed => 0,
        LoanStatus::Active => 1,
        LoanStatus::Paid => 2,
        LoanStatus::Defaulted => 3,
        LoanStatus::Liquidating => 4,
        LoanStatus::Liquidated => 5,
        LoanStatus::WrittenOff => 6,
    }
}

pub fn loan_status_weight(status: LoanStatus) -> (r: u8)
    ensures
        r == status_weight(status),
{
    match status {
        LoanStatus::Proposed => 0,
        LoanStatus::Active => 1,
        LoanStatus::Paid => 2,
        LoanStatus::Defaulted => 3,
        LoanStatus::Liquidating => 4,
        LoanStatus::Liquidated => 5,
        LoanStatus::WrittenOff => 6,
    }
}

} // verus!
