use vstd::prelude::*;
use vstd::string::StringExecFns;

use crate::amount::{
    amount_diff, amount_for_shares, amount_of, bps_floor, checked_ratio_bps, deposit_shares, ratio_bps,
    redemption_amount, shares_for_deposit, split_by_shares, Amount, Bps, Shares,
};
use crate::error::{KeystoneError, KeystoneResult};
use crate::ids::{parts_digest, state_digest_from_json, AccountId, AssetId, Digest, PositionId, VaultId, POSITION_DOMAIN};
use crate::json::{json_vault_snapshot, write_vault_snapshot};
use crate::keys::{lemma_key_index_of, KeyOrder, SortedMap};
use crate::policy::ProtocolPolicy;
use crate::sums::{
    lemma_sum_element_le, lemma_sum_insert, lemma_sum_nonneg, lemma_sum_prefix_le, lemma_sum_push, lemma_sum_remove,
    lemma_sum_take_next, lemma_sum_update, seq_sum,
};

verus! {

pub const VAULT_STATE_DOMAIN: &'static str = "keystonexdtl-vault-state-v1";

/// What a vault may do in the credit market.
#[derive(Clone, Copy, Debug, PartialEq, Eq, Structural)]
pub enum VaultRole {
    Liquidity,
    Borrower,
    Hybrid,
    Treasury,
}

pub open spec fn role_name(r: VaultRole) -> &'static str {
    match r {
        VaultRole::Liquidity => "liquidity",
        VaultRole::Borrower => "borrower",
        VaultRole::Hybrid => "hybrid",
        VaultRole::Treasury => "treasury",
    }
}

pub open spec fn role_lends(r: VaultRole) -> bool {
    r is Liquidity || r is Hybrid
}

pub open spec fn role_borrows(r: VaultRole) -> bool {
    r is Borrower || r is Hybrid
}

impl VaultRole {
    pub fn can_lend(self) -> (r: bool)
        ensures
            r == role_lends(self),
    {
        match self {
            VaultRole::Liquidity | VaultRole::Hybrid => true,
            _ => false,
        }
    }

    pub fn can_borrow(self) -> (r: bool)
        ensures
            r == role_borrows(self),
    {
        match self {
            VaultRole::Borrower | VaultRole::Hybrid => true,
            _ => false,
        }
    }

    pub fn as_str(self) -> (r: &'static str)
        ensures
            r == role_name(self),
    {
        match self {
            VaultRole::Liquidity => "liquidity",
            VaultRole::Borrower => "borrower",
            VaultRole::Hybrid => "hybrid",
            VaultRole::Treasury => "treasury",
        }
    }
}

/// What a deposit minted.
#[derive(Clone, Copy, Debug, PartialEq, Eq)]
pub struct DepositReceipt {
    pub vault: VaultId,
    pub owner: AccountId,
    pub position: PositionId,
    pub amount: Amount,
    pub shares: Shares,
    pub nav_before: Amount,
    pub nav_after: Amount,
}

/// What redeeming shares pays, at the vault's current value.
#[derive(Clone, Copy, Debug, PartialEq, Eq)]
pub struct RedemptionQuote {
    pub vault: VaultId,
    pub owner: AccountId,
    pub shares: Shares,
    pub amount: Amount,
    pub nav: Amount,
    pub cash: Amount,
    pub price_e12: u128,
}

/// Interest paid out to one shareholder.
#[derive(Clone, Copy, Debug, PartialEq, Eq)]
pub struct InterestClaim {
    pub owner: AccountId,
    pub amount: Amount,
}

/// The state of a vault as reports and digests show it.
#[derive(Clone, Debug)]
pub struct VaultSnapshot {
    pub id: VaultId,
    pub name: String,
    pub role: VaultRole,
    pub cash: Amount,
    pub share_supply: Shares,
    pub gross_assets: Amount,
    pub liabilities: Amount,
    pub nav: Amount,
    pub outstanding_principal: Amount,
    pub expected_interest: Amount,
    pub realized_interest: Amount,
    pub debt_principal: Amount,
    pub debt_interest_due: Amount,
    pub locked_collateral: Amount,
    pub loss_reserve: Amount,
    pub protocol_fees: Amount,
    pub distributed_interest: Amount,
    pub utilization_bps: Bps,
    pub holder_count: usize,
}

/// A pooled vault: cash and claims on the asset side, debts and fees on the liability side,
/// and shares that divide its net value among accounts.
#[derive(Debug)]
pub struct Vault {
    pub id: VaultId,
    pub name: String,
    pub asset: AssetId,
    pub role: VaultRole,
    pub paused: bool,
    pub frozen: bool,
    pub cash: Amount,
    pub share_supply: Shares,
    pub accounts: SortedMap<AccountId, Shares>,
    pub locked_collateral: Amount,
    pub outstanding_principal: Amount,
    pub expected_interest: Amount,
    pub realized_interest: Amount,
    pub debt_principal: Amount,
    pub debt_interest_due: Amount,
    pub loss_reserve: Amount,
    pub protocol_fees: Amount,
    pub distributed_interest: Amount,
    pub pending_redemptions: Amount,
}

/// The total of a list of share counts.
pub open spec fn total_shares(s: Seq<Shares>) -> int {
    seq_sum(s, |x: Shares| x.0 as int)
}

/// Cash, locked collateral, lent principal, expected interest and the loss reserve.
pub open spec fn gross_of(v: Vault) -> int {
    v.cash.0 + v.locked_collateral.0 + v.outstanding_principal.0 + v.expected_interest.0 + v.loss_reserve.0
}

/// Borrowed principal and interest, accrued protocol fees and pending redemptions.
pub open spec fn liabilities_of(v: Vault) -> int {
    v.debt_principal.0 + v.debt_interest_due.0 + v.protocol_fees.0 + v.pending_redemptions.0
}

/// Net asset value: gross assets less liabilities, each of which must fit an amount.
pub open spec fn nav_of(v: Vault) -> KeystoneResult<Amount> {
    if gross_of(v) > u64::MAX || liabilities_of(v) > u64::MAX {
        Err(KeystoneError::AmountOverflow)
    } else {
        amount_diff(gross_of(v), liabilities_of(v))
    }
}

/// The share price with twelve decimals; one where no shares exist.
pub open spec fn price_of(v: Vault) -> KeystoneResult<u128> {
    if v.share_supply.0 == 0 {
        Ok(1_000_000_000_000u128)
    } else {
        match nav_of(v) {
            Err(e) => Err(e),
            Ok(nav) => Ok((nav.0 * 1_000_000_000_000 / (v.share_supply.0 as int)) as u128),
        }
    }
}

/// Lent principal as a share of net value, in basis points; zero where the value is zero.
pub open spec fn utilization_of(v: Vault) -> KeystoneResult<Bps> {
    match nav_of(v) {
        Err(e) => Err(e),
        Ok(nav) => if nav.0 == 0 {
            Ok(Bps(0))
        } else {
            ratio_bps(v.outstanding_principal.0 as int, nav.0 as int)
        },
    }
}

/// Shares that a deposit of `amount` mints, after the deposit checks.
pub open spec fn minted_shares(v: Vault, amount: Amount) -> KeystoneResult<Shares> {
    if v.paused {
        Err(KeystoneError::VaultPaused)
    } else if v.frozen {
        Err(KeystoneError::VaultFrozen)
    } else if amount.0 == 0 {
        Err(KeystoneError::ZeroAmount)
    } else {
        match nav_of(v) {
            Err(e) => Err(e),
            Ok(nav) => match deposit_shares(amount.0 as int, nav.0 as int, v.share_supply.0 as int) {
                Err(e) => Err(e),
                Ok(s) => if s.0 == 0 {
                    Err(KeystoneError::ZeroShares)
                } else {
                    Ok(s)
                },
            },
        }
    }
}

/// A deposit into an open vault mints shares at the vault's price before it: the amount times the
/// share supply over the net asset value (gross assets less liabilities), rounded down, so the
/// depositor pays what the existing holders' shares are worth; the first deposit, or one into a
/// vault of no value, mints one share per unit. No deposit mints zero shares.
pub proof fn lemma_deposit_price(v: Vault, amount: Amount)
    requires
        minted_shares(v, amount) is Ok,
    ensures
        ({
            let s = minted_shares(v, amount)->Ok_0.0 as int;
            let nav = (v.cash.0 + v.locked_collateral.0 + v.outstanding_principal.0 + v.expected_interest.0
                + v.loss_reserve.0) - (v.debt_principal.0 + v.debt_interest_due.0 + v.protocol_fees.0
                + v.pending_redemptions.0);
            let supply = v.share_supply.0 as int;
            &&& !v.paused && !v.frozen && amount.0 > 0
            &&& s > 0
            &&& supply > 0 && nav > 0 ==> s == amount.0 * supply / nav
            &&& supply > 0 && nav > 0 ==> s * nav <= amount.0 * supply < (s + 1) * nav
            &&& supply == 0 || nav == 0 ==> s == amount.0
        }),
{
    let s = minted_shares(v, amount)->Ok_0.0 as int;
    let nav = gross_of(v) - liabilities_of(v);
    let supply = v.share_supply.0 as int;
    if supply > 0 && nav > 0 {
        let a = amount.0 * supply;
        assert(s == a / nav);
        assert(s * nav <= a < (s + 1) * nav) by (nonlinear_arith)
            requires
                s == a / nav,
                nav > 0,
                a >= 0,
        ;
    }
}

/// A redemption pays, for shares the owner holds, the shares' part of the vault's net asset value
/// (gross assets less liabilities), rounded down, at the price before it; it is refused while the
/// vault is paused or frozen, or where the vault lacks the cash.
pub proof fn lemma_redemption_price(v: Vault, owner: AccountId, shares: Shares)
    requires
        redeem_check_of(v, owner, shares) is Ok,
    ensures
        ({
            let q = redeem_check_of(v, owner, shares)->Ok_0;
            let nav = (v.cash.0 + v.locked_collateral.0 + v.outstanding_principal.0 + v.expected_interest.0
                + v.loss_reserve.0) - (v.debt_principal.0 + v.debt_interest_due.0 + v.protocol_fees.0
                + v.pending_redemptions.0);
            let supply = v.share_supply.0 as int;
            &&& !v.paused && !v.frozen
            &&& 0 < shares.0 <= v.holding(owner).0
            &&& supply > 0
            &&& q.amount.0 == shares.0 * nav / supply
            &&& q.amount.0 * supply <= shares.0 * nav < (q.amount.0 + 1) * supply
            &&& q.amount.0 <= v.cash.0
            &&& q.shares == shares && q.owner == owner && q.vault == v.id
        }),
{
    let q = redeem_check_of(v, owner, shares)->Ok_0;
    let nav = gross_of(v) - liabilities_of(v);
    let supply = v.share_supply.0 as int;
    let a = shares.0 * nav;
    assert(nav >= 0);
    assert(a >= 0) by (nonlinear_arith)
        requires
            a == shares.0 * nav,
            nav >= 0,
            shares.0 >= 0,
    ;
    assert(q.amount.0 * supply <= a < (q.amount.0 + 1) * supply) by (nonlinear_arith)
        requires
            q.amount.0 == a / supply,
            supply > 0,
            a >= 0,
    ;
}

/// A vault's utilization is its lent principal against its net asset value (gross assets less
/// liabilities), in basis points rounded down; zero for a vault of no value.
pub proof fn lemma_utilization(v: Vault)
    requires
        utilization_of(v) is Ok,
    ensures
        ({
            let u = utilization_of(v)->Ok_0.0 as int;
            let nav = (v.cash.0 + v.locked_collateral.0 + v.outstanding_principal.0 + v.expected_interest.0
                + v.loss_reserve.0) - (v.debt_principal.0 + v.debt_interest_due.0 + v.protocol_fees.0
                + v.pending_redemptions.0);
            &&& nav >= 0
            &&& nav == 0 ==> u == 0
            &&& nav > 0 && v.outstanding_principal.0 * 10_000 / nav < 0x1_0000_0000 ==> u
                == v.outstanding_principal.0 * 10_000 / nav
        }),
{
    let nav = gross_of(v) - liabilities_of(v);
    if nav > 0 {
        assert(v.outstanding_principal.0 * 10_000 / nav >= 0) by (nonlinear_arith)
            requires
                nav > 0,
                v.outstanding_principal.0 >= 0,
        ;
    }
}

/// A redemption quote for `shares` of `owner`, at the current value.
pub open spec fn redeem_quote_of(v: Vault, owner: AccountId, shares: Shares) -> KeystoneResult<RedemptionQuote> {
    if shares.0 == 0 {
        Err(KeystoneError::ZeroShares)
    } else if v.holding(owner).0 < shares.0 {
        Err(KeystoneError::InsufficientShares)
    } else {
        match nav_of(v) {
            Err(e) => Err(e),
            Ok(nav) => match redemption_amount(shares.0 as int, nav.0 as int, v.share_supply.0 as int) {
                Err(e) => Err(e),
                Ok(amount) => match price_of(v) {
                    Err(e) => Err(e),
                    Ok(price) => Ok(
                        RedemptionQuote {
                            vault: v.id,
                            owner,
                            shares,
                            amount,
                            nav,
                            cash: v.cash,
                            price_e12: price,
                        },
                    ),
                },
            },
        }
    }
}

/// Whether the vault's bookkeeping of shares is consistent: accounts in key order, each holding
/// some shares, and together holding the supply.
pub open spec fn vault_wf(v: Vault) -> bool {
    &&& v.accounts.wf()
    &&& total_shares(v.accounts.vals@) == v.share_supply.0
    &&& forall|i: int| 0 <= i < v.accounts.vals@.len() ==> (#[trigger] v.accounts.vals@[i]).0 > 0
}

/// Two vaults with the same identity, configuration and shareholders.
pub open spec fn same_holders(a: Vault, b: Vault) -> bool {
    &&& a.id == b.id
    &&& a.name@ == b.name@
    &&& a.asset == b.asset
    &&& a.role == b.role
    &&& a.paused == b.paused
    &&& a.frozen == b.frozen
    &&& a.share_supply == b.share_supply
    &&& a.accounts.keys@ == b.accounts.keys@
    &&& a.accounts.vals@ == b.accounts.vals@
}

/// A vault with the same lending and borrowing balances as another.
pub open spec fn same_ledger(a: Vault, b: Vault) -> bool {
    &&& a.outstanding_principal == b.outstanding_principal
    &&& a.debt_principal == b.debt_principal
    &&& a.debt_interest_due == b.debt_interest_due
}

/// The interest a share count earns of `d`, rounded down.
pub open spec fn floor_share(d: int, s: Shares, total: int) -> int {
    d * s.0 / total
}

/// Claims for the first `n` holders: each holder whose share of `d` is not zero, in key order.
pub open spec fn base_claims(keys: Seq<AccountId>, vals: Seq<Shares>, n: int, d: int, total: int) -> Seq<
    InterestClaim,
>
    decreases n,
{
    if n <= 0 {
        Seq::empty()
    } else {
        let prev = base_claims(keys, vals, n - 1, d, total);
        let a = floor_share(d, vals[n - 1], total);
        if a == 0 {
            prev
        } else {
            prev.push(InterestClaim { owner: keys[n - 1], amount: Amount(a as u64) })
        }
    }
}

/// The total of a list of claims.
pub open spec fn claims_total(s: Seq<InterestClaim>) -> int {
    seq_sum(s, |c: InterestClaim| c.amount.0 as int)
}

/// The claims of a distribution of `d`: the holders' shares, rounded down, with what rounding
/// leaves over added to the last claim.
pub open spec fn distribution_claims(v: Vault, d: int) -> Seq<InterestClaim> {
    let base = base_claims(v.accounts.keys@, v.accounts.vals@, v.accounts.keys@.len() as int, d, v.share_supply.0 as int);
    if base.len() == 0 {
        base
    } else {
        let last = base.last();
        base.update(
            base.len() - 1,
            InterestClaim { owner: last.owner, amount: Amount((last.amount.0 + d - claims_total(base)) as u64) },
        )
    }
}

pub proof fn lemma_floor_share_bound(d: int, s: int, total: int)
    requires
        d >= 0,
        s >= 0,
        total > 0,
    ensures
        (d * s / total) * total <= d * s,
        d * s / total >= 0,
{
    vstd::arithmetic::div_mod::lemma_fundamental_div_mod(d * s, total);
    assert(d * s >= 0) by (nonlinear_arith)
        requires
            d >= 0,
            s >= 0,
    ;
    vstd::arithmetic::div_mod::lemma_div_pos_is_pos(d * s, total);
    assert((d * s / total) * total == total * (d * s / total)) by (nonlinear_arith);
}

impl Vault {
    pub open spec fn wf(&self) -> bool {
        vault_wf(*self)
    }

    /// The shares `owner` holds.
    pub open spec fn holding(&self, owner: AccountId) -> Shares {
        if self.accounts.has(owner) {
            self.accounts.at(owner)
        } else {
            Shares(0)
        }
    }

    pub fn new(id: VaultId, name: &str, asset: AssetId, role: VaultRole) -> (r: Self)
        ensures
            r.wf(),
            r.id == id,
            r.name@ == name@,
            r.asset == asset,
            r.role == role,
            !r.paused,
            !r.frozen,
            r.share_supply == Shares(0),
            r.accounts.keys@.len() == 0,
            r.cash == Amount(0),
            r.locked_collateral == Amount(0),
            r.outstanding_principal == Amount(0),
            r.expected_interest == Amount(0),
            r.realized_interest == Amount(0),
            r.debt_principal == Amount(0),
            r.debt_interest_due == Amount(0),
            r.loss_reserve == Amount(0),
            r.protocol_fees == Amount(0),
            r.distributed_interest == Amount(0),
            r.pending_redemptions == Amount(0),
    {
        let r = Self {
            id,
            name: String::from_str(name),
            asset,
            role,
            paused: false,
            frozen: false,
            cash: Amount(0),
            share_supply: Shares(0),
            accounts: SortedMap::new(),
            locked_collateral: Amount(0),
            outstanding_principal: Amount(0),
            expected_interest: Amount(0),
            realized_interest: Amount(0),
            debt_principal: Amount(0),
            debt_interest_due: Amount(0),
            loss_reserve: Amount(0),
            protocol_fees: Amount(0),
            distributed_interest: Amount(0),
            pending_redemptions: Amount(0),
        };
        assert(r.accounts.vals@ =~= Seq::<Shares>::empty());
        r
    }

    pub fn id(&self) -> (r: VaultId)
        ensures
            r == self.id,
    {
        self.id
    }

    pub fn name(&self) -> (r: &str)
        ensures
            r@ == self.name@,
    {
        self.name.as_str()
    }

    pub fn asset(&self) -> (r: AssetId)
        ensures
            r == self.asset,
    {
        self.asset
    }

    pub fn role(&self) -> (r: VaultRole)
        ensures
            r == self.role,
    {
        self.role
    }

    pub fn cash(&self) -> (r: Amount)
        ensures
            r == self.cash,
    {
        self.cash
    }

    pub fn share_supply(&self) -> (r: Shares)
        ensures
            r == self.share_supply,
    {
        self.share_supply
    }

    pub fn outstanding_principal(&self) -> (r: Amount)
        ensures
            r == self.outstanding_principal,
    {
        self.outstanding_principal
    }

    pub fn expected_interest(&self) -> (r: Amount)
        ensures
            r == self.expected_interest,
    {
        self.expected_interest
    }

    pub fn realized_interest(&self) -> (r: Amount)
        ensures
            r == self.realized_interest,
    {
        self.realized_interest
    }

    pub fn debt_principal(&self) -> (r: Amount)
        ensures
            r == self.debt_principal,
    {
        self.debt_principal
    }

    pub fn debt_interest_due(&self) -> (r: Amount)
        ensures
            r == self.debt_interest_due,
    {
        self.debt_interest_due
    }

    pub fn locked_collateral(&self) -> (r: Amount)
        ensures
            r == self.locked_collateral,
    {
        self.locked_collateral
    }

    pub fn protocol_fees(&self) -> (r: Amount)
        ensures
            r == self.protocol_fees,
    {
        self.protocol_fees
    }

    pub fn distributed_interest(&self) -> (r: Amount)
        ensures
            r == self.distributed_interest,
    {
        self.distributed_interest
    }

    pub fn holder_count(&self) -> (r: usize)
        requires
            self.accounts.wf(),
        ensures
            r == self.accounts.keys@.len(),
    {
        self.accounts.len()
    }

    pub fn is_paused(&self) -> (r: bool)
        ensures
            r == self.paused,
    {
        self.paused
    }

    pub fn is_frozen(&self) -> (r: bool)
        ensures
            r == self.frozen,
    {
        self.frozen
    }

    pub fn pause(&mut self)
        ensures
            *final(self) == (Vault { paused: true, ..*old(self) }),
    {
        self.paused = true;
    }

    pub fn unpause(&mut self)
        ensures
            *final(self) == (Vault { paused: false, ..*old(self) }),
    {
        self.paused = false;
    }

    pub fn freeze(&mut self)
        ensures
            *final(self) == (Vault { frozen: true, ..*old(self) }),
    {
        self.frozen = true;
    }

    pub fn unfreeze(&mut self)
        ensures
            *final(self) == (Vault { frozen: false, ..*old(self) }),
    {
        self.frozen = false;
    }

    pub fn gross_assets(&self) -> (r: KeystoneResult<Amount>)
        ensures
            r == amount_of(gross_of(*self)),
    {
        self.cash.checked_add(self.locked_collateral)?.checked_add(self.outstanding_principal)?.checked_add(
            self.expected_interest,
        )?.checked_add(self.loss_reserve)
    }

    pub fn liabilities(&self) -> (r: KeystoneResult<Amount>)
        ensures
            r == amount_of(liabilities_of(*self)),
    {
        self.debt_principal.checked_add(self.debt_interest_due)?.checked_add(self.protocol_fees)?.checked_add(
            self.pending_redemptions,
        )
    }

    pub fn net_asset_value(&self) -> (r: KeystoneResult<Amount>)
        ensures
            r == nav_of(*self),
    {
        let gross = self.gross_assets()?;
        let liabilities = self.liabilities()?;
        gross.checked_sub(liabilities)
    }

    pub fn liquid_assets(&self) -> (r: Amount)
        ensures
            r == self.cash,
    {
        self.cash
    }

    pub fn price_e12(&self) -> (r: KeystoneResult<u128>)
        ensures
            r == price_of(*self),
    {
        if self.share_supply.is_zero() {
            return Ok(crate::amount::DECIMAL_SCALE);
        }
        let nav = self.net_asset_value()?;
        proof {
            assert(nav.0 * 1_000_000_000_000 <= u64::MAX * 1_000_000_000_000) by (nonlinear_arith)
                requires
                    nav.0 <= u64::MAX,
            ;
        }
        Ok(nav.as_u128() * crate::amount::DECIMAL_SCALE / self.share_supply.as_u128())
    }

    pub fn utilization_bps(&self) -> (r: KeystoneResult<Bps>)
        ensures
            r == utilization_of(*self),
    {
        let nav = self.net_asset_value()?;
        if nav.is_zero() {
            return Bps::strict(0);
        }
        checked_ratio_bps(self.outstanding_principal, nav)
    }

    pub fn available_to_lend(&self, policy: ProtocolPolicy) -> (r: KeystoneResult<Amount>)
        ensures
            r == lendable_of(*self, policy),
    {
        if !self.role.can_lend() {
            return Err(KeystoneError::VaultRoleMismatch);
        }
        let nav = self.net_asset_value()?;
        let max_utilized = policy.limits.max_utilization_bps.apply_floor(nav)?;
        let remaining = max_utilized.saturating_sub(self.outstanding_principal);
        Ok(self.cash.min(remaining))
    }

    pub fn available_cash_after_floor(&self, policy: ProtocolPolicy) -> (r: KeystoneResult<Amount>)
        ensures
            r == (match nav_of(*self) {
                Err(e) => Err(e),
                Ok(nav) => match amount_of(bps_floor(policy.limits.redemption_liquidity_floor_bps.0 as int, nav.0 as int)) {
                    Err(e) => Err(e),
                    Ok(floor) => Ok(Amount(if self.cash.0 >= floor.0 { (self.cash.0 - floor.0) as u64 } else { 0 })),
                },
            }),
    {
        let nav = self.net_asset_value()?;
        let floor = policy.limits.cash_floor(nav)?;
        Ok(self.cash.saturating_sub(floor))
    }

    pub fn shares_of(&self, owner: AccountId) -> (r: Shares)
        requires
            self.accounts.wf(),
        ensures
            r == self.holding(owner),
    {
        match self.accounts.find(&owner) {
            Some(i) => {
                proof {
                    crate::keys::lemma_key_index(self.accounts.keys@, i as int);
                }
                self.accounts.vals[i]
            },
            None => Shares(0),
        }
    }

    pub fn position_id(&self, owner: AccountId) -> (r: PositionId)
        ensures
            r.0 == parts_digest(POSITION_DOMAIN, seq![self.id.0.0@, owner.0.0@]),
    {
        PositionId::derive(self.id, owner)
    }

    /// Adds `shares` to the holding of `owner`.
    fn credit_account(&mut self, owner: AccountId, shares: Shares)
        requires
            old(self).wf(),
            shares.0 > 0,
            old(self).share_supply.0 + shares.0 <= u64::MAX,
        ensures
            final(self).accounts.wf(),
            total_shares(final(self).accounts.vals@) == total_shares(old(self).accounts.vals@) + shares.0,
            forall|i: int| 0 <= i < final(self).accounts.vals@.len() ==> (#[trigger] final(self).accounts.vals@[i]).0 > 0,
            final(self).holding(owner).0 == old(self).holding(owner).0 + shares.0,
            forall|o: AccountId| o != owner ==> final(self).holding(o) == old(self).holding(o),
            *final(self) == (Vault { accounts: final(self).accounts, ..*old(self) }),
    {
        let ghost m = self.accounts;
        match self.accounts.find(&owner) {
            Some(i) => {
                let current = self.accounts.vals[i];
                proof {
                    lemma_sum_element_le(m.vals@, i as int, |x: Shares| x.0 as int);
                }
                let updated = Shares(current.0 + shares.0);
                self.accounts.vals.set(i, updated);
                proof {
                    lemma_sum_update(m.vals@, i as int, updated, |x: Shares| x.0 as int);
                    assert forall|o: AccountId| true implies #[trigger] self.holding(o) == (if o == owner {
                        Shares((m.at(owner).0 + shares.0) as u64)
                    } else {
                        (Vault { accounts: m, ..*self }).holding(o)
                    }) by {
                        SortedMap::<AccountId, Shares>::lemma_at_update(m, self.accounts, i as int, updated, o);
                        crate::keys::lemma_key_index(m.keys@, i as int);
                    }
                    assert(m.has(owner));
                    assert forall|j: int| 0 <= j < self.accounts.vals@.len() implies (#[trigger] self.accounts.vals@[j]).0 > 0 by {
                        if j != i {
                            assert(self.accounts.vals@[j] == m.vals@[j]);
                        }
                    }
                }
            },
            None => {
                let p = self.accounts.insert_new(owner, shares);
                proof {
                    lemma_sum_insert(m.vals@, p as int, shares, |x: Shares| x.0 as int);
                    assert forall|o: AccountId| true implies #[trigger] self.holding(o) == (if o == owner {
                        shares
                    } else {
                        (Vault { accounts: m, ..*self }).holding(o)
                    }) by {
                        SortedMap::<AccountId, Shares>::lemma_at_insert(m, self.accounts, p as int, owner, shares, o);
                    }
                    assert forall|j: int| 0 <= j < self.accounts.vals@.len() implies (#[trigger] self.accounts.vals@[j]).0 > 0 by {
                        if j < p {
                            assert(self.accounts.vals@[j] == m.vals@[j]);
                        } else if j > p {
                            assert(self.accounts.vals@[j] == m.vals@[j - 1]);
                        }
                    }
                }
            },
        }
    }

    /// The shares a deposit of `amount` would mint, or why it would be refused, found without
    /// depositing.
    pub(crate) fn check_deposit(&self, amount: Amount) -> (r: KeystoneResult<Shares>)
        ensures
            r == deposit_check_of(*self, amount),
    {
        if self.paused {
            return Err(KeystoneError::VaultPaused);
        }
        if self.frozen {
            return Err(KeystoneError::VaultFrozen);
        }
        if amount.is_zero() {
            return Err(KeystoneError::ZeroAmount);
        }
        let nav_before = self.net_asset_value()?;
        let shares = shares_for_deposit(amount, nav_before, self.share_supply)?;
        if shares.is_zero() {
            return Err(KeystoneError::ZeroShares);
        }
        if self.cash.0 > u64::MAX - amount.0 || self.share_supply.0 > u64::MAX - shares.0 {
            return Err(KeystoneError::AmountOverflow);
        }
        let gross = self.gross_assets()?;
        if gross.0 > u64::MAX - amount.0 {
            return Err(KeystoneError::AmountOverflow);
        }
        Ok(shares)
    }

    pub fn deposit(&mut self, owner: AccountId, amount: Amount) -> (r: KeystoneResult<DepositReceipt>)
        requires
            old(self).wf(),
        ensures
            final(self).wf(),
            deposit_effect(*old(self), owner, amount, *final(self), r),
            same_ledger(*old(self), *final(self)),
    {
        let shares = self.check_deposit(amount)?;
        let nav_before = self.net_asset_value()?;
        let ghost v = *self;
        let supply = Shares(self.share_supply.0 + shares.0);
        self.cash = Amount(self.cash.0 + amount.0);
        let ghost v1 = *self;
        self.credit_account(owner, shares);
        let ghost v2 = *self;
        self.share_supply = supply;
        assert(v1 == (Vault { cash: Amount((v.cash.0 + amount.0) as u64), ..v }));
        assert(v2 == (Vault { accounts: v2.accounts, ..v1 }));
        assert(*self == (Vault { share_supply: supply, ..v2 }));
        assert(self.holding(owner) == v2.holding(owner));
        assert(minted_shares(v, amount) == Ok::<Shares, KeystoneError>(shares));
        assert(*self == (Vault {
                cash: Amount((v.cash.0 + amount.0) as u64),
                share_supply: Shares((v.share_supply.0 + shares.0) as u64),
                accounts: self.accounts,
                ..v
            }));
        assert(self.holding(owner).0 == v.holding(owner).0 + shares.0);
        assert forall|o: AccountId| o != owner implies self.holding(o) == v.holding(o) by {
            assert(v2.holding(o) == v1.holding(o));
        }
        let nav_after = self.net_asset_value()?;
        Ok(DepositReceipt {
            vault: self.id,
            owner,
            position: self.position_id(owner),
            amount,
            shares,
            nav_before,
            nav_after,
        })
    }

    pub fn quote_redeem(&self, owner: AccountId, shares: Shares) -> (r: KeystoneResult<RedemptionQuote>)
        requires
            self.accounts.wf(),
        ensures
            r == redeem_quote_of(*self, owner, shares),
    {
        if shares.is_zero() {
            return Err(KeystoneError::ZeroShares);
        }
        if self.shares_of(owner).0 < shares.0 {
            return Err(KeystoneError::InsufficientShares);
        }
        let nav = self.net_asset_value()?;
        let amount = amount_for_shares(shares, nav, self.share_supply)?;
        Ok(RedemptionQuote {
            vault: self.id,
            owner,
            shares,
            amount,
            nav,
            cash: self.cash,
            price_e12: self.price_e12()?,
        })
    }

    /// The quote a redemption would pay, or why it would be refused, found without redeeming.
    pub(crate) fn check_redeem(&self, owner: AccountId, shares: Shares) -> (r: KeystoneResult<RedemptionQuote>)
        requires
            self.accounts.wf(),
        ensures
            r == redeem_check_of(*self, owner, shares),
    {
        if self.paused {
            return Err(KeystoneError::VaultPaused);
        }
        if self.frozen {
            return Err(KeystoneError::VaultFrozen);
        }
        let quote = self.quote_redeem(owner, shares)?;
        if quote.amount.0 > self.cash.0 {
            return Err(KeystoneError::RedemptionTooLarge);
        }
        Ok(quote)
    }

    pub fn redeem(&mut self, owner: AccountId, shares: Shares) -> (r: KeystoneResult<RedemptionQuote>)
        requires
            old(self).wf(),
        ensures
            final(self).wf(),
            redeem_effect(*old(self), owner, shares, *final(self), r),
            same_ledger(*old(self), *final(self)),
            r is Ok ==> nav_of(*final(self)) is Ok,
    {
        let quote = self.check_redeem(owner, shares)?;
        let ghost m = self.accounts;
        let i = match self.accounts.find(&owner) {
            Some(i) => i,
            None => {
                return Err(KeystoneError::AccountNotFound);
            },
        };
        proof {
            crate::keys::lemma_key_index(m.keys@, i as int);
            lemma_sum_element_le(m.vals@, i as int, |x: Shares| x.0 as int);
            let nav = nav_of(*self)->Ok_0.0 as int;
            let supply = self.share_supply.0 as int;
            assert(shares.0 as int * nav / supply <= nav) by (nonlinear_arith)
                requires
                    0 <= shares.0 as int <= supply,
                    supply > 0,
                    nav >= 0,
            {
                assert(shares.0 as int * nav <= supply * nav);
            }
        }
        self.cash = Amount(self.cash.0 - quote.amount.0);
        self.share_supply = Shares(self.share_supply.0 - shares.0);
        let current = self.accounts.vals[i];
        let remaining = Shares(current.0 - shares.0);
        if remaining.is_zero() {
            self.accounts.remove_at(i);
            proof {
                lemma_sum_remove(m.vals@, i as int, |x: Shares| x.0 as int);
                assert forall|o: AccountId| true implies #[trigger] self.holding(o) == (if o == owner {
                    Shares(0)
                } else {
                    (Vault { accounts: m, ..*self }).holding(o)
                }) by {
                    SortedMap::<AccountId, Shares>::lemma_at_remove(m, self.accounts, i as int, o);
                }
                assert forall|j: int| 0 <= j < self.accounts.vals@.len() implies (#[trigger] self.accounts.vals@[j]).0 > 0 by {
                    if j < i {
                        assert(self.accounts.vals@[j] == m.vals@[j]);
                    } else {
                        assert(self.accounts.vals@[j] == m.vals@[j + 1]);
                    }
                }
            }
        } else {
            self.accounts.vals.set(i, remaining);
            proof {
                lemma_sum_update(m.vals@, i as int, remaining, |x: Shares| x.0 as int);
                assert forall|o: AccountId| true implies #[trigger] self.holding(o) == (if o == owner {
                    remaining
                } else {
                    (Vault { accounts: m, ..*self }).holding(o)
                }) by {
                    SortedMap::<AccountId, Shares>::lemma_at_update(m, self.accounts, i as int, remaining, o);
                }
                assert forall|j: int| 0 <= j < self.accounts.vals@.len() implies (#[trigger] self.accounts.vals@[j]).0 > 0 by {
                    if j != i {
                        assert(self.accounts.vals@[j] == m.vals@[j]);
                    }
                }
            }
        }
        Ok(quote)
    }

    pub fn force_cash_credit(&mut self, amount: Amount) -> (r: KeystoneResult<()>)
        ensures
            old(self).cash.0 + amount.0 > u64::MAX ==> r == Err::<(), KeystoneError>(KeystoneError::AmountOverflow)
                && *final(self) == *old(self),
            old(self).cash.0 + amount.0 <= u64::MAX ==> r is Ok && *final(self) == (Vault {
                cash: Amount((old(self).cash.0 + amount.0) as u64),
                ..*old(self)
            }),
    {
        self.cash = self.cash.checked_add(amount)?;
        Ok(())
    }

    pub fn force_cash_debit(&mut self, amount: Amount) -> (r: KeystoneResult<()>)
        ensures
            amount.0 > old(self).cash.0 ==> r == Err::<(), KeystoneError>(KeystoneError::InsufficientCash)
                && *final(self) == *old(self),
            amount.0 <= old(self).cash.0 ==> r is Ok && *final(self) == (Vault {
                cash: Amount((old(self).cash.0 - amount.0) as u64),
                ..*old(self)
            }),
    {
        if amount.0 > self.cash.0 {
            return Err(KeystoneError::InsufficientCash);
        }
        self.cash = self.cash.checked_sub(amount)?;
        Ok(())
    }

    pub fn lock_collateral(&mut self, amount: Amount) -> (r: KeystoneResult<()>)
        ensures
            r == lock_result(*old(self), amount),
            *final(self) == lock_state(*old(self), amount),
    {
        if !self.role.can_borrow() {
            return Err(KeystoneError::VaultRoleMismatch);
        }
        if amount.0 > self.cash.0 {
            return Err(KeystoneError::InsufficientCollateral);
        }
        let locked = self.locked_collateral.checked_add(amount)?;
        self.cash = Amount(self.cash.0 - amount.0);
        self.locked_collateral = locked;
        Ok(())
    }

    pub fn release_collateral(&mut self, amount: Amount) -> (r: KeystoneResult<Amount>)
        ensures
            (r, *final(self)) == release_outcome(*old(self), amount),
    {
        let released = amount.min(self.locked_collateral);
        self.locked_collateral = self.locked_collateral.checked_sub(released)?;
        self.cash = self.cash.checked_add(released)?;
        Ok(released)
    }

    pub fn seize_collateral(&mut self, amount: Amount) -> (r: KeystoneResult<Amount>)
        ensures
            (r, *final(self)) == seize_outcome(*old(self), amount),
    {
        let seized = amount.min(self.locked_collateral);
        self.locked_collateral = self.locked_collateral.checked_sub(seized)?;
        Ok(seized)
    }

    pub fn fund_loan(&mut self, principal: Amount, projected_interest: Amount) -> (r: KeystoneResult<()>)
        ensures
            fund_effect(*old(self), principal, projected_interest, *final(self), r),
    {
        if !self.role.can_lend() {
            return Err(KeystoneError::VaultRoleMismatch);
        }
        if principal.0 > self.cash.0 {
            return Err(KeystoneError::InsufficientLiquidity);
        }
        self.cash = self.cash.checked_sub(principal)?;
        self.outstanding_principal = self.outstanding_principal.checked_add(principal)?;
        self.expected_interest = self.expected_interest.checked_add(projected_interest)?;
        Ok(())
    }

    pub fn receive_loan_draw(&mut self, principal: Amount, projected_interest: Amount) -> (r: KeystoneResult<()>)
        ensures
            draw_effect(*old(self), principal, projected_interest, *final(self), r),
    {
        if !self.role.can_borrow() {
            return Err(KeystoneError::VaultRoleMismatch);
        }
        self.cash = self.cash.checked_add(principal)?;
        self.debt_principal = self.debt_principal.checked_add(principal)?;
        self.debt_interest_due = self.debt_interest_due.checked_add(projected_interest)?;
        Ok(())
    }

    pub fn receive_repayment_cash(&mut self, principal: Amount, interest: Amount) -> (r: KeystoneResult<()>)
        ensures
            receive_repayment_effect(*old(self), principal, interest, *final(self), r),
    {
        let total = principal.checked_add(interest)?;
        self.cash = self.cash.checked_add(total)?;
        self.outstanding_principal = self.outstanding_principal.checked_sub(principal)?;
        self.realized_interest = self.realized_interest.checked_add(interest)?;
        Ok(())
    }

    pub fn pay_repayment_cash(&mut self, principal: Amount, interest: Amount, debt_interest_reduction: Amount) -> (r:
        KeystoneResult<()>)
        ensures
            pay_repayment_effect(*old(self), principal, interest, debt_interest_reduction, *final(self), r),
    {
        let total = principal.checked_add(interest)?;
        if total.0 > self.cash.0 {
            return Err(KeystoneError::InsufficientCash);
        }
        self.cash = self.cash.checked_sub(total)?;
        self.debt_principal = self.debt_principal.checked_sub(principal)?;
        self.debt_interest_due = self.debt_interest_due.checked_sub(debt_interest_reduction)?;
        Ok(())
    }

    pub fn reduce_expected_interest(&mut self, amount: Amount) -> (r: KeystoneResult<()>)
        ensures
            (r, *final(self)) == reduce_expected_outcome(*old(self), amount),
    {
        self.expected_interest = self.expected_interest.checked_sub(amount)?;
        Ok(())
    }

    pub fn reduce_debt_interest(&mut self, amount: Amount) -> (r: KeystoneResult<()>)
        ensures
            amount.0 > old(self).debt_interest_due.0 ==> r == Err::<(), KeystoneError>(
                KeystoneError::AmountUnderflow,
            ) && *final(self) == *old(self),
            amount.0 <= old(self).debt_interest_due.0 ==> r is Ok && *final(self) == (Vault {
                debt_interest_due: Amount((old(self).debt_interest_due.0 - amount.0) as u64),
                ..*old(self)
            }),
    {
        self.debt_interest_due = self.debt_interest_due.checked_sub(amount)?;
        Ok(())
    }

    pub fn receive_liquidation_proceeds(
        &mut self,
        principal_covered: Amount,
        interest_covered: Amount,
        reserve_recovery: Amount,
    ) -> (r: KeystoneResult<()>)
        ensures
            proceeds_effect(*old(self), principal_covered, interest_covered, reserve_recovery, *final(self), r),
    {
        let total = principal_covered.checked_add(interest_covered)?.checked_add(reserve_recovery)?;
        self.cash = self.cash.checked_add(total)?;
        self.outstanding_principal = self.outstanding_principal.checked_sub(principal_covered)?;
        self.expected_interest = self.expected_interest.checked_sub(interest_covered)?;
        self.loss_reserve = self.loss_reserve.checked_add(reserve_recovery)?;
        Ok(())
    }

    pub fn absorb_shortfall(&mut self, principal_loss: Amount, interest_loss: Amount) -> (r: KeystoneResult<()>)
        ensures
            principal_loss.0 > old(self).outstanding_principal.0 ==> r == Err::<(), KeystoneError>(
                KeystoneError::AmountUnderflow,
            ) && *final(self) == *old(self),
            principal_loss.0 <= old(self).outstanding_principal.0 && interest_loss.0 > old(self).expected_interest.0
                ==> r == Err::<(), KeystoneError>(KeystoneError::AmountUnderflow) && *final(self) == (Vault {
                outstanding_principal: Amount((old(self).outstanding_principal.0 - principal_loss.0) as u64),
                ..*old(self)
            }),
            principal_loss.0 <= old(self).outstanding_principal.0 && interest_loss.0 <= old(self).expected_interest.0
                && principal_loss.0 + interest_loss.0 > u64::MAX ==> r == Err::<(), KeystoneError>(
                KeystoneError::AmountOverflow,
            ) && *final(self) == (Vault {
                outstanding_principal: Amount((old(self).outstanding_principal.0 - principal_loss.0) as u64),
                expected_interest: Amount((old(self).expected_interest.0 - interest_loss.0) as u64),
                ..*old(self)
            }),
            principal_loss.0 <= old(self).outstanding_principal.0 && interest_loss.0 <= old(self).expected_interest.0
                && principal_loss.0 + interest_loss.0 <= u64::MAX ==> r is Ok && *final(self) == (Vault {
                outstanding_principal: Amount((old(self).outstanding_principal.0 - principal_loss.0) as u64),
                expected_interest: Amount((old(self).expected_interest.0 - interest_loss.0) as u64),
                loss_reserve: Amount(
                    if old(self).loss_reserve.0 >= principal_loss.0 + interest_loss.0 {
                        (old(self).loss_reserve.0 - principal_loss.0 - interest_loss.0) as u64
                    } else {
                        0
                    },
                ),
                ..*old(self)
            }),
    {
        self.outstanding_principal = self.outstanding_principal.checked_sub(principal_loss)?;
        self.expected_interest = self.expected_interest.checked_sub(interest_loss)?;
        let total_loss = principal_loss.checked_add(interest_loss)?;
        self.loss_reserve = self.loss_reserve.saturating_sub(total_loss);
        Ok(())
    }

    pub fn extinguish_borrower_debt(&mut self, principal: Amount, interest: Amount) -> (r: KeystoneResult<()>)
        ensures
            (r, *final(self)) == extinguish_outcome(*old(self), principal, interest),
    {
        self.debt_principal = self.debt_principal.checked_sub(principal)?;
        self.debt_interest_due = self.debt_interest_due.checked_sub(interest)?;
        Ok(())
    }

    pub fn accrue_protocol_fee(&mut self, amount: Amount) -> (r: KeystoneResult<()>)
        ensures
            old(self).protocol_fees.0 + amount.0 > u64::MAX ==> r == Err::<(), KeystoneError>(
                KeystoneError::AmountOverflow,
            ) && *final(self) == *old(self),
            old(self).protocol_fees.0 + amount.0 <= u64::MAX ==> r is Ok && *final(self) == (Vault {
                protocol_fees: Amount((old(self).protocol_fees.0 + amount.0) as u64),
                ..*old(self)
            }),
    {
        self.protocol_fees = self.protocol_fees.checked_add(amount)?;
        Ok(())
    }

    pub fn withdraw_protocol_fee(&mut self, amount: Amount) -> (r: KeystoneResult<()>)
        ensures
            amount.0 > old(self).protocol_fees.0 || amount.0 > old(self).cash.0 ==> r == Err::<(), KeystoneError>(
                KeystoneError::InsufficientCash,
            ) && *final(self) == *old(self),
            amount.0 <= old(self).protocol_fees.0 && amount.0 <= old(self).cash.0 ==> r is Ok && *final(self) == (Vault {
                protocol_fees: Amount((old(self).protocol_fees.0 - amount.0) as u64),
                cash: Amount((old(self).cash.0 - amount.0) as u64),
                ..*old(self)
            }),
    {
        if amount.0 > self.protocol_fees.0 || amount.0 > self.cash.0 {
            return Err(KeystoneError::InsufficientCash);
        }
        self.protocol_fees = self.protocol_fees.checked_sub(amount)?;
        self.cash = self.cash.checked_sub(amount)?;
        Ok(())
    }

    pub fn distribute_interest(&mut self, policy: ProtocolPolicy) -> (r: KeystoneResult<Vec<InterestClaim>>)
        requires
            old(self).wf(),
        ensures
            final(self).wf(),
            distribution_effect(*old(self), policy, *final(self), r),
    {
        if self.share_supply.is_zero() || self.realized_interest.is_zero() {
            return Ok(Vec::new());
        }
        let protocol_fee = policy.protocol_fee(self.realized_interest)?;
        let distributable = self.realized_interest.checked_sub(protocol_fee)?;
        if distributable.0 > self.cash.0 {
            return Err(KeystoneError::InsufficientCash);
        }
        let ghost keys = self.accounts.keys@;
        let ghost vals = self.accounts.vals@;
        let ghost total = self.share_supply.0 as int;
        let ghost d = distributable.0 as int;
        let mut claims: Vec<InterestClaim> = Vec::new();
        let mut allocated: u64 = 0;
        let mut i: usize = 0;
        proof {
            lemma_sum_nonneg(vals, |x: Shares| x.0 as int);
        }
        while i < self.accounts.keys.len()
            invariant
                self.wf(),
                self.accounts.keys@ == keys,
                self.accounts.vals@ == vals,
                total == self.share_supply.0 as int,
                total > 0,
                d == distributable.0,
                0 <= i <= keys.len(),
                claims@ == base_claims(keys, vals, i as int, d, total),
                allocated == claims_total(claims@),
                allocated * total <= d * total_shares(vals.take(i as int)),
                total_shares(vals.take(i as int)) <= total,
            decreases keys.len() - i,
        {
            let owner = self.accounts.keys[i];
            let shares = self.accounts.vals[i];
            proof {
                lemma_floor_share_bound(d, shares.0 as int, total);
                lemma_sum_take_next(vals, i as int, |x: Shares| x.0 as int);
                lemma_sum_prefix_le(vals, i as int + 1, |x: Shares| x.0 as int);
                assert(allocated * total + floor_share(d, shares, total) * total <= d * total_shares(vals.take(i as int + 1)))
                    by (nonlinear_arith)
                    requires
                        allocated * total <= d * total_shares(vals.take(i as int)),
                        floor_share(d, shares, total) * total <= d * shares.0,
                        total_shares(vals.take(i as int + 1)) == total_shares(vals.take(i as int)) + shares.0,
                ;
                assert((allocated + floor_share(d, shares, total)) * total <= d * total) by (nonlinear_arith)
                    requires
                        allocated * total + floor_share(d, shares, total) * total <= d * total_shares(vals.take(i as int + 1)),
                        total_shares(vals.take(i as int + 1)) <= total,
                        d >= 0,
                ;
                assert(allocated + floor_share(d, shares, total) <= d) by (nonlinear_arith)
                    requires
                        (allocated + floor_share(d, shares, total)) * total <= d * total,
                        total > 0,
                ;
            }
            let amount = split_by_shares(distributable, shares, self.share_supply)?;
            let ghost prev_alloc = allocated as int;
            if !amount.is_zero() {
                let ghost before = claims@;
                allocated = allocated + amount.0;
                claims.push(InterestClaim { owner, amount });
                proof {
                    lemma_sum_push(before, InterestClaim { owner, amount }, |c: InterestClaim| c.amount.0 as int);
                }
            }
            proof {
                assert(allocated * total <= d * total_shares(vals.take(i as int + 1))) by (nonlinear_arith)
                    requires
                        allocated == prev_alloc + amount.0,
                        amount.0 == floor_share(d, shares, total),
                        prev_alloc * total + floor_share(d, shares, total) * total <= d * total_shares(vals.take(i as int + 1)),
                ;
            }
            i = i + 1;
        }
        proof {
            assert(vals.take(keys.len() as int) =~= vals);
            assert(allocated <= d) by (nonlinear_arith)
                requires
                    allocated * total <= d * total_shares(vals),
                    total_shares(vals) == total,
                    total > 0,
            ;
        }
        let remainder = Amount(distributable.0 - allocated);
        let ghost base = claims@;
        if claims.len() > 0 {
            let last_index = claims.len() - 1;
            let last = claims[last_index];
            proof {
                lemma_sum_element_le(base, last_index as int, |c: InterestClaim| c.amount.0 as int);
                lemma_sum_update(
                    base,
                    last_index as int,
                    InterestClaim { owner: last.owner, amount: Amount((last.amount.0 + remainder.0) as u64) },
                    |c: InterestClaim| c.amount.0 as int,
                );
            }
            claims.set(last_index, InterestClaim { owner: last.owner, amount: Amount(last.amount.0 + remainder.0) });
            allocated = allocated + remainder.0;
        }
        if self.protocol_fees.0 > u64::MAX - protocol_fee.0 || self.distributed_interest.0 > u64::MAX - allocated {
            return Err(KeystoneError::AmountOverflow);
        }
        self.cash = Amount(self.cash.0 - allocated);
        self.realized_interest = Amount(0);
        self.protocol_fees = Amount(self.protocol_fees.0 + protocol_fee.0);
        self.distributed_interest = Amount(self.distributed_interest.0 + allocated);
        Ok(claims)
    }

    pub fn snapshot(&self) -> (r: KeystoneResult<VaultSnapshot>)
        requires
            self.accounts.wf(),
        ensures
            snapshot_matches(*self, r),
    {
        Ok(VaultSnapshot {
            id: self.id,
            name: self.name.clone(),
            role: self.role,
            cash: self.cash,
            share_supply: self.share_supply,
            gross_assets: self.gross_assets()?,
            liabilities: self.liabilities()?,
            nav: self.net_asset_value()?,
            outstanding_principal: self.outstanding_principal,
            expected_interest: self.expected_interest,
            realized_interest: self.realized_interest,
            debt_principal: self.debt_principal,
            debt_interest_due: self.debt_interest_due,
            locked_collateral: self.locked_collateral,
            loss_reserve: self.loss_reserve,
            protocol_fees: self.protocol_fees,
            distributed_interest: self.distributed_interest,
            utilization_bps: self.utilization_bps()?,
            holder_count: self.accounts.len(),
        })
    }

    pub fn digest(&self) -> (r: KeystoneResult<Digest>)
        requires
            self.accounts.wf(),
        ensures
            r is Ok <==> (nav_of(*self) is Ok && utilization_of(*self) is Ok),
            r matches Ok(d) ==> exists|s: VaultSnapshot|
                snapshot_matches(*self, Ok(s)) && d == parts_digest(VAULT_STATE_DOMAIN, seq![json_vault_snapshot(s)]),
    {
        let snapshot = self.snapshot()?;
        let mut bytes: Vec<u8> = Vec::new();
        write_vault_snapshot(&mut bytes, &snapshot);
        state_digest_from_json(VAULT_STATE_DOMAIN, bytes.as_slice())
    }

    pub fn assert_sane(&self) -> (r: KeystoneResult<()>)
        ensures
            r is Ok <==> (!(self.share_supply.0 == 0 && self.accounts.keys@.len() > 0) && total_shares(self.accounts.vals@)
                <= u64::MAX && total_shares(self.accounts.vals@) == self.share_supply.0 && nav_of(*self) is Ok),
            self.share_supply.0 == 0 && self.accounts.keys@.len() > 0 ==> (r matches Err(KeystoneError::Invariant(m))
                && m@ == "zero supply with active accounts"@),
    {
        if self.share_supply.is_zero() && self.accounts.keys.len() > 0 {
            return Err(KeystoneError::invariant_violation("zero supply with active accounts"));
        }
        let mut account_supply: u64 = 0;
        let mut i: usize = 0;
        proof {
            lemma_sum_nonneg(self.accounts.vals@, |x: Shares| x.0 as int);
        }
        while i < self.accounts.vals.len()
            invariant
                0 <= i <= self.accounts.vals@.len(),
                account_supply == total_shares(self.accounts.vals@.take(i as int)),
                !(self.share_supply.0 == 0 && self.accounts.keys@.len() > 0),
            decreases self.accounts.vals@.len() - i,
        {
            proof {
                lemma_sum_take_next(self.accounts.vals@, i as int, |x: Shares| x.0 as int);
            }
            match account_supply.checked_add(self.accounts.vals[i].0) {
                Some(v) => {
                    account_supply = v;
                },
                None => {
                    proof {
                        lemma_sum_prefix_le(self.accounts.vals@, i as int + 1, |x: Shares| x.0 as int);
                    }
                    return Err(KeystoneError::AmountOverflow);
                },
            }
            i = i + 1;
        }
        assert(self.accounts.vals@.take(self.accounts.vals@.len() as int) =~= self.accounts.vals@);
        if account_supply != self.share_supply.0 {
            return Err(KeystoneError::invariant_violation("share supply mismatch"));
        }
        let _ = self.net_asset_value()?;
        Ok(())
    }
}

/// `r` is the snapshot of `v`: its balances, totals, value, utilization and holder count.
pub open spec fn snapshot_matches(v: Vault, r: KeystoneResult<VaultSnapshot>) -> bool {
    match r {
        Err(e) => {
            &&& (nav_of(v) is Err || utilization_of(v) is Err)
            &&& e == (if nav_of(v) is Err { nav_of(v)->Err_0 } else { utilization_of(v)->Err_0 })
        },
        Ok(s) => {
            &&& nav_of(v) is Ok
            &&& utilization_of(v) is Ok
            &&& s.id == v.id
            &&& s.name@ == v.name@
            &&& s.role == v.role
            &&& s.cash == v.cash
            &&& s.share_supply == v.share_supply
            &&& s.gross_assets.0 == gross_of(v)
            &&& s.liabilities.0 == liabilities_of(v)
            &&& s.nav == nav_of(v)->Ok_0
            &&& s.outstanding_principal == v.outstanding_principal
            &&& s.expected_interest == v.expected_interest
            &&& s.realized_interest == v.realized_interest
            &&& s.debt_principal == v.debt_principal
            &&& s.debt_interest_due == v.debt_interest_due
            &&& s.locked_collateral == v.locked_collateral
            &&& s.loss_reserve == v.loss_reserve
            &&& s.protocol_fees == v.protocol_fees
            &&& s.distributed_interest == v.distributed_interest
            &&& s.utilization_bps == utilization_of(v)->Ok_0
            &&& s.holder_count == v.accounts.keys@.len()
        },
    }
}

/// What a vault can lend: its cash, up to the room left under the utilization cap.
pub open spec fn lendable_of(v: Vault, policy: ProtocolPolicy) -> KeystoneResult<Amount> {
    if !role_lends(v.role) {
        Err(KeystoneError::VaultRoleMismatch)
    } else {
        match nav_of(v) {
            Err(e) => Err(e),
            Ok(nav) => match amount_of(bps_floor(policy.limits.max_utilization_bps.0 as int, nav.0 as int)) {
                Err(e) => Err(e),
                Ok(max) => {
                    let room = if max.0 >= v.outstanding_principal.0 {
                        max.0 - v.outstanding_principal.0
                    } else {
                        0
                    };
                    Ok(if v.cash.0 <= room { v.cash } else { Amount(room as u64) })
                },
            },
        }
    }
}

pub open spec fn lock_result(v: Vault, amount: Amount) -> KeystoneResult<()> {
    if !role_borrows(v.role) {
        Err(KeystoneError::VaultRoleMismatch)
    } else if amount.0 > v.cash.0 {
        Err(KeystoneError::InsufficientCollateral)
    } else if v.locked_collateral.0 + amount.0 > u64::MAX {
        Err(KeystoneError::AmountOverflow)
    } else {
        Ok(())
    }
}

/// The vault after locking collateral: cash moves to the locked balance where the lock is allowed.
pub open spec fn lock_state(v: Vault, amount: Amount) -> Vault {
    if lock_result(v, amount) is Ok {
        Vault {
            cash: Amount((v.cash.0 - amount.0) as u64),
            locked_collateral: Amount((v.locked_collateral.0 + amount.0) as u64),
            ..v
        }
    } else {
        v
    }
}

/// Releasing collateral: up to the locked balance moves back to cash.
pub open spec fn release_outcome(v: Vault, amount: Amount) -> (KeystoneResult<Amount>, Vault) {
    let released = if amount.0 <= v.locked_collateral.0 { amount } else { v.locked_collateral };
    let unlocked = Vault { locked_collateral: Amount((v.locked_collateral.0 - released.0) as u64), ..v };
    if v.cash.0 + released.0 > u64::MAX {
        (Err(KeystoneError::AmountOverflow), unlocked)
    } else {
        (Ok(released), Vault { cash: Amount((v.cash.0 + released.0) as u64), ..unlocked })
    }
}

/// Seizing collateral: up to the locked balance leaves the vault.
pub open spec fn seize_outcome(v: Vault, amount: Amount) -> (KeystoneResult<Amount>, Vault) {
    let seized = if amount.0 <= v.locked_collateral.0 { amount } else { v.locked_collateral };
    (Ok(seized), Vault { locked_collateral: Amount((v.locked_collateral.0 - seized.0) as u64), ..v })
}

/// Lowering the interest a lender expects.
pub open spec fn reduce_expected_outcome(v: Vault, amount: Amount) -> (KeystoneResult<()>, Vault) {
    if amount.0 > v.expected_interest.0 {
        (Err(KeystoneError::AmountUnderflow), v)
    } else {
        (Ok(()), Vault { expected_interest: Amount((v.expected_interest.0 - amount.0) as u64), ..v })
    }
}

/// Cancelling borrowed principal and interest, each checked against what is owed.
pub open spec fn extinguish_outcome(v: Vault, principal: Amount, interest: Amount) -> (KeystoneResult<()>, Vault) {
    if principal.0 > v.debt_principal.0 {
        (Err(KeystoneError::AmountUnderflow), v)
    } else {
        let less_principal = Vault { debt_principal: Amount((v.debt_principal.0 - principal.0) as u64), ..v };
        if interest.0 > v.debt_interest_due.0 {
            (Err(KeystoneError::AmountUnderflow), less_principal)
        } else {
            (Ok(()), Vault {
                debt_interest_due: Amount((v.debt_interest_due.0 - interest.0) as u64),
                ..less_principal
            })
        }
    }
}

/// The shares a deposit of `amount` mints, or why it is refused: the deposit checks, then the
/// cash, the share supply and the gross assets must still fit an amount.
pub open spec fn deposit_check_of(v: Vault, amount: Amount) -> KeystoneResult<Shares> {
    match minted_shares(v, amount) {
        Err(e) => Err(e),
        Ok(shares) => if v.cash.0 + amount.0 > u64::MAX || v.share_supply.0 + shares.0 > u64::MAX || gross_of(v)
            + amount.0 > u64::MAX {
            Err(KeystoneError::AmountOverflow)
        } else {
            Ok(shares)
        },
    }
}

/// A deposit mints shares at the current value, credits them to the owner and adds the cash; a
/// refused deposit changes nothing.
pub open spec fn deposit_effect(
    v: Vault,
    owner: AccountId,
    amount: Amount,
    f: Vault,
    r: KeystoneResult<DepositReceipt>,
) -> bool {
    match deposit_check_of(v, amount) {
        Err(e) => r == Err::<DepositReceipt, KeystoneError>(e) && f == v,
        Ok(shares) => {
            &&& f == (Vault {
                cash: Amount((v.cash.0 + amount.0) as u64),
                share_supply: Shares((v.share_supply.0 + shares.0) as u64),
                accounts: f.accounts,
                ..v
            })
            &&& f.holding(owner).0 == v.holding(owner).0 + shares.0
            &&& forall|o: AccountId| o != owner ==> f.holding(o) == v.holding(o)
            &&& nav_of(f) is Ok
            &&& r == Ok::<DepositReceipt, KeystoneError>(
                DepositReceipt {
                    vault: v.id,
                    owner,
                    position: PositionId(parts_digest(POSITION_DOMAIN, seq![v.id.0.0@, owner.0.0@])),
                    amount,
                    shares,
                    nav_before: nav_of(v)->Ok_0,
                    nav_after: nav_of(f)->Ok_0,
                },
            )
        },
    }
}

/// The quote a redemption pays, or why it is refused: the vault must be neither paused nor
/// frozen, the quote must exist, and the vault must hold the cash it pays.
pub open spec fn redeem_check_of(v: Vault, owner: AccountId, shares: Shares) -> KeystoneResult<RedemptionQuote> {
    if v.paused {
        Err(KeystoneError::VaultPaused)
    } else if v.frozen {
        Err(KeystoneError::VaultFrozen)
    } else {
        match redeem_quote_of(v, owner, shares) {
            Err(e) => Err(e),
            Ok(q) => if q.amount.0 > v.cash.0 {
                Err(KeystoneError::RedemptionTooLarge)
            } else {
                Ok(q)
            },
        }
    }
}

/// A redemption pays the quoted amount from cash and burns the owner's shares; a refused
/// redemption changes nothing.
pub open spec fn redeem_effect(v: Vault, owner: AccountId, shares: Shares, f: Vault, r: KeystoneResult<RedemptionQuote>) -> bool {
    match redeem_check_of(v, owner, shares) {
        Err(e) => r == Err::<RedemptionQuote, KeystoneError>(e) && f == v,
        Ok(q) => {
            &&& r == Ok::<RedemptionQuote, KeystoneError>(q)
            &&& f == (Vault {
                cash: Amount((v.cash.0 - q.amount.0) as u64),
                share_supply: Shares((v.share_supply.0 - shares.0) as u64),
                accounts: f.accounts,
                ..v
            })
            &&& f.holding(owner).0 == v.holding(owner).0 - shares.0
            &&& forall|o: AccountId| o != owner ==> f.holding(o) == v.holding(o)
        },
    }
}

pub open spec fn fund_outcome(v: Vault, principal: Amount, projected: Amount) -> (KeystoneResult<()>, Vault) {
    if !role_lends(v.role) {
        (Err(KeystoneError::VaultRoleMismatch), v)
    } else if principal.0 > v.cash.0 {
        (Err(KeystoneError::InsufficientLiquidity), v)
    } else {
        let cash = Amount((v.cash.0 - principal.0) as u64);
        if v.outstanding_principal.0 + principal.0 > u64::MAX {
            (Err(KeystoneError::AmountOverflow), Vault { cash, ..v })
        } else if v.expected_interest.0 + projected.0 > u64::MAX {
            (Err(KeystoneError::AmountOverflow), Vault {
                cash,
                outstanding_principal: Amount((v.outstanding_principal.0 + principal.0) as u64),
                ..v
            })
        } else {
            (Ok(()), Vault {
                cash,
                outstanding_principal: Amount((v.outstanding_principal.0 + principal.0) as u64),
                expected_interest: Amount((v.expected_interest.0 + projected.0) as u64),
                ..v
            })
        }
    }
}

pub open spec fn fund_effect(v: Vault, principal: Amount, projected: Amount, f: Vault, r: KeystoneResult<()>) -> bool {
    (r, f) == fund_outcome(v, principal, projected)
}

pub open spec fn draw_outcome(v: Vault, principal: Amount, projected: Amount) -> (KeystoneResult<()>, Vault) {
    if !role_borrows(v.role) {
        (Err(KeystoneError::VaultRoleMismatch), v)
    } else if v.cash.0 + principal.0 > u64::MAX {
        (Err(KeystoneError::AmountOverflow), v)
    } else {
        let cash = Amount((v.cash.0 + principal.0) as u64);
        if v.debt_principal.0 + principal.0 > u64::MAX {
            (Err(KeystoneError::AmountOverflow), Vault { cash, ..v })
        } else if v.debt_interest_due.0 + projected.0 > u64::MAX {
            (Err(KeystoneError::AmountOverflow), Vault {
                cash,
                debt_principal: Amount((v.debt_principal.0 + principal.0) as u64),
                ..v
            })
        } else {
            (Ok(()), Vault {
                cash,
                debt_principal: Amount((v.debt_principal.0 + principal.0) as u64),
                debt_interest_due: Amount((v.debt_interest_due.0 + projected.0) as u64),
                ..v
            })
        }
    }
}

pub open spec fn draw_effect(v: Vault, principal: Amount, projected: Amount, f: Vault, r: KeystoneResult<()>) -> bool {
    (r, f) == draw_outcome(v, principal, projected)
}

pub open spec fn receive_repayment_outcome(v: Vault, principal: Amount, interest: Amount) -> (KeystoneResult<()>, Vault) {
    let total = principal.0 + interest.0;
    if total > u64::MAX || v.cash.0 + total > u64::MAX {
        (Err(KeystoneError::AmountOverflow), v)
    } else {
        let cash = Amount((v.cash.0 + total) as u64);
        if principal.0 > v.outstanding_principal.0 {
            (Err(KeystoneError::AmountUnderflow), Vault { cash, ..v })
        } else if v.realized_interest.0 + interest.0 > u64::MAX {
            (Err(KeystoneError::AmountOverflow), Vault {
                cash,
                outstanding_principal: Amount((v.outstanding_principal.0 - principal.0) as u64),
                ..v
            })
        } else {
            (Ok(()), Vault {
                cash,
                outstanding_principal: Amount((v.outstanding_principal.0 - principal.0) as u64),
                realized_interest: Amount((v.realized_interest.0 + interest.0) as u64),
                ..v
            })
        }
    }
}

pub open spec fn receive_repayment_effect(v: Vault, principal: Amount, interest: Amount, f: Vault, r: KeystoneResult<()>) -> bool {
    (r, f) == receive_repayment_outcome(v, principal, interest)
}

pub open spec fn pay_repayment_outcome(v: Vault, principal: Amount, interest: Amount, reduction: Amount) -> (KeystoneResult<()>, Vault) {
    let total = principal.0 + interest.0;
    if total > u64::MAX {
        (Err(KeystoneError::AmountOverflow), v)
    } else if total > v.cash.0 {
        (Err(KeystoneError::InsufficientCash), v)
    } else {
        let cash = Amount((v.cash.0 - total) as u64);
        if principal.0 > v.debt_principal.0 {
            (Err(KeystoneError::AmountUnderflow), Vault { cash, ..v })
        } else if reduction.0 > v.debt_interest_due.0 {
            (Err(KeystoneError::AmountUnderflow), Vault {
                cash,
                debt_principal: Amount((v.debt_principal.0 - principal.0) as u64),
                ..v
            })
        } else {
            (Ok(()), Vault {
                cash,
                debt_principal: Amount((v.debt_principal.0 - principal.0) as u64),
                debt_interest_due: Amount((v.debt_interest_due.0 - reduction.0) as u64),
                ..v
            })
        }
    }
}

pub open spec fn pay_repayment_effect(v: Vault, principal: Amount, interest: Amount, reduction: Amount, f: Vault, r: KeystoneResult<()>) -> bool {
    (r, f) == pay_repayment_outcome(v, principal, interest, reduction)
}

/// Receiving liquidation proceeds: the covered principal, the covered interest and the reserve
/// recovery come in as cash, the covered principal and interest leave the lender's receivables,
/// and the recovery goes to the loss reserve. The first step that fails stops the others.
pub open spec fn proceeds_outcome(v: Vault, principal: Amount, interest: Amount, reserve: Amount) -> (KeystoneResult<()>, Vault) {
    let total = principal.0 + interest.0 + reserve.0;
    if principal.0 + interest.0 > u64::MAX || total > u64::MAX || v.cash.0 + total > u64::MAX {
        (Err(KeystoneError::AmountOverflow), v)
    } else {
        let cash = Amount((v.cash.0 + total) as u64);
        if principal.0 > v.outstanding_principal.0 {
            (Err(KeystoneError::AmountUnderflow), Vault { cash, ..v })
        } else {
            let outstanding = Amount((v.outstanding_principal.0 - principal.0) as u64);
            if interest.0 > v.expected_interest.0 {
                (Err(KeystoneError::AmountUnderflow), Vault {
                    cash,
                    outstanding_principal: outstanding,
                    ..v
                })
            } else {
                let expected = Amount((v.expected_interest.0 - interest.0) as u64);
                if v.loss_reserve.0 + reserve.0 > u64::MAX {
                    (Err(KeystoneError::AmountOverflow), Vault {
                        cash,
                        outstanding_principal: outstanding,
                        expected_interest: expected,
                        ..v
                    })
                } else {
                    (Ok(()), Vault {
                        cash,
                        outstanding_principal: outstanding,
                        expected_interest: expected,
                        loss_reserve: Amount((v.loss_reserve.0 + reserve.0) as u64),
                        ..v
                    })
                }
            }
        }
    }
}

pub open spec fn proceeds_effect(v: Vault, principal: Amount, interest: Amount, reserve: Amount, f: Vault, r: KeystoneResult<()>) -> bool {
    (r, f) == proceeds_outcome(v, principal, interest, reserve)
}

/// Distributing realized interest: the protocol fee is kept, the rest goes to the holders in
/// proportion to their shares (the remainder of rounding to the last claim), leaves cash, and is
/// recorded as distributed; realized interest drops to zero. A refused distribution changes
/// nothing.
pub open spec fn distribution_effect(v: Vault, policy: ProtocolPolicy, f: Vault, r: KeystoneResult<Vec<InterestClaim>>) -> bool {
    if v.share_supply.0 == 0 || v.realized_interest.0 == 0 {
        (r matches Ok(c) && c@.len() == 0) && f == v
    } else {
        match amount_of(bps_floor(policy.protocol_fee_bps.0 as int, v.realized_interest.0 as int)) {
            Err(e) => r == Err::<Vec<InterestClaim>, KeystoneError>(e) && f == v,
            Ok(fee) => match amount_diff(v.realized_interest.0 as int, fee.0 as int) {
                Err(e) => r == Err::<Vec<InterestClaim>, KeystoneError>(e) && f == v,
                Ok(d) => if d.0 > v.cash.0 {
                    r == Err::<Vec<InterestClaim>, KeystoneError>(KeystoneError::InsufficientCash) && f == v
                } else {
                    let claims = distribution_claims(v, d.0 as int);
                    let paid = if claims.len() == 0 { 0 } else { d.0 as int };
                    let cash = Amount((v.cash.0 - paid) as u64);
                    if v.protocol_fees.0 + fee.0 > u64::MAX || v.distributed_interest.0 + paid > u64::MAX {
                        r == Err::<Vec<InterestClaim>, KeystoneError>(KeystoneError::AmountOverflow) && f == v
                    } else {
                        &&& r matches Ok(c) && c@ == claims
                        &&& claims_total(claims) == paid
                        &&& f == (Vault {
                            cash,
                            realized_interest: Amount(0),
                            protocol_fees: Amount((v.protocol_fees.0 + fee.0) as u64),
                            distributed_interest: Amount((v.distributed_interest.0 + paid) as u64),
                            ..v
                        })
                    }
                }
            },
        }
    }
}

} // verus!
