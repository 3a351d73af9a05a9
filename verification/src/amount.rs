use vstd::prelude::*;

use crate::error::{KeystoneError, KeystoneResult};

verus! {

pub const BPS_DENOMINATOR: u128 = 10_000;

pub const DECIMAL_SCALE: u128 = 1_000_000_000_000;

/// The amount holding the mathematical value `v`, or the overflow error where it does not fit.
pub open spec fn amount_of(v: int) -> KeystoneResult<Amount> {
    if 0 <= v <= u64::MAX {
        Ok(Amount(v as u64))
    } else {
        Err(KeystoneError::AmountOverflow)
    }
}

/// The share count holding `v`, or the overflow error where it does not fit.
pub open spec fn shares_of_int(v: int) -> KeystoneResult<Shares> {
    if 0 <= v <= u64::MAX {
        Ok(Shares(v as u64))
    } else {
        Err(KeystoneError::AmountOverflow)
    }
}

/// `a - b` as an amount, or the underflow error where `b` exceeds `a`.
pub open spec fn amount_diff(a: int, b: int) -> KeystoneResult<Amount> {
    if a >= b {
        Ok(Amount((a - b) as u64))
    } else {
        Err(KeystoneError::AmountUnderflow)
    }
}

/// Division rounded up, for a positive divisor.
pub open spec fn div_up(a: int, d: int) -> int {
    (a + d - 1) / d
}

/// The basis-point value `v`, validated against the wide bound of ten times one hundred percent.
pub open spec fn bps_of(v: u32) -> KeystoneResult<Bps> {
    if v > 100_000 {
        Err(KeystoneError::InvalidBps(v))
    } else {
        Ok(Bps(v))
    }
}

/// The basis-point value `v`, validated against one hundred percent.
pub open spec fn bps_strict_of(v: u32) -> KeystoneResult<Bps> {
    if v > 10_000 {
        Err(KeystoneError::InvalidBps(v))
    } else {
        Ok(Bps(v))
    }
}

/// The sum of two basis-point values, validated as `Bps::new` does.
pub open spec fn bps_add(a: Bps, b: Bps) -> KeystoneResult<Bps> {
    if a.0 + b.0 > u32::MAX {
        Err(KeystoneError::AmountOverflow)
    } else {
        bps_of((a.0 + b.0) as u32)
    }
}

/// `floor(amount * rate / 10_000)`.
pub open spec fn bps_floor(rate: int, amount: int) -> int {
    amount * rate / 10_000
}

/// `ceil(amount * rate / 10_000)`.
pub open spec fn bps_ceil(rate: int, amount: int) -> int {
    div_up(amount * rate, 10_000)
}

pub proof fn lemma_div_up_parts(p: int, d: int)
    requires
        p >= 0,
        d > 0,
    ensures
        div_up(p, d) == p / d + (if p % d == 0 { 0int } else { 1int }),
        div_up(p, d) >= p / d,
        div_up(p, d) * d >= p,
        p == 0 ==> div_up(p, d) == 0,
{
    vstd::arithmetic::div_mod::lemma_fundamental_div_mod(p, d);
    let q = p / d;
    let r = p % d;
    assert(0 <= r < d);
    if r == 0 {
        assert(p + d - 1 == q * d + (d - 1)) by (nonlinear_arith)
            requires
                p == d * q + r,
                r == 0,
        ;
        vstd::arithmetic::div_mod::lemma_fundamental_div_mod_converse(p + d - 1, d, q, d - 1);
    } else {
        assert(p + d - 1 == (q + 1) * d + (r - 1)) by (nonlinear_arith)
            requires
                p == d * q + r,
        ;
        vstd::arithmetic::div_mod::lemma_fundamental_div_mod_converse(p + d - 1, d, q + 1, r - 1);
    }
    assert(div_up(p, d) * d >= p) by (nonlinear_arith)
        requires
            p == d * q + r,
            r < d,
            r == 0 ==> div_up(p, d) == q,
            r != 0 ==> div_up(p, d) == q + 1,
    ;
}

/// A share of `a`, rounded up, is at most `a`.
pub proof fn lemma_div_up_share(a: int, p: int, r: int)
    requires
        a >= 0,
        0 <= p <= r,
        r > 0,
    ensures
        0 <= div_up(a * p, r) <= a,
        a * p <= a * r,
        a * p >= 0,
{
    assert(a * p <= a * r) by (nonlinear_arith)
        requires
            a >= 0,
            p <= r,
    ;
    assert(a * p >= 0) by (nonlinear_arith)
        requires
            a >= 0,
            p >= 0,
    ;
    vstd::arithmetic::div_mod::lemma_div_is_ordered(a * p + r - 1, a * r + r - 1, r);
    assert(a * r + r - 1 == a * r + (r - 1));
    assert(a * r == r * a) by (nonlinear_arith);
    vstd::arithmetic::div_mod::lemma_fundamental_div_mod_converse(a * r + r - 1, r, a, r - 1);
    vstd::arithmetic::div_mod::lemma_div_pos_is_pos(a * p + r - 1, r);
}

/// Rounds `p / d` up, computed without overflow.
pub(crate) fn u128_div_up(p: u128, d: u128) -> (r: u128)
    requires
        d > 0,
    ensures
        r == div_up(p as int, d as int),
{
    proof {
        lemma_div_up_parts(p as int, d as int);
    }
    let q = p / d;
    if p % d == 0 {
        q
    } else {
        proof {
            vstd::arithmetic::div_mod::lemma_fundamental_div_mod(p as int, d as int);
            assert(q * d <= p) by (nonlinear_arith)
                requires
                    p as int == d * q + (p % d),
                    p % d >= 0,
            ;
            assert(q < u128::MAX) by (nonlinear_arith)
                requires
                    q * d <= p,
                    d > 0,
                    p % d > 0,
                    p as int == d * q + (p % d),
            ;
        }
        q + 1
    }
}

/// A quantity of the vault asset, in its smallest unit.
#[derive(Clone, Copy, Debug, PartialEq, Eq, Structural, PartialOrd, Ord, Hash, Default)]
pub struct Amount(pub u64);

impl Amount {
    pub fn new(value: u64) -> (r: KeystoneResult<Self>)
        ensures
            r == Ok::<Amount, KeystoneError>(Amount(value)),
    {
        Ok(Amount(value))
    }

    pub fn non_zero(value: u64) -> (r: KeystoneResult<Self>)
        ensures
            value == 0 ==> r == Err::<Amount, KeystoneError>(KeystoneError::ZeroAmount),
            value != 0 ==> r == Ok::<Amount, KeystoneError>(Amount(value)),
    {
        if value == 0 {
            return Err(KeystoneError::ZeroAmount);
        }
        Ok(Amount(value))
    }

    pub fn raw(self) -> (r: u64)
        ensures
            r == self.0,
    {
        self.0
    }

    pub fn as_u128(self) -> (r: u128)
        ensures
            r == self.0,
    {
        self.0 as u128
    }

    pub fn is_zero(self) -> (r: bool)
        ensures
            r == (self.0 == 0),
    {
        self.0 == 0
    }

    pub fn checked_add(self, rhs: Amount) -> (r: KeystoneResult<Amount>)
        ensures
            r == amount_of(self.0 + rhs.0),
    {
        match self.0.checked_add(rhs.0) {
            Some(v) => Ok(Amount(v)),
            None => Err(KeystoneError::AmountOverflow),
        }
    }

    pub fn checked_sub(self, rhs: Amount) -> (r: KeystoneResult<Amount>)
        ensures
            r == amount_diff(self.0 as int, rhs.0 as int),
    {
        match self.0.checked_sub(rhs.0) {
            Some(v) => Ok(Amount(v)),
            None => Err(KeystoneError::AmountUnderflow),
        }
    }

    pub fn checked_mul_u64(self, rhs: u64) -> (r: KeystoneResult<Amount>)
        ensures
            r == amount_of(self.0 * rhs),
    {
        proof {
            assert(self.0 * rhs <= u64::MAX * u64::MAX) by (nonlinear_arith);
            assert(u64::MAX * u64::MAX <= u128::MAX) by (nonlinear_arith);
            assert(self.0 * rhs >= 0) by (nonlinear_arith);
        }
        let value = (self.0 as u128) * (rhs as u128);
        Amount::from_u128(value)
    }

    pub fn checked_div_u64(self, rhs: u64) -> (r: KeystoneResult<Amount>)
        ensures
            rhs == 0 ==> r == Err::<Amount, KeystoneError>(KeystoneError::DivisionByZero),
            rhs != 0 ==> r == Ok::<Amount, KeystoneError>(Amount(self.0 / rhs)),
    {
        if rhs == 0 {
            return Err(KeystoneError::DivisionByZero);
        }
        Ok(Amount(self.0 / rhs))
    }

    pub fn saturating_sub(self, rhs: Amount) -> (r: Amount)
        ensures
            r.0 == (if self.0 >= rhs.0 { self.0 - rhs.0 } else { 0 }),
    {
        if self.0 >= rhs.0 {
            Amount(self.0 - rhs.0)
        } else {
            Amount(0)
        }
    }

    pub fn min(self, rhs: Amount) -> (r: Amount)
        ensures
            r == (if self.0 <= rhs.0 { self } else { rhs }),
    {
        if self.0 <= rhs.0 {
            self
        } else {
            rhs
        }
    }

    pub fn max(self, rhs: Amount) -> (r: Amount)
        ensures
            r == (if self.0 >= rhs.0 { self } else { rhs }),
    {
        if self.0 >= rhs.0 {
            self
        } else {
            rhs
        }
    }

    pub fn ceil_div(self, rhs: u64) -> (r: KeystoneResult<Amount>)
        ensures
            rhs == 0 ==> r == Err::<Amount, KeystoneError>(KeystoneError::DivisionByZero),
            rhs != 0 ==> r == Ok::<Amount, KeystoneError>(Amount(div_up(self.0 as int, rhs as int) as u64)),
    {
        if rhs == 0 {
            return Err(KeystoneError::DivisionByZero);
        }
        proof {
            lemma_div_up_parts(self.0 as int, rhs as int);
        }
        if self.0 == 0 {
            return Ok(Amount(0));
        }
        proof {
            let a = self.0 as int;
            let d = rhs as int;
            vstd::arithmetic::div_mod::lemma_fundamental_div_mod(a - 1, d);
            let q = (a - 1) / d;
            let r = (a - 1) % d;
            assert(a + d - 1 == (q + 1) * d + r) by (nonlinear_arith)
                requires
                    a - 1 == d * q + r,
            ;
            vstd::arithmetic::div_mod::lemma_fundamental_div_mod_converse(a + d - 1, d, q + 1, r);
            assert(q <= a) by (nonlinear_arith)
                requires
                    a - 1 == d * q + r,
                    r >= 0,
                    d >= 1,
                    a >= 1,
            ;
        }
        Ok(Amount(1 + ((self.0 - 1) / rhs)))
    }

    pub fn from_u128(value: u128) -> (r: KeystoneResult<Amount>)
        ensures
            r == amount_of(value as int),
    {
        if value > u64::MAX as u128 {
            return Err(KeystoneError::AmountOverflow);
        }
        Ok(Amount(value as u64))
    }

    pub fn proportion_floor(self, numerator: u128, denominator: u128) -> (r: KeystoneResult<Amount>)
        requires
            self.0 * numerator <= u128::MAX,
        ensures
            denominator == 0 ==> r == Err::<Amount, KeystoneError>(KeystoneError::DivisionByZero),
            denominator != 0 ==> r == amount_of(self.0 * numerator / (denominator as int)),
    {
        if denominator == 0 {
            return Err(KeystoneError::DivisionByZero);
        }
        proof {
            assert(self.0 * numerator >= 0) by (nonlinear_arith);
        }
        Amount::from_u128((self.0 as u128) * numerator / denominator)
    }

    pub fn proportion_ceil(self, numerator: u128, denominator: u128) -> (r: KeystoneResult<Amount>)
        ensures
            denominator == 0 ==> r == Err::<Amount, KeystoneError>(KeystoneError::DivisionByZero),
            denominator != 0 && self.0 * numerator > u128::MAX ==> r == Err::<Amount, KeystoneError>(
                KeystoneError::AmountOverflow,
            ),
            denominator != 0 && self.0 * numerator <= u128::MAX ==> r == amount_of(
                div_up(self.0 * numerator, denominator as int),
            ),
    {
        if denominator == 0 {
            return Err(KeystoneError::DivisionByZero);
        }
        let product = match (self.0 as u128).checked_mul(numerator) {
            Some(p) => p,
            None => {
                return Err(KeystoneError::AmountOverflow);
            },
        };
        Amount::from_u128(u128_div_up(product, denominator))
    }

    pub fn checked_sum(values: &[Amount]) -> (r: KeystoneResult<Amount>)
        ensures
            r == amount_of(sum_amounts(values@)),
    {
        let mut total: u64 = 0;
        let mut i: usize = 0;
        while i < values.len()
            invariant
                i <= values@.len(),
                total == sum_amounts(values@.take(i as int)),
            decreases values@.len() - i,
        {
            proof {
                lemma_sum_amounts_push(values@, i as int);
            }
            match total.checked_add(values[i].0) {
                Some(v) => {
                    total = v;
                },
                None => {
                    proof {
                        lemma_sum_amounts_monotone(values@, i as int + 1);
                    }
                    return Err(KeystoneError::AmountOverflow);
                },
            }
            i = i + 1;
        }
        assert(values@.take(values@.len() as int) =~= values@);
        Ok(Amount(total))
    }
}

/// The mathematical sum of a sequence of amounts.
pub open spec fn sum_amounts(s: Seq<Amount>) -> int
    decreases s.len(),
{
    if s.len() == 0 {
        0
    } else {
        sum_amounts(s.drop_last()) + s.last().0
    }
}

pub proof fn lemma_sum_amounts_push(s: Seq<Amount>, i: int)
    requires
        0 <= i < s.len(),
    ensures
        sum_amounts(s.take(i + 1)) == sum_amounts(s.take(i)) + s[i].0,
{
    assert(s.take(i + 1).drop_last() =~= s.take(i));
}

pub proof fn lemma_sum_amounts_nonneg(s: Seq<Amount>)
    ensures
        sum_amounts(s) >= 0,
    decreases s.len(),
{
    if s.len() > 0 {
        lemma_sum_amounts_nonneg(s.drop_last());
    }
}

/// Once the running sum of a prefix exceeds a bound, the sum of the whole sequence does too.
pub proof fn lemma_sum_amounts_monotone(s: Seq<Amount>, i: int)
    requires
        0 <= i <= s.len(),
    ensures
        sum_amounts(s.take(i)) <= sum_amounts(s),
    decreases s.len() - i,
{
    if i < s.len() {
        lemma_sum_amounts_push(s, i);
        lemma_sum_amounts_monotone(s, i + 1);
    } else {
        assert(s.take(i) =~= s);
    }
}


/// Adding amounts with `+` is defined where the sum fits an amount.
impl core::ops::Add for Amount {
    type Output = Amount;

    fn add(self, rhs: Amount) -> (r: Amount) {
        Amount(self.0 + rhs.0)
    }
}

impl vstd::std_specs::ops::AddSpecImpl for Amount {
    open spec fn obeys_add_spec() -> bool {
        true
    }

    open spec fn add_req(self, rhs: Amount) -> bool {
        self.0 + rhs.0 <= u64::MAX
    }

    open spec fn add_spec(self, rhs: Amount) -> Amount {
        Amount((self.0 + rhs.0) as u64)
    }
}

/// Subtracting amounts with `-` is defined where the right side is no larger.
impl core::ops::Sub for Amount {
    type Output = Amount;

    fn sub(self, rhs: Amount) -> (r: Amount) {
        Amount(self.0 - rhs.0)
    }
}

impl vstd::std_specs::ops::SubSpecImpl for Amount {
    open spec fn obeys_sub_spec() -> bool {
        true
    }

    open spec fn sub_req(self, rhs: Amount) -> bool {
        rhs.0 <= self.0
    }

    open spec fn sub_spec(self, rhs: Amount) -> Amount {
        Amount((self.0 - rhs.0) as u64)
    }
}

/// Units of ownership in a vault.
#[derive(Clone, Copy, Debug, PartialEq, Eq, Structural, PartialOrd, Ord, Hash, Default)]
pub struct Shares(pub u64);

impl Shares {


    pub fn new(value: u64) -> (r: KeystoneResult<Self>)
        ensures
            r == Ok::<Shares, KeystoneError>(Shares(value)),
    {
        Ok(Shares(value))
    }

    pub fn non_zero(value: u64) -> (r: KeystoneResult<Self>)
        ensures
            value == 0 ==> r == Err::<Shares, KeystoneError>(KeystoneError::ZeroShares),
            value != 0 ==> r == Ok::<Shares, KeystoneError>(Shares(value)),
    {
        if value == 0 {
            return Err(KeystoneError::ZeroShares);
        }
        Ok(Shares(value))
    }

    pub fn raw(self) -> (r: u64)
        ensures
            r == self.0,
    {
        self.0
    }

    pub fn as_u128(self) -> (r: u128)
        ensures
            r == self.0,
    {
        self.0 as u128
    }

    pub fn is_zero(self) -> (r: bool)
        ensures
            r == (self.0 == 0),
    {
        self.0 == 0
    }

    pub fn checked_add(self, rhs: Shares) -> (r: KeystoneResult<Shares>)
        ensures
            r == shares_of_int(self.0 + rhs.0),
    {
        match self.0.checked_add(rhs.0) {
            Some(v) => Ok(Shares(v)),
            None => Err(KeystoneError::AmountOverflow),
        }
    }

    pub fn checked_sub(self, rhs: Shares) -> (r: KeystoneResult<Shares>)
        ensures
            self.0 >= rhs.0 ==> r == Ok::<Shares, KeystoneError>(Shares((self.0 - rhs.0) as u64)),
            self.0 < rhs.0 ==> r == Err::<Shares, KeystoneError>(KeystoneError::AmountUnderflow),
    {
        match self.0.checked_sub(rhs.0) {
            Some(v) => Ok(Shares(v)),
            None => Err(KeystoneError::AmountUnderflow),
        }
    }

    pub fn from_u128(value: u128) -> (r: KeystoneResult<Shares>)
        ensures
            r == shares_of_int(value as int),
    {
        if value > u64::MAX as u128 {
            return Err(KeystoneError::AmountOverflow);
        }
        Ok(Shares(value as u64))
    }
}

/// A rate in basis points: 10_000 is one hundred percent.
#[derive(Clone, Copy, Debug, PartialEq, Eq, Structural, PartialOrd, Ord, Hash, Default)]
pub struct Bps(pub u32);

impl Bps {


    pub fn new(value: u32) -> (r: KeystoneResult<Self>)
        ensures
            r == bps_of(value),
    {
        if value > 100_000 {
            return Err(KeystoneError::InvalidBps(value));
        }
        Ok(Bps(value))
    }

    pub fn strict(value: u32) -> (r: KeystoneResult<Self>)
        ensures
            r == bps_strict_of(value),
    {
        if value > 10_000 {
            return Err(KeystoneError::InvalidBps(value));
        }
        Ok(Bps(value))
    }

    pub fn raw(self) -> (r: u32)
        ensures
            r == self.0,
    {
        self.0
    }

    pub fn is_zero(self) -> (r: bool)
        ensures
            r == (self.0 == 0),
    {
        self.0 == 0
    }

    pub fn apply_floor(self, amount: Amount) -> (r: KeystoneResult<Amount>)
        ensures
            r == amount_of(bps_floor(self.0 as int, amount.0 as int)),
    {
        proof {
            assert(amount.0 * self.0 <= u64::MAX * u32::MAX) by (nonlinear_arith);
            assert(amount.0 * self.0 >= 0) by (nonlinear_arith);
            assert(u64::MAX * u32::MAX <= u128::MAX) by (nonlinear_arith);
        }
        Amount::from_u128((amount.0 as u128) * (self.0 as u128) / BPS_DENOMINATOR)
    }

    pub fn apply_ceil(self, amount: Amount) -> (r: KeystoneResult<Amount>)
        ensures
            r == amount_of(bps_ceil(self.0 as int, amount.0 as int)),
    {
        proof {
            assert(amount.0 * self.0 <= u64::MAX * u32::MAX) by (nonlinear_arith);
            assert(amount.0 * self.0 >= 0) by (nonlinear_arith);
            assert(u64::MAX * u32::MAX <= u128::MAX) by (nonlinear_arith);
        }
        let product = (amount.0 as u128) * (self.0 as u128);
        Amount::from_u128(u128_div_up(product, BPS_DENOMINATOR))
    }

    pub fn complement(self) -> (r: KeystoneResult<Bps>)
        ensures
            self.0 > 10_000 ==> r == Err::<Bps, KeystoneError>(KeystoneError::InvalidBps(self.0)),
            self.0 <= 10_000 ==> r == Ok::<Bps, KeystoneError>(Bps((10_000 - self.0) as u32)),
    {
        if self.0 > 10_000 {
            return Err(KeystoneError::InvalidBps(self.0));
        }
        Bps::strict(10_000 - self.0)
    }

    pub fn checked_add(self, rhs: Bps) -> (r: KeystoneResult<Bps>)
        ensures
            r == bps_add(self, rhs),
    {
        match self.0.checked_add(rhs.0) {
            Some(v) => Bps::new(v),
            None => Err(KeystoneError::AmountOverflow),
        }
    }

    pub fn checked_sub(self, rhs: Bps) -> (r: KeystoneResult<Bps>)
        ensures
            rhs.0 > self.0 ==> r == Err::<Bps, KeystoneError>(KeystoneError::AmountUnderflow),
            rhs.0 <= self.0 ==> r == bps_of((self.0 - rhs.0) as u32),
    {
        if rhs.0 > self.0 {
            return Err(KeystoneError::AmountUnderflow);
        }
        Bps::new(self.0 - rhs.0)
    }

    pub fn annualized_for_epochs(
        annual_rate: Bps,
        principal: Amount,
        elapsed_epochs: u64,
        epochs_per_year: u64,
    ) -> (r: KeystoneResult<Amount>)
        ensures
            r == annualized_floor(annual_rate.0 as int, principal.0 as int, elapsed_epochs as int, epochs_per_year as int),
    {
        if elapsed_epochs == 0 || annual_rate.is_zero() || principal.is_zero() {
            return Ok(Amount(0));
        }
        if epochs_per_year == 0 {
            return Err(KeystoneError::DivisionByZero);
        }
        let numerator = match (principal.0 as u128).checked_mul(annual_rate.0 as u128) {
            Some(v) => match v.checked_mul(elapsed_epochs as u128) {
                Some(w) => w,
                None => {
                    return Err(KeystoneError::AmountOverflow);
                },
            },
            None => {
                return Err(KeystoneError::AmountOverflow);
            },
        };
        Amount::from_u128(numerator / BPS_DENOMINATOR / (epochs_per_year as u128))
    }

    pub fn annualized_for_epochs_ceil(
        annual_rate: Bps,
        principal: Amount,
        elapsed_epochs: u64,
        epochs_per_year: u64,
    ) -> (r: KeystoneResult<Amount>)
        ensures
            r == annualized_ceil(annual_rate.0 as int, principal.0 as int, elapsed_epochs as int, epochs_per_year as int),
    {
        if elapsed_epochs == 0 || annual_rate.is_zero() || principal.is_zero() {
            return Ok(Amount(0));
        }
        if epochs_per_year == 0 {
            return Err(KeystoneError::DivisionByZero);
        }
        let numerator = match (principal.0 as u128).checked_mul(annual_rate.0 as u128) {
            Some(v) => match v.checked_mul(elapsed_epochs as u128) {
                Some(w) => w,
                None => {
                    return Err(KeystoneError::AmountOverflow);
                },
            },
            None => {
                return Err(KeystoneError::AmountOverflow);
            },
        };
        proof {
            assert(10_000 * epochs_per_year <= 10_000 * u64::MAX) by (nonlinear_arith);
        }
        Amount::from_u128(u128_div_up(numerator, BPS_DENOMINATOR * (epochs_per_year as u128)))
    }
}

/// Simple interest `principal * rate * elapsed / 10_000 / epochs_per_year`, rounded down.
pub open spec fn annualized_floor(rate: int, principal: int, elapsed: int, per_year: int) -> KeystoneResult<
    Amount,
> {
    if elapsed == 0 || rate == 0 || principal == 0 {
        Ok(Amount(0))
    } else if per_year == 0 {
        Err(KeystoneError::DivisionByZero)
    } else if principal * rate > u128::MAX || principal * rate * elapsed > u128::MAX {
        Err(KeystoneError::AmountOverflow)
    } else {
        amount_of(principal * rate * elapsed / 10_000 / per_year)
    }
}

/// Simple interest `principal * rate * elapsed / (10_000 * epochs_per_year)`, rounded up.
pub open spec fn annualized_ceil(rate: int, principal: int, elapsed: int, per_year: int) -> KeystoneResult<
    Amount,
> {
    if elapsed == 0 || rate == 0 || principal == 0 {
        Ok(Amount(0))
    } else if per_year == 0 {
        Err(KeystoneError::DivisionByZero)
    } else if principal * rate > u128::MAX || principal * rate * elapsed > u128::MAX {
        Err(KeystoneError::AmountOverflow)
    } else {
        amount_of(div_up(principal * rate * elapsed, 10_000 * per_year))
    }
}

/// A fixed-point ratio with twelve decimal places.
#[derive(Clone, Copy, Debug, PartialEq, Eq, Structural, PartialOrd, Ord, Default)]
pub struct Decimal(pub u128);

impl Decimal {


    pub fn from_ratio(numerator: u128, denominator: u128) -> (r: KeystoneResult<Self>)
        ensures
            denominator == 0 ==> r == Err::<Decimal, KeystoneError>(KeystoneError::DivisionByZero),
            denominator != 0 && numerator * 1_000_000_000_000 > u128::MAX ==> r == Err::<Decimal, KeystoneError>(
                KeystoneError::AmountOverflow,
            ),
            denominator != 0 && numerator * 1_000_000_000_000 <= u128::MAX ==> r == Ok::<Decimal, KeystoneError>(
                Decimal((numerator * 1_000_000_000_000 / (denominator as int)) as u128),
            ),
    {
        if denominator == 0 {
            return Err(KeystoneError::DivisionByZero);
        }
        let scaled = match numerator.checked_mul(DECIMAL_SCALE) {
            Some(v) => v,
            None => {
                return Err(KeystoneError::AmountOverflow);
            },
        };
        Ok(Decimal(scaled / denominator))
    }

    pub fn from_amounts(numerator: Amount, denominator: Amount) -> (r: KeystoneResult<Self>)
        ensures
            denominator.0 == 0 ==> r == Err::<Decimal, KeystoneError>(KeystoneError::DivisionByZero),
            denominator.0 != 0 ==> r == Ok::<Decimal, KeystoneError>(
                Decimal((numerator.0 * 1_000_000_000_000 / (denominator.0 as int)) as u128),
            ),
    {
        proof {
            assert(numerator.0 * 1_000_000_000_000 <= u64::MAX * 1_000_000_000_000) by (nonlinear_arith);
        }
        Self::from_ratio(numerator.0 as u128, denominator.0 as u128)
    }

    pub fn raw(self) -> (r: u128)
        ensures
            r == self.0,
    {
        self.0
    }

    pub fn apply_floor(self, amount: Amount) -> (r: KeystoneResult<Amount>)
        requires
            amount.0 * self.0 <= u128::MAX,
        ensures
            r == amount_of(amount.0 * self.0 / 1_000_000_000_000),
    {
        proof {
            assert(amount.0 * self.0 >= 0) by (nonlinear_arith);
        }
        Amount::from_u128((amount.0 as u128) * self.0 / DECIMAL_SCALE)
    }

    pub fn apply_ceil(self, amount: Amount) -> (r: KeystoneResult<Amount>)
        ensures
            amount.0 * self.0 > u128::MAX ==> r == Err::<Amount, KeystoneError>(KeystoneError::AmountOverflow),
            amount.0 * self.0 <= u128::MAX ==> r == amount_of(div_up(amount.0 * self.0, 1_000_000_000_000)),
    {
        let product = match (amount.0 as u128).checked_mul(self.0) {
            Some(p) => p,
            None => {
                return Err(KeystoneError::AmountOverflow);
            },
        };
        Amount::from_u128(u128_div_up(product, DECIMAL_SCALE))
    }

    pub fn checked_add(self, rhs: Decimal) -> (r: KeystoneResult<Decimal>)
        ensures
            self.0 + rhs.0 > u128::MAX ==> r == Err::<Decimal, KeystoneError>(KeystoneError::AmountOverflow),
            self.0 + rhs.0 <= u128::MAX ==> r == Ok::<Decimal, KeystoneError>(Decimal((self.0 + rhs.0) as u128)),
    {
        match self.0.checked_add(rhs.0) {
            Some(v) => Ok(Decimal(v)),
            None => Err(KeystoneError::AmountOverflow),
        }
    }

    pub fn checked_sub(self, rhs: Decimal) -> (r: KeystoneResult<Decimal>)
        ensures
            self.0 < rhs.0 ==> r == Err::<Decimal, KeystoneError>(KeystoneError::AmountUnderflow),
            self.0 >= rhs.0 ==> r == Ok::<Decimal, KeystoneError>(Decimal((self.0 - rhs.0) as u128)),
    {
        match self.0.checked_sub(rhs.0) {
            Some(v) => Ok(Decimal(v)),
            None => Err(KeystoneError::AmountUnderflow),
        }
    }
}

/// Shares minted for a deposit of `amount` into a vault with the given net asset value and supply.
pub open spec fn deposit_shares(amount: int, nav: int, supply: int) -> KeystoneResult<Shares> {
    if amount == 0 {
        Err(KeystoneError::ZeroAmount)
    } else if supply == 0 || nav == 0 {
        Ok(Shares(amount as u64))
    } else {
        shares_of_int(amount * supply / nav)
    }
}

/// Amount paid out for redeeming `shares` from a vault with the given net asset value and supply.
pub open spec fn redemption_amount(shares: int, nav: int, supply: int) -> KeystoneResult<Amount> {
    if shares == 0 {
        Err(KeystoneError::ZeroShares)
    } else if supply == 0 {
        Err(KeystoneError::DivisionByZero)
    } else {
        amount_of(shares * nav / supply)
    }
}

pub fn shares_for_deposit(amount: Amount, nav_before: Amount, supply_before: Shares) -> (r: KeystoneResult<Shares>)
    ensures
        r == deposit_shares(amount.0 as int, nav_before.0 as int, supply_before.0 as int),
{
    if amount.is_zero() {
        return Err(KeystoneError::ZeroAmount);
    }
    if supply_before.is_zero() || nav_before.is_zero() {
        return Shares::non_zero(amount.raw());
    }
    proof {
        assert(amount.0 * supply_before.0 <= u64::MAX * u64::MAX) by (nonlinear_arith);
        assert(amount.0 * supply_before.0 >= 0) by (nonlinear_arith);
        assert(u64::MAX * u64::MAX <= u128::MAX) by (nonlinear_arith);
    }
    Shares::from_u128(amount.as_u128() * supply_before.as_u128() / nav_before.as_u128())
}

pub fn amount_for_shares(shares: Shares, nav_before: Amount, supply_before: Shares) -> (r: KeystoneResult<Amount>)
    ensures
        r == redemption_amount(shares.0 as int, nav_before.0 as int, supply_before.0 as int),
{
    if shares.is_zero() {
        return Err(KeystoneError::ZeroShares);
    }
    if supply_before.is_zero() {
        return Err(KeystoneError::DivisionByZero);
    }
    proof {
        assert(shares.0 * nav_before.0 <= u64::MAX * u64::MAX) by (nonlinear_arith);
        assert(shares.0 * nav_before.0 >= 0) by (nonlinear_arith);
        assert(u64::MAX * u64::MAX <= u128::MAX) by (nonlinear_arith);
    }
    Amount::from_u128(shares.as_u128() * nav_before.as_u128() / supply_before.as_u128())
}

/// The part of `amount` that `owner` shares of `total` shares earn, rounded down.
pub open spec fn share_split(amount: int, owner: int, total: int) -> KeystoneResult<Amount> {
    if total == 0 {
        Err(KeystoneError::DivisionByZero)
    } else {
        amount_of(amount * owner / total)
    }
}

pub fn split_by_shares(amount: Amount, owner_shares: Shares, total_shares: Shares) -> (r: KeystoneResult<Amount>)
    ensures
        r == share_split(amount.0 as int, owner_shares.0 as int, total_shares.0 as int),
{
    if total_shares.is_zero() {
        return Err(KeystoneError::DivisionByZero);
    }
    proof {
        assert(amount.0 * owner_shares.0 <= u64::MAX * u64::MAX) by (nonlinear_arith);
        assert(amount.0 * owner_shares.0 >= 0) by (nonlinear_arith);
        assert(u64::MAX * u64::MAX <= u128::MAX) by (nonlinear_arith);
    }
    Amount::from_u128(amount.as_u128() * owner_shares.as_u128() / total_shares.as_u128())
}

/// `numerator / denominator` in basis points, truncated to 32 bits as the conversion does, then
/// validated as a basis-point value.
pub open spec fn ratio_bps(numerator: int, denominator: int) -> KeystoneResult<Bps> {
    if denominator == 0 {
        Err(KeystoneError::DivisionByZero)
    } else {
        bps_of(((numerator * 10_000 / denominator) % 0x1_0000_0000) as u32)
    }
}

pub fn checked_ratio_bps(numerator: Amount, denominator: Amount) -> (r: KeystoneResult<Bps>)
    ensures
        r == ratio_bps(numerator.0 as int, denominator.0 as int),
{
    if denominator.is_zero() {
        return Err(KeystoneError::DivisionByZero);
    }
    let value = numerator.as_u128() * BPS_DENOMINATOR / denominator.as_u128();
    Bps::new((value % 0x1_0000_0000) as u32)
}

} // verus!
