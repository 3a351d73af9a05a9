use vstd::prelude::*;
use vstd::string::StringExecFns;

verus! {

/// Every failure the engine can report.
#[derive(Debug, Clone, PartialEq, Eq)]
pub enum KeystoneError {
    AmountOverflow,
    AmountUnderflow,
    DivisionByZero,
    InvalidBps(u32),
    ZeroShares,
    ZeroAmount,
    VaultNotFound,
    LoanNotFound,
    AccountNotFound,
    AssetNotFound,
    VaultAlreadyExists,
    LoanAlreadyExists,
    AssetMismatch,
    VaultRoleMismatch,
    VaultPaused,
    VaultFrozen,
    LoanStatusMismatch,
    LoanNotDue,
    LoanOverdue,
    LoanExpired,
    LoanClosed,
    InvalidTenor,
    InvalidEpoch,
    InvalidCollateral,
    InsufficientCollateral,
    InsufficientLiquidity,
    InsufficientShares,
    InsufficientCash,
    LimitExceeded,
    RiskTierBlocked,
    PriceNotAvailable,
    StalePrice,
    SelfLoan,
    RepaymentTooLarge,
    RedemptionTooLarge,
    LiquidationNotAllowed,
    JournalReplayMismatch,
    DigestMismatch,
    Serialization(String),
    ScenarioNotFound(String),
    Configuration(String),
    Invariant(String),
}

pub type KeystoneResult<T> = Result<T, KeystoneError>;

/// The decimal digits of a value, most significant first.
pub open spec fn dec_chars(n: nat) -> Seq<char>
    decreases n,
{
    if n < 10 {
        seq![(48 + n) as char]
    } else {
        dec_chars(n / 10) + seq![(48 + n % 10) as char]
    }
}

fn digit_text(d: u64) -> (r: &'static str)
    requires
        d < 10,
    ensures
        r@ == seq![(48 + d) as char],
{
    proof {
        reveal_strlit("0");
        reveal_strlit("1");
        reveal_strlit("2");
        reveal_strlit("3");
        reveal_strlit("4");
        reveal_strlit("5");
        reveal_strlit("6");
        reveal_strlit("7");
        reveal_strlit("8");
        reveal_strlit("9");
    }
    if d == 0 {
        "0"
    } else if d == 1 {
        "1"
    } else if d == 2 {
        "2"
    } else if d == 3 {
        "3"
    } else if d == 4 {
        "4"
    } else if d == 5 {
        "5"
    } else if d == 6 {
        "6"
    } else if d == 7 {
        "7"
    } else if d == 8 {
        "8"
    } else {
        "9"
    }
}

/// Appends the decimal digits of a value.
pub fn push_decimal(out: &mut String, n: u64)
    ensures
        final(out)@ == old(out)@ + dec_chars(n as nat),
    decreases n,
{
    if n >= 10 {
        push_decimal(out, n / 10);
    }
    out.append(digit_text(n % 10));
    proof {
        if n < 10 {
            assert(n % 10 == n);
        }
    }
    assert(final(out)@ =~= old(out)@ + dec_chars(n as nat));
}

/// The text that describes an error.
pub open spec fn error_message(e: KeystoneError) -> Seq<char> {
    match e {
        KeystoneError::AmountOverflow => "amount overflow"@,
        KeystoneError::AmountUnderflow => "amount underflow"@,
        KeystoneError::DivisionByZero => "division by zero"@,
        KeystoneError::InvalidBps(n) => "basis points out of range: "@ + dec_chars(n as nat),
        KeystoneError::ZeroShares => "share amount is zero"@,
        KeystoneError::ZeroAmount => "amount is zero"@,
        KeystoneError::VaultNotFound => "vault not found"@,
        KeystoneError::LoanNotFound => "loan not found"@,
        KeystoneError::AccountNotFound => "account not found"@,
        KeystoneError::AssetNotFound => "asset not found"@,
        KeystoneError::VaultAlreadyExists => "vault already exists"@,
        KeystoneError::LoanAlreadyExists => "loan already exists"@,
        KeystoneError::AssetMismatch => "asset mismatch"@,
        KeystoneError::VaultRoleMismatch => "vault role mismatch"@,
        KeystoneError::VaultPaused => "vault is paused"@,
        KeystoneError::VaultFrozen => "vault is frozen"@,
        KeystoneError::LoanStatusMismatch => "loan status mismatch"@,
        KeystoneError::LoanNotDue => "loan is not due"@,
        KeystoneError::LoanOverdue => "loan is overdue"@,
        KeystoneError::LoanExpired => "loan is expired"@,
        KeystoneError::LoanClosed => "loan has no remaining principal"@,
        KeystoneError::InvalidTenor => "invalid tenor"@,
        KeystoneError::InvalidEpoch => "invalid epoch"@,
        KeystoneError::InvalidCollateral => "invalid collateral"@,
        KeystoneError::InsufficientCollateral => "insufficient collateral"@,
        KeystoneError::InsufficientLiquidity => "insufficient liquidity"@,
        KeystoneError::InsufficientShares => "insufficient shares"@,
        KeystoneError::InsufficientCash => "insufficient cash"@,
        KeystoneError::LimitExceeded => "limit exceeded"@,
        KeystoneError::RiskTierBlocked => "risk tier blocked"@,
        KeystoneError::PriceNotAvailable => "price not available"@,
        KeystoneError::StalePrice => "stale price"@,
        KeystoneError::SelfLoan => "borrower is the lender"@,
        KeystoneError::RepaymentTooLarge => "repayment exceeds outstanding balance"@,
        KeystoneError::RedemptionTooLarge => "redemption exceeds available cash"@,
        KeystoneError::LiquidationNotAllowed => "liquidation is not allowed"@,
        KeystoneError::JournalReplayMismatch => "journal replay mismatch"@,
        KeystoneError::DigestMismatch => "state digest mismatch"@,
        KeystoneError::Serialization(m) => "serialization error: "@ + m@,
        KeystoneError::ScenarioNotFound(m) => "scenario not found: "@ + m@,
        KeystoneError::Configuration(m) => "configuration error: "@ + m@,
        KeystoneError::Invariant(m) => "invariant violation: "@ + m@,
    }
}

impl KeystoneError {
    /// The text that describes this error.
    pub fn message(&self) -> (r: String)
        ensures
            r@ == error_message(*self),
    {
        match self {
            KeystoneError::AmountOverflow => String::from_str("amount overflow"),
            KeystoneError::AmountUnderflow => String::from_str("amount underflow"),
            KeystoneError::DivisionByZero => String::from_str("division by zero"),
            KeystoneError::InvalidBps(n) => {
                let mut out = String::from_str("basis points out of range: ");
                push_decimal(&mut out, *n as u64);
                out
            },
            KeystoneError::ZeroShares => String::from_str("share amount is zero"),
            KeystoneError::ZeroAmount => String::from_str("amount is zero"),
            KeystoneError::VaultNotFound => String::from_str("vault not found"),
            KeystoneError::LoanNotFound => String::from_str("loan not found"),
            KeystoneError::AccountNotFound => String::from_str("account not found"),
            KeystoneError::AssetNotFound => String::from_str("asset not found"),
            KeystoneError::VaultAlreadyExists => String::from_str("vault already exists"),
            KeystoneError::LoanAlreadyExists => String::from_str("loan already exists"),
            KeystoneError::AssetMismatch => String::from_str("asset mismatch"),
            KeystoneError::VaultRoleMismatch => String::from_str("vault role mismatch"),
            KeystoneError::VaultPaused => String::from_str("vault is paused"),
            KeystoneError::VaultFrozen => String::from_str("vault is frozen"),
            KeystoneError::LoanStatusMismatch => String::from_str("loan status mismatch"),
            KeystoneError::LoanNotDue => String::from_str("loan is not due"),
            KeystoneError::LoanOverdue => String::from_str("loan is overdue"),
            KeystoneError::LoanExpired => String::from_str("loan is expired"),
            KeystoneError::LoanClosed => String::from_str("loan has no remaining principal"),
            KeystoneError::InvalidTenor => String::from_str("invalid tenor"),
            KeystoneError::InvalidEpoch => String::from_str("invalid epoch"),
            KeystoneError::InvalidCollateral => String::from_str("invalid collateral"),
            KeystoneError::InsufficientCollateral => String::from_str("insufficient collateral"),
            KeystoneError::InsufficientLiquidity => String::from_str("insufficient liquidity"),
            KeystoneError::InsufficientShares => String::from_str("insufficient shares"),
            KeystoneError::InsufficientCash => String::from_str("insufficient cash"),
            KeystoneError::LimitExceeded => String::from_str("limit exceeded"),
            KeystoneError::RiskTierBlocked => String::from_str("risk tier blocked"),
            KeystoneError::PriceNotAvailable => String::from_str("price not available"),
            KeystoneError::StalePrice => String::from_str("stale price"),
            KeystoneError::SelfLoan => String::from_str("borrower is the lender"),
            KeystoneError::RepaymentTooLarge => String::from_str("repayment exceeds outstanding balance"),
            KeystoneError::RedemptionTooLarge => String::from_str("redemption exceeds available cash"),
            KeystoneError::LiquidationNotAllowed => String::from_str("liquidation is not allowed"),
            KeystoneError::JournalReplayMismatch => String::from_str("journal replay mismatch"),
            KeystoneError::DigestMismatch => String::from_str("state digest mismatch"),
            KeystoneError::Serialization(m) => {
                let mut out = String::from_str("serialization error: ");
                out.append(m.as_str());
                out
            },
            KeystoneError::ScenarioNotFound(m) => {
                let mut out = String::from_str("scenario not found: ");
                out.append(m.as_str());
                out
            },
            KeystoneError::Configuration(m) => {
                let mut out = String::from_str("configuration error: ");
                out.append(m.as_str());
                out
            },
            KeystoneError::Invariant(m) => {
                let mut out = String::from_str("invariant violation: ");
                out.append(m.as_str());
                out
            },
        }
    }

    pub fn invariant_violation(message: &str) -> (r: Self)
        ensures
            r matches KeystoneError::Invariant(m) && m@ == message@,
    {
        KeystoneError::Invariant(String::from_str(message))
    }

    pub fn configuration(message: &str) -> (r: Self)
        ensures
            r matches KeystoneError::Configuration(m) && m@ == message@,
    {
        KeystoneError::Configuration(String::from_str(message))
    }

    pub fn serialization(message: &str) -> (r: Self)
        ensures
            r matches KeystoneError::Serialization(m) && m@ == message@,
    {
        KeystoneError::Serialization(String::from_str(message))
    }

    pub fn scenario(name: &str) -> (r: Self)
        ensures
            r matches KeystoneError::ScenarioNotFound(m) && m@ == name@,
    {
        KeystoneError::ScenarioNotFound(String::from_str(name))
    }
}

} // verus!
