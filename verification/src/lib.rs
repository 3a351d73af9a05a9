pub mod accounting;
pub mod amount;
pub mod canon;
pub mod engine;
pub mod error;
pub mod events;
pub mod ids;
pub mod json;
pub mod keys;
pub mod laws;
pub mod liquidation;
pub mod loan;
pub mod oracle;
pub mod policy;
pub mod portfolio;
pub mod reports;
pub mod risk;
pub mod scenario;
pub mod script;
pub mod sums;
pub mod time;
pub mod vault;

pub use accounting::{
    AccountingBook, AccountingLine, AccountingSide, SystemAccounting, VaultAccounting,
};
pub use amount::{Amount, Bps, Decimal, Shares};
pub use engine::{EngineConfig, EngineSnapshot, KeystoneEngine};
pub use error::{KeystoneError, KeystoneResult};
pub use events::{Event, EventKind, Journal};
pub use ids::{AccountId, AssetId, Digest, LoanId, PositionId, TxId, VaultId};
pub use liquidation::{LiquidationPlan, LiquidationResult};
pub use loan::{LoanState, LoanStatus, LoanTerms, LoanTermsInput, PaymentQuote, RepaymentMode};
pub use oracle::{OracleBook, Price};
pub use policy::{CollateralPolicy, InterestModel, LimitPolicy, ProtocolPolicy, RiskTier};
pub use portfolio::{
    CounterpartyExposure, ExposureMatrix, ExposureRow, MaturityBucket, MaturityBucketKind,
    PortfolioAnalytics, PortfolioConcentration,
};
pub use reports::{EngineReport, LoanReport, OperationReport, ScenarioReport, VaultReport};
pub use risk::{LoanRiskReport, RiskDashboard, RiskGrade, VaultRiskReport};
pub use time::{Epoch, EpochClock, Schedule};
pub use vault::{DepositReceipt, RedemptionQuote, Vault, VaultRole};
