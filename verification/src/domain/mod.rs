//! Value types of the ledger: decimals, primitives, fills, deposits and attributions.

pub mod attribution;
pub mod builder_logs;
pub mod decimal;
pub mod deposit;
pub mod fill;
pub mod identity;
pub mod ordering;
pub mod primitives;

pub use attribution::Attribution;
pub use attribution::AttributionConfidence;
pub use attribution::AttributionMode;
pub use attribution::Confidence;
pub use builder_logs::BuilderLogFill;
pub use decimal::Decimal;
pub use deposit::Deposit;
pub use fill::Fill;
pub use ordering::FillOrderingKey;
pub use primitives::Address;
pub use primitives::AddressParseError;
pub use primitives::Coin;
pub use primitives::Side;
pub use primitives::TimeMs;
