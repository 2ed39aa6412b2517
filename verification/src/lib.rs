//! Deterministic trade ledger for a perpetual-futures exchange: event identity,
//! position lifecycles, builder attribution, taint and the query aggregates
//! derived from them.

pub mod api;
pub mod compile;
pub mod config;
pub mod datasource;
pub mod db;
pub mod digest;
pub mod domain;
pub mod engine;
pub mod error;
pub mod orchestration;
pub mod sorting;
pub mod text;

pub use compile::CompileState;
pub use config::Config;
pub use datasource::DataSourceError;
pub use domain::Address;
pub use domain::Attribution;
pub use domain::AttributionConfidence;
pub use domain::AttributionMode;
pub use domain::Coin;
pub use domain::Confidence;
pub use domain::Decimal;
pub use domain::Deposit;
pub use domain::Fill;
pub use domain::Side;
pub use domain::TimeMs;
pub use error::AppError;
