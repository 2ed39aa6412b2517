//! The engines that derive lifecycles, snapshots, effects and taint from fills.

pub mod builder_logs_matcher;
pub mod equity;
pub mod position_tracker;
pub mod records;
pub mod taint;

pub use builder_logs_matcher::BuilderLogsIndex;
pub use builder_logs_matcher::MatchTolerances;
pub use equity::EquityResolver;
pub use position_tracker::PositionState;
pub use position_tracker::PositionTracker;
pub use records::Effect;
pub use records::EffectType;
pub use records::Lifecycle;
pub use records::Snapshot;
pub use taint::BuilderOnlyFilter;
pub use taint::TaintComputer;
pub use taint::TaintInfo;
