//! What ties fetching, compiling and attributing together, as far as it decides
//! anything.

pub mod attribution;
pub mod ensure;
pub mod orchestrator;
