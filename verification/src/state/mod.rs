//! The records the engine keeps.

pub mod commitment;
pub mod config;
pub mod epoch_result;
pub mod pool;
pub mod position;

pub use commitment::{committed_positions, committed_weight, Commitment};
pub use config::{Config, ResolutionType, WeightModel};
pub use epoch_result::{EpochResult, EpochResultState};
pub use pool::Pool;
pub use position::{PositionAccount, UserState};
