//! The engine's operations.

pub mod claim;
pub mod commit;
pub mod initialize;
pub mod initialize_pool;
pub mod mint_position;
pub mod resolve;
pub mod snapshot;
pub mod update_resolution;
pub mod weight;

pub use claim::{claim, ClaimContext};
pub use commit::{commit, Commit};
pub use initialize::{initialize, Initialize};
pub use initialize_pool::{initialize_pool, StartContext};
pub use mint_position::{mint_position, MintPosition};
pub use resolve::{
    callback_resolve, callback_resolve_with_index, confirm_randomness_request, resolve,
    CallbackResolve, RandomnessRequest, ResolveContext, ResolveStep,
};
pub use update_resolution::{update_resolution_type, UpdateConfig};
pub use weight::{calculate_weight, WEIGHT_PRECISION};
