//! Switching who picks the winners.

use vstd::prelude::*;
use crate::address::Address;
use crate::errors::Errors;
use crate::state::{Config, ResolutionType};

verus! {

/// What a change of the configuration works on: the caller and the
/// configuration.
#[derive(Clone, Copy, Debug, PartialEq, Eq)]
pub struct UpdateConfig {
    pub signer: Address,
    pub config: Config,
}

/// Sets how epochs are resolved from now on. Only the administrator may do
/// so.
pub fn update_resolution_type(ctx: &mut UpdateConfig, resolution_type: ResolutionType) -> (result:
    Result<(), Errors>)
    ensures
        old(ctx).signer != old(ctx).config.admin ==> {
            &&& result == Err::<(), Errors>(Errors::Unauthorized)
            &&& *final(ctx) == *old(ctx)
        },
        old(ctx).signer == old(ctx).config.admin ==> {
            &&& result == Ok::<(), Errors>(())
            &&& *final(ctx) == (UpdateConfig {
                config: Config { resolution_type, ..old(ctx).config },
                ..*old(ctx)
            })
        },
{
    if ctx.signer != ctx.config.admin {
        return Err(Errors::Unauthorized);
    }
    ctx.config.resolution_type = resolution_type;
    Ok(())
}

} // verus!
