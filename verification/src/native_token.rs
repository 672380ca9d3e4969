//! The native token's smallest unit.

use vstd::prelude::*;

verus! {

/// Reads `anchor_lang::solana_program::native_token::LAMPORTS_PER_SOL`.
/// Trusted, not proved: the constant is 10^9, the number of lamports in one
/// unit of the native token.
#[verifier::external_body]
pub(crate) fn lamports_per_sol() -> (lamports: u64)
    ensures
        lamports == 1_000_000_000,
{
    anchor_lang::solana_program::native_token::LAMPORTS_PER_SOL
}

} // verus!
