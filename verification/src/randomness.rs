//! Turning the oracle's random bytes into a pool index.

use vstd::prelude::*;

verus! {

/// The value that `ephemeral_vrf_sdk::rnd::random_u8_with_range` derives from
/// the random bytes `bytes` for the inclusive range `min_value ..= max_value`.
/// The SDK computes it from its three arguments alone.
pub uninterp spec fn random_u8_in_range(bytes: Seq<u8>, min_value: u8, max_value: u8) -> u8;

/// The index the oracle's randomness selects among `pool_count` pools.
pub open spec fn drawn_index(randomness: Seq<u8>, pool_count: u8) -> u8 {
    random_u8_in_range(randomness, 0, (pool_count - 1) as u8)
}

/// Calls `ephemeral_vrf_sdk::rnd::random_u8_with_range`. Trusted, not
/// proved: the SDK returns a value within the requested inclusive range,
/// and the same value for the same arguments. It refuses a range whose
/// lower end lies above its upper end, so that range is excluded here.
#[verifier::external_body]
pub(crate) fn random_u8_with_range(bytes: &[u8; 32], min_value: u8, max_value: u8) -> (r: u8)
    requires
        min_value <= max_value,
    ensures
        r == random_u8_in_range(bytes@, min_value, max_value),
        min_value <= r <= max_value,
{
    ephemeral_vrf_sdk::rnd::random_u8_with_range(bytes, min_value, max_value)
}

} // verus!
