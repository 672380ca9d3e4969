//! Movements of the reward asset that an operation asks its caller to make.

use vstd::prelude::*;
use crate::address::Address;

verus! {

/// An order to move `amount` units of `asset` from one custody location to
/// another. The engine decides it; the caller carries it out.
#[derive(Clone, Copy, Debug, PartialEq, Eq)]
pub struct Transfer {
    pub from: Address,
    pub to: Address,
    pub amount: u64,
    pub asset: Address,
}

} // verus!
