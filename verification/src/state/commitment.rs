//! Commitments: what one user has put into one pool of one epoch.

use vstd::prelude::*;
use crate::address::Address;

verus! {

/// The accumulated stake of one user in one pool of one epoch. A record
/// whose `position_amount` is zero has not been used yet: its identity
/// fields mean nothing until the first commit stamps them.
#[derive(Clone, Copy, Debug, PartialEq, Eq)]
pub struct Commitment {
    pub user_pk: Address,
    pub position_amount: u64,
    /// The sum of the weights of the committed positions, in fixed point.
    pub weight: u64,
    pub pool_id: u8,
    pub epoch: u64,
}

impl Commitment {
    /// Whether nothing has been committed through this record yet.
    pub open spec fn is_fresh(&self) -> bool {
        self.position_amount == 0
    }

    /// Every committed position weighs at least 1.0, and a record that was
    /// never used weighs nothing.
    pub open spec fn well_formed(&self) -> bool {
        &&& self.position_amount * 10_000 <= self.weight
        &&& self.position_amount == 0 ==> self.weight == 0
    }
}

/// The weight of all the given commitments together.
pub open spec fn committed_weight(commitments: Seq<Commitment>) -> int
    decreases commitments.len(),
{
    if commitments.len() == 0 {
        0
    } else {
        committed_weight(commitments.drop_last()) + commitments.last().weight
    }
}

/// The number of positions in all the given commitments together.
pub open spec fn committed_positions(commitments: Seq<Commitment>) -> int
    decreases commitments.len(),
{
    if commitments.len() == 0 {
        0
    } else {
        committed_positions(commitments.drop_last()) + commitments.last().position_amount
    }
}

/// Replacing one commitment changes the totals by the difference between
/// the new one and the old one.
pub proof fn lemma_committed_totals_after_update(
    commitments: Seq<Commitment>,
    index: int,
    commitment: Commitment,
)
    requires
        0 <= index < commitments.len(),
    ensures
        committed_weight(commitments.update(index, commitment)) == committed_weight(commitments)
            - commitments[index].weight + commitment.weight,
        committed_positions(commitments.update(index, commitment)) == committed_positions(
            commitments,
        ) - commitments[index].position_amount + commitment.position_amount,
    decreases commitments.len(),
{
    let updated = commitments.update(index, commitment);
    if index == commitments.len() - 1 {
        assert(updated.drop_last() =~= commitments.drop_last());
    } else {
        lemma_committed_totals_after_update(commitments.drop_last(), index, commitment);
        assert(updated.drop_last() =~= commitments.drop_last().update(index, commitment));
    }
}

} // verus!
