//! The weight snapshot that an epoch's result keeps of its pools: how it is
//! recorded, and what it holds afterwards.

use vstd::prelude::*;
use vstd::set_lib::{lemma_int_range, lemma_subset_equality, set_int_range};
use crate::constants::MAX_POOLS_PER_INIT;
use crate::state::Pool;

verus! {

/// The weight snapshot after each of the given pools, in turn, has written
/// its total weight to the entry of its index.
pub open spec fn snapshot_weights(weights: [u64; 10], pools: Seq<Pool>) -> [u64; 10]
    decreases pools.len(),
{
    if pools.len() == 0 {
        weights
    } else {
        vstd::array::spec_array_update(
            snapshot_weights(weights, pools.drop_last()),
            pools.last().id as int,
            pools.last().total_weight,
        )
    }
}

/// Writes each pool's total weight to the snapshot entry of its index.
pub(crate) fn record_weights(weights: [u64; 10], pools: &Vec<Pool>) -> (recorded: [u64; 10])
    requires
        forall|j: int| 0 <= j < pools@.len() ==> (#[trigger] pools@[j]).well_formed(),
    ensures
        recorded == snapshot_weights(weights, pools@),
{
    let mut recorded: [u64; 10] = weights;
    let mut j: usize = 0;
    while j < pools.len()
        invariant
            j <= pools@.len(),
            forall|k: int| 0 <= k < pools@.len() ==> (#[trigger] pools@[k]).well_formed(),
            recorded == snapshot_weights(weights, pools@.take(j as int)),
        decreases pools@.len() - j,
    {
        proof {
            assert(pools@.take(j + 1).drop_last() =~= pools@.take(j as int));
            assert(pools@.take(j + 1).last() == pools@[j as int]);
        }
        recorded[pools[j].id as usize] = pools[j].total_weight;
        j += 1;
    }
    proof {
        assert(pools@.take(j as int) =~= pools@);
    }
    recorded
}

/// The weight of all the given pools together.
pub open spec fn total_weight(pools: Seq<Pool>) -> int
    decreases pools.len(),
{
    if pools.len() == 0 {
        0
    } else {
        total_weight(pools.drop_last()) + pools.last().total_weight
    }
}

/// The sum of the first `count` entries of a weight snapshot.
pub open spec fn recorded_weight(weights: Seq<u64>, count: int) -> int
    decreases count,
{
    if count <= 0 {
        0
    } else {
        recorded_weight(weights, count - 1) + weights[count - 1]
    }
}

/// Whether no two of the given pools have the same index.
pub open spec fn distinct_pools(pools: Seq<Pool>) -> bool {
    forall|j: int, k: int|
        0 <= j < k < pools.len() ==> (#[trigger] pools[j]).id != (#[trigger] pools[k]).id
}

/// Whether the given pools are all the pools of one epoch: as many as an
/// epoch can hold at most, with the indices from 0 up to their number, each
/// index once.
pub open spec fn pools_cover_epoch(pools: Seq<Pool>) -> bool {
    &&& pools.len() <= MAX_POOLS_PER_INIT
    &&& forall|j: int| 0 <= j < pools.len() ==> (#[trigger] pools[j]).id < pools.len()
    &&& distinct_pools(pools)
}

/// Whether some pool has the index `index`.
pub open spec fn covered(pools: Seq<Pool>, index: int) -> bool {
    exists|j: int| 0 <= j < pools.len() && (#[trigger] pools[j]).id == index
}

/// The sum of those of the first `count` entries whose index some pool has.
spec fn covered_weight(weights: Seq<u64>, pools: Seq<Pool>, count: int) -> int
    decreases count,
{
    if count <= 0 {
        0
    } else {
        covered_weight(weights, pools, count - 1) + if covered(pools, count - 1) {
            weights[count - 1] as int
        } else {
            0
        }
    }
}

proof fn lemma_covered_weight_of_no_pools(weights: Seq<u64>, count: int)
    ensures
        covered_weight(weights, Seq::<Pool>::empty(), count) == 0,
    decreases count,
{
    if count > 0 {
        lemma_covered_weight_of_no_pools(weights, count - 1);
    }
}

/// One more pool, with an index that no other pool has, adds its weight to
/// the covered entries below `count` if its index is among them.
proof fn lemma_covered_weight_with_one_more(weights: [u64; 10], pools: Seq<Pool>, count: int)
    requires
        pools.len() > 0,
        0 <= count <= MAX_POOLS_PER_INIT,
        pools.last().id < MAX_POOLS_PER_INIT,
        !covered(pools.drop_last(), pools.last().id as int),
    ensures
        covered_weight(snapshot_weights(weights, pools)@, pools, count) == covered_weight(
            snapshot_weights(weights, pools.drop_last())@,
            pools.drop_last(),
            count,
        ) + if pools.last().id < count {
            pools.last().total_weight as int
        } else {
            0
        },
    decreases count,
{
    if count > 0 {
        lemma_covered_weight_with_one_more(weights, pools, count - 1);
        let rest = pools.drop_last();
        let index = count - 1;
        if index == pools.last().id {
            assert(pools[pools.len() - 1].id == index);
        } else {
            if covered(rest, index) {
                let j = choose|j: int| 0 <= j < rest.len() && (#[trigger] rest[j]).id == index;
                assert(pools[j] == rest[j]);
            }
            if covered(pools, index) {
                let j = choose|j: int| 0 <= j < pools.len() && (#[trigger] pools[j]).id == index;
                assert(rest[j] == pools[j]);
            }
        }
    }
}

/// The covered entries of a snapshot hold the weight of the pools that
/// were recorded, when no two of them share an index.
proof fn lemma_covered_weight_is_total(weights: [u64; 10], pools: Seq<Pool>)
    requires
        forall|j: int| 0 <= j < pools.len() ==> (#[trigger] pools[j]).id < MAX_POOLS_PER_INIT,
        forall|j: int, k: int|
            0 <= j < k < pools.len() ==> (#[trigger] pools[j]).id != (#[trigger] pools[k]).id,
    ensures
        covered_weight(snapshot_weights(weights, pools)@, pools, MAX_POOLS_PER_INIT as int)
            == total_weight(pools),
    decreases pools.len(),
{
    if pools.len() == 0 {
        assert(pools =~= Seq::<Pool>::empty());
        lemma_covered_weight_of_no_pools(weights@, MAX_POOLS_PER_INIT as int);
    } else {
        let rest = pools.drop_last();
        assert forall|j: int| 0 <= j < rest.len() implies (#[trigger] rest[j]).id
            < MAX_POOLS_PER_INIT by {
            assert(rest[j] == pools[j]);
        }
        assert forall|j: int, k: int| 0 <= j < k < rest.len() implies (#[trigger] rest[j]).id != (
        #[trigger] rest[k]).id by {
            assert(rest[j] == pools[j] && rest[k] == pools[k]);
        }
        lemma_covered_weight_is_total(weights, rest);
        if covered(rest, pools.last().id as int) {
            let j = choose|j: int|
                0 <= j < rest.len() && (#[trigger] rest[j]).id == pools.last().id as int;
            assert(pools[j] == rest[j]);
            assert(pools[pools.len() - 1] == pools.last());
            assert(pools[j].id != pools[pools.len() - 1].id);
        }
        assert(pools[pools.len() - 1] == pools.last());
        lemma_covered_weight_with_one_more(weights, pools, MAX_POOLS_PER_INIT as int);
    }
}

/// Among `n` pools with `n` different indices below `n`, every index below
/// `n` occurs.
proof fn lemma_every_index_is_covered(pools: Seq<Pool>)
    requires
        pools_cover_epoch(pools),
    ensures
        forall|i: int| 0 <= i < pools.len() ==> covered(pools, i),
{
    let ids = Seq::new(pools.len(), |j: int| pools[j].id as int);
    assert(ids.no_duplicates()) by {
        assert forall|j: int, k: int|
            0 <= j < ids.len() && 0 <= k < ids.len() && j != k implies ids[j] != ids[k] by {
            if j < k {
                assert(pools[j].id != pools[k].id);
            } else {
                assert(pools[k].id != pools[j].id);
            }
        }
    }
    ids.unique_seq_to_set();
    lemma_int_range(0, pools.len() as int);
    let range = set_int_range(0, pools.len() as int);
    assert(ids.to_set().subset_of(range)) by {
        assert forall|i: int| ids.to_set().contains(i) implies range.contains(i) by {
            let j = choose|j: int| 0 <= j < ids.len() && ids[j] == i;
            assert(pools[j].id < pools.len());
        }
    }
    vstd::seq_lib::seq_to_set_is_finite(ids);
    lemma_subset_equality(ids.to_set(), range);
    assert forall|i: int| 0 <= i < pools.len() implies covered(pools, i) by {
        assert(range.contains(i));
        assert(ids.to_set().contains(i));
        let j = choose|j: int| 0 <= j < ids.len() && ids[j] == i;
        assert(pools[j].id == i);
    }
}

proof fn lemma_covered_weight_when_all_covered(weights: Seq<u64>, pools: Seq<Pool>, count: int)
    requires
        forall|i: int| 0 <= i < count ==> covered(pools, i),
    ensures
        covered_weight(weights, pools, count) == recorded_weight(weights, count),
    decreases count,
{
    if count > 0 {
        lemma_covered_weight_when_all_covered(weights, pools, count - 1);
    }
}

proof fn lemma_covered_weight_above_all_indices(weights: Seq<u64>, pools: Seq<Pool>, count: int)
    requires
        pools.len() <= count,
        forall|j: int| 0 <= j < pools.len() ==> (#[trigger] pools[j]).id < pools.len(),
    ensures
        covered_weight(weights, pools, count) == covered_weight(weights, pools, pools.len() as int),
    decreases count,
{
    if count > pools.len() {
        lemma_covered_weight_above_all_indices(weights, pools, count - 1);
        if covered(pools, count - 1) {
            let j = choose|j: int| 0 <= j < pools.len() && (#[trigger] pools[j]).id == count - 1;
            assert(pools[j].id < pools.len());
        }
    }
}

/// Recording loses no weight: when the pools recorded are all the pools of
/// the epoch, the entries of the snapshot that the epoch's result declares
/// valid add up to the total weight of the pools.
pub proof fn lemma_snapshot_keeps_total_weight(weights: [u64; 10], pools: Seq<Pool>)
    requires
        pools_cover_epoch(pools),
    ensures
        recorded_weight(snapshot_weights(weights, pools)@, pools.len() as int) == total_weight(
            pools,
        ),
{
    let recorded = snapshot_weights(weights, pools)@;
    assert forall|j: int| 0 <= j < pools.len() implies (#[trigger] pools[j]).id
        < MAX_POOLS_PER_INIT by {
        assert(pools[j].id < pools.len());
    }
    lemma_covered_weight_is_total(weights, pools);
    lemma_covered_weight_above_all_indices(recorded, pools, MAX_POOLS_PER_INIT as int);
    lemma_every_index_is_covered(pools);
    lemma_covered_weight_when_all_covered(recorded, pools, pools.len() as int);
}

/// What a snapshot holds after recording: at an index that some pool has,
/// the weight of the last pool with that index; elsewhere, what it held
/// before.
pub proof fn lemma_snapshot_entries(weights: [u64; 10], pools: Seq<Pool>, index: int)
    requires
        forall|j: int| 0 <= j < pools.len() ==> (#[trigger] pools[j]).id < MAX_POOLS_PER_INIT,
        0 <= index < MAX_POOLS_PER_INIT,
    ensures
        !covered(pools, index) ==> snapshot_weights(weights, pools)@[index] == weights@[index],
        covered(pools, index) ==> exists|j: int|
            {
                &&& 0 <= j < pools.len()
                &&& (#[trigger] pools[j]).id == index
                &&& snapshot_weights(weights, pools)@[index] == pools[j].total_weight
                &&& forall|k: int| j < k < pools.len() ==> (#[trigger] pools[k]).id != index
            },
    decreases pools.len(),
{
    if pools.len() > 0 {
        let rest = pools.drop_last();
        let last = pools.len() - 1;
        assert forall|j: int| 0 <= j < rest.len() implies (#[trigger] rest[j]).id
            < MAX_POOLS_PER_INIT by {
            assert(rest[j] == pools[j]);
        }
        lemma_snapshot_entries(weights, rest, index);
        assert(pools[last] == pools.last());
        if pools[last].id == index {
        } else if covered(pools, index) {
            let j0 = choose|j: int| 0 <= j < pools.len() && (#[trigger] pools[j]).id == index;
            assert(rest[j0] == pools[j0]);
            assert(covered(rest, index));
            let j = choose|j: int|
                {
                    &&& 0 <= j < rest.len()
                    &&& (#[trigger] rest[j]).id == index
                    &&& snapshot_weights(weights, rest)@[index] == rest[j].total_weight
                    &&& forall|k: int| j < k < rest.len() ==> (#[trigger] rest[k]).id != index
                };
            assert(pools[j] == rest[j]);
            assert forall|k: int| j < k < pools.len() implies (#[trigger] pools[k]).id != index by {
                if k < rest.len() {
                    assert(rest[k] == pools[k]);
                }
            }
        } else {
            if covered(rest, index) {
                let j = choose|j: int| 0 <= j < rest.len() && (#[trigger] rest[j]).id == index;
                assert(pools[j] == rest[j]);
            }
        }
    }
}

/// After recording, the snapshot holds each pool's weight at the pool's
/// index, when no two pools share an index.
pub proof fn lemma_snapshot_holds_each_pool_weight(weights: [u64; 10], pools: Seq<Pool>, j: int)
    requires
        forall|k: int| 0 <= k < pools.len() ==> (#[trigger] pools[k]).well_formed(),
        distinct_pools(pools),
        0 <= j < pools.len(),
    ensures
        snapshot_weights(weights, pools)@[pools[j].id as int] == pools[j].total_weight,
{
    lemma_snapshot_entries(weights, pools, pools[j].id as int);
    let found = choose|i: int|
        {
            &&& 0 <= i < pools.len()
            &&& (#[trigger] pools[i]).id == pools[j].id
            &&& snapshot_weights(weights, pools)@[pools[j].id as int] == pools[i].total_weight
            &&& forall|k: int| i < k < pools.len() ==> (#[trigger] pools[k]).id != pools[j].id
        };
    if found < j {
        assert(pools[found].id != pools[j].id);
    } else if j < found {
        assert(pools[j].id != pools[found].id);
    }
}

/// Recording the same pools a second time changes nothing.
pub proof fn lemma_recording_twice_is_recording_once(weights: [u64; 10], pools: Seq<Pool>)
    requires
        forall|j: int| 0 <= j < pools.len() ==> (#[trigger] pools[j]).well_formed(),
    ensures
        snapshot_weights(snapshot_weights(weights, pools), pools) == snapshot_weights(
            weights,
            pools,
        ),
{
    let once = snapshot_weights(weights, pools);
    let twice = snapshot_weights(once, pools);
    assert forall|index: int| 0 <= index < 10 implies twice[index] == once[index] by {
        lemma_snapshot_entries(weights, pools, index);
        lemma_snapshot_entries(once, pools, index);
        if covered(pools, index) {
            let a = choose|j: int|
                {
                    &&& 0 <= j < pools.len()
                    &&& (#[trigger] pools[j]).id == index
                    &&& once@[index] == pools[j].total_weight
                    &&& forall|k: int| j < k < pools.len() ==> (#[trigger] pools[k]).id != index
                };
            let b = choose|j: int|
                {
                    &&& 0 <= j < pools.len()
                    &&& (#[trigger] pools[j]).id == index
                    &&& twice@[index] == pools[j].total_weight
                    &&& forall|k: int| j < k < pools.len() ==> (#[trigger] pools[k]).id != index
                };
            if a < b {
                assert(pools[b].id != index);
            } else if b < a {
                assert(pools[a].id != index);
            }
        }
    }
    assert(twice =~= once);
}

} // verus!
