//! The failures an operation of the engine can end in.

use vstd::prelude::*;

verus! {

/// Why an operation was refused. Every failure leaves the records that the
/// operation was handed exactly as they were.
#[derive(Clone, Copy, Debug, PartialEq, Eq, Structural)]
pub enum Errors {
    /// A checked addition overflowed.
    InvalidAdd,
    /// A checked multiplication overflowed.
    InvalidMul,
    /// A checked division had a zero divisor.
    InvalidDiv,
    /// A weight could not be computed: the position is younger than zero
    /// seconds or the rate's denominator is zero.
    InvalidCalculation,
    /// The resolution mode is not one the engine knows.
    UnsupportedResolution,
    /// A pool does not belong to the epoch that is current.
    EpochMismatch,
    /// The chosen winner is not an index of the weight snapshot.
    WinningPoolNotFound,
    /// A winner has to be drawn but the epoch declares no pool.
    NoPoolsProvided,
    /// A pool index does not match the commitment, or lies beyond the
    /// snapshot's capacity.
    InvalidPoolId,
    /// An epoch number does not match the commitment or the epoch's result.
    InvalidEpoch,
    /// The commitment was claimed before and exists no longer.
    AlreadyClaimed,
    /// The commitment sits in a pool that did not win.
    LosingPool,
    /// Oracle resolution was asked for without an oracle queue. No operation
    /// of the engine returns this: the queue is the caller's to check.
    OracleQueueRequired,
    /// The oracle queue is not the one the oracle listens on. No operation
    /// of the engine returns this: the queue is the caller's to check.
    InvalidOracleQueue,
    /// More pools than an epoch can hold.
    TooManyPools,
    /// Fewer pool slots were supplied than pools were asked for.
    NotEnoughAccounts,
    /// The epoch has ended: it takes no more commitments.
    EpochEnded,
    /// The caller is not the configured resolver.
    UnauthorizedResolver,
    /// The epoch has not ended yet: it cannot be resolved.
    EpochNotEnded,
    /// The caller is not the identity the operation is reserved for: the
    /// administrator, the oracle, or the owner of a record.
    Unauthorized,
    /// The epoch is not in the state the operation starts from.
    InvalidEpochState,
    /// The position was committed before and exists no longer.
    AlreadyCommitted,
    /// The record to create exists already.
    AlreadyInitialized,
}

} // verus!
