//! An epoch-based weighted lottery, with every operation verified against
//! its contract.
//!
//! Users buy *positions* and commit them to the *pools* of the epoch that is
//! open. A committed position adds its *weight* to the pool and to the
//! user's *commitment* in that pool. When the epoch has ended, the resolver
//! closes it: the pools are tallied into the epoch's *result* and retired,
//! and one pool is made the winner, named by the resolver or drawn by a
//! randomness oracle. Whoever committed to the winner then claims a share of
//! the epoch's pot in proportion to the weight committed.
//!
//! # Operations
//!
//! The operations are in [`instructions`]. Each takes the records it works
//! on as plain values, gathered in a context, and the time where it needs
//! it. It either succeeds and leaves the records as its contract says, or
//! fails with one of the [`errors::Errors`] and leaves every record as it
//! was. Payments and the request to the oracle are not made here: the
//! operation returns them, and the caller carries them out.
//!
//! | operation | who | effect |
//! |---|---|---|
//! | [`instructions::initialize`] | anyone, once | writes the configuration |
//! | [`instructions::mint_position`] | a user | creates a position, orders its payment |
//! | [`instructions::initialize_pool`] | the resolver | opens the current epoch |
//! | [`instructions::commit`] | a position's owner | spends the position on a pool |
//! | [`instructions::resolve`] | the resolver | closes the epoch, or records it for the oracle |
//! | [`instructions::confirm_randomness_request`] | the resolver | tallies the epoch once the request is out |
//! | [`instructions::callback_resolve`] | the oracle | fixes the drawn winner |
//! | [`instructions::claim`] | a commitment's owner | orders the reward, destroys the commitment |
//! | [`instructions::update_resolution_type`] | the administrator | switches who picks winners |
//!
//! # What holds of them together
//!
//! Besides the contract of each operation, the crate proves what follows
//! from them: a weight never shrinks with a position's age
//! ([`instructions::weight`]), a pool's totals are those of its commitments
//! ([`instructions::commit`]), the recorded weights add up to the pools'
//! ([`instructions::snapshot`]), an epoch only moves forward and each
//! resolution closes exactly one ([`instructions::resolve`]), a commitment
//! is paid once, and all payments together stay within the pot
//! ([`instructions::claim`], [`conservation`]).
//!
//! # What is taken on trust
//!
//! Two items of other crates are called without proof: the function of the
//! oracle's SDK that turns random bytes into an index ([`randomness`]), and
//! the constant that says how many of its smallest units the native token
//! has ([`native_token`]).

pub mod address;
pub mod conservation;
pub mod constants;
pub mod errors;
pub mod faucet;
pub mod instructions;
pub mod native_token;
pub mod randomness;
pub mod state;
pub mod transfer;
