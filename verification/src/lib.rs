//! Verified decision logic of a token launchpad: a faucet, a staking pool,
//! a staking-tier controller, a token sale and a vesting schedule.
//!
//! Each contract module holds the state that the contract keeps, written
//! with plain values, and one function per operation that maps the state
//! the operation reads, and the inputs of the message, to the state it
//! writes back and the payments it sends.

pub mod common;
pub mod vesting;
pub mod stake;
pub mod merkle;
pub mod sale;
pub mod faucet;
pub mod stake_controller;
