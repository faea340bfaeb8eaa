//! Deposit accounting for a custodial staking pool: depositors hand in a
//! reserve asset and receive receipt tokens minted one for one.

pub mod contract;
pub mod msg;
pub mod state;
pub mod laws;
