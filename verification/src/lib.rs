//! A cross-domain asset-transfer gateway core: escrow accounting and
//! packet emission for value moving to a remote domain.
//!
//! The library models the gateway's persistent state explicitly (a
//! [`state::State`] value passed into every operation) so that the
//! money-safety rules hold by proof: a transfer request either mutates the
//! escrow ledger and yields an outbound packet descriptor, or it is
//! rejected and the state is left untouched.

pub mod amount;
pub mod contract;
pub mod error;
pub mod ibc;
pub mod msg;
pub mod order;
pub mod state;
