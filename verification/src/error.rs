use vstd::prelude::*;

verus! {

/// Every way a gateway operation can fail.
///
/// All of these are surfaced to the caller with zero state mutation; no
/// error triggers a retry inside the core.
#[derive(Debug, PartialEq, Eq)]
pub enum ContractError {
    /// No payment was attached, or the attached/notified quantity is zero.
    NoFunds,
    /// More than one denomination was attached to a direct request.
    MultipleDenoms,
    /// The requested channel is not registered.
    NoSuchChannel { id: String },
    /// A ledgered transfer originated from an address outside the allow-list.
    NotOnAllowList,
    /// The outbound packet descriptor is malformed (empty receiver or zero
    /// quantity); distinct from the upstream gates.
    InvalidPacket,
    /// A 128-bit escrow counter would overflow.
    Overflow,
    /// A compensating decrement named a (channel, denomination) pair with
    /// no ledger entry.
    NoSuchChannelState { id: String, denom: String },
    /// A compensating decrement asked for more than is outstanding.
    InsufficientFunds,
}

} // verus!
