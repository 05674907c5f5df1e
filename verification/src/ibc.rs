use crate::error::ContractError;
use vstd::prelude::*;

verus! {

/// The outbound packet descriptor a transfer emits toward the remote
/// domain. The transport's binary encoding of it is the transport's
/// concern, not this core's.
pub struct Ics20Packet {
    pub amount: u128,
    pub denom: String,
    pub sender: String,
    pub receiver: String,
}

impl Ics20Packet {
    /// Builds the descriptor from an amount's projection and the request's
    /// addresses.
    pub fn new(amount: u128, denom: String, sender: String, receiver: String) -> (p: Ics20Packet)
        ensures
            p.amount == amount,
            p.denom@ == denom@,
            p.sender@ == sender@,
            p.receiver@ == receiver@,
    {
        Ics20Packet { amount, denom, sender, receiver }
    }

    /// The packet's own well-formedness: a receiver to deliver to and a
    /// non-zero quantity; failure here is a distinct error kind from the
    /// upstream validation gates.
    pub fn validate(&self) -> (r: Result<(), ContractError>)
        ensures
            r is Ok <==> (self.receiver@.len() != 0 && self.amount != 0),
            r is Err ==> r == Err::<(), ContractError>(ContractError::InvalidPacket),
    {
        if self.receiver.as_str().is_empty() || self.amount == 0 {
            Err(ContractError::InvalidPacket)
        } else {
            Ok(())
        }
    }
}

} // verus!
