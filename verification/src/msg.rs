use crate::amount::Amount;
use crate::ibc::Ics20Packet;
use vstd::prelude::*;

verus! {

/// Initialization request: the fallback timeout and the initial
/// allow-list of token-ledger addresses (already validated by the host).
pub struct InitMsg {
    pub default_timeout: u64,
    pub whitelist: Vec<String>,
}

/// A transfer request: target channel, destination address on the remote
/// domain, and an optional explicit timeout in seconds.
pub struct TransferMsg {
    pub channel: String,
    pub remote_address: String,
    pub timeout: Option<u64>,
}

/// A notification from an external token ledger that tokens were moved to
/// this contract's custody, with the embedded transfer request already
/// decoded from its envelope. `sender` and `amount` are the notification's
/// own verified fields and override anything the payload claims.
pub struct ReceiveMsg {
    pub sender: String,
    pub amount: u128,
    pub msg: TransferMsg,
}

/// The two state-mutating request kinds.
pub enum ExecuteMsg {
    Receive(ReceiveMsg),
    Transfer(TransferMsg),
}

/// The read-only request kinds answered from stored state.
pub enum QueryMsg {
    ListChannels,
    Channel { id: String },
    Config,
    Whitelisted { contract: String },
}

/// All registered channel identities, ascending.
pub struct ListChannelsResponse {
    pub channels: Vec<String>,
}

/// One channel's registration info plus, for every denomination with any
/// history on it, the outstanding and total-sent amounts.
pub struct ChannelResponse {
    pub info: String,
    pub balances: Vec<Amount>,
    pub total_sent: Vec<Amount>,
}

/// The stored configuration.
pub struct ConfigResponse {
    pub default_timeout: u64,
}

/// Whether an address is on the allow-list.
pub struct WhitelistResponse {
    pub is_whitelist: bool,
}

/// A query's typed answer, one variant per [`QueryMsg`] kind.
pub enum QueryAnswer {
    ListChannels(ListChannelsResponse),
    Channel(ChannelResponse),
    Config(ConfigResponse),
    Whitelisted(WhitelistResponse),
}

/// What an accepted transfer hands the transport collaborator: the packet
/// descriptor, the channel to emit it on, and the absolute deadline in
/// nanoseconds. The observable attribute record (action, sender, receiver,
/// denomination, amount) is read off the packet's fields.
pub struct TransferResponse {
    pub channel: String,
    pub timeout_nanos: u64,
    pub packet: Ics20Packet,
}

} // verus!
