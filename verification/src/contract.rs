use crate::amount::{Amount, Coin, Cw20Coin};
use crate::error::ContractError;
use crate::ibc::Ics20Packet;
use crate::msg::{
    ChannelResponse, ConfigResponse, ExecuteMsg, InitMsg, ListChannelsResponse, QueryAnswer,
    QueryMsg, ReceiveMsg, TransferMsg, TransferResponse, WhitelistResponse,
};
use crate::state::{
    contains_string, entry_after, entry_or_zero, increase_channel_balance, increase_fits, lookup,
    Config, LedgerEntry, State,
};
use vstd::prelude::*;

verus! {

/// The timeout delta a request resolves to: its own if it names one, the
/// configured default otherwise.
pub open spec fn resolved_timeout(cfg: Config, t: Option<u64>) -> u64 {
    match t {
        Some(s) => s,
        None => cfg.default_timeout,
    }
}

/// The absolute transport deadline: the request's logical time plus the
/// delta, carried into the transport's nanosecond unit.
pub open spec fn spec_deadline(now: u64, delta_s: u64) -> int {
    now + delta_s * 1_000_000_000
}

/// The machine limit on deadlines: the nanosecond deadline must be
/// representable in 64 bits.
pub open spec fn deadline_fits(now: u64, cfg: Config, msg: TransferMsg) -> bool {
    spec_deadline(now, resolved_timeout(cfg, msg.timeout)) <= u64::MAX
}

/// The validation pipeline's verdict, gates in order: empty amount,
/// unregistered channel, unlisted ledger (for the ledgered variant only;
/// the native unit is always trusted), malformed packet, counter overflow.
/// `None` means every gate passes.
pub open spec fn spec_transfer_error(pre: State, msg: TransferMsg, amount: Amount) -> Option<
    ContractError,
> {
    if amount.spec_amount() == 0 {
        Some(ContractError::NoFunds)
    } else if !pre.spec_has_channel(msg.channel@) {
        Some(ContractError::NoSuchChannel { id: msg.channel })
    } else if amount.spec_is_cw20() && !pre.spec_allowed(amount.spec_name()) {
        Some(ContractError::NotOnAllowList)
    } else if msg.remote_address@.len() == 0 {
        Some(ContractError::InvalidPacket)
    } else if !increase_fits(pre.ledger@, msg.channel@, amount.spec_denom(), amount.spec_amount()) {
        Some(ContractError::Overflow)
    } else {
        None
    }
}

/// Everything the transfer protocol promises. On success: every gate
/// passed, exactly the one (channel, denomination) ledger row was bumped
/// by exactly the escrowed quantity, nothing else changed, and the packet
/// descriptor carries the amount's projection, the normalized sender, the
/// requested remote address, and the resolved absolute deadline. On
/// rejection: the verdict named the first failing gate and the state is
/// the one from before the call, untouched.
pub open spec fn transfer_post(
    pre: State,
    post: State,
    now: u64,
    msg: TransferMsg,
    amount: Amount,
    sender: String,
    r: Result<TransferResponse, ContractError>,
) -> bool {
    match r {
        Ok(resp) => {
            &&& spec_transfer_error(pre, msg, amount) is None
            &&& post.config == pre.config
            &&& post.channels == pre.channels
            &&& post.allow_list == pre.allow_list
            &&& lookup(post.ledger@, msg.channel@, amount.spec_denom()) == Some(
                entry_after(
                    entry_or_zero(pre.ledger@, msg.channel@, amount.spec_denom()),
                    amount.spec_amount(),
                ),
            )
            &&& forall|c2: Seq<char>, d2: Seq<char>|
                !(c2 == msg.channel@ && d2 == amount.spec_denom()) ==> #[trigger] lookup(
                    post.ledger@,
                    c2,
                    d2,
                ) == lookup(pre.ledger@, c2, d2)
            &&& resp.channel@ == msg.channel@
            &&& resp.timeout_nanos == spec_deadline(now, resolved_timeout(pre.config, msg.timeout))
            &&& resp.packet.amount == amount.spec_amount()
            &&& resp.packet.denom@ == amount.spec_denom()
            &&& resp.packet.sender@ == sender@
            &&& resp.packet.receiver@ == msg.remote_address@
        },
        Err(e) => {
            &&& post == pre
            &&& spec_transfer_error(pre, msg, amount) == Some(e)
        },
    }
}

/// Sets up a fresh state: the configured default timeout, the initial
/// allow-list as handed in, no channels, an empty ledger.
pub fn instantiate(msg: InitMsg) -> (s: State)
    ensures
        s.wf(),
        s.config.default_timeout == msg.default_timeout,
        s.allow_list@ == msg.whitelist@,
        s.channels@.len() == 0,
        s.ledger@.len() == 0,
{
    State {
        config: Config { default_timeout: msg.default_timeout },
        channels: Vec::new(),
        allow_list: msg.whitelist,
        ledger: Vec::new(),
    }
}

/// The transfer protocol: runs the validation gates in order, resolves
/// the timeout, builds and validates the packet descriptor, then escrows
/// optimistically — the ledger is increased before the packet is handed
/// out, and the two happen together or not at all.
pub fn execute_transfer(
    state: &mut State,
    now: u64,
    msg: TransferMsg,
    amount: Amount,
    sender: String,
) -> (r: Result<TransferResponse, ContractError>)
    requires
        old(state).wf(),
        deadline_fits(now, old(state).config, msg),
    ensures
        final(state).wf(),
        transfer_post(*old(state), *final(state), now, msg, amount, sender, r),
{
    if amount.is_empty() {
        return Err(ContractError::NoFunds);
    }
    if !contains_string(&state.channels, &msg.channel) {
        return Err(ContractError::NoSuchChannel { id: msg.channel });
    }
    let listed = match &amount {
        Amount::Native(_) => true,
        Amount::Cw20(c) => contains_string(&state.allow_list, &c.address),
    };
    if !listed {
        return Err(ContractError::NotOnAllowList);
    }
    let timeout_delta = match msg.timeout {
        Some(t) => t,
        None => state.config.default_timeout,
    };
    let timeout_nanos = now + timeout_delta * 1_000_000_000;
    let packet = Ics20Packet::new(amount.amount(), amount.denom(), sender, msg.remote_address);
    match packet.validate() {
        Err(e) => {
            return Err(e);
        },
        Ok(()) => {},
    }
    match increase_channel_balance(&mut state.ledger, &msg.channel, &packet.denom, packet.amount) {
        Err(e) => {
            return Err(e);
        },
        Ok(()) => {},
    }
    Ok(TransferResponse { channel: msg.channel, timeout_nanos, packet })
}

/// Handles the notification from an external token ledger that tokens
/// were moved to this contract's custody: the notification's verified
/// sender (the calling ledger contract) and amount are ground truth, and
/// only the remote address and timeout are taken from the embedded
/// payload.
pub fn execute_receive(
    state: &mut State,
    now: u64,
    info_sender: String,
    wrapper: ReceiveMsg,
) -> (r: Result<TransferResponse, ContractError>)
    requires
        old(state).wf(),
        deadline_fits(now, old(state).config, wrapper.msg),
    ensures
        final(state).wf(),
        transfer_post(
            *old(state),
            *final(state),
            now,
            wrapper.msg,
            Amount::Cw20(Cw20Coin { address: info_sender, amount: wrapper.amount }),
            wrapper.sender,
            r,
        ),
{
    let amount = Amount::Cw20(Cw20Coin { address: info_sender, amount: wrapper.amount });
    execute_transfer(state, now, wrapper.msg, amount, wrapper.sender)
}

/// Payment normalization for a direct request: exactly one attached coin
/// of non-zero quantity is accepted; none, a zero coin, or several
/// denominations are distinct rejections.
pub open spec fn spec_one_coin(funds: Seq<Coin>) -> Result<Coin, ContractError> {
    if funds.len() == 0 {
        Err(ContractError::NoFunds)
    } else if funds.len() == 1 {
        if funds[0].amount == 0 {
            Err(ContractError::NoFunds)
        } else {
            Ok(funds[0])
        }
    } else {
        Err(ContractError::MultipleDenoms)
    }
}

/// The transfer request inside either request kind.
pub open spec fn msg_transfer(msg: ExecuteMsg) -> TransferMsg {
    match msg {
        ExecuteMsg::Receive(w) => w.msg,
        ExecuteMsg::Transfer(t) => t,
    }
}

/// Entry point for the state-mutating request kinds: a direct request's
/// attached payment is normalized into a native amount, an external
/// ledger's notification into a ledgered amount over the notifying
/// contract's address, and both funnel into the one transfer protocol.
pub fn execute(
    state: &mut State,
    now: u64,
    funds: Vec<Coin>,
    sender: String,
    msg: ExecuteMsg,
) -> (r: Result<TransferResponse, ContractError>)
    requires
        old(state).wf(),
        deadline_fits(now, old(state).config, msg_transfer(msg)),
    ensures
        final(state).wf(),
        match msg {
            ExecuteMsg::Receive(w) => transfer_post(
                *old(state),
                *final(state),
                now,
                w.msg,
                Amount::Cw20(Cw20Coin { address: sender, amount: w.amount }),
                w.sender,
                r,
            ),
            ExecuteMsg::Transfer(t) => match spec_one_coin(funds@) {
                Ok(coin) => transfer_post(
                    *old(state),
                    *final(state),
                    now,
                    t,
                    Amount::Native(coin),
                    sender,
                    r,
                ),
                Err(e) => *final(state) == *old(state) && r == Err::<
                    TransferResponse,
                    ContractError,
                >(e),
            },
        },
{
    match msg {
        ExecuteMsg::Receive(w) => execute_receive(state, now, sender, w),
        ExecuteMsg::Transfer(t) => {
            let mut funds = funds;
            if funds.len() == 0 {
                return Err(ContractError::NoFunds);
            }
            if funds.len() > 1 {
                return Err(ContractError::MultipleDenoms);
            }
            let coin = funds.remove(0);
            if coin.amount == 0 {
                return Err(ContractError::NoFunds);
            }
            execute_transfer(state, now, t, Amount::Native(coin), sender)
        },
    }
}

/// The ledger rows with history on one channel, in their stored
/// (ascending-by-denomination) order.
pub open spec fn channel_entries(ledger: Seq<LedgerEntry>, id: Seq<char>) -> Seq<LedgerEntry> {
    ledger.filter(|e: LedgerEntry| e.channel@ == id)
}

/// Law (query emptiness): a channel no transfer ever ran over has no rows
/// in the ledger, so its query answers empty balance and total-sent
/// sequences — with [`channel_response_ok`], both answer vectors have
/// length zero — rather than an error.
pub proof fn lemma_no_history_answers_empty(ledger: Seq<LedgerEntry>, id: Seq<char>)
    requires
        forall|i: int| 0 <= i < ledger.len() ==> (#[trigger] ledger[i]).channel@ != id,
    ensures
        channel_entries(ledger, id).len() == 0,
    decreases ledger.len(),
{
    reveal(Seq::filter);
    if ledger.len() > 0 {
        assert forall|i: int| 0 <= i < ledger.drop_last().len() implies (#[trigger] ledger.drop_last()[i]).channel@
            != id by {
            assert(ledger.drop_last()[i] == ledger[i]);
        }
        lemma_no_history_answers_empty(ledger.drop_last(), id);
    }
}

/// What a channel query answers: the channel's registration info and, for
/// every denomination with history on it, the outstanding and total-sent
/// counters reconstructed as amounts over the denomination key.
pub open spec fn channel_response_ok(pre: State, id: String, cr: ChannelResponse) -> bool {
    let es = channel_entries(pre.ledger@, id@);
    &&& pre.spec_has_channel(id@)
    &&& cr.info@ == id@
    &&& cr.balances@.len() == es.len()
    &&& cr.total_sent@.len() == es.len()
    &&& forall|i: int|
        0 <= i < es.len() ==> {
            &&& (#[trigger] cr.balances@[i]).spec_denom() == es[i].denom@
            &&& cr.balances@[i].spec_amount() == es[i].state.outstanding
            &&& cr.total_sent@[i].spec_denom() == es[i].denom@
            &&& cr.total_sent@[i].spec_amount() == es[i].state.total_sent
        }
}

/// A single channel's view: its registration info plus paired
/// outstanding/total-sent amounts for every denomination with any history
/// on it. A registered channel with no history answers empty sequences,
/// not an error.
#[verifier::loop_isolation(false)]
pub fn query_channel(state: &State, id: String) -> (r: Result<ChannelResponse, ContractError>)
    ensures
        match r {
            Ok(cr) => channel_response_ok(*state, id, cr),
            Err(e) => !state.spec_has_channel(id@) && e == (ContractError::NoSuchChannel { id }),
        },
{
    if !contains_string(&state.channels, &id) {
        return Err(ContractError::NoSuchChannel { id });
    }
    let ghost pred = |e: LedgerEntry| e.channel@ == id@;
    let n = state.ledger.len();
    let mut balances: Vec<Amount> = Vec::new();
    let mut total_sent: Vec<Amount> = Vec::new();
    let mut i: usize = 0;
    proof {
        reveal(Seq::filter);
        assert(state.ledger@.take(0).filter(pred) =~= Seq::<LedgerEntry>::empty());
    }
    while i < n
        invariant
            i <= n,
            n == state.ledger@.len(),
            balances@.len() == state.ledger@.take(i as int).filter(pred).len(),
            total_sent@.len() == balances@.len(),
            forall|k: int|
                0 <= k < balances@.len() ==> {
                    let es = state.ledger@.take(i as int).filter(pred);
                    &&& (#[trigger] balances@[k]).spec_denom() == es[k].denom@
                    &&& balances@[k].spec_amount() == es[k].state.outstanding
                    &&& total_sent@[k].spec_denom() == es[k].denom@
                    &&& total_sent@[k].spec_amount() == es[k].state.total_sent
                },
        decreases n - i,
    {
        let ghost pre = state.ledger@.take(i as int);
        let ghost post = state.ledger@.take(i + 1 as int);
        proof {
            reveal(Seq::filter);
            assert(post.drop_last() =~= pre);
            assert(post.last() == state.ledger@[i as int]);
        }
        let e = &state.ledger[i];
        if e.channel == id {
            balances.push(Amount::from_parts(e.denom.clone(), e.state.outstanding));
            total_sent.push(Amount::from_parts(e.denom.clone(), e.state.total_sent));
            proof {
                reveal(Seq::filter);
                assert(post.filter(pred) == pre.filter(pred).push(state.ledger@[i as int]));
            }
        } else {
            proof {
                reveal(Seq::filter);
                assert(post.filter(pred) == pre.filter(pred));
            }
        }
        i = i + 1;
    }
    proof {
        assert(state.ledger@.take(n as int) =~= state.ledger@);
    }
    Ok(ChannelResponse { info: id, balances, total_sent })
}

/// All registered channels, ascending by identity.
pub fn query_list(state: &State) -> (r: ListChannelsResponse)
    ensures
        r.channels@ == state.channels@,
{
    let n = state.channels.len();
    let mut channels: Vec<String> = Vec::new();
    let mut i: usize = 0;
    while i < n
        invariant
            i <= n,
            n == state.channels@.len(),
            channels@ == state.channels@.take(i as int),
        decreases n - i,
    {
        channels.push(state.channels[i].clone());
        proof {
            assert(state.channels@.take(i + 1 as int) =~= state.channels@.take(i as int).push(
                state.channels@[i as int],
            ));
        }
        i = i + 1;
    }
    proof {
        assert(state.channels@.take(n as int) =~= state.channels@);
    }
    ListChannelsResponse { channels }
}

/// The stored configuration.
pub fn query_config(state: &State) -> (r: ConfigResponse)
    ensures
        r.default_timeout == state.config.default_timeout,
{
    ConfigResponse { default_timeout: state.config.default_timeout }
}

/// Whether an address is on the allow-list; absence answers `false`, not
/// an error.
pub fn query_whitelisted(state: &State, contract: String) -> (r: WhitelistResponse)
    ensures
        r.is_whitelist == state.spec_allowed(contract@),
{
    WhitelistResponse { is_whitelist: contains_string(&state.allow_list, &contract) }
}

/// Read-only dispatch: every query is a pure projection over the stored
/// state, and none mutates anything.
pub fn query(state: &State, msg: QueryMsg) -> (r: Result<QueryAnswer, ContractError>)
    ensures
        match msg {
            QueryMsg::ListChannels => r matches Ok(QueryAnswer::ListChannels(l)) && l.channels@
                == state.channels@,
            QueryMsg::Channel { id } => match r {
                Ok(QueryAnswer::Channel(cr)) => channel_response_ok(*state, id, cr),
                Err(e) => !state.spec_has_channel(id@) && e == (ContractError::NoSuchChannel {
                    id,
                }),
                _ => false,
            },
            QueryMsg::Config => r matches Ok(QueryAnswer::Config(c)) && c.default_timeout
                == state.config.default_timeout,
            QueryMsg::Whitelisted { contract } => r matches Ok(QueryAnswer::Whitelisted(w))
                && w.is_whitelist == state.spec_allowed(contract@),
        },
{
    match msg {
        QueryMsg::ListChannels => Ok(QueryAnswer::ListChannels(query_list(state))),
        QueryMsg::Channel { id } => match query_channel(state, id) {
            Ok(cr) => Ok(QueryAnswer::Channel(cr)),
            Err(e) => Err(e),
        },
        QueryMsg::Config => Ok(QueryAnswer::Config(query_config(state))),
        QueryMsg::Whitelisted { contract } => Ok(
            QueryAnswer::Whitelisted(query_whitelisted(state, contract)),
        ),
    }
}

} // verus!
