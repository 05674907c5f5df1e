use escrow_gateway::amount::{Amount, Coin, Cw20Coin};
use escrow_gateway::contract::{
    execute, execute_receive, execute_transfer, instantiate, query, query_channel, query_config,
    query_list, query_whitelisted,
};
use escrow_gateway::error::ContractError;
use escrow_gateway::msg::{
    ExecuteMsg, InitMsg, QueryAnswer, QueryMsg, ReceiveMsg, TransferMsg,
};
use escrow_gateway::state::{decrease_channel_balance, register_channel, State};

const NOW: u64 = 1_600_000_000_000_000_000;

fn setup() -> State {
    let mut state = instantiate(InitMsg {
        default_timeout: 600,
        whitelist: vec!["ledgerA".to_string()],
    });
    register_channel(&mut state, "chan-0".to_string());
    state
}

fn transfer_msg(channel: &str, remote: &str, timeout: Option<u64>) -> TransferMsg {
    TransferMsg {
        channel: channel.to_string(),
        remote_address: remote.to_string(),
        timeout,
    }
}

fn native(denom: &str, amount: u128) -> Coin {
    Coin { denom: denom.to_string(), amount }
}

fn channel_balances(state: &State, id: &str) -> (Vec<Amount>, Vec<Amount>) {
    let r = query_channel(state, id.to_string()).unwrap();
    (r.balances, r.total_sent)
}

#[test]
fn end_to_end_native_transfer() {
    let mut state = setup();
    let res = execute(
        &mut state,
        NOW,
        vec![native("uatom", 100)],
        "alice".to_string(),
        ExecuteMsg::Transfer(transfer_msg("chan-0", "remote1", None)),
    );
    let resp = match res {
        Ok(resp) => resp,
        Err(_) => panic!("transfer rejected"),
    };
    assert_eq!(resp.channel, "chan-0".to_string());
    assert_eq!(resp.timeout_nanos, NOW + 600 * 1_000_000_000);
    assert_eq!(resp.packet.denom, "uatom".to_string());
    assert_eq!(resp.packet.amount, 100);
    assert_eq!(resp.packet.sender, "alice".to_string());
    assert_eq!(resp.packet.receiver, "remote1".to_string());
    let (balances, total_sent) = channel_balances(&state, "chan-0");
    assert_eq!(balances, vec![Amount::Native(native("uatom", 100))]);
    assert_eq!(total_sent, vec![Amount::Native(native("uatom", 100))]);
}

#[test]
fn explicit_timeout_overrides_default() {
    let mut state = setup();
    let resp = execute(
        &mut state,
        NOW,
        vec![native("uatom", 1)],
        "alice".to_string(),
        ExecuteMsg::Transfer(transfer_msg("chan-0", "remote1", Some(60))),
    )
    .unwrap_or_else(|_| panic!("transfer rejected"));
    assert_eq!(resp.timeout_nanos, NOW + 60 * 1_000_000_000);
}

#[test]
fn no_funds_rejected() {
    let mut state = setup();
    let res = execute(
        &mut state,
        NOW,
        vec![],
        "alice".to_string(),
        ExecuteMsg::Transfer(transfer_msg("chan-0", "remote1", None)),
    );
    assert!(matches!(res, Err(ContractError::NoFunds)));
    let (balances, total_sent) = channel_balances(&state, "chan-0");
    assert!(balances.is_empty());
    assert!(total_sent.is_empty());
}

#[test]
fn zero_coin_rejected() {
    let mut state = setup();
    let res = execute(
        &mut state,
        NOW,
        vec![native("uatom", 0)],
        "alice".to_string(),
        ExecuteMsg::Transfer(transfer_msg("chan-0", "remote1", None)),
    );
    assert!(matches!(res, Err(ContractError::NoFunds)));
}

#[test]
fn multiple_denoms_rejected() {
    let mut state = setup();
    let res = execute(
        &mut state,
        NOW,
        vec![native("uatom", 5), native("uosmo", 5)],
        "alice".to_string(),
        ExecuteMsg::Transfer(transfer_msg("chan-0", "remote1", None)),
    );
    assert!(matches!(res, Err(ContractError::MultipleDenoms)));
    let (balances, _) = channel_balances(&state, "chan-0");
    assert!(balances.is_empty());
}

#[test]
fn unknown_channel_rejected() {
    let mut state = setup();
    let res = execute(
        &mut state,
        NOW,
        vec![native("uatom", 5)],
        "alice".to_string(),
        ExecuteMsg::Transfer(transfer_msg("chan-9", "remote1", None)),
    );
    match res {
        Err(ContractError::NoSuchChannel { id }) => assert_eq!(id, "chan-9".to_string()),
        _ => panic!("expected the unknown-channel rejection"),
    }
}

#[test]
fn empty_receiver_rejected() {
    let mut state = setup();
    let res = execute(
        &mut state,
        NOW,
        vec![native("uatom", 5)],
        "alice".to_string(),
        ExecuteMsg::Transfer(transfer_msg("chan-0", "", None)),
    );
    assert!(matches!(res, Err(ContractError::InvalidPacket)));
    let (balances, _) = channel_balances(&state, "chan-0");
    assert!(balances.is_empty());
}

#[test]
fn allow_list_gates_ledgered_transfers() {
    let mut state = setup();
    let wrapper = ReceiveMsg {
        sender: "bob".to_string(),
        amount: 25,
        msg: transfer_msg("chan-0", "remote1", None),
    };
    // the identical notification from an unlisted ledger is rejected...
    let res = execute_receive(&mut state, NOW, "ledgerB".to_string(), wrapper);
    assert!(matches!(res, Err(ContractError::NotOnAllowList)));
    let (balances, _) = channel_balances(&state, "chan-0");
    assert!(balances.is_empty());
    // ...and from the listed ledger it escrows the exact amount.
    let wrapper = ReceiveMsg {
        sender: "bob".to_string(),
        amount: 25,
        msg: transfer_msg("chan-0", "remote1", None),
    };
    let resp = execute_receive(&mut state, NOW, "ledgerA".to_string(), wrapper)
        .unwrap_or_else(|_| panic!("listed ledger rejected"));
    assert_eq!(resp.packet.denom, "cw20:ledgerA".to_string());
    assert_eq!(resp.packet.amount, 25);
    assert_eq!(resp.packet.sender, "bob".to_string());
    let (balances, total_sent) = channel_balances(&state, "chan-0");
    let expected = Amount::Cw20(Cw20Coin { address: "ledgerA".to_string(), amount: 25 });
    assert_eq!(balances, vec![expected]);
    assert_eq!(
        total_sent,
        vec![Amount::Cw20(Cw20Coin { address: "ledgerA".to_string(), amount: 25 })]
    );
}

#[test]
fn receive_trusts_notification_amount_over_payload() {
    // the embedded payload names only channel, remote address and timeout;
    // the escrowed quantity and ledger address come from the notification.
    let mut state = setup();
    let wrapper = ReceiveMsg {
        sender: "carol".to_string(),
        amount: 11,
        msg: transfer_msg("chan-0", "remote2", Some(30)),
    };
    let resp = execute_receive(&mut state, NOW, "ledgerA".to_string(), wrapper)
        .unwrap_or_else(|_| panic!("notification rejected"));
    assert_eq!(resp.packet.amount, 11);
    assert_eq!(resp.packet.denom, "cw20:ledgerA".to_string());
    assert_eq!(resp.packet.receiver, "remote2".to_string());
    assert_eq!(resp.timeout_nanos, NOW + 30 * 1_000_000_000);
}

#[test]
fn ledger_totals_accumulate() {
    let mut state = setup();
    let amounts: [u128; 3] = [5, 7, 9];
    let mut sum: u128 = 0;
    for a in amounts {
        let res = execute(
            &mut state,
            NOW,
            vec![native("uatom", a)],
            "alice".to_string(),
            ExecuteMsg::Transfer(transfer_msg("chan-0", "remote1", None)),
        );
        assert!(res.is_ok());
        sum += a;
        let (balances, total_sent) = channel_balances(&state, "chan-0");
        assert_eq!(total_sent, vec![Amount::Native(native("uatom", sum))]);
        assert_eq!(balances, vec![Amount::Native(native("uatom", sum))]);
    }
    assert_eq!(sum, 21);
}

#[test]
fn ledger_overflow_rejected_atomically() {
    let mut state = setup();
    let res = execute(
        &mut state,
        NOW,
        vec![native("uatom", u128::MAX)],
        "alice".to_string(),
        ExecuteMsg::Transfer(transfer_msg("chan-0", "remote1", None)),
    );
    assert!(res.is_ok());
    let res = execute(
        &mut state,
        NOW,
        vec![native("uatom", 1)],
        "alice".to_string(),
        ExecuteMsg::Transfer(transfer_msg("chan-0", "remote1", None)),
    );
    assert!(matches!(res, Err(ContractError::Overflow)));
    let (balances, total_sent) = channel_balances(&state, "chan-0");
    assert_eq!(balances, vec![Amount::Native(native("uatom", u128::MAX))]);
    assert_eq!(total_sent, vec![Amount::Native(native("uatom", u128::MAX))]);
}

#[test]
fn decrease_releases_outstanding_only() {
    let mut state = setup();
    execute(
        &mut state,
        NOW,
        vec![native("uatom", 100)],
        "alice".to_string(),
        ExecuteMsg::Transfer(transfer_msg("chan-0", "remote1", None)),
    )
    .unwrap_or_else(|_| panic!("transfer rejected"));
    let r = decrease_channel_balance(
        &mut state.ledger,
        &"chan-0".to_string(),
        &"uatom".to_string(),
        40,
    );
    assert!(r.is_ok());
    let (balances, total_sent) = channel_balances(&state, "chan-0");
    assert_eq!(balances, vec![Amount::Native(native("uatom", 60))]);
    assert_eq!(total_sent, vec![Amount::Native(native("uatom", 100))]);
}

#[test]
fn decrease_never_underflows() {
    let mut state = setup();
    execute(
        &mut state,
        NOW,
        vec![native("uatom", 10)],
        "alice".to_string(),
        ExecuteMsg::Transfer(transfer_msg("chan-0", "remote1", None)),
    )
    .unwrap_or_else(|_| panic!("transfer rejected"));
    let r = decrease_channel_balance(
        &mut state.ledger,
        &"chan-0".to_string(),
        &"uatom".to_string(),
        11,
    );
    assert!(matches!(r, Err(ContractError::InsufficientFunds)));
    let (balances, _) = channel_balances(&state, "chan-0");
    assert_eq!(balances, vec![Amount::Native(native("uatom", 10))]);
}

#[test]
fn decrease_on_unknown_pair_rejected() {
    let mut state = setup();
    let r = decrease_channel_balance(
        &mut state.ledger,
        &"chan-0".to_string(),
        &"uatom".to_string(),
        1,
    );
    match r {
        Err(ContractError::NoSuchChannelState { id, denom }) => {
            assert_eq!(id, "chan-0".to_string());
            assert_eq!(denom, "uatom".to_string());
        }
        _ => panic!("expected the missing-row rejection"),
    }
}

#[test]
fn query_channel_without_history_is_empty_not_error() {
    let state = setup();
    let r = query_channel(&state, "chan-0".to_string()).unwrap();
    assert_eq!(r.info, "chan-0".to_string());
    assert!(r.balances.is_empty());
    assert!(r.total_sent.is_empty());
}

#[test]
fn query_unknown_channel_is_error() {
    let state = setup();
    match query_channel(&state, "chan-9".to_string()) {
        Err(ContractError::NoSuchChannel { id }) => assert_eq!(id, "chan-9".to_string()),
        _ => panic!("expected the unknown-channel rejection"),
    }
}

#[test]
fn query_list_is_ascending_and_deduplicated() {
    let mut state = setup();
    register_channel(&mut state, "chan-2".to_string());
    register_channel(&mut state, "chan-1".to_string());
    register_channel(&mut state, "chan-1".to_string());
    let r = query_list(&state);
    assert_eq!(
        r.channels,
        vec!["chan-0".to_string(), "chan-1".to_string(), "chan-2".to_string()]
    );
}

#[test]
fn query_config_and_whitelist() {
    let state = setup();
    assert_eq!(query_config(&state).default_timeout, 600);
    assert!(query_whitelisted(&state, "ledgerA".to_string()).is_whitelist);
    assert!(!query_whitelisted(&state, "ledgerB".to_string()).is_whitelist);
}

#[test]
fn query_dispatch_matches_direct_views() {
    let state = setup();
    match query(&state, QueryMsg::Config) {
        Ok(QueryAnswer::Config(c)) => assert_eq!(c.default_timeout, 600),
        _ => panic!("config query failed"),
    }
    match query(&state, QueryMsg::ListChannels) {
        Ok(QueryAnswer::ListChannels(l)) => assert_eq!(l.channels, vec!["chan-0".to_string()]),
        _ => panic!("list query failed"),
    }
    match query(&state, QueryMsg::Whitelisted { contract: "ledgerA".to_string() }) {
        Ok(QueryAnswer::Whitelisted(w)) => assert!(w.is_whitelist),
        _ => panic!("whitelist query failed"),
    }
    match query(&state, QueryMsg::Channel { id: "chan-0".to_string() }) {
        Ok(QueryAnswer::Channel(cr)) => assert!(cr.balances.is_empty()),
        _ => panic!("channel query failed"),
    }
}

#[test]
fn direct_transfer_entry_point_matches_protocol() {
    let mut state = setup();
    let amount = Amount::Native(native("uatom", 42));
    let resp = execute_transfer(
        &mut state,
        NOW,
        transfer_msg("chan-0", "remote1", None),
        amount,
        "alice".to_string(),
    )
    .unwrap_or_else(|_| panic!("transfer rejected"));
    assert_eq!(resp.packet.amount, 42);
    let (balances, _) = channel_balances(&state, "chan-0");
    assert_eq!(balances, vec![Amount::Native(native("uatom", 42))]);
}

#[test]
fn channels_ledger_independently() {
    let mut state = setup();
    register_channel(&mut state, "chan-1".to_string());
    execute(
        &mut state,
        NOW,
        vec![native("uatom", 8)],
        "alice".to_string(),
        ExecuteMsg::Transfer(transfer_msg("chan-0", "remote1", None)),
    )
    .unwrap_or_else(|_| panic!("transfer rejected"));
    let (balances, _) = channel_balances(&state, "chan-1");
    assert!(balances.is_empty());
    let (balances, _) = channel_balances(&state, "chan-0");
    assert_eq!(balances, vec![Amount::Native(native("uatom", 8))]);
}

#[test]
fn two_denominations_ledger_separately() {
    let mut state = setup();
    for (denom, amt) in [("uatom", 3u128), ("uosmo", 4u128)] {
        execute(
            &mut state,
            NOW,
            vec![native(denom, amt)],
            "alice".to_string(),
            ExecuteMsg::Transfer(transfer_msg("chan-0", "remote1", None)),
        )
        .unwrap_or_else(|_| panic!("transfer rejected"));
    }
    let (balances, _) = channel_balances(&state, "chan-0");
    assert_eq!(
        balances,
        vec![Amount::Native(native("uatom", 3)), Amount::Native(native("uosmo", 4))]
    );
}
