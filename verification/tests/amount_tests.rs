use escrow_gateway::amount::{Amount, Coin, Cw20Coin};

#[test]
fn from_parts_native_round_trip() {
    let a = Amount::from_parts("uatom".to_string(), 100);
    assert_eq!(a, Amount::Native(Coin { denom: "uatom".to_string(), amount: 100 }));
    assert_eq!(a.denom(), "uatom".to_string());
    assert_eq!(a.amount(), 100);
}

#[test]
fn from_parts_cw20_round_trip() {
    let a = Amount::from_parts("cw20:ledgerA".to_string(), 7);
    assert_eq!(a, Amount::Cw20(Cw20Coin { address: "ledgerA".to_string(), amount: 7 }));
    assert_eq!(a.denom(), "cw20:ledgerA".to_string());
    assert_eq!(a.amount(), 7);
}

#[test]
fn from_parts_bare_prefix_is_ledgered_with_empty_address() {
    let a = Amount::from_parts("cw20:".to_string(), 3);
    assert_eq!(a, Amount::Cw20(Cw20Coin { address: "".to_string(), amount: 3 }));
    assert_eq!(a.denom(), "cw20:".to_string());
}

#[test]
fn from_parts_short_key_is_native() {
    let a = Amount::from_parts("cw20".to_string(), 3);
    assert_eq!(a, Amount::Native(Coin { denom: "cw20".to_string(), amount: 3 }));
    assert_eq!(a.denom(), "cw20".to_string());
}

#[test]
fn from_parts_preserves_address_case() {
    let a = Amount::from_parts("cw20:LedgerA".to_string(), 1);
    assert_eq!(a, Amount::Cw20(Cw20Coin { address: "LedgerA".to_string(), amount: 1 }));
    assert_eq!(a.denom(), "cw20:LedgerA".to_string());
}

#[test]
fn cw20_denom_carries_prefix() {
    let a = Amount::Cw20(Cw20Coin { address: "x".to_string(), amount: 1 });
    assert_eq!(a.denom(), "cw20:x".to_string());
}

#[test]
fn denom_then_from_parts_reconstructs_the_amount() {
    let cases = vec![
        Amount::Native(Coin { denom: "uatom".to_string(), amount: 9 }),
        Amount::Cw20(Cw20Coin { address: "ledgerA".to_string(), amount: 9 }),
    ];
    for a in cases {
        let b = Amount::from_parts(a.denom(), a.amount());
        assert_eq!(a, b);
    }
}

#[test]
fn is_empty_follows_quantity() {
    assert!(Amount::Native(Coin { denom: "uatom".to_string(), amount: 0 }).is_empty());
    assert!(!Amount::Native(Coin { denom: "uatom".to_string(), amount: 1 }).is_empty());
    assert!(Amount::Cw20(Cw20Coin { address: "a".to_string(), amount: 0 }).is_empty());
    assert!(!Amount::Cw20(Cw20Coin { address: "a".to_string(), amount: 5 }).is_empty());
}
