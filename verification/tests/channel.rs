use simple_ica_client::asset_entry::AssetEntry;
use simple_ica_client::commands::{add_module, update_assets, update_prices};
use simple_ica_client::contract::{
    apply_twap_results, build_send_all_back, execute_check_remote_balance, execute_ibc_query,
    execute_send_funds, execute_send_msgs, handle_ica_resp, instantiate, on_account_reported,
    on_balance_reported, query_account, query_latest_ibc_query_result, query_list_accounts,
    set_twap_channel, store_latest_query, AckOutcome,
};
use simple_ica_client::contract_entry::UncheckedContractEntry;
use simple_ica_client::error::ProxyError;
use simple_ica_client::ibc::{PacketMsg, StdAck, PACKET_LIFETIME};
use simple_ica_client::memory::AssetInfo;
use simple_ica_client::proxy_asset::{UncheckedProxyAsset, UncheckedValueRef};
use simple_ica_client::state::Coin;

const NOW: u64 = 1_700_000_000;

#[test]
fn dispatch_from_unlisted_sender_fails() {
    let store = instantiate(1, "memory".to_string(), "creator".to_string());
    let msgs: Vec<String> = vec!["raw-msg".to_string()];
    let err = execute_send_msgs(
        &store.state,
        &store.twap,
        &store.accounts,
        "mallory",
        "proxy-contract",
        msgs,
        NOW,
    )
    .unwrap_err();
    assert_eq!(err, ProxyError::SenderNotWhitelisted);
}

#[test]
fn dispatch_needs_bound_channel() {
    let mut store = instantiate(1, "memory".to_string(), "creator".to_string());
    add_module(&mut store.state, "creator", "creator", "module".to_string()).unwrap();
    set_twap_channel(&mut store.twap, "channel-1".to_string());
    let msgs: Vec<String> = vec!["raw-msg".to_string()];
    let err = execute_send_msgs(
        &store.state,
        &store.twap,
        &store.accounts,
        "module",
        "proxy-contract",
        msgs.clone(),
        NOW,
    )
    .unwrap_err();
    assert_eq!(err, ProxyError::ChannelNotBound);

    on_balance_reported(&mut store.accounts, "channel-1".to_string(), vec![], NOW);
    let send = execute_send_msgs(
        &store.state,
        &store.twap,
        &store.accounts,
        "module",
        "proxy-contract",
        msgs,
        NOW,
    )
    .unwrap();
    assert_eq!(send.channel_id.as_str(), "channel-1");
    assert_eq!(send.timeout_seconds, NOW + PACKET_LIFETIME);
    match send.packet {
        PacketMsg::Dispatch { sender, msgs, callback_id } => {
            assert_eq!(sender.as_str(), "proxy-contract");
            assert_eq!(msgs, vec!["raw-msg".to_string()]);
            assert_eq!(callback_id.unwrap().as_str(), "osmo_swap");
        }
        _ => panic!("expected a dispatch packet"),
    }
}

#[test]
fn balance_check_needs_bound_channel() {
    let mut store = instantiate(1, "memory".to_string(), "creator".to_string());
    let err = execute_check_remote_balance::<String>(&store.accounts, "channel-1".to_string(), NOW)
        .unwrap_err();
    assert_eq!(err, ProxyError::ChannelNotBound);
    on_balance_reported(&mut store.accounts, "channel-1".to_string(), vec![], NOW);
    let send =
        execute_check_remote_balance::<String>(&store.accounts, "channel-1".to_string(), NOW)
            .unwrap();
    assert!(matches!(send.packet, PacketMsg::Balances));
}

#[test]
fn send_funds_needs_remote_address() {
    let mut store = instantiate(1, "memory".to_string(), "creator".to_string());
    add_module(&mut store.state, "creator", "creator", "module".to_string()).unwrap();
    set_twap_channel(&mut store.twap, "channel-1".to_string());
    on_balance_reported(&mut store.accounts, "channel-1".to_string(), vec![], NOW);
    let coins = vec![Coin { denom: "ujuno".to_string(), amount: 25 }];
    let err = execute_send_funds(
        &store.state,
        &store.twap,
        &store.accounts,
        "module",
        coins.clone(),
        "transfer-7".to_string(),
        NOW,
    )
    .unwrap_err();
    assert_eq!(err, ProxyError::NoRemoteAddress);

    on_account_reported(&mut store.accounts, "channel-1".to_string(), "osmo1remote".to_string(), NOW);
    let msgs = execute_send_funds(
        &store.state,
        &store.twap,
        &store.accounts,
        "module",
        coins,
        "transfer-7".to_string(),
        NOW,
    )
    .unwrap();
    assert_eq!(msgs.len(), 1);
    assert_eq!(msgs[0].channel_id.as_str(), "transfer-7");
    assert_eq!(msgs[0].to_address.as_str(), "osmo1remote");
    assert_eq!(msgs[0].amount.denom.as_str(), "ujuno");
    assert_eq!(msgs[0].amount.amount, 25);
}

#[test]
fn account_cache_keeps_the_other_half() {
    let mut store = instantiate(1, "memory".to_string(), "creator".to_string());
    on_balance_reported(
        &mut store.accounts,
        "channel-1".to_string(),
        vec![Coin { denom: "uosmo".to_string(), amount: 9 }],
        100,
    );
    on_account_reported(&mut store.accounts, "channel-1".to_string(), "osmo1xyz".to_string(), 200);
    let resp = query_account(&store.accounts, "channel-1").unwrap();
    assert_eq!(resp.last_update_time, 200);
    assert_eq!(resp.remote_addr.unwrap().as_str(), "osmo1xyz");
    assert_eq!(resp.remote_balance.len(), 1);
    assert_eq!(resp.remote_balance[0].denom.as_str(), "uosmo");
    let listing = query_list_accounts(&store.accounts);
    assert_eq!(listing.accounts.len(), 1);
    assert_eq!(listing.accounts[0].channel_id.as_str(), "channel-1");
    assert_eq!(
        query_account(&store.accounts, "channel-9").unwrap_err(),
        ProxyError::ChannelNotBound
    );
}

#[test]
fn price_refresh_roundtrip() {
    let mut store = instantiate(1, "memory".to_string(), "creator".to_string());
    update_assets(
        &mut store.vault_assets,
        &mut store.pool_prices,
        "creator",
        "creator",
        vec![
            UncheckedProxyAsset { asset: "osmo>osmo".to_string(), value_reference: None },
            UncheckedProxyAsset {
                asset: "osmo>usdc".to_string(),
                value_reference: Some(UncheckedValueRef::Pool {
                    pair: "osmo/osmo_usdc".to_string(),
                }),
            },
        ],
        vec![],
    )
    .unwrap();
    set_twap_channel(&mut store.twap, "channel-1".to_string());

    let pair = UncheckedContractEntry::new("osmo", "osmo_usdc").check();
    let pools = vec![(pair.clone(), 1u64)];
    let infos = vec![
        (AssetEntry::new("osmo>osmo"), AssetInfo::Native("uosmo".to_string())),
        (AssetEntry::new("osmo>usdc"), AssetInfo::Native("uusdc".to_string())),
    ];
    let send = update_prices(&store.pool_prices, &store.twap, "caller", &pools, &infos, NOW)
        .unwrap();
    assert_eq!(send.channel_id.as_str(), "channel-1");
    match &send.packet {
        PacketMsg::IbcQuery { sender, msgs, callback_id } => {
            assert_eq!(sender.as_str(), "caller");
            assert_eq!(msgs.len(), 1);
            assert_eq!(msgs[0].pool_id, 1);
            assert_eq!(msgs[0].quote_asset_denom.as_str(), "uosmo");
            assert_eq!(msgs[0].base_asset_denom.as_str(), "uusdc");
            assert_eq!(msgs[0].start_time, (NOW - 1800) as i64);
            assert_eq!(callback_id.as_ref().unwrap().as_str(), "twap");
        }
        _ => panic!("expected a query packet"),
    }

    // The acknowledgement returns one decoded result; it lands on the pool.
    let outcome = handle_ica_resp(
        &mut store.pool_prices,
        "twap",
        &StdAck::Result(vec![]),
        &vec!["1.5".to_string()],
    )
    .unwrap();
    assert_eq!(outcome, AckOutcome::PricesRefreshed);
    let price = store.pool_prices.get(&pair).unwrap();
    assert_eq!(price.price.0, 1_500_000_000_000_000_000u128);
}

#[test]
fn ack_error_and_tags() {
    let mut store = instantiate(1, "memory".to_string(), "creator".to_string());
    let err = handle_ica_resp(
        &mut store.pool_prices,
        "twap",
        &StdAck::Error("remote failed".to_string()),
        &vec![],
    )
    .unwrap_err();
    assert_eq!(err, ProxyError::RemoteError { message: "remote failed".to_string() });

    let forward = handle_ica_resp(
        &mut store.pool_prices,
        "osmo_swap",
        &StdAck::Result(vec![]),
        &vec![],
    )
    .unwrap();
    assert_eq!(forward, AckOutcome::ForwardAll);
    let send = build_send_all_back::<String>("proxy-contract", "transfer-7", "channel-1", NOW);
    match send.packet {
        PacketMsg::SendAllBack { sender, transfer_channel } => {
            assert_eq!(sender.as_str(), "proxy-contract");
            assert_eq!(transfer_channel.as_str(), "transfer-7");
        }
        _ => panic!("expected the forwarding packet"),
    }

    let ignored = handle_ica_resp(
        &mut store.pool_prices,
        "something-else",
        &StdAck::Result(vec![]),
        &vec![],
    )
    .unwrap();
    assert_eq!(ignored, AckOutcome::Ignored);
}

#[test]
fn bad_decimal_refuses_the_batch() {
    let mut store = instantiate(1, "memory".to_string(), "creator".to_string());
    let pair = UncheckedContractEntry::new("osmo", "osmo_usdc").check();
    store.pool_prices.save(
        pair.clone(),
        simple_ica_client::state::OraclePrice {
            price: simple_ica_client::decimal::Decimal(7),
        },
    );
    let err = apply_twap_results(&mut store.pool_prices, &vec!["not-a-number".to_string()])
        .unwrap_err();
    assert_eq!(err, ProxyError::DecimalParse);
    assert_eq!(store.pool_prices.get(&pair).unwrap().price.0, 7);
}

#[test]
fn latest_query_results_are_kept_per_channel() {
    let mut store = instantiate(1, "memory".to_string(), "creator".to_string());
    store_latest_query(
        &mut store.latest_queries,
        "channel-1".to_string(),
        StdAck::Result(vec![1, 2, 3]),
        NOW,
    );
    let resp = query_latest_ibc_query_result(&store.latest_queries, "channel-1").unwrap();
    assert_eq!(resp.last_update_time, NOW);
    assert!(matches!(resp.response, StdAck::Result(b) if b == vec![1, 2, 3]));
    assert_eq!(
        query_latest_ibc_query_result(&store.latest_queries, "channel-2").unwrap_err(),
        ProxyError::ChannelNotBound
    );
}

#[test]
fn plain_queries_pass_through() {
    let send = execute_ibc_query(
        "someone",
        "channel-5".to_string(),
        vec!["query-blob".to_string()],
        Some("my-callback".to_string()),
        NOW,
    );
    assert_eq!(send.channel_id.as_str(), "channel-5");
    assert_eq!(send.timeout_seconds, NOW + PACKET_LIFETIME);
    match send.packet {
        PacketMsg::IbcQuery { sender, msgs, callback_id } => {
            assert_eq!(sender.as_str(), "someone");
            assert_eq!(msgs, vec!["query-blob".to_string()]);
            assert_eq!(callback_id.unwrap().as_str(), "my-callback");
        }
        _ => panic!("expected a query packet"),
    }
}
