use simple_ica_client::asset_entry::AssetEntry;
use simple_ica_client::contract_entry::{ContractEntry, UncheckedContractEntry};
use simple_ica_client::decimal::Decimal;
use simple_ica_client::error::ProxyError;
use simple_ica_client::fee::Fee;
use simple_ica_client::manager::module_key;
use simple_ica_client::memory::AssetInfo;
use simple_ica_client::exchanges::{plan_swap, OsmosisRouter};
use simple_ica_client::proxy_asset::{
    get_pair_asset_names, get_value_ref_dependencies, other_asset_name, UncheckedProxyAsset,
    UncheckedValueRef, ValueRef,
};

#[test]
fn test_fee() {
    let fee = Fee::new(Decimal::percent(20u64)).unwrap();
    let deposit: u128 = 1000000;
    let deposit_fee = fee.compute(deposit);
    assert_eq!(deposit_fee, 200000u128);
}

#[test]
fn fee_share_must_stay_below_one() {
    assert_eq!(Fee::new(Decimal::percent(100u64)), Err(ProxyError::InvalidFee));
    let fee = Fee::new(Decimal::percent(99u64)).unwrap();
    assert_eq!(fee.share().atomics(), 990_000_000_000_000_000u128);
}

#[test]
fn asset_entry_case_folds() {
    let entry = AssetEntry::new("OSMO>USDC");
    assert_eq!(entry.as_str(), "osmo>usdc");
    assert_eq!(entry, AssetEntry::new("osmo>usdc"));
}

#[test]
fn contract_entry_check_case_folds() {
    let unchecked = UncheckedContractEntry::new("OsMo", "OSMO_usdc");
    let checked = unchecked.check();
    assert_eq!(checked.protocol.as_str(), "osmo");
    assert_eq!(checked.contract.as_str(), "osmo_usdc");
    assert_eq!(checked.path().as_str(), "osmo/osmo_usdc");
}

#[test]
fn contract_entry_composite_format() {
    let ok = UncheckedContractEntry::try_from("osmo/osmo_usdc").unwrap();
    assert_eq!(ok.protocol.as_str(), "osmo");
    assert_eq!(ok.contract.as_str(), "osmo_usdc");
    assert_eq!(
        UncheckedContractEntry::try_from("osmo-osmo_usdc").unwrap_err(),
        ProxyError::BadEntryFormat
    );
    assert_eq!(
        UncheckedContractEntry::try_from("a/b/c").unwrap_err(),
        ProxyError::BadEntryFormat
    );
}

#[test]
fn dex_entry_sorts_pair_names() {
    let mut assets = vec![AssetEntry::new("usdc"), AssetEntry::new("osmo")];
    let entry = ContractEntry::construct_dex_entry("JunoSwap", &mut assets);
    assert_eq!(entry.protocol.as_str(), "junoswap");
    assert_eq!(entry.contract.as_str(), "osmo_usdc");
}

#[test]
fn channel_entry_uses_fixed_protocol() {
    let entry = ContractEntry::construct_channel_entry("osmo", "juno");
    assert_eq!(entry.protocol.as_str(), "hermes");
    assert_eq!(entry.contract.as_str(), "osmo>juno");
}

#[test]
fn other_pool_asset_carries_chain_prefix() {
    assert_eq!(other_asset_name("osmo>usdc", "osmo_usdc").unwrap().as_str(), "osmo>osmo");
    assert_eq!(other_asset_name("osmo>osmo", "osmo_usdc").unwrap().as_str(), "osmo>usdc");
    assert_eq!(
        other_asset_name("osmoosmo", "osmo_usdc").unwrap_err(),
        ProxyError::BadPairFormat
    );
    assert_eq!(
        other_asset_name("osmo>atom", "osmo_usdc").unwrap_err(),
        ProxyError::BadPairFormat
    );
}

#[test]
fn pair_names_split_on_underscore() {
    let names = get_pair_asset_names("osmo_usdc").unwrap();
    assert_eq!(names.0.as_str(), "osmo");
    assert_eq!(names.1.as_str(), "usdc");
    assert_eq!(get_pair_asset_names("osmo-usdc").unwrap_err(), ProxyError::BadPairFormat);
}

#[test]
fn value_ref_dependencies() {
    let pool = ValueRef::Pool {
        pair: UncheckedContractEntry::new("osmo", "osmo_usdc").check(),
    };
    let deps = get_value_ref_dependencies(&pool, "osmo>usdc").unwrap();
    assert_eq!(deps.len(), 1);
    assert_eq!(deps[0].as_str(), "osmo>osmo");

    let peg = ValueRef::ValueAs {
        asset: AssetEntry::new("osmo>osmo"),
        multiplier: Decimal::percent(50),
    };
    let deps = get_value_ref_dependencies(&peg, "osmo>axl").unwrap();
    assert_eq!(deps.len(), 1);
    assert_eq!(deps[0].as_str(), "osmo>osmo");

    let lp = ValueRef::LiquidityToken;
    let deps = get_value_ref_dependencies(&lp, "junoswap/osmo_usdc").unwrap();
    assert_eq!(deps.len(), 2);
    assert_eq!(deps[0].as_str(), "osmo");
    assert_eq!(deps[1].as_str(), "usdc");

    let external = ValueRef::External { api_name: "oracle".to_string() };
    assert_eq!(
        get_value_ref_dependencies(&external, "osmo>weird").unwrap_err(),
        ProxyError::ExternalNotImplemented
    );
}

#[test]
fn unchecked_asset_check_folds_and_validates() {
    let ok = UncheckedProxyAsset {
        asset: "OSMO>USDC".to_string(),
        value_reference: Some(UncheckedValueRef::Pool { pair: "Osmo/OSMO_usdc".to_string() }),
    }
    .check()
    .unwrap();
    assert_eq!(ok.asset.as_str(), "osmo>usdc");
    match ok.value_reference {
        Some(ValueRef::Pool { pair }) => {
            assert_eq!(pair.protocol.as_str(), "osmo");
            assert_eq!(pair.contract.as_str(), "osmo_usdc");
        }
        _ => panic!("expected a pool reference"),
    }
    let bad = UncheckedProxyAsset {
        asset: "osmo>usdc".to_string(),
        value_reference: Some(UncheckedValueRef::Pool { pair: "osmo_usdc".to_string() }),
    }
    .check();
    assert_eq!(bad.unwrap_err(), ProxyError::BadEntryFormat);
}

#[test]
fn module_key_is_length_prefixed() {
    let key = module_key(&b"dex".to_vec());
    let mut expected: Vec<u8> = vec![0u8, 10u8];
    expected.extend_from_slice(b"os_modules");
    expected.extend_from_slice(b"dex");
    assert_eq!(key, expected);
    assert_eq!(
        simple_ica_client::manager::concat(&vec![1u8, 2u8], &vec![3u8]),
        vec![1u8, 2u8, 3u8]
    );
}

#[test]
fn swap_plan_picks_legs_by_offer() {
    let router = OsmosisRouter {};
    assert_eq!(router.name(), "osmosisrouter");
    let offer = AssetInfo::Native("ujunox".to_string());
    let junox = AssetInfo::Native("ibc/junox".to_string());
    let osmo = AssetInfo::Native("uosmo".to_string());
    let plan = plan_swap(&offer, 500, &junox, &osmo, 3, "channel-42".to_string()).unwrap();
    assert_eq!(plan.pool_id, 3);
    assert_eq!(plan.denom_in.as_str(), "ibc/junox");
    assert_eq!(plan.denom_out.as_str(), "uosmo");
    assert_eq!(plan.input.denom.as_str(), "ujunox");
    assert_eq!(plan.input.amount, 500);
    assert_eq!(plan.min_output, 0);

    let offer_osmo = AssetInfo::Native("uosmo".to_string());
    let plan2 = plan_swap(&offer_osmo, 7, &junox, &osmo, 3, "channel-42".to_string()).unwrap();
    assert_eq!(plan2.denom_in.as_str(), "uosmo");
    assert_eq!(plan2.denom_out.as_str(), "ibc/junox");

    let token = AssetInfo::Cw20("juno1abc".to_string());
    assert_eq!(
        plan_swap(&token, 1, &junox, &osmo, 3, "c".to_string()).unwrap_err(),
        ProxyError::Cw1155Unsupported
    );
}

#[test]
fn composite_key_round_trips() {
    let entry = UncheckedContractEntry::new("osmo", "osmo_usdc").check();
    let key = entry.joined_key();
    let mut expected: Vec<u8> = vec![0u8, 4u8];
    expected.extend_from_slice(b"osmo");
    expected.extend_from_slice(b"osmo_usdc");
    assert_eq!(key, expected);
    let back = ContractEntry::from_vec(key).unwrap();
    assert_eq!(back, entry);
}

#[test]
fn malformed_key_bytes_are_refused() {
    assert_eq!(
        simple_ica_client::contract_entry::parse_length(&vec![0u8]).unwrap_err(),
        ProxyError::BadEntryFormat
    );
    assert_eq!(
        simple_ica_client::contract_entry::parse_length(&vec![1u8, 2u8]).unwrap(),
        258usize
    );
    // Length prefix pointing past the end of the bytes.
    assert_eq!(
        ContractEntry::from_vec(vec![0u8, 9u8, b'a']).unwrap_err(),
        ProxyError::BadEntryFormat
    );
}
