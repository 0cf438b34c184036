use simple_ica_client::asset_entry::AssetEntry;
use simple_ica_client::commands::{add_module, remove_module, update_assets};
use simple_ica_client::contract::instantiate;
use simple_ica_client::contract_entry::UncheckedContractEntry;
use simple_ica_client::decimal::Decimal;
use simple_ica_client::error::ProxyError;
use simple_ica_client::proxy_asset::{ProxyAsset, UncheckedProxyAsset, UncheckedValueRef, ValueRef};
use simple_ica_client::queries::{
    query_base_asset, query_config, query_proxy_assets, query_proxy_asset_validity,
};
use simple_ica_client::state::{AssetRegistry, PriceCache, State, LIST_SIZE_LIMIT};
use simple_ica_client::value::{compute_holding_value, compute_total_value, ValuationContext};

fn base_asset(name: &str) -> UncheckedProxyAsset {
    UncheckedProxyAsset { asset: name.to_string(), value_reference: None }
}

fn pool_asset(name: &str, pair: &str) -> UncheckedProxyAsset {
    UncheckedProxyAsset {
        asset: name.to_string(),
        value_reference: Some(UncheckedValueRef::Pool { pair: pair.to_string() }),
    }
}

#[test]
fn instantiate_works() {
    let store = instantiate(1u32, "testing_contract".to_string(), "creator".to_string());
    assert_eq!(store.os_id, 1u32);
    let admin = simple_ica_client::contract::query_admin(&store.admin);
    assert_eq!("creator", admin.admin.as_str());
}

#[test]
fn clean_registry_validates_clean() {
    let mut store = instantiate(1, "memory".to_string(), "creator".to_string());
    update_assets(
        &mut store.vault_assets,
        &mut store.pool_prices,
        "creator",
        "creator",
        vec![base_asset("osmo>osmo"), pool_asset("osmo>usdc", "osmo/osmo_usdc")],
        vec![],
    )
    .unwrap();
    let report = query_proxy_asset_validity(&store.vault_assets).unwrap();
    assert!(report.unresolvable_assets.is_none());
    assert!(report.missing_dependencies.is_none());
    let base = query_base_asset(&store.vault_assets).unwrap();
    assert_eq!(base.asset.as_str(), "osmo>osmo");
}

#[test]
fn second_base_asset_is_refused() {
    let mut store = instantiate(1, "memory".to_string(), "creator".to_string());
    let err = update_assets(
        &mut store.vault_assets,
        &mut store.pool_prices,
        "creator",
        "creator",
        vec![base_asset("osmo>osmo"), base_asset("osmo>atom")],
        vec![],
    )
    .unwrap_err();
    assert_eq!(err, ProxyError::MultipleBaseAssets);
    assert_eq!(store.vault_assets.len(), 0);
}

#[test]
fn absent_dependency_is_reported() {
    let mut registry = AssetRegistry::new();
    registry.save(ProxyAsset {
        asset: AssetEntry::new("osmo>usdc"),
        value_reference: Some(ValueRef::Pool {
            pair: UncheckedContractEntry::new("osmo", "osmo_usdc").check(),
        }),
    });
    let report = query_proxy_asset_validity(&registry).unwrap();
    let unresolvable = report.unresolvable_assets.unwrap();
    assert_eq!(unresolvable.len(), 1);
    assert_eq!(unresolvable[0].as_str(), "osmo>usdc");
    let missing = report.missing_dependencies.unwrap();
    assert_eq!(missing.len(), 1);
    assert_eq!(missing[0].as_str(), "osmo>osmo");
}

#[test]
fn removing_sole_dependency_leaves_dependent_unresolvable() {
    let mut store = instantiate(1, "memory".to_string(), "creator".to_string());
    update_assets(
        &mut store.vault_assets,
        &mut store.pool_prices,
        "creator",
        "creator",
        vec![base_asset("osmo>osmo"), pool_asset("osmo>usdc", "osmo/osmo_usdc")],
        vec![],
    )
    .unwrap();
    store.vault_assets.remove("osmo>osmo");
    let report = query_proxy_asset_validity(&store.vault_assets).unwrap();
    let unresolvable = report.unresolvable_assets.unwrap();
    assert_eq!(unresolvable.len(), 1);
    assert_eq!(unresolvable[0].as_str(), "osmo>usdc");
    assert!(store.vault_assets.get("osmo>usdc").is_some());
}

#[test]
fn bad_update_rolls_back() {
    let mut store = instantiate(1, "memory".to_string(), "creator".to_string());
    let err = update_assets(
        &mut store.vault_assets,
        &mut store.pool_prices,
        "creator",
        "creator",
        vec![base_asset("osmo>osmo"), pool_asset("osmo>usdc", "osmo/osmo_atom")],
        vec![],
    )
    .unwrap_err();
    assert_eq!(err, ProxyError::BadUpdate);
    assert_eq!(store.vault_assets.len(), 0);
    assert_eq!(store.pool_prices.len(), 0);
}

#[test]
fn update_assets_requires_admin_and_cap() {
    let mut store = instantiate(1, "memory".to_string(), "creator".to_string());
    let err = update_assets(
        &mut store.vault_assets,
        &mut store.pool_prices,
        "creator",
        "mallory",
        vec![base_asset("osmo>osmo")],
        vec![],
    )
    .unwrap_err();
    assert_eq!(err, ProxyError::NotAdmin);

    let mut many = Vec::new();
    many.push(base_asset("osmo>a0"));
    for i in 1..16 {
        many.push(pool_asset(&format!("osmo>b{}", i), "osmo/a0_b"));
    }
    let err = update_assets(
        &mut store.vault_assets,
        &mut store.pool_prices,
        "creator",
        "creator",
        many,
        vec![],
    )
    .unwrap_err();
    assert_eq!(err, ProxyError::AssetsLimitReached);
}

#[test]
fn paged_assets_walk_the_registry() {
    let mut store = instantiate(1, "memory".to_string(), "creator".to_string());
    update_assets(
        &mut store.vault_assets,
        &mut store.pool_prices,
        "creator",
        "creator",
        vec![base_asset("osmo>osmo"), pool_asset("osmo>usdc", "osmo/osmo_usdc")],
        vec![],
    )
    .unwrap();
    let first = query_proxy_assets(&store.vault_assets, None, Some(1));
    assert_eq!(first.assets.len(), 1);
    assert_eq!(first.assets[0].0.as_str(), "osmo>osmo");
    let token = first.assets[0].0.as_str().to_string();
    let second = query_proxy_assets(&store.vault_assets, Some(&token), Some(1));
    assert_eq!(second.assets.len(), 1);
    assert_eq!(second.assets[0].0.as_str(), "osmo>usdc");
    let token2 = second.assets[0].0.as_str().to_string();
    let third = query_proxy_assets(&store.vault_assets, Some(&token2), Some(1));
    assert_eq!(third.assets.len(), 0);
}

#[test]
fn whitelist_add_remove_is_idempotent_safe() {
    let mut state = State { modules: Vec::new() };
    add_module(&mut state, "creator", "creator", "mod1".to_string()).unwrap();
    assert_eq!(
        add_module(&mut state, "creator", "creator", "mod1".to_string()).unwrap_err(),
        ProxyError::AlreadyInList
    );
    assert_eq!(
        remove_module(&mut state, "creator", "creator", "ghost".to_string()).unwrap_err(),
        ProxyError::NotInList
    );
    assert_eq!(
        add_module(&mut state, "creator", "mallory", "mod2".to_string()).unwrap_err(),
        ProxyError::NotAdmin
    );
    for i in 2..=LIST_SIZE_LIMIT {
        add_module(&mut state, "creator", "creator", format!("mod{}", i)).unwrap();
    }
    assert_eq!(state.modules.len(), LIST_SIZE_LIMIT);
    assert_eq!(
        add_module(&mut state, "creator", "creator", "overflow".to_string()).unwrap_err(),
        ProxyError::ModuleLimitReached
    );
    remove_module(&mut state, "creator", "creator", "mod1".to_string()).unwrap();
    assert_eq!(state.modules.len(), LIST_SIZE_LIMIT - 1);
    let config = query_config(&state);
    assert!(!config.modules.iter().any(|m| m.as_str() == "mod1"));
}

#[test]
fn total_value_sums_per_asset_values() {
    let mut store = instantiate(1, "memory".to_string(), "creator".to_string());
    update_assets(
        &mut store.vault_assets,
        &mut store.pool_prices,
        "creator",
        "creator",
        vec![base_asset("osmo>osmo"), pool_asset("osmo>usdc", "osmo/osmo_usdc")],
        vec![],
    )
    .unwrap();
    // A pool price of 1.5 in base units per usdc.
    let pair = UncheckedContractEntry::new("osmo", "osmo_usdc").check();
    store.pool_prices.save(
        pair,
        simple_ica_client::state::OraclePrice { price: Decimal(1_500_000_000_000_000_000u128) },
    );
    let ctx = ValuationContext {
        balances: vec![
            (AssetEntry::new("osmo>osmo"), 100u128),
            (AssetEntry::new("osmo>usdc"), 10u128),
        ],
        pools: vec![],
    };
    let base_value =
        compute_holding_value(&store.vault_assets, &store.pool_prices, &ctx, "osmo>osmo").unwrap();
    assert_eq!(base_value, 100u128);
    let usdc_value =
        compute_holding_value(&store.vault_assets, &store.pool_prices, &ctx, "osmo>usdc").unwrap();
    assert_eq!(usdc_value, 15u128);
    let total = compute_total_value(&store.vault_assets, &store.pool_prices, &ctx).unwrap();
    assert_eq!(total, 115u128);
}

#[test]
fn value_failure_modes() {
    let mut registry = AssetRegistry::new();
    registry.save(ProxyAsset {
        asset: AssetEntry::new("osmo>weird"),
        value_reference: Some(ValueRef::External { api_name: "oracle".to_string() }),
    });
    let prices = PriceCache::new();
    let ctx = ValuationContext { balances: vec![], pools: vec![] };
    assert_eq!(
        compute_holding_value(&registry, &prices, &ctx, "osmo>weird").unwrap_err(),
        ProxyError::ExternalNotImplemented
    );
    assert_eq!(
        compute_holding_value(&registry, &prices, &ctx, "osmo>absent").unwrap_err(),
        ProxyError::MissingAsset
    );
    // A pegged asset that points at itself never terminates; the walk
    // reports the cycle instead.
    let mut registry = AssetRegistry::new();
    registry.save(ProxyAsset {
        asset: AssetEntry::new("osmo>loop"),
        value_reference: Some(ValueRef::ValueAs {
            asset: AssetEntry::new("osmo>loop"),
            multiplier: Decimal::percent(100),
        }),
    });
    let ctx = ValuationContext {
        balances: vec![(AssetEntry::new("osmo>loop"), 5u128)],
        pools: vec![],
    };
    assert_eq!(
        compute_holding_value(&registry, &prices, &ctx, "osmo>loop").unwrap_err(),
        ProxyError::CyclicValueReference
    );
}
