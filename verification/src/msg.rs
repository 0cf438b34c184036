//! The proxy's message surface: what a caller may ask, and the shapes the
//! answers come back in. Chain-native scalars appear as plain values: an
//! amount is a `u128` of the smallest unit, a timestamp a `u64` of
//! seconds, an address a string.
use vstd::prelude::*;

use crate::asset_entry::AssetEntry;
use crate::ibc::StdAck;
use crate::proxy_asset::ProxyAsset;
use crate::state::{AccountData, Coin};

verus! {

#[derive(Debug)]
pub struct InstantiateMsg {
    pub os_id: u32,
    pub memory_address: String,
}

#[derive(Debug, PartialEq)]
pub struct MigrateMsg {}

#[derive(Debug)]
pub enum QueryMsg {
    /// Returns [`ConfigResponse`].
    Config {},
    /// Returns the total value of all held assets, [`TotalValueResponse`].
    TotalValue {},
    /// Returns the value of one asset, [`HoldingValueResponse`].
    HoldingValue { identifier: String },
    /// Returns the held amount of one asset, [`HoldingAmountResponse`].
    HoldingAmount { identifier: String },
    /// Returns the registry entry of one asset, [`AssetConfigResponse`].
    AssetConfig { identifier: String },
    /// Returns a page of the registry, [`AssetsResponse`].
    Assets { page_token: Option<String>, page_size: Option<u8> },
    /// Returns [`ValidityResponse`].
    CheckValidity {},
    /// Returns [`BaseAssetResponse`].
    BaseAsset {},
    /// Returns the current admin.
    Admin {},
    /// Lists every open account with its remote info.
    ListAccounts {},
    /// Returns the account bound to one channel.
    Account { channel_id: String },
    /// Returns the latest query result seen on one channel.
    LatestQueryResult { channel_id: String },
}

#[derive(Debug, PartialEq)]
pub struct AdminResponse {
    pub admin: String,
}

#[derive(Debug, PartialEq)]
pub struct ConfigResponse {
    pub modules: Vec<String>,
}

#[derive(Debug, PartialEq)]
pub struct TotalValueResponse {
    pub value: u128,
}

#[derive(Debug, PartialEq)]
pub struct HoldingValueResponse {
    pub value: u128,
}

#[derive(Debug, PartialEq)]
pub struct HoldingAmountResponse {
    pub amount: u128,
}

/// The validity report of the registry's value graph: which assets cannot
/// resolve, and which referenced keys are absent. An empty set is left
/// out.
#[derive(Debug, PartialEq)]
pub struct ValidityResponse {
    /// Assets with an unresolvable value derivation.
    pub unresolvable_assets: Option<Vec<AssetEntry>>,
    /// Keys referenced by some asset but absent from the registry.
    pub missing_dependencies: Option<Vec<AssetEntry>>,
}

#[derive(Debug, PartialEq)]
pub struct BaseAssetResponse {
    pub base_asset: ProxyAsset,
}

#[derive(Debug, PartialEq)]
pub struct AssetConfigResponse {
    pub proxy_asset: ProxyAsset,
}

#[derive(Debug, PartialEq)]
pub struct AssetsResponse {
    pub assets: Vec<(AssetEntry, ProxyAsset)>,
}

#[derive(Debug)]
pub struct LatestQueryResponse {
    /// When the result was stored; zero means never.
    pub last_update_time: u64,
    pub response: StdAck,
}

pub struct LatestQueryResponseV {
    pub last_update_time: u64,
    pub response: crate::ibc::StdAckV,
}

impl View for LatestQueryResponse {
    type V = LatestQueryResponseV;

    open spec fn view(&self) -> LatestQueryResponseV {
        LatestQueryResponseV { last_update_time: self.last_update_time, response: self.response@ }
    }
}

impl Clone for LatestQueryResponse {
    fn clone(&self) -> (r: Self)
        ensures
            r.last_update_time == self.last_update_time,
            r.response@ == self.response@,
    {
        LatestQueryResponse {
            last_update_time: self.last_update_time,
            response: self.response.clone(),
        }
    }
}

#[derive(Debug)]
pub struct AccountInfo {
    pub channel_id: String,
    pub last_update_time: u64,
    pub remote_addr: Option<String>,
    pub remote_balance: Vec<Coin>,
}

impl AccountInfo {
    /// Tags an account snapshot with the channel it belongs to.
    pub fn convert(channel_id: String, input: AccountData) -> (r: Self)
        ensures
            r.channel_id@ == channel_id@,
            r.last_update_time == input@.last_update_time,
            (match r.remote_addr {
                Some(a) => input@.remote_addr == Some(a@),
                None => input@.remote_addr is None,
            }),
            r.remote_balance@.map_values(|c: Coin| c@) == input@.remote_balance,
    {
        AccountInfo {
            channel_id,
            last_update_time: input.last_update_time,
            remote_addr: input.remote_addr,
            remote_balance: input.remote_balance,
        }
    }
}

#[derive(Debug)]
pub struct ListAccountsResponse {
    pub accounts: Vec<AccountInfo>,
}

#[derive(Debug)]
pub struct AccountResponse {
    pub last_update_time: u64,
    pub remote_addr: Option<String>,
    pub remote_balance: Vec<Coin>,
}

impl AccountResponse {
    /// Strips the channel key off a stored snapshot.
    pub fn from_data(input: AccountData) -> (r: Self)
        ensures
            r.last_update_time == input@.last_update_time,
            (match r.remote_addr {
                Some(a) => input@.remote_addr == Some(a@),
                None => input@.remote_addr is None,
            }),
            r.remote_balance@.map_values(|c: Coin| c@) == input@.remote_balance,
    {
        AccountResponse {
            last_update_time: input.last_update_time,
            remote_addr: input.remote_addr,
            remote_balance: input.remote_balance,
        }
    }
}

/// Asks an external valuation contract what an amount of an asset is
/// worth.
#[derive(Debug, PartialEq)]
pub struct ValueQueryMsg {
    pub asset: AssetEntry,
    pub amount: u128,
}

#[derive(Debug, PartialEq)]
pub struct ExternalValueResponse {
    pub value: u128,
}

} // verus!
