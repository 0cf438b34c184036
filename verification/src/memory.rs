//! The memory contract's interface: the chain-wide address book that maps
//! asset names to their token form and contract names to addresses. The
//! proxy consumes it read-only; the answers it needs are handed in as
//! plain tables.
use vstd::prelude::*;

use crate::asset_entry::AssetEntry;
use crate::contract_entry::{ContractEntry, UncheckedContractEntry};
use crate::kv::assoc_get;
use crate::strutil::str_eq;

verus! {

/// What an asset name resolves to: a native denomination, a token
/// contract, or a multi-token position the proxy does not account for.
#[derive(Debug)]
pub enum AssetInfo {
    Native(String),
    Cw20(String),
    Cw1155(String, String),
}

pub enum AssetInfoV {
    Native(Seq<char>),
    Cw20(Seq<char>),
    Cw1155(Seq<char>, Seq<char>),
}

impl View for AssetInfo {
    type V = AssetInfoV;

    open spec fn view(&self) -> AssetInfoV {
        match self {
            AssetInfo::Native(d) => AssetInfoV::Native(d@),
            AssetInfo::Cw20(a) => AssetInfoV::Cw20(a@),
            AssetInfo::Cw1155(a, b) => AssetInfoV::Cw1155(a@, b@),
        }
    }
}

impl Clone for AssetInfo {
    fn clone(&self) -> (r: Self)
        ensures
            r@ == self@,
    {
        match self {
            AssetInfo::Native(d) => AssetInfo::Native(d.clone()),
            AssetInfo::Cw20(a) => AssetInfo::Cw20(a.clone()),
            AssetInfo::Cw1155(a, b) => AssetInfo::Cw1155(a.clone(), b.clone()),
        }
    }
}

/// The asset table a caller read off the memory contract.
pub open spec fn infos_v(t: Seq<(AssetEntry, AssetInfo)>) -> Seq<(Seq<char>, AssetInfoV)> {
    t.map_values(|p: (AssetEntry, AssetInfo)| (p.0@, p.1@))
}

/// The contract table a caller read off the memory contract: each tracked
/// pool's numeric identifier.
pub open spec fn pools_v(t: Seq<(ContractEntry, u64)>) -> Seq<
    (crate::contract_entry::ContractEntryV, u64),
> {
    t.map_values(|p: (ContractEntry, u64)| (p.0@, p.1))
}

/// First matching entry of the asset table.
pub fn lookup_asset_info<'a>(infos: &'a Vec<(AssetEntry, AssetInfo)>, key: &str) -> (r: Option<
    &'a AssetInfo,
>)
    ensures
        r is Some <==> assoc_get(infos_v(infos@), key@) is Some,
        r matches Some(info) ==> assoc_get(infos_v(infos@), key@) == Some(info@),
{
    let mut i: usize = 0;
    while i < infos.len()
        invariant
            0 <= i <= infos.len(),
            forall|j: int| 0 <= j < i ==> (#[trigger] infos_v(infos@)[j]).0 != key@,
        decreases infos.len() - i,
    {
        if str_eq(infos[i].0.as_str(), key) {
            proof {
                crate::kv::lemma_get_skip(infos_v(infos@), key@, i as int);
                assert(infos_v(infos@).skip(i as int)[0] == infos_v(infos@)[i as int]);
            }
            return Some(&infos[i].1);
        }
        i = i + 1;
    }
    proof {
        crate::kv::lemma_get_skip(infos_v(infos@), key@, infos_v(infos@).len() as int);
        assert(infos_v(infos@).skip(infos_v(infos@).len() as int) =~= Seq::<
            (Seq<char>, AssetInfoV),
        >::empty());
    }
    None
}

/// First matching entry of the contract table.
pub fn lookup_pool_id(pools: &Vec<(ContractEntry, u64)>, key: &ContractEntry) -> (r: Option<u64>)
    ensures
        r == assoc_get(pools_v(pools@), key@),
{
    let mut i: usize = 0;
    while i < pools.len()
        invariant
            0 <= i <= pools.len(),
            forall|j: int| 0 <= j < i ==> (#[trigger] pools_v(pools@)[j]).0 != key@,
        decreases pools.len() - i,
    {
        if pools[i].0.eq_entry(key) {
            proof {
                crate::kv::lemma_get_skip(pools_v(pools@), key@, i as int);
                assert(pools_v(pools@).skip(i as int)[0] == pools_v(pools@)[i as int]);
                assert(pools@[i as int].0@ == key@);
            }
            return Some(pools[i].1);
        }
        i = i + 1;
    }
    proof {
        crate::kv::lemma_get_skip(pools_v(pools@), key@, pools_v(pools@).len() as int);
        assert(pools_v(pools@).skip(pools_v(pools@).len() as int) =~= Seq::<
            (crate::contract_entry::ContractEntryV, u64),
        >::empty());
    }
    None
}

#[derive(Debug, PartialEq)]
pub struct InstantiateMsg {}

/// Maintenance commands of the address book.
#[derive(Debug)]
pub enum ExecuteMsg {
    /// Contracts to update or add, and contracts to drop.
    UpdateContractAddresses {
        to_add: Vec<(UncheckedContractEntry, String)>,
        to_remove: Vec<UncheckedContractEntry>,
    },
    /// Assets to update or add, and assets to drop.
    UpdateAssetAddresses { to_add: Vec<(String, AssetInfo)>, to_remove: Vec<String> },
    /// Sets a new admin.
    SetAdmin { admin: String },
}

/// Read surface of the address book.
#[derive(Debug)]
pub enum QueryMsg {
    /// Queries assets by name; returns [`AssetsResponse`].
    Assets { names: Vec<String> },
    /// Queries contracts by name; returns [`ContractsResponse`].
    Contracts { names: Vec<ContractEntry> },
    /// Pages over contracts; returns [`ContractListResponse`].
    ContractList { page_token: Option<ContractEntry>, page_size: Option<u8> },
    /// Pages over assets; returns [`AssetListResponse`].
    AssetList { page_token: Option<String>, page_size: Option<u8> },
}

#[derive(Debug, PartialEq)]
pub struct MigrateMsg {}

#[derive(Debug)]
pub struct AssetsResponse {
    pub assets: Vec<(AssetEntry, AssetInfo)>,
}

#[derive(Debug)]
pub struct ContractsResponse {
    pub contracts: Vec<(ContractEntry, String)>,
}

#[derive(Debug)]
pub struct AssetListResponse {
    pub assets: Vec<(AssetEntry, AssetInfo)>,
}

#[derive(Debug)]
pub struct ContractListResponse {
    pub contracts: Vec<(ContractEntry, String)>,
}

} // verus!
