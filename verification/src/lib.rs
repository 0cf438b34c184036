//! A verified model of a chain-resident vault proxy: it tracks a basket of
//! assets, resolves a graph of asset-to-asset value definitions to compute
//! the basket's aggregate value, and coordinates with a remote counterpart
//! over an ordered cross-chain messaging channel, correlating outbound
//! packets with the acknowledgements that later return.
#![verifier::loop_isolation(false)]

use vstd::prelude::*;

pub mod add_on;
pub mod asset_entry;
pub mod balancer;
pub mod commands;
pub mod contract;
pub mod contract_entry;
pub mod decimal;
pub mod dex;
pub mod exchanges;
pub mod fee;
pub mod error;
pub mod ibc;
pub mod kv;
pub mod manager;
pub mod memory;
pub mod msg;
pub mod proxy_asset;
pub mod queries;
pub mod state;
pub mod strutil;
pub mod value;
pub mod version_control;

verus! {

} // verus!
