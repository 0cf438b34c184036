//! The liquidity-interface add-on's surface: deposits priced by the
//! proxy's value calculation, rebalanced against target weights.
use vstd::prelude::*;

use crate::add_on::{BaseExecuteMsg, BaseInstantiateMsg, BaseQueryMsg};
use crate::asset_entry::AssetEntry;
use crate::decimal::Decimal;

verus! {

#[derive(Debug)]
pub struct WeightedAsset {
    pub weight: u64,
    /// The asset the weight belongs to.
    pub identifier: AssetEntry,
}

/// The add-on's stored configuration.
#[derive(Debug)]
pub struct State {
    /// The allowed deviation from the target ratio.
    pub max_deviation: Decimal,
    /// The exchange used for swaps.
    pub dex: String,
}

#[derive(Debug, PartialEq)]
pub struct MigrateMsg {}

#[derive(Debug)]
pub struct InstantiateMsg {
    /// Base init, naming the memory address.
    pub base: BaseInstantiateMsg,
    /// Target weights of the held assets.
    pub asset_weights: Vec<WeightedAsset>,
    /// The allowed deviation from the target ratio.
    pub deviation: Decimal,
    /// The exchange used for swaps.
    pub dex: String,
}

#[derive(Debug)]
pub enum ExecuteMsg {
    /// Acts on the base add-on logic.
    Base(BaseExecuteMsg),
    /// Rebalances the holdings toward the target weights.
    Rebalance {},
    /// Updates the target weights.
    UpdateAssetWeights { to_add: Option<Vec<WeightedAsset>>, to_remove: Option<Vec<String>> },
    /// Updates the configuration.
    UpdateConfig { deviation: Option<Decimal>, dex: Option<String> },
}

#[derive(Debug)]
pub enum QueryMsg {
    Base(BaseQueryMsg),
    /// Returns [`StateResponse`].
    State {},
}

#[derive(Debug)]
pub enum DepositHookMsg {
    WithdrawLiquidity {},
    ProvideLiquidity {},
}

#[derive(Debug)]
pub struct StateResponse {
    pub asset_weights: Vec<WeightedAsset>,
    pub max_deviation: Decimal,
}

} // verus!
