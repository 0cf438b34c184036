//! The generic exchange interface: liquidity and swap requests phrased
//! over asset names, resolved per exchange elsewhere.
use vstd::prelude::*;

use crate::asset_entry::AssetEntry;
use crate::contract_entry::ContractEntry;
use crate::decimal::Decimal;

verus! {

/// Requests an exchange can run.
#[derive(Debug)]
pub enum RequestMsg {
    ProvideLiquidity {
        /// Assets to add.
        assets: Vec<(AssetEntry, u128)>,
        /// Exchange to use.
        dex: Option<String>,
        max_spread: Option<Decimal>,
    },
    ProvideLiquiditySymmetric {
        offer_asset: (AssetEntry, u128),
        /// Assets paired with the offered one.
        paired_assets: Vec<AssetEntry>,
        /// Exchange to use.
        dex: Option<String>,
    },
    WithdrawLiquidity { lp_token: AssetEntry, amount: u128, dex: Option<String> },
    Swap {
        offer_asset: (AssetEntry, u128),
        ask_asset: AssetEntry,
        dex: Option<String>,
        max_spread: Option<Decimal>,
        belief_price: Option<Decimal>,
    },
}

#[derive(Debug)]
pub enum ApiQueryMsg {
    /// Returns [`SimulateSwapResponse`].
    SimulateSwap { offer_asset: (AssetEntry, u128), ask_asset: AssetEntry, dex: Option<String> },
}

/// Fees may be withheld from either side, so the commission names its
/// asset.
#[derive(Debug)]
pub struct SimulateSwapResponse {
    pub pool: ContractEntry,
    /// Amount received for the swap.
    pub return_amount: u128,
    /// Spread in the asked asset.
    pub spread_amount: u128,
    /// Commission charged.
    pub commission: (AssetEntry, u128),
}

} // verus!
