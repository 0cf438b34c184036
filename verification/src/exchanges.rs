//! The exchange router for the local chain: given a resolved offer and
//! the address-book answers, it decides the swap and the follow-up
//! transfer. The chain lookups and message encoding sit with the caller;
//! what is verified is every decision in between.
use vstd::prelude::*;

use crate::error::ProxyError;
use crate::memory::{AssetInfo, AssetInfoV};
use crate::state::{Coin, CoinV};
use crate::strutil::str_eq;

verus! {

/// The name this router registers under.
pub const OSMOSISROUTER: &'static str = "osmosisrouter";

pub struct OsmosisRouter {}

impl OsmosisRouter {
    pub fn name(&self) -> (r: &'static str)
        ensures
            r@ == OSMOSISROUTER@,
    {
        OSMOSISROUTER
    }
}

/// The swap a routed order comes down to, and the transfer that funds it:
/// the exact-in swap on the pool, with no minimum output, and the coin to
/// move over the transfer route first.
#[derive(Debug)]
pub struct SwapPlan {
    pub pool_id: u64,
    pub denom_in: String,
    pub denom_out: String,
    pub input: Coin,
    pub min_output: u128,
    pub transfer_channel_id: String,
}

/// What the router decides for an offer, and exactly when it refuses:
/// the offer and both routed legs must be native coins; the input leg is
/// the local-chain form of what was offered, the output leg the other.
pub open spec fn spec_plan_swap(
    offer: AssetInfoV,
    offer_amount: u128,
    junox_leg: AssetInfoV,
    osmo_leg: AssetInfoV,
    pool_id: u64,
    transfer_channel: Seq<char>,
) -> Result<(Seq<char>, Seq<char>, Seq<char>), ProxyError> {
    match offer {
        AssetInfoV::Native(offer_denom) => {
            let legs = if offer_denom == "ujunox"@ {
                (junox_leg, osmo_leg)
            } else {
                (osmo_leg, junox_leg)
            };
            match legs.0 {
                AssetInfoV::Native(denom_in) => match legs.1 {
                    AssetInfoV::Native(denom_out) => Ok((offer_denom, denom_in, denom_out)),
                    _ => Err(ProxyError::Cw1155Unsupported),
                },
                _ => Err(ProxyError::Cw1155Unsupported),
            }
        },
        _ => Err(ProxyError::Cw1155Unsupported),
    }
}

/// Plans the swap of an offered asset into the paired one: the offered
/// coin funds an exact-in swap with no minimum output, sent after the
/// coin itself moves over the transfer route.
pub fn plan_swap(
    offer: &AssetInfo,
    offer_amount: u128,
    junox_leg: &AssetInfo,
    osmo_leg: &AssetInfo,
    pool_id: u64,
    transfer_channel_id: String,
) -> (r: Result<SwapPlan, ProxyError>)
    ensures
        ({
            let outcome = spec_plan_swap(
                offer@,
                offer_amount,
                junox_leg@,
                osmo_leg@,
                pool_id,
                transfer_channel_id@,
            );
            match r {
                Ok(plan) => (outcome matches Ok(t) && plan.pool_id == pool_id && plan.denom_in@
                    == t.1 && plan.denom_out@ == t.2 && plan.input@ == (CoinV {
                    denom: t.0,
                    amount: offer_amount,
                }) && plan.min_output == 0 && plan.transfer_channel_id@ == transfer_channel_id@),
                Err(e) => outcome == Err::<(Seq<char>, Seq<char>, Seq<char>), ProxyError>(e),
            }
        }),
{
    let offer_denom = match offer {
        AssetInfo::Native(d) => d.clone(),
        _ => {
            return Err(ProxyError::Cw1155Unsupported);
        },
    };
    let take_junox_first = str_eq(offer_denom.as_str(), "ujunox");
    let leg_in = if take_junox_first {
        junox_leg
    } else {
        osmo_leg
    };
    let leg_out = if take_junox_first {
        osmo_leg
    } else {
        junox_leg
    };
    let denom_in = match leg_in {
        AssetInfo::Native(d) => d.clone(),
        _ => {
            return Err(ProxyError::Cw1155Unsupported);
        },
    };
    let denom_out = match leg_out {
        AssetInfo::Native(d) => d.clone(),
        _ => {
            return Err(ProxyError::Cw1155Unsupported);
        },
    };
    Ok(
        SwapPlan {
            pool_id,
            denom_in,
            denom_out,
            input: Coin { denom: offer_denom, amount: offer_amount },
            min_output: 0,
            transfer_channel_id,
        },
    )
}

/// The native coins among a batch of resolved assets, in order.
pub fn coins_in_assets(assets: &Vec<(AssetInfo, u128)>) -> (r: Vec<Coin>)
    ensures
        r@.map_values(|c: Coin| c@) == spec_coins_in(
            assets@.map_values(|p: (AssetInfo, u128)| (p.0@, p.1)),
        ),
{
    let ghost av = assets@.map_values(|p: (AssetInfo, u128)| (p.0@, p.1));
    let mut coins: Vec<Coin> = Vec::new();
    proof {
        assert(av.take(0) =~= Seq::<(AssetInfoV, u128)>::empty());
        assert(coins@.map_values(|c: Coin| c@) =~= spec_coins_in(av.take(0)));
    }
    let mut i: usize = 0;
    while i < assets.len()
        invariant
            0 <= i <= assets.len(),
            av == assets@.map_values(|p: (AssetInfo, u128)| (p.0@, p.1)),
            coins@.map_values(|c: Coin| c@) == spec_coins_in(av.take(i as int)),
        decreases assets.len() - i,
    {
        let ghost before = coins@.map_values(|c: Coin| c@);
        match &assets[i].0 {
            AssetInfo::Native(denom) => {
                coins.push(Coin { denom: denom.clone(), amount: assets[i].1 });
                proof {
                    assert(coins@.map_values(|c: Coin| c@) =~= before.push(
                        (CoinV { denom: denom@, amount: assets@[i as int].1 }),
                    ));
                }
            },
            _ => {
            },
        }
        proof {
            lemma_coins_in_snoc(av.take(i as int), av[i as int]);
            assert(av.take(i as int) + seq![av[i as int]] =~= av.take(i as int + 1));
        }
        i = i + 1;
    }
    proof {
        assert(av.take(assets@.len() as int) =~= av);
    }
    coins
}

/// The native coins a batch of resolved assets holds.
pub open spec fn spec_coins_in(assets: Seq<(AssetInfoV, u128)>) -> Seq<CoinV>
    decreases assets.len(),
{
    if assets.len() == 0 {
        Seq::empty()
    } else {
        (match assets[0].0 {
            AssetInfoV::Native(denom) => seq![
                (CoinV { denom: denom, amount: assets[0].1 }),
            ],
            _ => Seq::<CoinV>::empty(),
        }) + spec_coins_in(assets.drop_first())
    }
}

proof fn lemma_coins_in_snoc(s: Seq<(AssetInfoV, u128)>, x: (AssetInfoV, u128))
    ensures
        spec_coins_in(s + seq![x]) == spec_coins_in(s) + (match x.0 {
            AssetInfoV::Native(denom) => seq![(CoinV { denom: denom, amount: x.1 })],
            _ => Seq::<CoinV>::empty(),
        }),
    decreases s.len(),
{
    if s.len() == 0 {
        assert((s + seq![x])[0] == x);
        assert((s + seq![x]).drop_first() =~= Seq::<(AssetInfoV, u128)>::empty());
        assert(spec_coins_in(Seq::<(AssetInfoV, u128)>::empty()) =~= Seq::<CoinV>::empty());
        assert(spec_coins_in(s) =~= Seq::<CoinV>::empty());
        assert(spec_coins_in(s + seq![x]) =~= spec_coins_in(s) + (match x.0 {
            AssetInfoV::Native(denom) => seq![(CoinV { denom: denom, amount: x.1 })],
            _ => Seq::<CoinV>::empty(),
        }));
    } else {
        assert((s + seq![x])[0] == s[0]);
        assert((s + seq![x]).drop_first() =~= s.drop_first() + seq![x]);
        lemma_coins_in_snoc(s.drop_first(), x);
        assert(spec_coins_in(s + seq![x]) =~= spec_coins_in(s) + (match x.0 {
            AssetInfoV::Native(denom) => seq![(CoinV { denom: denom, amount: x.1 })],
            _ => Seq::<CoinV>::empty(),
        }));
    }
}

} // verus!
