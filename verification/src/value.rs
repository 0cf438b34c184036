//! The valuation of tracked assets: a walk of the value-reference graph
//! that converts a held amount step by step into base-asset units. The
//! base asset is worth its amount as it stands; a pool reference converts
//! through the cached oracle price into the pair's other asset; an LP
//! token splits into its share of both reserves; a pegged value scales by
//! its multiplier. The walk carries fuel bounded by the registry size, so
//! a cyclic reference chain is reported, never looped on.
use vstd::prelude::*;

use crate::asset_entry::AssetEntry;
use crate::contract_entry::{ContractEntry, ContractEntryV};
use crate::decimal::{spec_mul_dec, mul_ratio_u128};
use crate::error::ProxyError;
use crate::kv::{assoc_get, lemma_get_means_contains};
use crate::proxy_asset::{spec_deps, ProxyAssetV, ValueRef, ValueRefV};
use crate::state::{AssetRegistry, PriceCache};
use crate::strutil::{split_at_sep, split_once_exact, str_eq};

verus! {

/// The reserves of the two assets under an LP token, and the token's
/// supply, as the caller read them off the pool.
#[derive(Clone, Copy, Debug, PartialEq, Eq, Structural)]
pub struct PooledAssets {
    pub reserve_a: u128,
    pub reserve_b: u128,
    pub total_supply: u128,
}

/// The live inputs a valuation needs beyond the stored state: the
/// contract's held balance per asset, and the pool data under each LP
/// token.
#[derive(Debug)]
pub struct ValuationContext {
    pub balances: Vec<(AssetEntry, u128)>,
    pub pools: Vec<(ContractEntry, PooledAssets)>,
}

impl ValuationContext {
    pub open spec fn balances_v(&self) -> Seq<(Seq<char>, u128)> {
        self.balances@.map_values(|p: (AssetEntry, u128)| (p.0@, p.1))
    }

    pub open spec fn pools_v(&self) -> Seq<(ContractEntryV, PooledAssets)> {
        self.pools@.map_values(|p: (ContractEntry, PooledAssets)| (p.0@, p.1))
    }

    /// The held balance of an asset; an asset never held is zero.
    pub fn balance_of(&self, key: &str) -> (r: u128)
        ensures
            r == spec_balance_of(self.balances_v(), key@),
    {
        let mut i: usize = 0;
        while i < self.balances.len()
            invariant
                0 <= i <= self.balances.len(),
                forall|j: int| 0 <= j < i ==> (#[trigger] self.balances_v()[j]).0 != key@,
            decreases self.balances.len() - i,
        {
            if str_eq(self.balances[i].0.as_str(), key) {
                proof {
                    crate::kv::lemma_get_skip(self.balances_v(), key@, i as int);
                    assert(self.balances_v().skip(i as int)[0] == self.balances_v()[i as int]);
                }
                return self.balances[i].1;
            }
            i = i + 1;
        }
        proof {
            crate::kv::lemma_get_skip(self.balances_v(), key@, self.balances_v().len() as int);
            assert(self.balances_v().skip(self.balances_v().len() as int) =~= Seq::<
                (Seq<char>, u128),
            >::empty());
        }
        0
    }

    /// The pool data under an LP token's pool, if the caller supplied it.
    pub fn pool_of(&self, key: &ContractEntry) -> (r: Option<PooledAssets>)
        ensures
            r == assoc_get(self.pools_v(), key@),
    {
        let mut i: usize = 0;
        while i < self.pools.len()
            invariant
                0 <= i <= self.pools.len(),
                forall|j: int| 0 <= j < i ==> (#[trigger] self.pools_v()[j]).0 != key@,
            decreases self.pools.len() - i,
        {
            if self.pools[i].0.eq_entry(key) {
                proof {
                    crate::kv::lemma_get_skip(self.pools_v(), key@, i as int);
                    assert(self.pools_v().skip(i as int)[0] == self.pools_v()[i as int]);
                    assert(self.pools@[i as int].0@ == key@);
                }
                return Some(self.pools[i].1);
            }
            i = i + 1;
        }
        proof {
            crate::kv::lemma_get_skip(self.pools_v(), key@, self.pools_v().len() as int);
            assert(self.pools_v().skip(self.pools_v().len() as int) =~= Seq::<
                (ContractEntryV, PooledAssets),
            >::empty());
        }
        None
    }
}

/// The held balance an asset key maps to; zero when unlisted.
pub open spec fn spec_balance_of(bal: Seq<(Seq<char>, u128)>, k: Seq<char>) -> u128 {
    match assoc_get(bal, k) {
        Some(a) => a,
        None => 0,
    }
}

/// What `amount` units of the asset under `key` are worth in base-asset
/// units, walking the value-reference chain with the given fuel.
pub open spec fn spec_value(
    reg: Seq<(Seq<char>, ProxyAssetV)>,
    prices: Seq<(ContractEntryV, u128)>,
    bal: Seq<(Seq<char>, u128)>,
    pools: Seq<(ContractEntryV, PooledAssets)>,
    key: Seq<char>,
    amount: u128,
    fuel: nat,
) -> Result<u128, ProxyError>
    decreases fuel,
{
    if fuel == 0 {
        Err(ProxyError::CyclicValueReference)
    } else {
        match assoc_get(reg, key) {
            None => Err(ProxyError::MissingAsset),
            Some(a) => match a.value_reference {
                None => Ok(amount),
                Some(vr) => match spec_deps(vr, a.asset) {
                    Err(e) => Err(e),
                    Ok(ds) => match vr {
                        ValueRefV::Pool { pair } => {
                            match assoc_get(prices, pair) {
                                None => Err(ProxyError::MissingPrice),
                                Some(p) => {
                                    if spec_mul_dec(amount, p) > u128::MAX {
                                        Err(ProxyError::Overflow)
                                    } else {
                                        spec_value(
                                            reg,
                                            prices,
                                            bal,
                                            pools,
                                            ds[0],
                                            spec_mul_dec(amount, p) as u128,
                                            (fuel - 1) as nat,
                                        )
                                    }
                                },
                            }
                        },
                        ValueRefV::LiquidityToken => {
                            let pool_key = ContractEntryV {
                                protocol: split_at_sep(a.asset, '/').0,
                                contract: split_at_sep(a.asset, '/').1,
                            };
                            match assoc_get(pools, pool_key) {
                                None => Err(ProxyError::MissingPoolInfo),
                                Some(pi) => {
                                    if pi.total_supply == 0 {
                                        Err(ProxyError::MissingPoolInfo)
                                    } else {
                                        let sa = (amount as int) * (pi.reserve_a as int) / (
                                        pi.total_supply as int);
                                        let sb = (amount as int) * (pi.reserve_b as int) / (
                                        pi.total_supply as int);
                                        if sa > u128::MAX || sb > u128::MAX {
                                            Err(ProxyError::Overflow)
                                        } else {
                                            match spec_value(
                                                reg,
                                                prices,
                                                bal,
                                                pools,
                                                ds[0],
                                                sa as u128,
                                                (fuel - 1) as nat,
                                            ) {
                                                Err(e) => Err(e),
                                                Ok(va) => match spec_value(
                                                    reg,
                                                    prices,
                                                    bal,
                                                    pools,
                                                    ds[1],
                                                    sb as u128,
                                                    (fuel - 1) as nat,
                                                ) {
                                                    Err(e) => Err(e),
                                                    Ok(vb) => {
                                                        if va + vb > u128::MAX {
                                                            Err(ProxyError::Overflow)
                                                        } else {
                                                            Ok((va + vb) as u128)
                                                        }
                                                    },
                                                },
                                            }
                                        }
                                    }
                                },
                            }
                        },
                        ValueRefV::ValueAs { asset: _, multiplier } => {
                            if spec_mul_dec(amount, multiplier) > u128::MAX {
                                Err(ProxyError::Overflow)
                            } else {
                                spec_value(
                                    reg,
                                    prices,
                                    bal,
                                    pools,
                                    ds[0],
                                    spec_mul_dec(amount, multiplier) as u128,
                                    (fuel - 1) as nat,
                                )
                            }
                        },
                        ValueRefV::External { .. } => Err(ProxyError::ExternalNotImplemented),
                    },
                },
            },
        }
    }
}

/// An asset stored under a well-formed registry key carries that key.
pub proof fn lemma_reg_get_key(reg: Seq<(Seq<char>, ProxyAssetV)>, k: Seq<char>)
    requires
        forall|i: int| 0 <= i < reg.len() ==> (#[trigger] reg[i]).1.asset == reg[i].0,
        assoc_get(reg, k) is Some,
    ensures
        assoc_get(reg, k)->Some_0.asset == k,
{
    lemma_get_means_contains(reg, k);
    let v = assoc_get(reg, k)->Some_0;
    let i = choose|i: int| 0 <= i < reg.len() && reg[i].0 == k && reg[i].1 == v;
}

/// Resolves the value of `amount` units of the asset under `key`,
/// following its value-reference chain.
pub fn resolve_value(
    registry: &AssetRegistry,
    prices: &PriceCache,
    ctx: &ValuationContext,
    key: &str,
    amount: u128,
    fuel: u64,
) -> (r: Result<u128, ProxyError>)
    requires
        registry.wf(),
    ensures
        r == spec_value(
            registry@,
            prices@,
            ctx.balances_v(),
            ctx.pools_v(),
            key@,
            amount,
            fuel as nat,
        ),
    decreases fuel,
{
    if fuel == 0 {
        return Err(ProxyError::CyclicValueReference);
    }
    let asset = match registry.get(key) {
        None => {
            return Err(ProxyError::MissingAsset);
        },
        Some(a) => a,
    };
    proof {
        lemma_reg_get_key(registry@, key@);
        assert(asset@.asset == key@);
    }
    match &asset.value_reference {
        Option::None => Ok(amount),
        Option::Some(vr) => {
            let deps = match crate::proxy_asset::get_value_ref_dependencies(vr, key) {
                Err(e) => {
                    return Err(e);
                },
                Ok(d) => d,
            };
            match vr {
                ValueRef::Pool { pair } => {
                    let price = match prices.get(pair) {
                        None => {
                            return Err(ProxyError::MissingPrice);
                        },
                        Some(p) => p,
                    };
                    let converted = match crate::decimal::mul_dec(amount, price.price) {
                        None => {
                            return Err(ProxyError::Overflow);
                        },
                        Some(c) => c,
                    };
                    proof {
                        assert(spec_deps(vr@, key@) is Ok);
                        assert(spec_deps(vr@, key@)->Ok_0.len() == 1);
                        assert(deps@.map_values(|a: AssetEntry| a@).len() == deps@.len());
                        assert(deps@.len() == 1);
                        assert(deps@.map_values(|a: AssetEntry| a@)[0] == deps@[0]@);
                    }
                    resolve_value(registry, prices, ctx, deps[0].as_str(), converted, fuel - 1)
                },
                ValueRef::LiquidityToken => {
                    let parts = match split_once_exact(key, '/') {
                        None => {
                            proof {
                                assert(false);
                            }
                            return Err(ProxyError::BadEntryFormat);
                        },
                        Some(p) => p,
                    };
                    let pool_key = ContractEntry { protocol: parts.0, contract: parts.1 };
                    let pool = match ctx.pool_of(&pool_key) {
                        None => {
                            return Err(ProxyError::MissingPoolInfo);
                        },
                        Some(p) => p,
                    };
                    if pool.total_supply == 0 {
                        return Err(ProxyError::MissingPoolInfo);
                    }
                    let share_a = match mul_ratio_u128(amount, pool.reserve_a, pool.total_supply) {
                        None => {
                            return Err(ProxyError::Overflow);
                        },
                        Some(s) => s,
                    };
                    let share_b = match mul_ratio_u128(amount, pool.reserve_b, pool.total_supply) {
                        None => {
                            return Err(ProxyError::Overflow);
                        },
                        Some(s) => s,
                    };
                    proof {
                        assert(spec_deps(vr@, key@) is Ok);
                        assert(spec_deps(vr@, key@)->Ok_0.len() == 2);
                        assert(deps@.map_values(|a: AssetEntry| a@).len() == deps@.len());
                        assert(deps@.len() == 2);
                        assert(deps@.map_values(|a: AssetEntry| a@)[0] == deps@[0]@);
                        assert(deps@.map_values(|a: AssetEntry| a@)[1] == deps@[1]@);
                    }
                    let va = match resolve_value(
                        registry,
                        prices,
                        ctx,
                        deps[0].as_str(),
                        share_a,
                        fuel - 1,
                    ) {
                        Err(e) => {
                            return Err(e);
                        },
                        Ok(v) => v,
                    };
                    let vb = match resolve_value(
                        registry,
                        prices,
                        ctx,
                        deps[1].as_str(),
                        share_b,
                        fuel - 1,
                    ) {
                        Err(e) => {
                            return Err(e);
                        },
                        Ok(v) => v,
                    };
                    if va <= u128::MAX - vb {
                        Ok(va + vb)
                    } else {
                        Err(ProxyError::Overflow)
                    }
                },
                ValueRef::ValueAs { asset: _, multiplier } => {
                    let scaled = match crate::decimal::mul_dec(amount, *multiplier) {
                        None => {
                            return Err(ProxyError::Overflow);
                        },
                        Some(s) => s,
                    };
                    proof {
                        assert(spec_deps(vr@, key@) is Ok);
                        assert(spec_deps(vr@, key@)->Ok_0.len() == 1);
                        assert(deps@.map_values(|a: AssetEntry| a@).len() == deps@.len());
                        assert(deps@.len() == 1);
                        assert(deps@.map_values(|a: AssetEntry| a@)[0] == deps@[0]@);
                    }
                    resolve_value(registry, prices, ctx, deps[0].as_str(), scaled, fuel - 1)
                },
                ValueRef::External { .. } => Err(ProxyError::ExternalNotImplemented),
            }
        },
    }
}

/// The value of the contract's full holding of one asset: its live held
/// balance, resolved through the value graph.
pub open spec fn spec_holding_value(
    reg: Seq<(Seq<char>, ProxyAssetV)>,
    prices: Seq<(ContractEntryV, u128)>,
    bal: Seq<(Seq<char>, u128)>,
    pools: Seq<(ContractEntryV, PooledAssets)>,
    key: Seq<char>,
) -> Result<u128, ProxyError> {
    spec_value(reg, prices, bal, pools, key, spec_balance_of(bal, key), reg.len() + 1)
}

/// The value of the full holding of the asset under `asset_entry`.
pub fn compute_holding_value(
    registry: &AssetRegistry,
    prices: &PriceCache,
    ctx: &ValuationContext,
    asset_entry: &str,
) -> (r: Result<u128, ProxyError>)
    requires
        registry.wf(),
        registry@.len() < u64::MAX,
    ensures
        r == spec_holding_value(registry@, prices@, ctx.balances_v(), ctx.pools_v(), asset_entry@),
{
    let balance = ctx.balance_of(asset_entry);
    let fuel = registry.len() as u64 + 1;
    resolve_value(registry, prices, ctx, asset_entry, balance, fuel)
}

/// The total value of the registry's assets up to a prefix: each asset's
/// full holding resolved and summed, stopping at the first failure or at
/// a sum leaving the 128-bit range.
pub open spec fn spec_total_value(
    reg: Seq<(Seq<char>, ProxyAssetV)>,
    prices: Seq<(ContractEntryV, u128)>,
    bal: Seq<(Seq<char>, u128)>,
    pools: Seq<(ContractEntryV, PooledAssets)>,
    s: Seq<(Seq<char>, ProxyAssetV)>,
) -> Result<u128, ProxyError>
    decreases s.len(),
{
    if s.len() == 0 {
        Ok(0u128)
    } else {
        match spec_total_value(reg, prices, bal, pools, s.drop_last()) {
            Err(e) => Err(e),
            Ok(acc) => match spec_holding_value(reg, prices, bal, pools, s.last().0) {
                Err(e) => Err(e),
                Ok(v) => {
                    if acc + v > u128::MAX {
                        Err(ProxyError::Overflow)
                    } else {
                        Ok((acc + v) as u128)
                    }
                },
            },
        }
    }
}

/// The total value locked in the proxy: the sum over every registered
/// asset of the value of its full holding.
pub fn compute_total_value(
    registry: &AssetRegistry,
    prices: &PriceCache,
    ctx: &ValuationContext,
) -> (r: Result<u128, ProxyError>)
    requires
        registry.wf(),
        registry@.len() < u64::MAX,
    ensures
        r == spec_total_value(registry@, prices@, ctx.balances_v(), ctx.pools_v(), registry@),
{
    let ghost reg = registry@;
    let mut total: u128 = 0;
    let n = registry.entries.len();
    proof {
        assert(reg.take(0) =~= Seq::<(Seq<char>, ProxyAssetV)>::empty());
    }
    let mut i: usize = 0;
    while i < n
        invariant
            0 <= i <= n,
            n == reg.len(),
            reg == registry@,
            registry.wf(),
            reg.len() < u64::MAX,
            spec_total_value(reg, prices@, ctx.balances_v(), ctx.pools_v(), reg.take(i as int))
                == Ok::<u128, ProxyError>(total),
        decreases n - i,
    {
        let v = match compute_holding_value(registry, prices, ctx, registry.entries[i].0.as_str()) {
            Err(e) => {
                proof {
                    assert(reg.take(i as int + 1).drop_last() =~= reg.take(i as int));
                    assert(reg.take(i as int + 1).last() == reg[i as int]);
                    assert(reg[i as int].0 == registry.entries@[i as int].0@);
                    lemma_total_error_extends(
                        reg,
                        prices@,
                        ctx.balances_v(),
                        ctx.pools_v(),
                        i as int + 1,
                        reg.len() as int,
                        e,
                    );
                    assert(reg.take(reg.len() as int) =~= reg);
                }
                return Err(e);
            },
            Ok(v) => v,
        };
        proof {
            assert(reg.take(i as int + 1).drop_last() =~= reg.take(i as int));
            assert(reg.take(i as int + 1).last() == reg[i as int]);
            assert(reg[i as int].0 == registry.entries@[i as int].0@);
        }
        if total > u128::MAX - v {
            proof {
                lemma_total_error_extends(
                    reg,
                    prices@,
                    ctx.balances_v(),
                    ctx.pools_v(),
                    i as int + 1,
                    reg.len() as int,
                    ProxyError::Overflow,
                );
                assert(reg.take(reg.len() as int) =~= reg);
            }
            return Err(ProxyError::Overflow);
        }
        total = total + v;
        i = i + 1;
    }
    proof {
        assert(reg.take(n as int) =~= reg);
    }
    Ok(total)
}

/// A failed prefix decides the whole total: errors extend to every longer
/// prefix.
pub proof fn lemma_total_error_extends(
    reg: Seq<(Seq<char>, ProxyAssetV)>,
    prices: Seq<(ContractEntryV, u128)>,
    bal: Seq<(Seq<char>, u128)>,
    pools: Seq<(ContractEntryV, PooledAssets)>,
    m: int,
    m2: int,
    e: ProxyError,
)
    requires
        0 <= m <= m2 <= reg.len(),
        spec_total_value(reg, prices, bal, pools, reg.take(m)) == Err::<u128, ProxyError>(e),
    ensures
        spec_total_value(reg, prices, bal, pools, reg.take(m2)) == Err::<u128, ProxyError>(e),
    decreases m2 - m,
{
    if m < m2 {
        assert(reg.take(m + 1).drop_last() =~= reg.take(m));
        lemma_total_error_extends(reg, prices, bal, pools, m + 1, m2, e);
    } else {
        assert(reg.take(m) =~= reg.take(m2));
    }
}

/// What the sum is a sum of: the per-asset holding values, each of which
/// resolves when the total does.
pub open spec fn spec_value_sum(
    reg: Seq<(Seq<char>, ProxyAssetV)>,
    prices: Seq<(ContractEntryV, u128)>,
    bal: Seq<(Seq<char>, u128)>,
    pools: Seq<(ContractEntryV, PooledAssets)>,
    s: Seq<(Seq<char>, ProxyAssetV)>,
) -> int
    decreases s.len(),
{
    if s.len() == 0 {
        0
    } else {
        spec_value_sum(reg, prices, bal, pools, s.drop_last()) + (match spec_holding_value(
            reg,
            prices,
            bal,
            pools,
            s.last().0,
        ) {
            Ok(v) => v as int,
            Err(_) => 0,
        })
    }
}

/// Law: when the total value resolves, it is exactly the sum of the
/// per-asset holding values, and each of those resolves itself.
pub proof fn lemma_total_value_is_sum(
    reg: Seq<(Seq<char>, ProxyAssetV)>,
    prices: Seq<(ContractEntryV, u128)>,
    bal: Seq<(Seq<char>, u128)>,
    pools: Seq<(ContractEntryV, PooledAssets)>,
    s: Seq<(Seq<char>, ProxyAssetV)>,
    t: u128,
)
    requires
        spec_total_value(reg, prices, bal, pools, s) == Ok::<u128, ProxyError>(t),
    ensures
        t == spec_value_sum(reg, prices, bal, pools, s),
        forall|j: int|
            0 <= j < s.len() ==> spec_holding_value(
                reg,
                prices,
                bal,
                pools,
                (#[trigger] s[j]).0,
            ) is Ok,
    decreases s.len(),
{
    if s.len() > 0 {
        let acc = spec_total_value(reg, prices, bal, pools, s.drop_last())->Ok_0;
        lemma_total_value_is_sum(reg, prices, bal, pools, s.drop_last(), acc);
        assert forall|j: int| 0 <= j < s.len() implies spec_holding_value(
            reg,
            prices,
            bal,
            pools,
            (#[trigger] s[j]).0,
        ) is Ok by {
            if j < s.len() - 1 {
                assert(s.drop_last()[j] == s[j]);
            }
        }
    }
}

/// Law: the base asset's value is its held amount itself — for the full
/// holding, exactly the contract's live balance of that denomination.
pub proof fn lemma_base_asset_value(
    reg: Seq<(Seq<char>, ProxyAssetV)>,
    prices: Seq<(ContractEntryV, u128)>,
    bal: Seq<(Seq<char>, u128)>,
    pools: Seq<(ContractEntryV, PooledAssets)>,
    key: Seq<char>,
)
    requires
        assoc_get(reg, key) is Some,
        assoc_get(reg, key)->Some_0.value_reference is None,
    ensures
        spec_holding_value(reg, prices, bal, pools, key) == Ok::<u128, ProxyError>(
            spec_balance_of(bal, key),
        ),
{
}

} // verus!
