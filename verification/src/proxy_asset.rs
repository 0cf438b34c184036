//! A registry entry: an asset together with the rule its value derives
//! from. A `Pool` reference depends on the other asset of the pair, a
//! liquidity token on both assets under it, a pegged value on the asset it
//! is pegged to; an `External` reference has no valuation protocol yet and
//! always counts as unresolved.
use vstd::prelude::*;

use crate::asset_entry::AssetEntry;
use crate::contract_entry::{ContractEntry, ContractEntryV, UncheckedContractEntry};
use crate::decimal::Decimal;
use crate::error::ProxyError;
use crate::strutil::{count_char, lower_chars, split_at_sep, split_once_exact, str_eq, join3};

verus! {

#[derive(Debug)]
pub enum ValueRef {
    /// Value through a two-asset pool; depends on the pair's other asset.
    Pool { pair: ContractEntry },
    /// Value through both assets under an LP token.
    LiquidityToken,
    /// Value pegged to another asset, scaled by a constant.
    ValueAs { asset: AssetEntry, multiplier: Decimal },
    /// Value delegated to an external valuation contract; unimplemented.
    External { api_name: String },
}

pub enum ValueRefV {
    Pool { pair: ContractEntryV },
    LiquidityToken,
    ValueAs { asset: Seq<char>, multiplier: u128 },
    External { api_name: Seq<char> },
}

impl View for ValueRef {
    type V = ValueRefV;

    open spec fn view(&self) -> ValueRefV {
        match self {
            ValueRef::Pool { pair } => ValueRefV::Pool { pair: pair@ },
            ValueRef::LiquidityToken => ValueRefV::LiquidityToken,
            ValueRef::ValueAs { asset, multiplier } => (ValueRefV::ValueAs {
                asset: asset@,
                multiplier: multiplier.0,
            }),
            ValueRef::External { api_name } => (ValueRefV::External { api_name: api_name@ }),
        }
    }
}

impl Clone for ValueRef {
    fn clone(&self) -> (r: Self)
        ensures
            r@ == self@,
    {
        match self {
            ValueRef::Pool { pair } => ValueRef::Pool { pair: pair.clone() },
            ValueRef::LiquidityToken => ValueRef::LiquidityToken,
            ValueRef::ValueAs { asset, multiplier } => ValueRef::ValueAs {
                asset: asset.clone(),
                multiplier: *multiplier,
            },
            ValueRef::External { api_name } => ValueRef::External { api_name: api_name.clone() },
        }
    }
}

impl PartialEq for ValueRef {
    fn eq(&self, other: &Self) -> (r: bool) {
        match (self, other) {
            (ValueRef::Pool { pair: a }, ValueRef::Pool { pair: b }) => a.eq_entry(b),
            (ValueRef::LiquidityToken, ValueRef::LiquidityToken) => true,
            (
                ValueRef::ValueAs { asset: a, multiplier: m },
                ValueRef::ValueAs { asset: b, multiplier: n },
            ) => a == b && m.0 == n.0,
            (ValueRef::External { api_name: a }, ValueRef::External { api_name: b }) => str_eq(
                a.as_str(),
                b.as_str(),
            ),
            _ => false,
        }
    }
}

impl vstd::std_specs::cmp::PartialEqSpecImpl for ValueRef {
    open spec fn obeys_eq_spec() -> bool {
        true
    }

    open spec fn eq_spec(&self, other: &Self) -> bool {
        self@ == other@
    }
}

impl Eq for ValueRef {

}

#[derive(Debug)]
pub struct ProxyAsset {
    pub asset: AssetEntry,
    pub value_reference: Option<ValueRef>,
}

pub struct ProxyAssetV {
    pub asset: Seq<char>,
    pub value_reference: Option<ValueRefV>,
}

impl View for ProxyAsset {
    type V = ProxyAssetV;

    open spec fn view(&self) -> ProxyAssetV {
        ProxyAssetV {
            asset: self.asset@,
            value_reference: match self.value_reference {
                Some(vr) => Some(vr@),
                None => None,
            },
        }
    }
}

impl Clone for ProxyAsset {
    fn clone(&self) -> (r: Self)
        ensures
            r@ == self@,
    {
        ProxyAsset {
            asset: self.asset.clone(),
            value_reference: match &self.value_reference {
                Some(vr) => Some(vr.clone()),
                None => None,
            },
        }
    }
}

impl PartialEq for ProxyAsset {
    fn eq(&self, other: &Self) -> (r: bool) {
        self.asset == other.asset && match (&self.value_reference, &other.value_reference) {
            (Some(a), Some(b)) => a == b,
            (None, None) => true,
            _ => false,
        }
    }
}

impl vstd::std_specs::cmp::PartialEqSpecImpl for ProxyAsset {
    open spec fn obeys_eq_spec() -> bool {
        true
    }

    open spec fn eq_spec(&self, other: &Self) -> bool {
        self@ == other@
    }
}

impl Eq for ProxyAsset {

}

/// The direct dependencies a value reference draws in, given the key of
/// the asset that carries it, or the validation error for a malformed
/// composite name. An `External` reference never resolves.
pub open spec fn spec_deps(vr: ValueRefV, entry: Seq<char>) -> Result<Seq<Seq<char>>, ProxyError> {
    match vr {
        ValueRefV::Pool { pair } => {
            if count_char(entry, '>') != 1 {
                Err(ProxyError::BadPairFormat)
            } else {
                let chain = split_at_sep(entry, '>').0;
                let name = split_at_sep(entry, '>').1;
                if count_char(pair.contract, '_') != 1 {
                    Err(ProxyError::BadPairFormat)
                } else {
                    let a = split_at_sep(pair.contract, '_').0;
                    let b = split_at_sep(pair.contract, '_').1;
                    if name == a {
                        Ok(seq![chain + seq!['>'] + b])
                    } else if name == b {
                        Ok(seq![chain + seq!['>'] + a])
                    } else {
                        Err(ProxyError::BadPairFormat)
                    }
                }
            }
        },
        ValueRefV::LiquidityToken => {
            if count_char(entry, '/') != 1 {
                Err(ProxyError::BadEntryFormat)
            } else {
                let c = split_at_sep(entry, '/').1;
                if count_char(c, '_') != 1 {
                    Err(ProxyError::BadPairFormat)
                } else {
                    Ok(seq![split_at_sep(c, '_').0, split_at_sep(c, '_').1])
                }
            }
        },
        ValueRefV::ValueAs { asset, .. } => Ok(seq![asset]),
        ValueRefV::External { .. } => Err(ProxyError::ExternalNotImplemented),
    }
}

/// The other asset of the pool an asset trades in: the asset's own key is
/// `chain>name`, the pool's contract name holds both plain names joined
/// with `_`, and the result carries the chain prefix over to the other
/// name.
pub fn other_asset_name(entry: &str, pair_contract: &str) -> (r: Result<String, ProxyError>)
    ensures
        r matches Ok(s) ==> spec_deps(
            (ValueRefV::Pool {
                pair: ContractEntryV { protocol: Seq::empty(), contract: pair_contract@ },
            }),
            entry@,
        ) == Ok::<Seq<Seq<char>>, ProxyError>(seq![s@]),
        r matches Err(e) ==> spec_deps(
            (ValueRefV::Pool {
                pair: ContractEntryV { protocol: Seq::empty(), contract: pair_contract@ },
            }),
            entry@,
        ) == Err::<Seq<Seq<char>>, ProxyError>(e),
{
    let chain_and_name = match split_once_exact(entry, '>') {
        Some(p) => p,
        None => {
            return Err(ProxyError::BadPairFormat);
        },
    };
    let ab = match split_once_exact(pair_contract, '_') {
        Some(p) => p,
        None => {
            return Err(ProxyError::BadPairFormat);
        },
    };
    proof {
        reveal_strlit(">");
        assert(">"@ =~= seq!['>']);
    }
    if str_eq(chain_and_name.1.as_str(), ab.0.as_str()) {
        let joined = join3(chain_and_name.0.as_str(), ">", ab.1.as_str());
        proof {
            assert(joined@ =~= chain_and_name.0@ + seq!['>'] + ab.1@);
        }
        Ok(joined)
    } else if str_eq(chain_and_name.1.as_str(), ab.1.as_str()) {
        let joined = join3(chain_and_name.0.as_str(), ">", ab.0.as_str());
        proof {
            assert(joined@ =~= chain_and_name.0@ + seq!['>'] + ab.0@);
        }
        Ok(joined)
    } else {
        Err(ProxyError::BadPairFormat)
    }
}

/// The two asset names under a pool contract name `asset1_asset2`.
pub fn get_pair_asset_names(contract: &str) -> (r: Result<(String, String), ProxyError>)
    ensures
        r matches Ok(p) ==> count_char(contract@, '_') == 1 && p.0@ == split_at_sep(
            contract@,
            '_',
        ).0 && p.1@ == split_at_sep(contract@, '_').1,
        r is Err <==> count_char(contract@, '_') != 1,
        r is Err ==> r == Err::<(String, String), ProxyError>(ProxyError::BadPairFormat),
{
    match split_once_exact(contract, '_') {
        Some(p) => Ok(p),
        None => Err(ProxyError::BadPairFormat),
    }
}

/// The direct dependencies of a value reference, as keys to look up.
pub fn get_value_ref_dependencies(value_reference: &ValueRef, entry: &str) -> (r: Result<
    Vec<AssetEntry>,
    ProxyError,
>)
    ensures
        r matches Ok(v) ==> spec_deps(value_reference@, entry@) matches Ok(d) && v@.map_values(
            |a: AssetEntry| a@,
        ) == d,
        r matches Err(e) ==> spec_deps(value_reference@, entry@) == Err::<
            Seq<Seq<char>>,
            ProxyError,
        >(e),
{
    match value_reference {
        ValueRef::Pool { pair } => {
            let other = match other_asset_name(entry, pair.contract.as_str()) {
                Ok(o) => o,
                Err(e) => {
                    return Err(e);
                },
            };
            let mut v: Vec<AssetEntry> = Vec::new();
            v.push(AssetEntry::raw(other));
            proof {
                assert(v@.map_values(|a: AssetEntry| a@) =~= spec_deps(
                    value_reference@,
                    entry@,
                )->Ok_0);
            }
            Ok(v)
        },
        ValueRef::LiquidityToken => {
            let parts = match split_once_exact(entry, '/') {
                Some(p) => p,
                None => {
                    return Err(ProxyError::BadEntryFormat);
                },
            };
            let names = match get_pair_asset_names(parts.1.as_str()) {
                Ok(n) => n,
                Err(e) => {
                    return Err(e);
                },
            };
            let mut v: Vec<AssetEntry> = Vec::new();
            v.push(AssetEntry::raw(names.0));
            v.push(AssetEntry::raw(names.1));
            proof {
                assert(v@.map_values(|a: AssetEntry| a@) =~= spec_deps(
                    value_reference@,
                    entry@,
                )->Ok_0);
            }
            Ok(v)
        },
        ValueRef::ValueAs { asset, .. } => {
            let mut v: Vec<AssetEntry> = Vec::new();
            v.push(asset.clone());
            proof {
                assert(v@.map_values(|a: AssetEntry| a@) =~= spec_deps(
                    value_reference@,
                    entry@,
                )->Ok_0);
            }
            Ok(v)
        },
        ValueRef::External { .. } => Err(ProxyError::ExternalNotImplemented),
    }
}

#[derive(Debug)]
pub enum UncheckedValueRef {
    Pool { pair: String },
    LiquidityToken,
    ValueAs { asset: String, multiplier: Decimal },
    External { api_name: String },
}

#[derive(Debug)]
pub struct UncheckedProxyAsset {
    pub asset: String,
    pub value_reference: Option<UncheckedValueRef>,
}

/// Whether the written form of an asset passes the format check: a `Pool`
/// reference must name its pair as `protocol/contract_name`.
pub open spec fn check_ok(u: &UncheckedProxyAsset) -> bool {
    match u.value_reference {
        Some(UncheckedValueRef::Pool { pair }) => count_char(pair@, '/') == 1,
        _ => true,
    }
}

/// The checked image of a written asset: every identifier case-folded, the
/// pair name split into its checked entry.
pub open spec fn checked_of(u: &UncheckedProxyAsset) -> ProxyAssetV {
    ProxyAssetV {
        asset: lower_chars(u.asset@),
        value_reference: match u.value_reference {
            None => None,
            Some(UncheckedValueRef::Pool { pair }) => Some(
                (ValueRefV::Pool {
                    pair: ContractEntryV {
                        protocol: lower_chars(split_at_sep(pair@, '/').0),
                        contract: lower_chars(split_at_sep(pair@, '/').1),
                    },
                }),
            ),
            Some(UncheckedValueRef::LiquidityToken) => Some(ValueRefV::LiquidityToken),
            Some(UncheckedValueRef::ValueAs { asset, multiplier }) => Some(
                (ValueRefV::ValueAs { asset: lower_chars(asset@), multiplier: multiplier.0 }),
            ),
            Some(UncheckedValueRef::External { api_name }) => Some(
                (ValueRefV::External { api_name: api_name@ }),
            ),
        },
    }
}

impl UncheckedProxyAsset {
    /// Normalizes the written form; a malformed pair name is refused.
    pub fn check(self) -> (r: Result<ProxyAsset, ProxyError>)
        ensures
            r is Ok <==> check_ok(&self),
            r matches Ok(p) ==> p@ == checked_of(&self),
            r is Err ==> r == Err::<ProxyAsset, ProxyError>(ProxyError::BadEntryFormat),
    {
        let asset = AssetEntry::new(self.asset.as_str());
        match self.value_reference {
            None => Ok(ProxyAsset { asset, value_reference: None }),
            Some(UncheckedValueRef::Pool { pair }) => {
                let unchecked = match UncheckedContractEntry::try_from(pair.as_str()) {
                    Ok(u) => u,
                    Err(e) => {
                        return Err(e);
                    },
                };
                let entry = unchecked.check();
                Ok(ProxyAsset { asset, value_reference: Some(ValueRef::Pool { pair: entry }) })
            },
            Some(UncheckedValueRef::LiquidityToken) => Ok(
                ProxyAsset { asset, value_reference: Some(ValueRef::LiquidityToken) },
            ),
            Some(UncheckedValueRef::ValueAs { asset: peg, multiplier }) => Ok(
                ProxyAsset {
                    asset,
                    value_reference: Some(
                        ValueRef::ValueAs { asset: AssetEntry::new(peg.as_str()), multiplier },
                    ),
                },
            ),
            Some(UncheckedValueRef::External { api_name }) => Ok(
                ProxyAsset { asset, value_reference: Some(ValueRef::External { api_name }) },
            ),
        }
    }
}

} // verus!
