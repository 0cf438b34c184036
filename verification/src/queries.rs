//! The read surface of the proxy, and the value-graph validity check: one
//! pass over the registry that classifies every asset as resolvable or
//! unresolvable and collects the referenced keys that are absent. The
//! report is advisory; enforcing mutations consult it and reject a change
//! that leaves it non-clean.
use vstd::prelude::*;

use crate::asset_entry::AssetEntry;
use crate::error::ProxyError;
use crate::kv::{assoc_contains, assoc_get, assoc_after, lemma_after_is_suffix};
use crate::msg::{AssetsResponse, ConfigResponse, ValidityResponse};
use crate::proxy_asset::{spec_deps, ProxyAsset, ProxyAssetV};
use crate::state::{key_lt, lemma_key_lt_total, AssetRegistry, State};
use crate::strutil::{lemma_lex_lt_irreflexive, lex_lt, str_eq};

verus! {

/// Page size when the caller names none.
pub const DEFAULT_LIMIT: u8 = 5;

/// Largest page a caller may ask for.
pub const MAX_LIMIT: u8 = 20;

/// Whether a registry entry is the base asset: it carries no value
/// reference.
pub open spec fn is_base(p: (Seq<char>, ProxyAssetV)) -> bool {
    p.1.value_reference is None
}

/// How many entries carry no value reference.
pub open spec fn base_count(reg: Seq<(Seq<char>, ProxyAssetV)>) -> nat
    decreases reg.len(),
{
    if reg.len() == 0 {
        0
    } else {
        (if is_base(reg[0]) {
            1nat
        } else {
            0nat
        }) + base_count(reg.drop_first())
    }
}

/// The base count splits over any cut of the registry.
pub proof fn lemma_base_count_parts(reg: Seq<(Seq<char>, ProxyAssetV)>, m: int)
    requires
        0 <= m <= reg.len(),
    ensures
        base_count(reg) == base_count(reg.take(m)) + base_count(reg.skip(m)),
    decreases m,
{
    if m == 0 {
        assert(reg.take(0) =~= Seq::<(Seq<char>, ProxyAssetV)>::empty());
        assert(reg.skip(0) =~= reg);
    } else {
        assert(reg.take(m)[0] == reg[0]);
        assert(reg.take(m).drop_first() =~= reg.drop_first().take(m - 1));
        assert(reg.skip(m) =~= reg.drop_first().skip(m - 1));
        lemma_base_count_parts(reg.drop_first(), m - 1);
    }
}

/// One more entry moves the base count by whether it is a base.
pub proof fn lemma_base_count_step(reg: Seq<(Seq<char>, ProxyAssetV)>, i: int)
    requires
        0 <= i < reg.len(),
    ensures
        base_count(reg.take(i + 1)) == base_count(reg.take(i)) + (if is_base(reg[i]) {
            1nat
        } else {
            0nat
        }),
{
    lemma_base_count_parts(reg.take(i + 1), i);
    assert(reg.take(i + 1).take(i) =~= reg.take(i));
    assert(reg.take(i + 1).skip(i) =~= seq![reg[i]]);
    assert(seq![reg[i]].drop_first() =~= Seq::<(Seq<char>, ProxyAssetV)>::empty());
    assert(seq![reg[i]][0] == reg[i]);
    assert(seq![reg[i]].len() == 1);
    assert(base_count(Seq::<(Seq<char>, ProxyAssetV)>::empty()) == 0);
    assert(base_count(seq![reg[i]].drop_first()) == 0);
    assert(base_count(seq![reg[i]]) == if is_base(reg[i]) {
        1nat
    } else {
        0nat
    });
}

/// Whether an asset cannot resolve: its dependencies cannot be computed
/// (an `External` reference or a malformed composite name), or one of
/// them is absent from the registry. The base asset always resolves.
pub open spec fn spec_unresolvable(reg: Seq<(Seq<char>, ProxyAssetV)>, a: ProxyAssetV) -> bool {
    match a.value_reference {
        None => false,
        Some(vr) => match spec_deps(vr, a.asset) {
            Ok(ds) => exists|i: int| 0 <= i < ds.len() && !assoc_contains(reg, #[trigger] ds[i]),
            Err(_) => true,
        },
    }
}

/// Whether `d` is a direct dependency of the asset.
pub open spec fn dep_of(a: ProxyAssetV, d: Seq<char>) -> bool {
    match a.value_reference {
        Some(vr) => match spec_deps(vr, a.asset) {
            Ok(ds) => ds.contains(d),
            Err(_) => false,
        },
        None => false,
    }
}

/// Whether `d` is referenced by some registered asset but absent itself.
pub open spec fn spec_missing(reg: Seq<(Seq<char>, ProxyAssetV)>, d: Seq<char>) -> bool {
    !assoc_contains(reg, d) && exists|i: int| 0 <= i < reg.len() && dep_of((#[trigger] reg[i]).1, d)
}

/// The character sequences a list of identifiers holds.
pub open spec fn key_seq(v: Seq<AssetEntry>) -> Seq<Seq<char>> {
    v.map_values(|a: AssetEntry| a@)
}

/// The keys an optional list of identifiers holds.
pub open spec fn opt_keys(o: &Option<Vec<AssetEntry>>) -> Seq<Seq<char>> {
    match o {
        Some(v) => key_seq(v@),
        None => Seq::empty(),
    }
}

/// A pushed element joins the members, and nothing else does.
pub proof fn lemma_push_contains<A>(s: Seq<A>, x: A, y: A)
    ensures
        s.push(x).contains(y) <==> s.contains(y) || y == x,
{
    if s.push(x).contains(y) {
        let i = choose|i: int| 0 <= i < s.push(x).len() && s.push(x)[i] == y;
        if i < s.len() {
            assert(s[i] == y);
        }
    }
    if s.contains(y) {
        let i = choose|i: int| 0 <= i < s.len() && s[i] == y;
        assert(s.push(x)[i] == y);
    }
    assert(s.push(x)[s.len() as int] == x);
}

/// Whether the list already names `s`.
fn contains_key(v: &Vec<AssetEntry>, s: &str) -> (r: bool)
    ensures
        r == v@.map_values(|a: AssetEntry| a@).contains(s@),
{
    let keys = v;
    let mut i: usize = 0;
    while i < keys.len()
        invariant
            0 <= i <= keys.len(),
            forall|j: int| 0 <= j < i ==> (#[trigger] keys@[j])@ != s@,
        decreases keys.len() - i,
    {
        if str_eq(keys[i].as_str(), s) {
            assert(v@.map_values(|a: AssetEntry| a@)[i as int] == s@);
            return true;
        }
        i = i + 1;
    }
    proof {
        let m = v@.map_values(|a: AssetEntry| a@);
        if m.contains(s@) {
            let j = choose|j: int| 0 <= j < m.len() && #[trigger] m[j] == s@;
            assert(v@[j]@ == s@);
            assert(false);
        }
    }
    false
}

/// Loads a dependency from the registry; a key that is not there is
/// recorded once in the missing list instead.
pub fn try_load_asset(
    registry: &AssetRegistry,
    missing_assets: &mut Vec<AssetEntry>,
    key: &AssetEntry,
) -> (r: Option<ProxyAsset>)
    ensures
        r is Some <==> assoc_contains(registry@, key@),
        r matches Some(p) ==> assoc_get(registry@, key@) == Some(p@),
        assoc_contains(registry@, key@) ==> final(missing_assets)@ == old(missing_assets)@,
        !assoc_contains(registry@, key@) ==> final(missing_assets)@.map_values(|a: AssetEntry| a@)
            == if old(missing_assets)@.map_values(|a: AssetEntry| a@).contains(key@) {
            old(missing_assets)@.map_values(|a: AssetEntry| a@)
        } else {
            old(missing_assets)@.map_values(|a: AssetEntry| a@).push(key@)
        },
{
    match registry.get(key.as_str()) {
        Some(asset) => Some(asset.clone()),
        None => {
            if !contains_key(missing_assets, key.as_str()) {
                missing_assets.push(key.clone());
                proof {
                    assert(final(missing_assets)@.map_values(|a: AssetEntry| a@) =~= old(
                        missing_assets,
                    )@.map_values(|a: AssetEntry| a@).push(key@));
                }
            }
            None
        },
    }
}

/// Walks the whole registry once and reports, for the registry as it
/// stands: the assets whose value derivation cannot resolve, and the
/// referenced keys that are absent. Exactly one asset may carry no value
/// reference; a second one is a hard error.
pub fn query_proxy_asset_validity(registry: &AssetRegistry) -> (r: Result<
    ValidityResponse,
    ProxyError,
>)
    requires
        registry.wf(),
    ensures
        r is Err <==> base_count(registry@) >= 2,
        r is Err ==> r == Err::<ValidityResponse, ProxyError>(ProxyError::MultipleBaseAssets),
        r matches Ok(resp) ==> (forall|k: Seq<char>|
            #[trigger] opt_keys(&resp.unresolvable_assets).contains(k) <==> (exists|j: int|
                0 <= j < registry@.len() && (#[trigger] registry@[j]).0 == k && spec_unresolvable(
                    registry@,
                    registry@[j].1,
                ))),
        r matches Ok(resp) ==> (forall|d: Seq<char>|
            #[trigger] opt_keys(&resp.missing_dependencies).contains(d) <==> spec_missing(
                registry@,
                d,
            )),
        r matches Ok(resp) ==> ((resp.unresolvable_assets is Some) <==> exists|j: int|
            0 <= j < registry@.len() && spec_unresolvable(registry@, (#[trigger] registry@[j]).1)),
        r matches Ok(resp) ==> ((resp.missing_dependencies is Some) <==> exists|d: Seq<char>|
            #[trigger] spec_missing(registry@, d)),
{
    let ghost reg = registry@;
    let mut unresolvable_assets: Vec<AssetEntry> = Vec::new();
    let mut missing_assets: Vec<AssetEntry> = Vec::new();
    let mut base_found = false;
    let n = registry.entries.len();
    proof {
        assert(reg.take(0) =~= Seq::<(Seq<char>, ProxyAssetV)>::empty());
        assert(key_seq(unresolvable_assets@) =~= Seq::<Seq<char>>::empty());
        assert(key_seq(missing_assets@) =~= Seq::<Seq<char>>::empty());
    }
    let mut i: usize = 0;
    while i < n
        invariant
            0 <= i <= n,
            n == reg.len(),
            reg == registry@,
            registry.wf(),
            base_count(reg.take(i as int)) == (if base_found {
                1nat
            } else {
                0nat
            }),
            forall|k: Seq<char>|
                #[trigger] key_seq(unresolvable_assets@).contains(k) <==> (
                exists|j: int|
                    0 <= j < i && (#[trigger] reg[j]).0 == k && spec_unresolvable(reg, reg[j].1)),
            forall|d: Seq<char>|
                #[trigger] key_seq(missing_assets@).contains(d) <==> (
                !assoc_contains(reg, d) && exists|j: int|
                    0 <= j < i && dep_of((#[trigger] reg[j]).1, d)),
        decreases n - i,
    {
        let ghost key_i = reg[i as int].0;
        let ghost asset_i = reg[i as int].1;
        proof {
            lemma_base_count_step(reg, i as int);
            assert(asset_i.asset == key_i);
            assert forall|j: int| 0 <= j < i implies (#[trigger] reg[j]).0 != key_i by {
                assert(lex_lt(reg[j].0, reg[i as int].0));
                if reg[j].0 == key_i {
                    lemma_lex_lt_irreflexive(key_i);
                }
            }
        }
        match &registry.entries[i].1.value_reference {
            Option::None => {
                if base_found {
                    proof {
                        lemma_base_count_parts(reg, i as int + 1);
                    }
                    return Err(ProxyError::MultipleBaseAssets);
                }
                base_found = true;
            },
            Option::Some(vr) => {
                let ghost old_un = key_seq(unresolvable_assets@);
                match crate::proxy_asset::get_value_ref_dependencies(
                    vr,
                    registry.entries[i].0.as_str(),
                ) {
                    Result::Err(_) => {
                        proof {
                            assert(spec_unresolvable(reg, asset_i));
                        }
                        unresolvable_assets.push(registry.entries[i].0.clone());
                        proof {
                            assert(key_seq(unresolvable_assets@) =~= old_un.push(
                                key_i,
                            ));
                            assert forall|k: Seq<char>|
                                #[trigger] old_un.push(key_i).contains(k) <==> (exists|j: int|
                                    0 <= j < i + 1 && (#[trigger] reg[j]).0 == k
                                        && spec_unresolvable(reg, reg[j].1)) by {
                                lemma_push_contains(old_un, key_i, k);
                            }
                        }
                    },
                    Result::Ok(deps) => {
                        let ghost ds = spec_deps(vr@, key_i)->Ok_0;
                        proof {
                            assert(deps@.map_values(|a: AssetEntry| a@) == ds);
                        }
                        let mut flagged = false;
                        let mut t: usize = 0;
                        while t < deps.len()
                            invariant
                                0 <= t <= deps.len(),
                                reg == registry@,
                                registry.wf(),
                                ds == deps@.map_values(|a: AssetEntry| a@),
                                asset_i == reg[i as int].1,
                                key_i == reg[i as int].0,
                                i < n == reg.len(),
                                asset_i.value_reference matches Some(vrr) && spec_deps(vrr, key_i)
                                    == Ok::<Seq<Seq<char>>, ProxyError>(ds),
                                forall|j: int| 0 <= j < i ==> (#[trigger] reg[j]).0 != key_i,
                                flagged == exists|u: int|
                                    0 <= u < t && !assoc_contains(reg, #[trigger] ds[u]),
                                forall|k: Seq<char>|
                                    #[trigger] key_seq(unresolvable_assets@).contains(k) <==> ((exists|j: int|
                                        0 <= j < i && (#[trigger] reg[j]).0 == k
                                            && spec_unresolvable(reg, reg[j].1)) || (flagged && k
                                        == key_i)),
                                forall|d: Seq<char>|
                                    #[trigger] key_seq(missing_assets@).contains(d) <==> (!assoc_contains(reg, d) && ((exists|j: int|
                                        0 <= j < i && dep_of((#[trigger] reg[j]).1, d)) || (exists|
                                        u: int,
                                    |
                                        0 <= u < t && ds[u] == d))),
                            decreases deps.len() - t,
                        {
                            let ghost old_un2 = key_seq(unresolvable_assets@);
                            let ghost old_mi2 = key_seq(missing_assets@);
                            let loaded = try_load_asset(registry, &mut missing_assets, &deps[t]);
                            if loaded.is_none() {
                                proof {
                                    assert(ds[t as int] == deps@[t as int]@);
                                    assert(!assoc_contains(reg, ds[t as int]));
                                    assert forall|d: Seq<char>|
                                        #[trigger] key_seq(missing_assets@).contains(d) <==> (!assoc_contains(reg, d) && ((exists|
                                            j: int,
                                        |
                                            0 <= j < i && dep_of((#[trigger] reg[j]).1, d)) || (
                                            exists|u: int| 0 <= u < t + 1 && ds[u] == d))) by {
                                        if old_mi2.contains(ds[t as int]) {
                                            assert(key_seq(missing_assets@) == old_mi2);
                                        } else {
                                            lemma_push_contains(old_mi2, ds[t as int], d);
                                        }
                                    }
                                }
                                if !flagged {
                                    unresolvable_assets.push(registry.entries[i].0.clone());
                                    flagged = true;
                                    proof {
                                        assert(key_seq(unresolvable_assets@) =~= old_un2.push(key_i));
                                        assert forall|k: Seq<char>|
                                            #[trigger] old_un2.push(key_i).contains(k) <==> (
                                            old_un2.contains(k) || k == key_i) by {
                                            lemma_push_contains(old_un2, key_i, k);
                                        }
                                    }
                                }
                            } else {
                                proof {
                                    assert(assoc_contains(reg, ds[t as int]));
                                    assert forall|d: Seq<char>|
                                        #[trigger] key_seq(missing_assets@).contains(d) <==> (!assoc_contains(reg, d) && ((exists|
                                            j: int,
                                        |
                                            0 <= j < i && dep_of((#[trigger] reg[j]).1, d)) || (
                                            exists|u: int| 0 <= u < t + 1 && ds[u] == d))) by {
                                        if !assoc_contains(reg, d) && (exists|u: int|
                                            0 <= u < t + 1 && ds[u] == d) {
                                            let u = choose|u: int| 0 <= u < t + 1 && ds[u] == d;
                                            assert(u < t);
                                        }
                                    }
                                }
                            }
                            t = t + 1;
                        }
                        proof {
                            assert(flagged == spec_unresolvable(reg, asset_i)) by {
                                if spec_unresolvable(reg, asset_i) {
                                    let u = choose|u: int|
                                        0 <= u < ds.len() && !assoc_contains(reg, ds[u]);
                                    assert(0 <= u < deps@.len() && !assoc_contains(
                                        reg,
                                        ds[u],
                                    ));
                                }
                            }
                            assert forall|d: Seq<char>|
                                #[trigger] key_seq(missing_assets@).contains(d) <==> (!assoc_contains(reg, d) && ((exists|j: int|
                                    0 <= j < i + 1 && dep_of((#[trigger] reg[j]).1, d)))) by {
                                if !assoc_contains(reg, d) && (exists|j: int|
                                    0 <= j < i + 1 && dep_of(#[trigger] reg[j].1, d)) {
                                    let j = choose|j: int| 0 <= j < i + 1 && dep_of(reg[j].1, d);
                                    if j == i {
                                        assert(ds.contains(d));
                                    }
                                }
                            }
                            assert forall|k: Seq<char>|
                                #[trigger] key_seq(unresolvable_assets@).contains(k) <==> (exists|
                                j: int,
                            |
                                0 <= j < i + 1 && (#[trigger] reg[j]).0 == k && spec_unresolvable(
                                    reg,
                                    reg[j].1,
                                )) by {}
                        }
                    },
                }
            },
        }
        i = i + 1;
    }
    proof {
        assert(reg.take(n as int) =~= reg);
    }
    let ghost un_keys = key_seq(unresolvable_assets@);
    let ghost mi_keys = key_seq(missing_assets@);
    proof {
        assert(un_keys.len() == unresolvable_assets@.len());
        assert(mi_keys.len() == missing_assets@.len());
    }
    let unresolvable_assets_resp = if unresolvable_assets.len() == 0 {
        Option::None
    } else {
        Option::Some(unresolvable_assets)
    };
    let missing_assets_resp = if missing_assets.len() == 0 {
        Option::None
    } else {
        Option::Some(missing_assets)
    };
    let resp = ValidityResponse {
        unresolvable_assets: unresolvable_assets_resp,
        missing_dependencies: missing_assets_resp,
    };
    proof {
        assert(opt_keys(&resp.unresolvable_assets) =~= un_keys);
        assert(opt_keys(&resp.missing_dependencies) =~= mi_keys);
        assert forall|k: Seq<char>| #[trigger] opt_keys(&resp.unresolvable_assets).contains(k)
            <==> (exists|j: int|
            0 <= j < reg.len() && (#[trigger] reg[j]).0 == k && spec_unresolvable(
                reg,
                reg[j].1,
            )) by {
            assert(opt_keys(&resp.unresolvable_assets).contains(k) == key_seq(
                unresolvable_assets@,
            ).contains(k));
        }
        assert forall|d: Seq<char>| #[trigger] opt_keys(&resp.missing_dependencies).contains(d)
            <==> spec_missing(reg, d) by {
            assert(opt_keys(&resp.missing_dependencies).contains(d) == key_seq(
                missing_assets@,
            ).contains(d));
        }
        assert((resp.unresolvable_assets is Some) <==> (exists|j: int|
            0 <= j < reg.len() && spec_unresolvable(reg, (#[trigger] reg[j]).1))) by {
            if resp.unresolvable_assets is Some {
                assert(un_keys.len() > 0);
                assert(opt_keys(&resp.unresolvable_assets).contains(un_keys[0]));
            }
            if exists|j: int| 0 <= j < reg.len() && spec_unresolvable(reg, (#[trigger] reg[j]).1) {
                let j = choose|j: int|
                    0 <= j < reg.len() && spec_unresolvable(reg, (#[trigger] reg[j]).1);
                assert(opt_keys(&resp.unresolvable_assets).contains(reg[j].0));
                assert(opt_keys(&resp.unresolvable_assets).len() > 0);
            }
        }
        assert((resp.missing_dependencies is Some) <==> (exists|d: Seq<char>|
            #[trigger] spec_missing(reg, d))) by {
            if resp.missing_dependencies is Some {
                assert(mi_keys.len() > 0);
                assert(opt_keys(&resp.missing_dependencies).contains(mi_keys[0]));
            }
            if exists|d: Seq<char>| #[trigger] spec_missing(reg, d) {
                let d = choose|d: Seq<char>| #[trigger] spec_missing(reg, d);
                assert(opt_keys(&resp.missing_dependencies).contains(d));
                assert(opt_keys(&resp.missing_dependencies).len() > 0);
            }
        }
    }
    Ok(resp)
}

/// The whitelisted modules, as plain addresses.
pub fn query_config(state: &State) -> (r: ConfigResponse)
    ensures
        r.modules@.map_values(|m: String| m@) == state.modules@.map_values(|m: String| m@),
{
    let cloned = state.clone();
    ConfigResponse { modules: cloned.modules }
}

/// One page of the registry in ascending key order: the entries past the
/// page token, capped at the requested size (five when unnamed, twenty at
/// most).
pub fn query_proxy_assets(
    registry: &AssetRegistry,
    last_asset_name: Option<&String>,
    limit: Option<u8>,
) -> (r: AssetsResponse)
    requires
        registry.wf(),
    ensures
        ({
            let lim = (match limit {
                Some(l) => if l < MAX_LIMIT {
                    l
                } else {
                    MAX_LIMIT
                },
                None => DEFAULT_LIMIT,
            }) as int;
            let avail = match last_asset_name {
                Some(t) => assoc_after(registry@, t@, key_lt()),
                None => registry@,
            };
            r.assets@.map_values(|p: (AssetEntry, ProxyAsset)| (p.0@, p.1@)) == avail.take(
                if lim < avail.len() {
                    lim
                } else {
                    avail.len() as int
                },
            )
        }),
{
    let lim_u8 = match limit {
        Some(l) => if l < MAX_LIMIT {
            l
        } else {
            MAX_LIMIT
        },
        None => DEFAULT_LIMIT,
    };
    let lim = lim_u8 as usize;
    let ghost reg = registry@;
    let n = registry.entries.len();
    let mut j: usize = 0;
    match last_asset_name {
        Option::Some(token) => {
            while j < n && !crate::strutil::str_lt(token.as_str(), registry.entries[j].0.as_str())
                invariant
                    0 <= j <= n,
                    n == reg.len(),
                    reg == registry@,
                    registry.wf(),
                    forall|x: int| 0 <= x < j ==> !lex_lt(token@, (#[trigger] reg[x]).0),
                decreases n - j,
            {
                proof {
                    assert(reg[j as int].0 == registry.entries@[j as int].0@);
                }
                j = j + 1;
            }
            proof {
                lemma_key_lt_total();
                lemma_after_is_suffix(reg, token@, key_lt(), j as int);
            }
        },
        Option::None => {
            proof {
                assert(reg.skip(0) =~= reg);
            }
        },
    }
    let ghost avail = reg.skip(j as int);
    let mut out: Vec<(AssetEntry, ProxyAsset)> = Vec::new();
    let mut taken: usize = 0;
    while taken < lim && j + taken < n
        invariant
            0 <= taken,
            taken <= lim,
            j + taken <= n,
            n == reg.len(),
            reg == registry@,
            avail == reg.skip(j as int),
            out@.len() == taken,
            forall|x: int|
                0 <= x < taken ==> (#[trigger] out@[x]).0@ == avail[x].0 && out@[x].1@
                    == avail[x].1,
        decreases lim - taken,
    {
        let pair = (registry.entries[j + taken].0.clone(), registry.entries[j + taken].1.clone());
        out.push(pair);
        taken = taken + 1;
    }
    proof {
        let lim_i = lim as int;
        let cap = if lim_i < avail.len() {
            lim_i
        } else {
            avail.len() as int
        };
        assert(out@.len() == cap);
        assert(out@.map_values(|p: (AssetEntry, ProxyAsset)| (p.0@, p.1@)) =~= avail.take(cap));
    }
    AssetsResponse { assets: out }
}

/// The one asset without a value reference; an error unless exactly one
/// is registered.
pub fn query_base_asset(registry: &AssetRegistry) -> (r: Result<ProxyAsset, ProxyError>)
    requires
        registry.wf(),
    ensures
        r is Ok <==> base_count(registry@) == 1,
        r matches Ok(p) ==> (exists|j: int|
            0 <= j < registry@.len() && (#[trigger] registry@[j]).1 == p@ && is_base(
                registry@[j],
            )),
        r is Err ==> r == Err::<ProxyAsset, ProxyError>(ProxyError::NoBaseAsset),
{
    let ghost reg = registry@;
    let n = registry.entries.len();
    let mut found: Option<usize> = None;
    proof {
        assert(reg.take(0) =~= Seq::<(Seq<char>, ProxyAssetV)>::empty());
    }
    let mut i: usize = 0;
    while i < n
        invariant
            0 <= i <= n,
            n == reg.len(),
            reg == registry@,
            match found {
                Some(b) => b < i && is_base(reg[b as int]) && base_count(reg.take(i as int)) == 1,
                None => base_count(reg.take(i as int)) == 0,
            },
        decreases n - i,
    {
        proof {
            lemma_base_count_step(reg, i as int);
        }
        if registry.entries[i].1.value_reference.is_none() {
            match found {
                Option::Some(_) => {
                    proof {
                        lemma_base_count_parts(reg, i as int + 1);
                    }
                    return Err(ProxyError::NoBaseAsset);
                },
                Option::None => {
                    found = Some(i);
                },
            }
        }
        i = i + 1;
    }
    proof {
        assert(reg.take(n as int) =~= reg);
    }
    match found {
        Option::Some(b) => Ok(registry.entries[b].1.clone()),
        Option::None => Err(ProxyError::NoBaseAsset),
    }
}


/// Law: in a registry where no asset is unresolvable, no referenced key
/// is missing either — with exactly one base asset, the validity report
/// is clean on both counts.
pub proof fn lemma_resolvable_registry_is_clean(reg: Seq<(Seq<char>, ProxyAssetV)>)
    requires
        forall|j: int| 0 <= j < reg.len() ==> !spec_unresolvable(reg, (#[trigger] reg[j]).1),
    ensures
        forall|d: Seq<char>| !#[trigger] spec_missing(reg, d),
{
    assert forall|d: Seq<char>| !#[trigger] spec_missing(reg, d) by {
        if spec_missing(reg, d) {
            let i = choose|i: int| 0 <= i < reg.len() && dep_of((#[trigger] reg[i]).1, d);
            assert(spec_unresolvable(reg, reg[i].1)) by {
                let vr = reg[i].1.value_reference->0;
                let ds = spec_deps(vr, reg[i].1.asset)->Ok_0;
                let u = choose|u: int| 0 <= u < ds.len() && ds[u] == d;
                assert(!crate::kv::assoc_contains(reg, ds[u]));
            }
        }
    }
}


/// Law: an asset whose referenced dependency key is absent from the
/// registry is unresolvable, and that key is missing — the report lists
/// both.
pub proof fn lemma_absent_dependency_reported(
    reg: Seq<(Seq<char>, ProxyAssetV)>,
    j: int,
    d: Seq<char>,
)
    requires
        0 <= j < reg.len(),
        dep_of(reg[j].1, d),
        !assoc_contains(reg, d),
    ensures
        spec_unresolvable(reg, reg[j].1),
        spec_missing(reg, d),
{
    let vr = reg[j].1.value_reference->0;
    let ds = spec_deps(vr, reg[j].1.asset)->Ok_0;
    let u = choose|u: int| 0 <= u < ds.len() && ds[u] == d;
    assert(!assoc_contains(reg, ds[u]));
}

/// Law: storing a second asset without a value reference under a fresh
/// key pushes the base count to two, which the validity check and the
/// enforcing mutation refuse.
pub proof fn lemma_second_base_refused(reg: Seq<(Seq<char>, ProxyAssetV)>, a: ProxyAssetV)
    requires
        crate::kv::total_order(key_lt()),
        crate::kv::strict_sorted(reg, key_lt()),
        base_count(reg) == 1,
        a.value_reference is None,
        !crate::kv::assoc_contains(reg, a.asset),
    ensures
        base_count(crate::kv::assoc_save(reg, a.asset, a, key_lt())) >= 2,
{
    lemma_base_count_save_new(reg, a.asset, a, key_lt());
}

/// Saving under a fresh key adds the new entry's base flag to the count.
proof fn lemma_base_count_save_new(
    reg: Seq<(Seq<char>, ProxyAssetV)>,
    k: Seq<char>,
    v: ProxyAssetV,
    lt: spec_fn(Seq<char>, Seq<char>) -> bool,
)
    requires
        !crate::kv::assoc_contains(reg, k),
    ensures
        base_count(crate::kv::assoc_save(reg, k, v, lt)) == base_count(reg) + (if v.value_reference is None {
            1nat
        } else {
            0nat
        }),
    decreases reg.len(),
{
    let r = crate::kv::assoc_save(reg, k, v, lt);
    let flag: nat = if v.value_reference is None {
        1nat
    } else {
        0nat
    };
    if reg.len() == 0 {
        assert(r =~= seq![(k, v)]);
        assert(r.drop_first() =~= Seq::<(Seq<char>, ProxyAssetV)>::empty());
        assert(base_count(r.drop_first()) == 0);
        assert(base_count(r) == flag + base_count(r.drop_first()));
        assert(base_count(reg) == 0);
    } else if lt(reg[0].0, k) {
        assert(reg[0].0 != k);
        lemma_base_count_save_new(reg.drop_first(), k, v, lt);
        assert(r =~= seq![reg[0]] + crate::kv::assoc_save(reg.drop_first(), k, v, lt));
        assert(r[0] == reg[0]);
        assert(r.drop_first() =~= crate::kv::assoc_save(reg.drop_first(), k, v, lt));
        assert(r.len() > 0);
        assert(base_count(r) == (if is_base(r[0]) {
            1nat
        } else {
            0nat
        }) + base_count(r.drop_first()));
        assert(base_count(reg) == (if is_base(reg[0]) {
            1nat
        } else {
            0nat
        }) + base_count(reg.drop_first()));
    } else if reg[0].0 == k {
        assert(false);
    } else {
        assert(r =~= seq![(k, v)] + reg);
        assert(r[0] == (k, v));
        assert(r.drop_first() =~= reg);
        assert(base_count(r) == flag + base_count(r.drop_first()));
    }
}

/// Law: removing an asset never removes an asset that depended on it;
/// the dependent stays, and on the next validity check it is
/// unresolvable.
pub proof fn lemma_remove_leaves_dependent_unresolvable(
    reg: Seq<(Seq<char>, ProxyAssetV)>,
    k: Seq<char>,
    j: int,
)
    requires
        crate::kv::strict_sorted(reg, key_lt()),
        0 <= j < reg.len(),
        reg[j].0 != k,
        dep_of(reg[j].1, k),
    ensures
        crate::kv::assoc_get(crate::kv::assoc_remove(reg, k), reg[j].0) == crate::kv::assoc_get(
            reg,
            reg[j].0,
        ),
        spec_unresolvable(crate::kv::assoc_remove(reg, k), reg[j].1),
{
    lemma_key_lt_total();
    crate::kv::lemma_remove_props(reg, k, key_lt(), reg[j].0);
    crate::kv::lemma_remove_props(reg, k, key_lt(), k);
    let reg2 = crate::kv::assoc_remove(reg, k);
    let vr = reg[j].1.value_reference->0;
    let ds = spec_deps(vr, reg[j].1.asset)->Ok_0;
    let u = choose|u: int| 0 <= u < ds.len() && ds[u] == k;
    assert(!crate::kv::assoc_contains(reg2, ds[u]));
}

} // verus!
