//! The proxy's mutating commands: tracked-asset updates gated by the
//! admin and by the registry's validity report, and whitelist maintenance
//! gated by the admin and the size cap. Every command is transactional:
//! on any error the state it was handed is unchanged.
use vstd::prelude::*;

use crate::asset_entry::AssetEntry;
use crate::contract_entry::ContractEntryV;
use crate::decimal::Decimal;
use crate::error::ProxyError;
use crate::kv::{assoc_remove, assoc_save};
use crate::proxy_asset::{check_ok, checked_of, ProxyAssetV, UncheckedProxyAsset, ValueRef, ValueRefV};
use crate::queries::{base_count, query_proxy_asset_validity, spec_missing, spec_unresolvable};
use crate::state::{
    key_lt, pool_lt, AssetRegistry, OraclePrice, PriceCache, State, LIST_SIZE_LIMIT,
};
use crate::strutil::{count_char, lower_chars, str_eq};

verus! {

/// The addresses a module list holds.
pub open spec fn mods(ms: Seq<String>) -> Seq<Seq<char>> {
    ms.map_values(|m: String| m@)
}

/// The registry after the additions are checked and stored, in order.
pub open spec fn apply_adds(
    reg: Seq<(Seq<char>, ProxyAssetV)>,
    adds: Seq<UncheckedProxyAsset>,
) -> Seq<(Seq<char>, ProxyAssetV)>
    decreases adds.len(),
{
    if adds.len() == 0 {
        reg
    } else {
        apply_adds(
            assoc_save(reg, checked_of(&adds[0]).asset, checked_of(&adds[0]), key_lt()),
            adds.drop_first(),
        )
    }
}

/// The price cache after each added pool asset got its zero placeholder.
pub open spec fn apply_prices(
    prices: Seq<(ContractEntryV, u128)>,
    adds: Seq<UncheckedProxyAsset>,
) -> Seq<(ContractEntryV, u128)>
    decreases adds.len(),
{
    if adds.len() == 0 {
        prices
    } else {
        apply_prices(add_price(prices, adds[0]), adds.drop_first())
    }
}

pub open spec fn add_price(
    prices: Seq<(ContractEntryV, u128)>,
    a: UncheckedProxyAsset,
) -> Seq<(ContractEntryV, u128)> {
    match checked_of(&a).value_reference {
        Some(ValueRefV::Pool { pair }) => assoc_save(prices, pair, 0u128, pool_lt()),
        _ => prices,
    }
}

/// The registry after the removals, each key case-folded first.
pub open spec fn apply_removes(
    reg: Seq<(Seq<char>, ProxyAssetV)>,
    removes: Seq<String>,
) -> Seq<(Seq<char>, ProxyAssetV)>
    decreases removes.len(),
{
    if removes.len() == 0 {
        reg
    } else {
        apply_removes(assoc_remove(reg, lower_chars(removes[0]@)), removes.drop_first())
    }
}

/// A registry whose validity report is clean: nothing unresolvable and
/// nothing missing.
pub open spec fn clean_report(reg: Seq<(Seq<char>, ProxyAssetV)>) -> bool {
    (forall|j: int| 0 <= j < reg.len() ==> !spec_unresolvable(reg, (#[trigger] reg[j]).1))
        && (forall|d: Seq<char>| !#[trigger] spec_missing(reg, d))
}

/// What an asset update does, and exactly when each error comes: only the
/// admin may call; the cap bounds the registry's growth; every added
/// definition must pass the format check; and afterwards exactly one base
/// asset must remain with every dependency resolvable.
pub open spec fn spec_update_assets(
    reg: Seq<(Seq<char>, ProxyAssetV)>,
    prices: Seq<(ContractEntryV, u128)>,
    admin: Seq<char>,
    sender: Seq<char>,
    to_add: Seq<UncheckedProxyAsset>,
    to_remove: Seq<String>,
) -> Result<(Seq<(Seq<char>, ProxyAssetV)>, Seq<(ContractEntryV, u128)>), ProxyError> {
    if sender != admin {
        Err(ProxyError::NotAdmin)
    } else if reg.len() + to_add.len() - to_remove.len() > LIST_SIZE_LIMIT {
        Err(ProxyError::AssetsLimitReached)
    } else if exists|i: int| 0 <= i < to_add.len() && !check_ok(&to_add[i]) {
        Err(ProxyError::BadEntryFormat)
    } else {
        let reg2 = apply_removes(apply_adds(reg, to_add), to_remove);
        if base_count(reg2) >= 2 {
            Err(ProxyError::MultipleBaseAssets)
        } else if !clean_report(reg2) {
            Err(ProxyError::BadUpdate)
        } else {
            Ok((reg2, apply_prices(prices, to_add)))
        }
    }
}

proof fn lemma_apply_adds_snoc(
    reg: Seq<(Seq<char>, ProxyAssetV)>,
    s: Seq<UncheckedProxyAsset>,
    a: UncheckedProxyAsset,
)
    ensures
        apply_adds(reg, s + seq![a]) == assoc_save(
            apply_adds(reg, s),
            checked_of(&a).asset,
            checked_of(&a),
            key_lt(),
        ),
    decreases s.len(),
{
    if s.len() == 0 {
        assert((s + seq![a])[0] == a);
        assert((s + seq![a]).drop_first() =~= Seq::<UncheckedProxyAsset>::empty());
        assert(apply_adds(
            assoc_save(reg, checked_of(&a).asset, checked_of(&a), key_lt()),
            Seq::<UncheckedProxyAsset>::empty(),
        ) == assoc_save(reg, checked_of(&a).asset, checked_of(&a), key_lt()));
        assert(apply_adds(reg, Seq::<UncheckedProxyAsset>::empty()) == reg);
    } else {
        assert((s + seq![a])[0] == s[0]);
        assert((s + seq![a]).drop_first() =~= s.drop_first() + seq![a]);
        lemma_apply_adds_snoc(
            assoc_save(reg, checked_of(&s[0]).asset, checked_of(&s[0]), key_lt()),
            s.drop_first(),
            a,
        );
    }
}

proof fn lemma_apply_prices_snoc(
    prices: Seq<(ContractEntryV, u128)>,
    s: Seq<UncheckedProxyAsset>,
    a: UncheckedProxyAsset,
)
    ensures
        apply_prices(prices, s + seq![a]) == add_price(apply_prices(prices, s), a),
    decreases s.len(),
{
    if s.len() == 0 {
        assert((s + seq![a])[0] == a);
        assert((s + seq![a]).drop_first() =~= Seq::<UncheckedProxyAsset>::empty());
        assert(apply_prices(add_price(prices, a), Seq::<UncheckedProxyAsset>::empty())
            == add_price(prices, a));
        assert(apply_prices(prices, Seq::<UncheckedProxyAsset>::empty()) == prices);
    } else {
        assert((s + seq![a])[0] == s[0]);
        assert((s + seq![a]).drop_first() =~= s.drop_first() + seq![a]);
        lemma_apply_prices_snoc(add_price(prices, s[0]), s.drop_first(), a);
    }
}

proof fn lemma_apply_removes_snoc(
    reg: Seq<(Seq<char>, ProxyAssetV)>,
    s: Seq<String>,
    m: String,
)
    ensures
        apply_removes(reg, s + seq![m]) == assoc_remove(apply_removes(reg, s), lower_chars(m@)),
    decreases s.len(),
{
    if s.len() == 0 {
        assert((s + seq![m])[0] == m);
        assert((s + seq![m]).drop_first() =~= Seq::<String>::empty());
        assert(apply_removes(assoc_remove(reg, lower_chars(m@)), Seq::<String>::empty())
            == assoc_remove(reg, lower_chars(m@)));
        assert(apply_removes(reg, Seq::<String>::empty()) == reg);
    } else {
        assert((s + seq![m])[0] == s[0]);
        assert((s + seq![m]).drop_first() =~= s.drop_first() + seq![m]);
        lemma_apply_removes_snoc(assoc_remove(reg, lower_chars(s[0]@)), s.drop_first(), m);
    }
}

/// Updates the stored vault-asset registry: checks and stores each
/// addition (a pool asset also gets a zero oracle placeholder), drops
/// each removal, and commits only if the registry's validity report comes
/// back clean. On any error nothing changes.
pub fn update_assets(
    registry: &mut AssetRegistry,
    pool_prices: &mut PriceCache,
    admin: &str,
    sender: &str,
    to_add: Vec<UncheckedProxyAsset>,
    to_remove: Vec<String>,
) -> (r: Result<(), ProxyError>)
    requires
        old(registry).wf(),
        old(pool_prices).wf(),
        forall|i: int|
            0 <= i < to_add@.len() ==> match (#[trigger] to_add@[i]).value_reference {
                None => true,
                Some(vr) => vr is Pool,
            },
    ensures
        final(registry).wf(),
        final(pool_prices).wf(),
        ({
            let outcome = spec_update_assets(
                old(registry)@,
                old(pool_prices)@,
                admin@,
                sender@,
                to_add@,
                to_remove@,
            );
            match r {
                Ok(_) => outcome == Ok::<_, ProxyError>((final(registry)@, final(pool_prices)@)),
                Err(e) => outcome == Err::<
                    (Seq<(Seq<char>, ProxyAssetV)>, Seq<(ContractEntryV, u128)>),
                    ProxyError,
                >(e) && final(registry)@ == old(registry)@ && final(pool_prices)@ == old(
                    pool_prices,
                )@,
            }
        }),
{
    let ghost orig_reg = registry@;
    let ghost orig_prices = pool_prices@;
    let ghost orig_adds = to_add@;
    let ghost orig_removes = to_remove@;
    if !str_eq(sender, admin) {
        return Err(ProxyError::NotAdmin);
    }
    let current_vault_size = registry.len();
    let delta_over: bool = (current_vault_size as i128) + (to_add.len() as i128) - (
    to_remove.len() as i128) > (LIST_SIZE_LIMIT as i128);
    if delta_over {
        return Err(ProxyError::AssetsLimitReached);
    }
    let mut new_reg = registry.clone();
    let mut new_prices = pool_prices.clone();
    let mut to_add = to_add;
    let mut done: usize = 0;
    proof {
        assert(orig_adds.take(0) =~= Seq::<UncheckedProxyAsset>::empty());
    }
    while to_add.len() > 0
        invariant
            registry.wf(),
            pool_prices.wf(),
            registry@ == orig_reg,
            pool_prices@ == orig_prices,
            done + to_add@.len() == orig_adds.len(),
            to_add@ == orig_adds.skip(done as int),
            forall|i: int| 0 <= i < done ==> check_ok(&(#[trigger] orig_adds[i])),
            new_reg@ == apply_adds(orig_reg, orig_adds.take(done as int)),
            new_prices@ == apply_prices(orig_prices, orig_adds.take(done as int)),
            new_reg.wf(),
            new_prices.wf(),
        decreases to_add@.len(),
    {
        let next = to_add.remove(0);
        proof {
            assert(next == orig_adds[done as int]);
            assert(to_add@ =~= orig_adds.skip(done as int + 1));
        }
        let checked = match next.check() {
            Err(e) => {
                proof {
                    assert(!check_ok(&orig_adds[done as int]));
                }
                return Err(e);
            },
            Ok(c) => c,
        };
        match &checked.value_reference {
            Option::Some(vref) => match vref {
                ValueRef::Pool { pair } => {
                    new_prices.save(pair.clone(), OraclePrice { price: Decimal::zero() });
                },
                _ => {
                },
            },
            Option::None => {
            },
        }
        new_reg.save(checked);
        proof {
            lemma_apply_adds_snoc(orig_reg, orig_adds.take(done as int), orig_adds[done as int]);
            lemma_apply_prices_snoc(
                orig_prices,
                orig_adds.take(done as int),
                orig_adds[done as int],
            );
            assert(orig_adds.take(done as int) + seq![orig_adds[done as int]] =~= orig_adds.take(
                done as int + 1,
            ));
        }
        done = done + 1;
    }
    proof {
        assert(orig_adds.take(done as int) =~= orig_adds);
    }
    let ghost after_adds = new_reg@;
    let mut removed: usize = 0;
    proof {
        assert(orig_removes.take(0) =~= Seq::<String>::empty());
    }
    while removed < to_remove.len()
        invariant
            registry.wf(),
            pool_prices.wf(),
            registry@ == orig_reg,
            pool_prices@ == orig_prices,
            0 <= removed <= to_remove.len(),
            to_remove@ == orig_removes,
            after_adds == apply_adds(orig_reg, orig_adds),
            new_reg@ == apply_removes(after_adds, orig_removes.take(removed as int)),
            new_reg.wf(),
        decreases to_remove.len() - removed,
    {
        let key = AssetEntry::new(to_remove[removed].as_str());
        new_reg.remove(key.as_str());
        proof {
            lemma_apply_removes_snoc(
                after_adds,
                orig_removes.take(removed as int),
                orig_removes[removed as int],
            );
            assert(orig_removes.take(removed as int) + seq![orig_removes[removed as int]]
                =~= orig_removes.take(removed as int + 1));
        }
        removed = removed + 1;
    }
    proof {
        assert(orig_removes.take(removed as int) =~= orig_removes);
    }
    match query_proxy_asset_validity(&new_reg) {
        Err(e) => {
            return Err(e);
        },
        Ok(report) => {
            if report.unresolvable_assets.is_some() || report.missing_dependencies.is_some() {
                return Err(ProxyError::BadUpdate);
            }
        },
    }
    *registry = new_reg;
    *pool_prices = new_prices;
    Ok(())
}

/// Whether the list names `s`.
pub fn contains_module(v: &Vec<String>, s: &str) -> (r: bool)
    ensures
        r == mods(v@).contains(s@),
{
    let mut i: usize = 0;
    while i < v.len()
        invariant
            0 <= i <= v.len(),
            forall|j: int| 0 <= j < i ==> (#[trigger] v@[j])@ != s@,
        decreases v.len() - i,
    {
        if str_eq(v[i].as_str(), s) {
            assert(mods(v@)[i as int] == s@);
            return true;
        }
        i = i + 1;
    }
    proof {
        let m = mods(v@);
        if m.contains(s@) {
            let j = choose|j: int| 0 <= j < m.len() && #[trigger] m[j] == s@;
            assert(v@[j]@ == s@);
            assert(false);
        }
    }
    false
}

/// Adds a contract to the whitelist. Only the admin may; an address
/// already listed is refused, and so is a list already at the cap.
pub fn add_module(state: &mut State, admin: &str, sender: &str, module: String) -> (r: Result<
    (),
    ProxyError,
>)
    requires
        old(state).modules@.len() <= LIST_SIZE_LIMIT,
    ensures
        final(state).modules@.len() <= LIST_SIZE_LIMIT,
        sender@ != admin@ ==> r == Err::<(), ProxyError>(ProxyError::NotAdmin) && *final(state)
            == *old(state),
        sender@ == admin@ && mods(old(state).modules@).contains(module@) ==> r == Err::<
            (),
            ProxyError,
        >(ProxyError::AlreadyInList) && *final(state) == *old(state),
        sender@ == admin@ && !mods(old(state).modules@).contains(module@) && old(
            state,
        ).modules@.len() >= LIST_SIZE_LIMIT ==> r == Err::<(), ProxyError>(
            ProxyError::ModuleLimitReached,
        ) && *final(state) == *old(state),
        sender@ == admin@ && !mods(old(state).modules@).contains(module@) && old(
            state,
        ).modules@.len() < LIST_SIZE_LIMIT ==> r is Ok && mods(final(state).modules@) == mods(
            old(state).modules@,
        ).push(module@),
{
    if !str_eq(sender, admin) {
        return Err(ProxyError::NotAdmin);
    }
    if contains_module(&state.modules, module.as_str()) {
        return Err(ProxyError::AlreadyInList);
    }
    if state.modules.len() >= LIST_SIZE_LIMIT {
        return Err(ProxyError::ModuleLimitReached);
    }
    state.modules.push(module);
    proof {
        assert(mods(state.modules@) =~= mods(old(state).modules@).push(module@));
    }
    Ok(())
}

/// The module list with every occurrence of `m` dropped, order kept.
pub open spec fn remove_mod(ms: Seq<Seq<char>>, m: Seq<char>) -> Seq<Seq<char>>
    decreases ms.len(),
{
    if ms.len() == 0 {
        ms
    } else if ms[0] == m {
        remove_mod(ms.drop_first(), m)
    } else {
        seq![ms[0]] + remove_mod(ms.drop_first(), m)
    }
}

proof fn lemma_remove_mod_snoc(ms: Seq<Seq<char>>, x: Seq<char>, m: Seq<char>)
    ensures
        remove_mod(ms + seq![x], m) == if x == m {
            remove_mod(ms, m)
        } else {
            remove_mod(ms, m) + seq![x]
        },
    decreases ms.len(),
{
    if ms.len() == 0 {
        assert((ms + seq![x])[0] == x);
        assert((ms + seq![x]).drop_first() =~= Seq::<Seq<char>>::empty());
        assert(remove_mod(Seq::<Seq<char>>::empty(), m) =~= Seq::<Seq<char>>::empty());
        assert(remove_mod(ms, m) =~= Seq::<Seq<char>>::empty());
        if x != m {
            assert(remove_mod(ms + seq![x], m) =~= remove_mod(ms, m) + seq![x]);
        }
    } else {
        assert((ms + seq![x])[0] == ms[0]);
        assert((ms + seq![x]).drop_first() =~= ms.drop_first() + seq![x]);
        lemma_remove_mod_snoc(ms.drop_first(), x, m);
        if ms[0] != m && x != m {
            assert(seq![ms[0]] + (remove_mod(ms.drop_first(), m) + seq![x]) =~= (seq![ms[0]]
                + remove_mod(ms.drop_first(), m)) + seq![x]);
        }
    }
}

proof fn lemma_remove_mod_len(ms: Seq<Seq<char>>, m: Seq<char>)
    ensures
        remove_mod(ms, m).len() <= ms.len(),
    decreases ms.len(),
{
    if ms.len() > 0 {
        lemma_remove_mod_len(ms.drop_first(), m);
    }
}

/// Removes a contract from the whitelist. Only the admin may; an address
/// that is not listed is refused.
pub fn remove_module(state: &mut State, admin: &str, sender: &str, module: String) -> (r: Result<
    (),
    ProxyError,
>)
    requires
        old(state).modules@.len() <= LIST_SIZE_LIMIT,
    ensures
        final(state).modules@.len() <= LIST_SIZE_LIMIT,
        sender@ != admin@ ==> r == Err::<(), ProxyError>(ProxyError::NotAdmin) && *final(state)
            == *old(state),
        sender@ == admin@ && !mods(old(state).modules@).contains(module@) ==> r == Err::<
            (),
            ProxyError,
        >(ProxyError::NotInList) && *final(state) == *old(state),
        sender@ == admin@ && mods(old(state).modules@).contains(module@) ==> r is Ok && mods(
            final(state).modules@,
        ) == remove_mod(mods(old(state).modules@), module@),
{
    if !str_eq(sender, admin) {
        return Err(ProxyError::NotAdmin);
    }
    if !contains_module(&state.modules, module.as_str()) {
        return Err(ProxyError::NotInList);
    }
    let ghost orig = mods(state.modules@);
    let mut kept: Vec<String> = Vec::new();
    proof {
        assert(orig.take(0) =~= Seq::<Seq<char>>::empty());
        assert(mods(kept@) =~= remove_mod(orig.take(0), module@));
    }
    let mut i: usize = 0;
    while i < state.modules.len()
        invariant
            0 <= i <= state.modules.len(),
            orig == mods(state.modules@),
            mods(kept@) == remove_mod(orig.take(i as int), module@),
            kept@.len() <= i,
        decreases state.modules.len() - i,
    {
        let ghost before = mods(kept@);
        if !str_eq(state.modules[i].as_str(), module.as_str()) {
            kept.push(state.modules[i].clone());
            proof {
                assert(mods(kept@) =~= before.push(orig[i as int]));
            }
        }
        proof {
            lemma_remove_mod_snoc(orig.take(i as int), orig[i as int], module@);
            assert(orig.take(i as int) + seq![orig[i as int]] =~= orig.take(i as int + 1));
        }
        i = i + 1;
    }
    proof {
        assert(orig.take(state.modules@.len() as int) =~= orig);
        lemma_remove_mod_len(orig, module@);
    }
    state.modules = kept;
    Ok(())
}

/// Lets a whitelisted module act through the proxy: the carried messages
/// pass through untouched; any other caller is refused.
pub fn execute_action<M>(state: &State, sender: &str, msgs: Vec<M>) -> (r: Result<
    Vec<M>,
    ProxyError,
>)
    ensures
        r is Ok <==> mods(state.modules@).contains(sender@),
        r matches Ok(m) ==> m@ == msgs@,
        r is Err ==> r == Err::<Vec<M>, ProxyError>(ProxyError::SenderNotWhitelisted),
{
    if contains_module(&state.modules, sender) {
        Ok(msgs)
    } else {
        Err(ProxyError::SenderNotWhitelisted)
    }
}


/// Seconds of look-back a price query averages over: thirty minutes.
pub const TWAP_INTERVAL: u64 = 1800;

/// One pool's price query: the pair name (folded, `asset1_asset2`) names
/// the two assets, both resolve through the address book to native
/// denominations, and the query averages from thirty minutes back to now.
pub open spec fn build_one_twap(
    k: ContractEntryV,
    pools: Seq<(ContractEntryV, u64)>,
    infos: Seq<(Seq<char>, crate::memory::AssetInfoV)>,
    now: u64,
) -> Result<crate::ibc::TwapQueryV, ProxyError> {
    let lc = lower_chars(k.contract);
    if count_char(lc, '_') != 1 {
        Err(ProxyError::BadPairFormat)
    } else {
        let a = crate::strutil::split_at_sep(lc, '_').0;
        let b = crate::strutil::split_at_sep(lc, '_').1;
        let first = if crate::strutil::lex_lt(b, a) {
            b
        } else {
            a
        };
        let second = if crate::strutil::lex_lt(b, a) {
            a
        } else {
            b
        };
        match crate::kv::assoc_get(infos, "osmo"@ + ">"@ + first) {
            None => Err(ProxyError::UnknownAsset),
            Some(qi) => match qi {
                crate::memory::AssetInfoV::Native(quote) => {
                    match crate::kv::assoc_get(infos, "osmo"@ + ">"@ + second) {
                        None => Err(ProxyError::UnknownAsset),
                        Some(bi) => match bi {
                            crate::memory::AssetInfoV::Native(base) => {
                                match crate::kv::assoc_get(pools, k) {
                                    None => Err(ProxyError::UnknownContract),
                                    Some(pid) => Ok(
                                        (crate::ibc::TwapQueryV {
                                            pool_id: pid,
                                            quote_asset_denom: quote,
                                            base_asset_denom: base,
                                            start_time: (now - TWAP_INTERVAL) as i64,
                                        }),
                                    ),
                                }
                            },
                            _ => Err(ProxyError::Cw1155Unsupported),
                        },
                    }
                },
                _ => Err(ProxyError::Cw1155Unsupported),
            },
        }
    }
}

/// The queries for the first `upto` tracked pools, in order; the first
/// pool that cannot be resolved decides the whole batch.
pub open spec fn build_twaps_upto(
    keys: Seq<ContractEntryV>,
    pools: Seq<(ContractEntryV, u64)>,
    infos: Seq<(Seq<char>, crate::memory::AssetInfoV)>,
    now: u64,
    upto: int,
) -> Result<Seq<crate::ibc::TwapQueryV>, ProxyError>
    decreases upto,
{
    if upto <= 0 {
        Ok(Seq::empty())
    } else {
        match build_twaps_upto(keys, pools, infos, now, upto - 1) {
            Err(e) => Err(e),
            Ok(qs) => match build_one_twap(keys[upto - 1], pools, infos, now) {
                Err(e) => Err(e),
                Ok(q) => Ok(qs.push(q)),
            },
        }
    }
}

proof fn lemma_twaps_error_extends(
    keys: Seq<ContractEntryV>,
    pools: Seq<(ContractEntryV, u64)>,
    infos: Seq<(Seq<char>, crate::memory::AssetInfoV)>,
    now: u64,
    m: int,
    m2: int,
    e: ProxyError,
)
    requires
        0 <= m <= m2 <= keys.len(),
        build_twaps_upto(keys, pools, infos, now, m) == Err::<
            Seq<crate::ibc::TwapQueryV>,
            ProxyError,
        >(e),
    ensures
        build_twaps_upto(keys, pools, infos, now, m2) == Err::<
            Seq<crate::ibc::TwapQueryV>,
            ProxyError,
        >(e),
    decreases m2 - m,
{
    if m < m2 {
        lemma_twaps_error_extends(keys, pools, infos, now, m + 1, m2, e);
    }
}

/// What a price refresh dispatches, and exactly when it fails: the batch
/// of per-pool queries over the tracked pools in descending key order,
/// refused as a whole if any pool is absent from the address book or any
/// pair cannot be resolved to two native denominations.
pub open spec fn spec_update_prices(
    prices: Seq<(ContractEntryV, u128)>,
    pools: Seq<(ContractEntryV, u64)>,
    infos: Seq<(Seq<char>, crate::memory::AssetInfoV)>,
    now: u64,
) -> Result<Seq<crate::ibc::TwapQueryV>, ProxyError> {
    let keys = crate::contract::desc_keys(prices);
    if exists|i: int| 0 <= i < keys.len() && !crate::kv::assoc_contains(pools, #[trigger] keys[i]) {
        Err(ProxyError::UnknownContract)
    } else {
        build_twaps_upto(keys, pools, infos, now, keys.len() as int)
    }
}

/// Builds and dispatches one batched price-refresh query over the oracle
/// channel, tagged for the price-refresh callback. The pool identifiers
/// and the asset table are what the caller read off the address book.
pub fn update_prices(
    pool_prices: &PriceCache,
    twap: &crate::state::TWAPInfo,
    sender: &str,
    pools: &Vec<(crate::contract_entry::ContractEntry, u64)>,
    infos: &Vec<(AssetEntry, crate::memory::AssetInfo)>,
    now: u64,
) -> (r: Result<crate::ibc::IbcSend<crate::ibc::TwapQuery>, ProxyError>)
    requires
        TWAP_INTERVAL <= now <= u64::MAX - crate::ibc::PACKET_LIFETIME,
        now - TWAP_INTERVAL <= i64::MAX,
    ensures
        ({
            let outcome = spec_update_prices(
                pool_prices@,
                crate::memory::pools_v(pools@),
                crate::memory::infos_v(infos@),
                now,
            );
            match r {
                Ok(send) => (outcome matches Ok(qs) && send.channel_id@ == twap.channel_id@
                    && send.timeout_seconds == now + crate::ibc::PACKET_LIFETIME && (
                send.packet matches crate::ibc::PacketMsg::IbcQuery {
                    sender: s,
                    msgs: m,
                    callback_id: c,
                } && s@ == sender@ && m@.map_values(|q: crate::ibc::TwapQuery| q@) == qs && (
                c matches Some(cb) && cb@ == crate::ibc::TWAP_QUERY@))),
                Err(e) => outcome == Err::<Seq<crate::ibc::TwapQueryV>, ProxyError>(e),
            }
        }),
{
    let ghost pv = crate::memory::pools_v(pools@);
    let ghost iv = crate::memory::infos_v(infos@);
    let keys = pool_prices.keys_descending();
    let ghost kv = crate::contract::desc_keys(pool_prices@);
    proof {
        assert(keys@.len() == kv.len());
        assert forall|j: int| 0 <= j < keys@.len() implies (#[trigger] keys@[j])@ == kv[j] by {}
    }
    let mut c: usize = 0;
    while c < keys.len()
        invariant
            0 <= c <= keys.len(),
            keys@.len() == kv.len(),
            forall|j: int| 0 <= j < keys@.len() ==> (#[trigger] keys@[j])@ == kv[j],
            pv == crate::memory::pools_v(pools@),
            forall|j: int| 0 <= j < c ==> crate::kv::assoc_contains(pv, #[trigger] kv[j]),
        decreases keys.len() - c,
    {
        if crate::memory::lookup_pool_id(pools, &keys[c]).is_none() {
            return Err(ProxyError::UnknownContract);
        }
        c = c + 1;
    }
    let mut queries: Vec<crate::ibc::TwapQuery> = Vec::new();
    proof {
        assert(queries@.map_values(|q: crate::ibc::TwapQuery| q@) =~= Seq::<
            crate::ibc::TwapQueryV,
        >::empty());
    }
    let mut i: usize = 0;
    while i < keys.len()
        invariant
            0 <= i <= keys.len(),
            keys@.len() == kv.len(),
            forall|j: int| 0 <= j < keys@.len() ==> (#[trigger] keys@[j])@ == kv[j],
            pv == crate::memory::pools_v(pools@),
            iv == crate::memory::infos_v(infos@),
            TWAP_INTERVAL <= now,
            now - TWAP_INTERVAL <= i64::MAX,
            build_twaps_upto(kv, pv, iv, now, i as int) == Ok::<
                Seq<crate::ibc::TwapQueryV>,
                ProxyError,
            >(queries@.map_values(|q: crate::ibc::TwapQuery| q@)),
        decreases keys.len() - i,
    {
        let ghost qs_before = queries@.map_values(|q: crate::ibc::TwapQuery| q@);
        let lowercase = crate::strutil::to_ascii_lower(keys[i].contract.as_str());
        let parts = match crate::strutil::split_once_exact(lowercase.as_str(), '_') {
            None => {
                proof {
                    lemma_twaps_error_extends(
                        kv,
                        pv,
                        iv,
                        now,
                        i as int + 1,
                        kv.len() as int,
                        ProxyError::BadPairFormat,
                    );
                }
                return Err(ProxyError::BadPairFormat);
            },
            Some(p) => p,
        };
        let swapped = crate::strutil::str_lt(parts.1.as_str(), parts.0.as_str());
        let first = if swapped {
            parts.1.as_str()
        } else {
            parts.0.as_str()
        };
        let second = if swapped {
            parts.0.as_str()
        } else {
            parts.1.as_str()
        };
        let quote_key = crate::strutil::join3("osmo", ">", first);
        let base_key = crate::strutil::join3("osmo", ">", second);
        let ghost this_err = |e: ProxyError| e;
        let quote = match crate::memory::lookup_asset_info(infos, quote_key.as_str()) {
            None => {
                proof {
                    lemma_twaps_error_extends(
                        kv,
                        pv,
                        iv,
                        now,
                        i as int + 1,
                        kv.len() as int,
                        ProxyError::UnknownAsset,
                    );
                }
                return Err(ProxyError::UnknownAsset);
            },
            Some(info) => match info {
                crate::memory::AssetInfo::Native(denom) => denom.clone(),
                _ => {
                    proof {
                        lemma_twaps_error_extends(
                            kv,
                            pv,
                            iv,
                            now,
                            i as int + 1,
                            kv.len() as int,
                            ProxyError::Cw1155Unsupported,
                        );
                    }
                    return Err(ProxyError::Cw1155Unsupported);
                },
            },
        };
        let base = match crate::memory::lookup_asset_info(infos, base_key.as_str()) {
            None => {
                proof {
                    lemma_twaps_error_extends(
                        kv,
                        pv,
                        iv,
                        now,
                        i as int + 1,
                        kv.len() as int,
                        ProxyError::UnknownAsset,
                    );
                }
                return Err(ProxyError::UnknownAsset);
            },
            Some(info) => match info {
                crate::memory::AssetInfo::Native(denom) => denom.clone(),
                _ => {
                    proof {
                        lemma_twaps_error_extends(
                            kv,
                            pv,
                            iv,
                            now,
                            i as int + 1,
                            kv.len() as int,
                            ProxyError::Cw1155Unsupported,
                        );
                    }
                    return Err(ProxyError::Cw1155Unsupported);
                },
            },
        };
        let pool_id = match crate::memory::lookup_pool_id(pools, &keys[i]) {
            None => {
                proof {
                    lemma_twaps_error_extends(
                        kv,
                        pv,
                        iv,
                        now,
                        i as int + 1,
                        kv.len() as int,
                        ProxyError::UnknownContract,
                    );
                }
                return Err(ProxyError::UnknownContract);
            },
            Some(id) => id,
        };
        let q = crate::ibc::TwapQuery {
            pool_id,
            quote_asset_denom: quote,
            base_asset_denom: base,
            start_time: (now - TWAP_INTERVAL) as i64,
        };
        queries.push(q);
        proof {
            assert(build_one_twap(kv[i as int], pv, iv, now) == Ok::<
                crate::ibc::TwapQueryV,
                ProxyError,
            >(queries@.map_values(|q2: crate::ibc::TwapQuery| q2@).last()));
            assert(queries@.map_values(|q2: crate::ibc::TwapQuery| q2@) =~= qs_before.push(
                queries@.map_values(|q2: crate::ibc::TwapQuery| q2@).last(),
            ));
        }
        i = i + 1;
    }
    let send = crate::contract::execute_ibc_query(
        sender,
        twap.channel_id.clone(),
        queries,
        Some(String::from_str(crate::ibc::TWAP_QUERY)),
        now,
    );
    Ok(send)
}

} // verus!
