//! The proxy's durable state, modeled as explicit stores: the asset
//! registry, the oracle price cache, the per-channel remote-account cache,
//! and the small scalar items (whitelist, admin, channel configuration).
//! Every keyed store is a vector kept strictly sorted by its key, and its
//! contract speaks through the association-sequence model in `kv`.
use vstd::prelude::*;

use crate::asset_entry::AssetEntry;
use crate::contract_entry::{ce_lt, ContractEntry, ContractEntryV};
use crate::decimal::Decimal;
use crate::kv::{
    assoc_contains, assoc_get, assoc_remove, assoc_save, lemma_remove_props, lemma_save_get,
    lemma_save_skip, lemma_save_sorted, lemma_get_skip, lemma_remove_skip, lemma_sorted_get_index,
    strict_sorted, total_order,
};
use crate::proxy_asset::{ProxyAsset, ProxyAssetV};
use crate::strutil::{
    lex_lt, lemma_lex_lt_asymmetric, lemma_lex_lt_connected, lemma_lex_lt_irreflexive,
    lemma_lex_lt_transitive, str_eq, str_lt,
};

verus! {

/// Cap on the whitelist and on the registry, so that one call's iteration
/// work stays bounded.
pub const LIST_SIZE_LIMIT: usize = 15;

/// The whitelist of module contracts that may act through the proxy.
#[derive(Debug)]
pub struct State {
    pub modules: Vec<String>,
}

impl Clone for State {
    fn clone(&self) -> (r: Self)
        ensures
            r.modules@.map_values(|m: String| m@) == self.modules@.map_values(|m: String| m@),
    {
        let mut out: Vec<String> = Vec::new();
        let mut i: usize = 0;
        while i < self.modules.len()
            invariant
                0 <= i <= self.modules.len(),
                out@.len() == i,
                forall|j: int| 0 <= j < i ==> out@[j]@ == self.modules@[j]@,
            decreases self.modules.len() - i,
        {
            out.push(self.modules[i].clone());
            i = i + 1;
        }
        proof {
            assert(out@.map_values(|m: String| m@) =~= self.modules@.map_values(|m: String| m@));
        }
        State { modules: out }
    }
}

/// The channel the oracle queries travel on, and when prices last moved.
#[derive(Debug)]
pub struct TWAPInfo {
    pub channel_id: String,
    pub last_update: u64,
}

impl Clone for TWAPInfo {
    fn clone(&self) -> (r: Self)
        ensures
            r.channel_id@ == self.channel_id@,
            r.last_update == self.last_update,
    {
        TWAPInfo { channel_id: self.channel_id.clone(), last_update: self.last_update }
    }
}

/// The last known price of one tracked pool.
#[derive(Clone, Copy, Debug, PartialEq, Eq, Structural)]
pub struct OraclePrice {
    pub price: Decimal,
}

/// One coin: a denomination and an amount of it.
#[derive(Debug)]
pub struct Coin {
    pub denom: String,
    pub amount: u128,
}

pub struct CoinV {
    pub denom: Seq<char>,
    pub amount: u128,
}

impl View for Coin {
    type V = CoinV;

    open spec fn view(&self) -> CoinV {
        CoinV { denom: self.denom@, amount: self.amount }
    }
}

impl Clone for Coin {
    fn clone(&self) -> (r: Self)
        ensures
            r@ == self@,
    {
        Coin { denom: self.denom.clone(), amount: self.amount }
    }
}

/// The cached view of the remote account bound to one channel.
#[derive(Debug)]
pub struct AccountData {
    /// When the snapshot was last updated; zero means never.
    pub last_update_time: u64,
    /// Unset until the remote side has reported an address; callers must
    /// tolerate the gap between binding a channel and the first report.
    pub remote_addr: Option<String>,
    pub remote_balance: Vec<Coin>,
}

pub struct AccountDataV {
    pub last_update_time: u64,
    pub remote_addr: Option<Seq<char>>,
    pub remote_balance: Seq<CoinV>,
}

impl View for AccountData {
    type V = AccountDataV;

    open spec fn view(&self) -> AccountDataV {
        AccountDataV {
            last_update_time: self.last_update_time,
            remote_addr: match self.remote_addr {
                Some(a) => Some(a@),
                None => None,
            },
            remote_balance: self.remote_balance@.map_values(|c: Coin| c@),
        }
    }
}

impl Clone for AccountData {
    fn clone(&self) -> (r: Self)
        ensures
            r@ == self@,
    {
        let addr = match &self.remote_addr {
            Some(a) => Some(a.clone()),
            None => None,
        };
        let mut bal: Vec<Coin> = Vec::new();
        let mut i: usize = 0;
        while i < self.remote_balance.len()
            invariant
                0 <= i <= self.remote_balance.len(),
                bal@.len() == i,
                forall|j: int| 0 <= j < i ==> bal@[j]@ == self.remote_balance@[j]@,
            decreases self.remote_balance.len() - i,
        {
            bal.push(self.remote_balance[i].clone());
            i = i + 1;
        }
        proof {
            assert(bal@.map_values(|c: Coin| c@) =~= self.remote_balance@.map_values(
                |c: Coin| c@,
            ));
        }
        AccountData {
            last_update_time: self.last_update_time,
            remote_addr: addr,
            remote_balance: bal,
        }
    }
}

/// The order the string-keyed stores keep.
pub open spec fn key_lt() -> spec_fn(Seq<char>, Seq<char>) -> bool {
    |a: Seq<char>, b: Seq<char>| lex_lt(a, b)
}

/// The order the pool-keyed store keeps.
pub open spec fn pool_lt() -> spec_fn(ContractEntryV, ContractEntryV) -> bool {
    |a: ContractEntryV, b: ContractEntryV| ce_lt(a, b)
}

pub proof fn lemma_key_lt_total()
    ensures
        total_order(key_lt()),
{
    let lt = key_lt();
    assert forall|a: Seq<char>| !#[trigger] lt(a, a) by {
        lemma_lex_lt_irreflexive(a);
    }
    assert forall|a: Seq<char>, b: Seq<char>, c: Seq<char>|
        #[trigger] lt(a, b) && #[trigger] lt(b, c) implies lt(a, c) by {
        lemma_lex_lt_transitive(a, b, c);
    }
    assert forall|a: Seq<char>, b: Seq<char>| !#[trigger] lt(a, b) && !lt(b, a) implies a == b by {
        lemma_lex_lt_connected(a, b);
    }
}

pub proof fn lemma_pool_lt_total()
    ensures
        total_order(pool_lt()),
{
    let lt = pool_lt();
    assert forall|a: ContractEntryV| !#[trigger] lt(a, a) by {
        lemma_lex_lt_irreflexive(a.protocol);
        lemma_lex_lt_irreflexive(a.contract);
    }
    assert forall|a: ContractEntryV, b: ContractEntryV, c: ContractEntryV|
        #[trigger] lt(a, b) && #[trigger] lt(b, c) implies lt(a, c) by {
        if lex_lt(a.protocol, b.protocol) && lex_lt(b.protocol, c.protocol) {
            lemma_lex_lt_transitive(a.protocol, b.protocol, c.protocol);
        } else if a.protocol == b.protocol && b.protocol == c.protocol {
            lemma_lex_lt_transitive(a.contract, b.contract, c.contract);
        }
    }
    assert forall|a: ContractEntryV, b: ContractEntryV| !#[trigger] lt(a, b) && !lt(b, a)
        implies a == b by {
        lemma_lex_lt_connected(a.protocol, b.protocol);
        lemma_lex_lt_connected(a.contract, b.contract);
        assert(a == (ContractEntryV { protocol: a.protocol, contract: a.contract }));
        assert(b == (ContractEntryV { protocol: b.protocol, contract: b.contract }));
    }
}

/// The registry of tracked assets, keyed by their normalized identifier.
#[derive(Debug)]
pub struct AssetRegistry {
    pub entries: Vec<(AssetEntry, ProxyAsset)>,
}

impl View for AssetRegistry {
    type V = Seq<(Seq<char>, ProxyAssetV)>;

    open spec fn view(&self) -> Seq<(Seq<char>, ProxyAssetV)> {
        self.entries@.map_values(|p: (AssetEntry, ProxyAsset)| (p.0@, p.1@))
    }
}

impl AssetRegistry {
    /// Keys strictly ascend and each entry is stored under the key the
    /// asset itself carries.
    pub open spec fn wf(&self) -> bool {
        strict_sorted(self@, key_lt()) && forall|i: int|
            0 <= i < self@.len() ==> (#[trigger] self@[i]).1.asset == self@[i].0
    }

    pub fn new() -> (r: Self)
        ensures
            r@ == Seq::<(Seq<char>, ProxyAssetV)>::empty(),
            r.wf(),
    {
        let r = AssetRegistry { entries: Vec::new() };
        proof {
            assert(r@ =~= Seq::<(Seq<char>, ProxyAssetV)>::empty());
        }
        r
    }

    pub fn len(&self) -> (r: usize)
        ensures
            r == self@.len(),
    {
        self.entries.len()
    }

    /// The stored definition of the asset under `key`.
    pub fn get(&self, key: &str) -> (r: Option<&ProxyAsset>)
        ensures
            r is Some <==> assoc_contains(self@, key@),
            r matches Some(p) ==> assoc_get(self@, key@) == Some(p@),
    {
        let mut i: usize = 0;
        while i < self.entries.len()
            invariant
                0 <= i <= self.entries.len(),
                forall|j: int| 0 <= j < i ==> (#[trigger] self@[j]).0 != key@,
            decreases self.entries.len() - i,
        {
            if str_eq(self.entries[i].0.as_str(), key) {
                proof {
                    lemma_get_skip(self@, key@, i as int);
                    assert(self@.skip(i as int)[0] == self@[i as int]);
                }
                return Some(&self.entries[i].1);
            }
            i = i + 1;
        }
        proof {
            lemma_get_skip(self@, key@, self@.len() as int);
            assert(self@.skip(self@.len() as int) =~= Seq::<(Seq<char>, ProxyAssetV)>::empty());
        }
        None
    }

    /// Stores the asset under its own key, replacing any previous
    /// definition.
    pub fn save(&mut self, asset: ProxyAsset)
        requires
            old(self).wf(),
        ensures
            final(self)@ == assoc_save(old(self)@, asset@.asset, asset@, key_lt()),
            final(self).wf(),
    {
        proof {
            lemma_key_lt_total();
        }
        let ghost orig = self@;
        let ghost k = asset@.asset;
        let mut j: usize = 0;
        while j < self.entries.len() && str_lt(self.entries[j].0.as_str(), asset.asset.as_str())
            invariant
                0 <= j <= self.entries.len(),
                self@ == orig,
                forall|i: int| 0 <= i < j ==> lex_lt((#[trigger] orig[i]).0, k),
            decreases self.entries.len() - j,
        {
            proof {
                assert(orig[j as int].0 == self.entries@[j as int].0@);
            }
            j = j + 1;
        }
        proof {
            lemma_save_skip(orig, k, asset@, key_lt(), j as int);
        }
        if j < self.entries.len() && str_eq(self.entries[j].0.as_str(), asset.asset.as_str()) {
            let ghost old_entries = self.entries@;
            self.entries.remove(j);
            self.entries.insert(j, (asset.asset.clone(), asset));
            proof {
                assert(orig.skip(j as int)[0].0 == k);
                assert(assoc_save(orig.skip(j as int), k, asset@, key_lt()) =~= seq![(k, asset@)]
                    + orig.skip(j as int).drop_first());
                assert(self@ =~= orig.take(j as int) + (seq![(k, asset@)] + orig.skip(
                    j as int,
                ).drop_first()));
            }
        } else {
            proof {
                if j < self.entries.len() {
                    assert(orig.skip(j as int)[0].0 == orig[j as int].0);
                    assert(!lex_lt(orig[j as int].0, k) && orig[j as int].0 != k);
                    assert(assoc_save(orig.skip(j as int), k, asset@, key_lt()) =~= seq![
                        (k, asset@),
                    ] + orig.skip(j as int));
                } else {
                    assert(orig.skip(j as int) =~= Seq::<(Seq<char>, ProxyAssetV)>::empty());
                    assert(assoc_save(orig.skip(j as int), k, asset@, key_lt()) =~= seq![
                        (k, asset@),
                    ]);
                }
            }
            self.entries.insert(j, (asset.asset.clone(), asset));
            proof {
                assert(self@ =~= orig.take(j as int) + (seq![(k, asset@)] + orig.skip(j as int)));
            }
        }
        proof {
            lemma_save_sorted(orig, k, asset@, key_lt());
            assert(final(self)@ =~= assoc_save(orig, k, asset@, key_lt()));
            let s = final(self)@;
            assert forall|i: int| 0 <= i < s.len() implies (#[trigger] s[i]).1.asset == s[i].0 by {
                if s[i].0 == k {
                    lemma_sorted_get_index(s, key_lt(), i);
                    lemma_save_get(orig, k, asset@, key_lt(), k);
                } else {
                    let jj = choose|jj: int| 0 <= jj < orig.len() && s[i] == orig[jj];
                }
            }
        }
    }

    /// Drops the asset under `key`; absent keys change nothing.
    pub fn remove(&mut self, key: &str)
        requires
            old(self).wf(),
        ensures
            final(self)@ == assoc_remove(old(self)@, key@),
            final(self).wf(),
    {
        proof {
            lemma_key_lt_total();
        }
        let ghost orig = self@;
        let mut j: usize = 0;
        while j < self.entries.len()
            invariant
                0 <= j <= self.entries.len(),
                self@ == orig,
                forall|i: int| 0 <= i < j ==> (#[trigger] orig[i]).0 != key@,
            decreases self.entries.len() - j,
        {
            if str_eq(self.entries[j].0.as_str(), key) {
                proof {
                    lemma_remove_skip(orig, key@, j as int);
                    assert(orig.skip(j as int)[0].0 == key@);
                    assert(assoc_remove(orig.skip(j as int), key@) =~= orig.skip(
                        j as int,
                    ).drop_first());
                }
                self.entries.remove(j);
                proof {
                    assert(self@ =~= orig.take(j as int) + orig.skip(j as int).drop_first());
                    lemma_remove_props(orig, key@, key_lt(), key@);
                    assert(self@ =~= assoc_remove(orig, key@));
                    let s = self@;
                    assert forall|i: int| 0 <= i < s.len() implies (#[trigger] s[i]).1.asset
                        == s[i].0 by {
                        crate::kv::lemma_remove_members(orig, key@, i);
                    }
                }
                return ;
            }
            j = j + 1;
        }
        proof {
            lemma_remove_skip(orig, key@, orig.len() as int);
            assert(orig.take(orig.len() as int) =~= orig);
            assert(orig.skip(orig.len() as int) =~= Seq::<(Seq<char>, ProxyAssetV)>::empty());
            assert(assoc_remove(orig, key@) =~= orig);
        }
    }
}

impl Clone for AssetRegistry {
    fn clone(&self) -> (r: Self)
        ensures
            r@ == self@,
    {
        let mut out: Vec<(AssetEntry, ProxyAsset)> = Vec::new();
        let mut i: usize = 0;
        while i < self.entries.len()
            invariant
                0 <= i <= self.entries.len(),
                out@.len() == i,
                forall|j: int|
                    0 <= j < i ==> (#[trigger] out@[j]).0@ == self.entries@[j].0@ && out@[j].1@
                        == self.entries@[j].1@,
            decreases self.entries.len() - i,
        {
            out.push((self.entries[i].0.clone(), self.entries[i].1.clone()));
            i = i + 1;
        }
        let r = AssetRegistry { entries: out };
        proof {
            assert(r@ =~= self@);
        }
        r
    }
}

/// The oracle's last-known prices, keyed by pool.
#[derive(Debug)]
pub struct PriceCache {
    pub entries: Vec<(ContractEntry, OraclePrice)>,
}

impl View for PriceCache {
    type V = Seq<(ContractEntryV, u128)>;

    open spec fn view(&self) -> Seq<(ContractEntryV, u128)> {
        self.entries@.map_values(|p: (ContractEntry, OraclePrice)| (p.0@, p.1.price.0))
    }
}

impl PriceCache {
    pub open spec fn wf(&self) -> bool {
        strict_sorted(self@, pool_lt())
    }

    pub fn new() -> (r: Self)
        ensures
            r@ == Seq::<(ContractEntryV, u128)>::empty(),
            r.wf(),
    {
        let r = PriceCache { entries: Vec::new() };
        proof {
            assert(r@ =~= Seq::<(ContractEntryV, u128)>::empty());
        }
        r
    }

    pub fn len(&self) -> (r: usize)
        ensures
            r == self@.len(),
    {
        self.entries.len()
    }

    /// The cached price of the pool, if it is tracked.
    pub fn get(&self, key: &ContractEntry) -> (r: Option<OraclePrice>)
        ensures
            r is Some <==> assoc_contains(self@, key@),
            r matches Some(p) ==> assoc_get(self@, key@) == Some(p.price.0),
    {
        let mut i: usize = 0;
        while i < self.entries.len()
            invariant
                0 <= i <= self.entries.len(),
                forall|j: int| 0 <= j < i ==> (#[trigger] self@[j]).0 != key@,
            decreases self.entries.len() - i,
        {
            if self.entries[i].0.eq_entry(key) {
                proof {
                    lemma_get_skip(self@, key@, i as int);
                    assert(self@.skip(i as int)[0] == self@[i as int]);
                    assert(self.entries@[i as int].0@ == key@);
                }
                return Some(self.entries[i].1);
            }
            i = i + 1;
        }
        proof {
            lemma_get_skip(self@, key@, self@.len() as int);
            assert(self@.skip(self@.len() as int) =~= Seq::<(ContractEntryV, u128)>::empty());
        }
        None
    }

    /// Stores the price of a pool, replacing any previous one.
    pub fn save(&mut self, key: ContractEntry, price: OraclePrice)
        requires
            old(self).wf(),
        ensures
            final(self)@ == assoc_save(old(self)@, key@, price.price.0, pool_lt()),
            final(self).wf(),
    {
        proof {
            lemma_pool_lt_total();
        }
        let ghost orig = self@;
        let ghost k = key@;
        let mut j: usize = 0;
        while j < self.entries.len() && self.entries[j].0.lt(&key)
            invariant
                0 <= j <= self.entries.len(),
                self@ == orig,
                forall|i: int| 0 <= i < j ==> ce_lt((#[trigger] orig[i]).0, k),
            decreases self.entries.len() - j,
        {
            proof {
                assert(orig[j as int].0 == self.entries@[j as int].0@);
            }
            j = j + 1;
        }
        proof {
            lemma_save_skip(orig, k, price.price.0, pool_lt(), j as int);
        }
        if j < self.entries.len() && self.entries[j].0.eq_entry(&key) {
            self.entries.remove(j);
            self.entries.insert(j, (key, price));
            proof {
                assert(orig.skip(j as int)[0].0 == k);
                assert(assoc_save(orig.skip(j as int), k, price.price.0, pool_lt()) =~= seq![
                    (k, price.price.0),
                ] + orig.skip(j as int).drop_first());
                assert(self@ =~= orig.take(j as int) + (seq![(k, price.price.0)] + orig.skip(
                    j as int,
                ).drop_first()));
            }
        } else {
            proof {
                if j < self.entries.len() {
                    assert(orig.skip(j as int)[0].0 == orig[j as int].0);
                    assert(!ce_lt(orig[j as int].0, k) && orig[j as int].0 != k);
                    assert(assoc_save(orig.skip(j as int), k, price.price.0, pool_lt()) =~= seq![
                        (k, price.price.0),
                    ] + orig.skip(j as int));
                } else {
                    assert(orig.skip(j as int) =~= Seq::<(ContractEntryV, u128)>::empty());
                    assert(assoc_save(orig.skip(j as int), k, price.price.0, pool_lt()) =~= seq![
                        (k, price.price.0),
                    ]);
                }
            }
            self.entries.insert(j, (key, price));
            proof {
                assert(self@ =~= orig.take(j as int) + (seq![(k, price.price.0)] + orig.skip(
                    j as int,
                )));
            }
        }
        proof {
            lemma_save_sorted(orig, k, price.price.0, pool_lt());
            assert(final(self)@ =~= assoc_save(orig, k, price.price.0, pool_lt()));
        }
    }

    /// The tracked pools in descending key order, the order the oracle
    /// queries are built and their answers are zipped back in.
    pub fn keys_descending(&self) -> (r: Vec<ContractEntry>)
        ensures
            r@.len() == self@.len(),
            forall|i: int|
                0 <= i < r@.len() ==> (#[trigger] r@[i])@ == self@[self@.len() - 1 - i].0,
    {
        let mut out: Vec<ContractEntry> = Vec::new();
        let mut i: usize = self.entries.len();
        while i > 0
            invariant
                0 <= i <= self.entries.len(),
                out@.len() == self.entries.len() - i,
                forall|j: int|
                    0 <= j < out@.len() ==> (#[trigger] out@[j])@ == self@[self@.len() - 1 - j].0,
            decreases i,
        {
            i = i - 1;
            out.push(self.entries[i].0.clone());
        }
        out
    }
}

impl Clone for PriceCache {
    fn clone(&self) -> (r: Self)
        ensures
            r@ == self@,
    {
        let mut out: Vec<(ContractEntry, OraclePrice)> = Vec::new();
        let mut i: usize = 0;
        while i < self.entries.len()
            invariant
                0 <= i <= self.entries.len(),
                out@.len() == i,
                forall|j: int|
                    0 <= j < i ==> (#[trigger] out@[j]).0@ == self.entries@[j].0@ && out@[j].1
                        == self.entries@[j].1,
            decreases self.entries.len() - i,
        {
            out.push((self.entries[i].0.clone(), self.entries[i].1));
            i = i + 1;
        }
        let r = PriceCache { entries: out };
        proof {
            assert(r@ =~= self@);
        }
        r
    }
}

/// The remote-account cache, keyed by channel identifier.
#[derive(Debug)]
pub struct Accounts {
    pub entries: Vec<(String, AccountData)>,
}

impl View for Accounts {
    type V = Seq<(Seq<char>, AccountDataV)>;

    open spec fn view(&self) -> Seq<(Seq<char>, AccountDataV)> {
        self.entries@.map_values(|p: (String, AccountData)| (p.0@, p.1@))
    }
}

impl Accounts {
    pub open spec fn wf(&self) -> bool {
        strict_sorted(self@, key_lt())
    }

    pub fn new() -> (r: Self)
        ensures
            r@ == Seq::<(Seq<char>, AccountDataV)>::empty(),
            r.wf(),
    {
        let r = Accounts { entries: Vec::new() };
        proof {
            assert(r@ =~= Seq::<(Seq<char>, AccountDataV)>::empty());
        }
        r
    }

    pub fn len(&self) -> (r: usize)
        ensures
            r == self@.len(),
    {
        self.entries.len()
    }

    /// The cached account bound to `channel_id`.
    pub fn get(&self, channel_id: &str) -> (r: Option<&AccountData>)
        ensures
            r is Some <==> assoc_contains(self@, channel_id@),
            r matches Some(a) ==> assoc_get(self@, channel_id@) == Some(a@),
    {
        let mut i: usize = 0;
        while i < self.entries.len()
            invariant
                0 <= i <= self.entries.len(),
                forall|j: int| 0 <= j < i ==> (#[trigger] self@[j]).0 != channel_id@,
            decreases self.entries.len() - i,
        {
            if str_eq(self.entries[i].0.as_str(), channel_id) {
                proof {
                    lemma_get_skip(self@, channel_id@, i as int);
                    assert(self@.skip(i as int)[0] == self@[i as int]);
                }
                return Some(&self.entries[i].1);
            }
            i = i + 1;
        }
        proof {
            lemma_get_skip(self@, channel_id@, self@.len() as int);
            assert(self@.skip(self@.len() as int) =~= Seq::<(Seq<char>, AccountDataV)>::empty());
        }
        None
    }

    /// Stores the account snapshot for the channel, replacing any
    /// previous one.
    pub fn save(&mut self, channel_id: String, data: AccountData)
        requires
            old(self).wf(),
        ensures
            final(self)@ == assoc_save(old(self)@, channel_id@, data@, key_lt()),
            final(self).wf(),
    {
        proof {
            lemma_key_lt_total();
        }
        let ghost orig = self@;
        let ghost k = channel_id@;
        let ghost dv = data@;
        let mut j: usize = 0;
        while j < self.entries.len() && str_lt(self.entries[j].0.as_str(), channel_id.as_str())
            invariant
                0 <= j <= self.entries.len(),
                self@ == orig,
                forall|i: int| 0 <= i < j ==> lex_lt((#[trigger] orig[i]).0, k),
            decreases self.entries.len() - j,
        {
            proof {
                assert(orig[j as int].0 == self.entries@[j as int].0@);
            }
            j = j + 1;
        }
        proof {
            lemma_save_skip(orig, k, dv, key_lt(), j as int);
        }
        if j < self.entries.len() && str_eq(self.entries[j].0.as_str(), channel_id.as_str()) {
            self.entries.remove(j);
            self.entries.insert(j, (channel_id, data));
            proof {
                assert(orig.skip(j as int)[0].0 == k);
                assert(assoc_save(orig.skip(j as int), k, dv, key_lt()) =~= seq![(k, dv)]
                    + orig.skip(j as int).drop_first());
                assert(self@ =~= orig.take(j as int) + (seq![(k, dv)] + orig.skip(
                    j as int,
                ).drop_first()));
            }
        } else {
            proof {
                if j < self.entries.len() {
                    assert(orig.skip(j as int)[0].0 == orig[j as int].0);
                    assert(!lex_lt(orig[j as int].0, k) && orig[j as int].0 != k);
                    assert(assoc_save(orig.skip(j as int), k, dv, key_lt()) =~= seq![(k, dv)]
                        + orig.skip(j as int));
                } else {
                    assert(orig.skip(j as int) =~= Seq::<(Seq<char>, AccountDataV)>::empty());
                    assert(assoc_save(orig.skip(j as int), k, dv, key_lt()) =~= seq![(k, dv)]);
                }
            }
            self.entries.insert(j, (channel_id, data));
            proof {
                assert(self@ =~= orig.take(j as int) + (seq![(k, dv)] + orig.skip(j as int)));
            }
        }
        proof {
            lemma_save_sorted(orig, k, dv, key_lt());
            assert(final(self)@ =~= assoc_save(orig, k, dv, key_lt()));
        }
    }
}

/// The latest cross-chain query result seen per channel.
#[derive(Debug)]
pub struct LatestQueries {
    pub entries: Vec<(String, crate::msg::LatestQueryResponse)>,
}

impl View for LatestQueries {
    type V = Seq<(Seq<char>, crate::msg::LatestQueryResponseV)>;

    open spec fn view(&self) -> Seq<(Seq<char>, crate::msg::LatestQueryResponseV)> {
        self.entries@.map_values(
            |p: (String, crate::msg::LatestQueryResponse)| (p.0@, p.1@),
        )
    }
}

impl LatestQueries {
    pub open spec fn wf(&self) -> bool {
        strict_sorted(self@, key_lt())
    }

    pub fn new() -> (r: Self)
        ensures
            r@ == Seq::<(Seq<char>, crate::msg::LatestQueryResponseV)>::empty(),
            r.wf(),
    {
        let r = LatestQueries { entries: Vec::new() };
        proof {
            assert(r@ =~= Seq::<(Seq<char>, crate::msg::LatestQueryResponseV)>::empty());
        }
        r
    }

    /// The last stored result for the channel.
    pub fn get(&self, channel_id: &str) -> (r: Option<&crate::msg::LatestQueryResponse>)
        ensures
            r is Some <==> assoc_contains(self@, channel_id@),
            r matches Some(a) ==> assoc_get(self@, channel_id@) == Some(a@),
    {
        let mut i: usize = 0;
        while i < self.entries.len()
            invariant
                0 <= i <= self.entries.len(),
                forall|j: int| 0 <= j < i ==> (#[trigger] self@[j]).0 != channel_id@,
            decreases self.entries.len() - i,
        {
            if str_eq(self.entries[i].0.as_str(), channel_id) {
                proof {
                    lemma_get_skip(self@, channel_id@, i as int);
                    assert(self@.skip(i as int)[0] == self@[i as int]);
                }
                return Some(&self.entries[i].1);
            }
            i = i + 1;
        }
        proof {
            lemma_get_skip(self@, channel_id@, self@.len() as int);
            assert(self@.skip(self@.len() as int) =~= Seq::<
                (Seq<char>, crate::msg::LatestQueryResponseV),
            >::empty());
        }
        None
    }

    /// Stores the result for the channel, replacing any previous one.
    pub fn save(&mut self, channel_id: String, data: crate::msg::LatestQueryResponse)
        requires
            old(self).wf(),
        ensures
            final(self)@ == assoc_save(old(self)@, channel_id@, data@, key_lt()),
            final(self).wf(),
    {
        proof {
            lemma_key_lt_total();
        }
        let ghost orig = self@;
        let ghost k = channel_id@;
        let ghost dv = data@;
        let mut j: usize = 0;
        while j < self.entries.len() && str_lt(self.entries[j].0.as_str(), channel_id.as_str())
            invariant
                0 <= j <= self.entries.len(),
                self@ == orig,
                forall|i: int| 0 <= i < j ==> lex_lt((#[trigger] orig[i]).0, k),
            decreases self.entries.len() - j,
        {
            proof {
                assert(orig[j as int].0 == self.entries@[j as int].0@);
            }
            j = j + 1;
        }
        proof {
            lemma_save_skip(orig, k, dv, key_lt(), j as int);
        }
        if j < self.entries.len() && str_eq(self.entries[j].0.as_str(), channel_id.as_str()) {
            self.entries.remove(j);
            self.entries.insert(j, (channel_id, data));
            proof {
                assert(orig.skip(j as int)[0].0 == k);
                assert(assoc_save(orig.skip(j as int), k, dv, key_lt()) =~= seq![(k, dv)]
                    + orig.skip(j as int).drop_first());
                assert(self@ =~= orig.take(j as int) + (seq![(k, dv)] + orig.skip(
                    j as int,
                ).drop_first()));
            }
        } else {
            proof {
                if j < self.entries.len() {
                    assert(orig.skip(j as int)[0].0 == orig[j as int].0);
                    assert(!lex_lt(orig[j as int].0, k) && orig[j as int].0 != k);
                    assert(assoc_save(orig.skip(j as int), k, dv, key_lt()) =~= seq![(k, dv)]
                        + orig.skip(j as int));
                } else {
                    assert(orig.skip(j as int) =~= Seq::<
                        (Seq<char>, crate::msg::LatestQueryResponseV),
                    >::empty());
                    assert(assoc_save(orig.skip(j as int), k, dv, key_lt()) =~= seq![(k, dv)]);
                }
            }
            self.entries.insert(j, (channel_id, data));
            proof {
                assert(self@ =~= orig.take(j as int) + (seq![(k, dv)] + orig.skip(j as int)));
            }
        }
        proof {
            lemma_save_sorted(orig, k, dv, key_lt());
            assert(final(self)@ =~= assoc_save(orig, k, dv, key_lt()));
        }
    }
}

} // verus!
