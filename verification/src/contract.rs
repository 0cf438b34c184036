//! The proxy's life as a chain resident: its whole durable state in one
//! place, the outbound packets it builds, and the correlation of inbound
//! acknowledgements back to the oracle cache or the forwarding policy.
//! Dispatch and acknowledgement run in separate transactions; everything
//! that links them lives in the stores.
use vstd::prelude::*;

use crate::commands::mods;
use crate::decimal::{decimal_atomics_of, parse_decimal_atomics, Decimal};
use crate::error::ProxyError;
use crate::ibc::{
    IbcSend, PacketMsg, StdAck, StdAckV, GENERIC_CALLBACK, PACKET_LIFETIME, TWAP_QUERY,
};
use crate::kv::{assoc_contains, assoc_get, assoc_save};
use crate::msg::{
    AccountInfo, AccountResponse, AdminResponse, LatestQueryResponse,
};
use crate::state::{
    key_lt, pool_lt, Accounts, AccountData, AssetRegistry, Coin, LatestQueries, OraclePrice,
    PriceCache, State, TWAPInfo,
};
use crate::contract_entry::ContractEntryV;
use crate::strutil::str_eq;

verus! {

/// Everything the proxy keeps between transactions.
#[derive(Debug)]
pub struct ProxyStore {
    pub os_id: u32,
    pub admin: String,
    pub retries: u8,
    pub memory_address: String,
    pub state: State,
    pub twap: TWAPInfo,
    pub vault_assets: AssetRegistry,
    pub pool_prices: PriceCache,
    pub accounts: Accounts,
    pub latest_queries: LatestQueries,
}

impl ProxyStore {
    pub open spec fn wf(&self) -> bool {
        self.vault_assets.wf() && self.pool_prices.wf() && self.accounts.wf()
            && self.latest_queries.wf() && self.state.modules@.len()
            <= crate::state::LIST_SIZE_LIMIT
    }
}

/// Sets the proxy up: the caller becomes admin, every store starts empty,
/// and the oracle channel is unbound until it is set.
pub fn instantiate(os_id: u32, memory_address: String, sender: String) -> (r: ProxyStore)
    ensures
        r.wf(),
        r.os_id == os_id,
        r.admin@ == sender@,
        r.retries == 0,
        r.memory_address@ == memory_address@,
        r.state.modules@.len() == 0,
        r.twap.channel_id@ == Seq::<char>::empty(),
        r.twap.last_update == 0,
        r.vault_assets@.len() == 0,
        r.pool_prices@.len() == 0,
        r.accounts@.len() == 0,
        r.latest_queries@.len() == 0,
{
    ProxyStore {
        os_id,
        admin: sender,
        retries: 0,
        memory_address,
        state: State { modules: Vec::new() },
        twap: TWAPInfo { channel_id: String::new(), last_update: 0 },
        vault_assets: AssetRegistry::new(),
        pool_prices: PriceCache::new(),
        accounts: Accounts::new(),
        latest_queries: LatestQueries::new(),
    }
}

/// Binds the channel the oracle queries travel on.
pub fn set_twap_channel(twap: &mut TWAPInfo, channel_id: String)
    ensures
        final(twap).channel_id@ == channel_id@,
        final(twap).last_update == old(twap).last_update,
{
    twap.channel_id = channel_id;
}

/// Builds the packet that runs the given queries on a remote chain; no
/// authorization is needed to read.
pub fn execute_ibc_query<Q>(
    sender: &str,
    channel_id: String,
    msgs: Vec<Q>,
    callback_id: Option<String>,
    now: u64,
) -> (r: IbcSend<Q>)
    requires
        now <= u64::MAX - PACKET_LIFETIME,
    ensures
        r.channel_id@ == channel_id@,
        r.timeout_seconds == now + PACKET_LIFETIME,
        r.packet matches PacketMsg::IbcQuery { sender: s, msgs: m, callback_id: c } && s@
            == sender@ && m@ == msgs@ && (match (c, callback_id) {
            (Some(a), Some(b)) => a@ == b@,
            (None, None) => true,
            _ => false,
        }),
{
    IbcSend {
        channel_id,
        packet: PacketMsg::IbcQuery { sender: String::from_str(sender), msgs, callback_id },
        timeout_seconds: now + PACKET_LIFETIME,
    }
}

/// Builds the packet that executes a whitelisted module's messages on the
/// remote chain, tagged for the generic callback. The sender must be
/// whitelisted and the oracle channel must have an account bound.
pub fn execute_send_msgs<M>(
    state: &State,
    twap: &TWAPInfo,
    accounts: &Accounts,
    sender: &str,
    contract_address: &str,
    msgs: Vec<M>,
    now: u64,
) -> (r: Result<IbcSend<M>, ProxyError>)
    requires
        now <= u64::MAX - PACKET_LIFETIME,
    ensures
        !mods(state.modules@).contains(sender@) ==> r == Err::<IbcSend<M>, ProxyError>(
            ProxyError::SenderNotWhitelisted,
        ),
        mods(state.modules@).contains(sender@) && !assoc_contains(accounts@, twap.channel_id@)
            ==> r == Err::<IbcSend<M>, ProxyError>(ProxyError::ChannelNotBound),
        mods(state.modules@).contains(sender@) && assoc_contains(accounts@, twap.channel_id@)
            ==> (r matches Ok(send) && send.channel_id@ == twap.channel_id@
            && send.timeout_seconds == now + PACKET_LIFETIME
            && (send.packet matches PacketMsg::Dispatch { sender: s, msgs: m, callback_id: c }
            && s@ == contract_address@ && m@ == msgs@ && (c matches Some(cb) && cb@
            == GENERIC_CALLBACK@))),
{
    if !crate::commands::contains_module(&state.modules, sender) {
        return Err(ProxyError::SenderNotWhitelisted);
    }
    if accounts.get(twap.channel_id.as_str()).is_none() {
        return Err(ProxyError::ChannelNotBound);
    }
    Ok(
        IbcSend {
            channel_id: twap.channel_id.clone(),
            packet: PacketMsg::Dispatch {
                sender: String::from_str(contract_address),
                msgs,
                callback_id: Some(String::from_str(GENERIC_CALLBACK)),
            },
            timeout_seconds: now + PACKET_LIFETIME,
        },
    )
}

/// Builds the packet that asks the remote account on a channel to report
/// its balances; the channel must have an account bound.
pub fn execute_check_remote_balance<Q>(accounts: &Accounts, channel_id: String, now: u64) -> (r:
    Result<IbcSend<Q>, ProxyError>)
    requires
        now <= u64::MAX - PACKET_LIFETIME,
    ensures
        !assoc_contains(accounts@, channel_id@) ==> r == Err::<IbcSend<Q>, ProxyError>(
            ProxyError::ChannelNotBound,
        ),
        assoc_contains(accounts@, channel_id@) ==> (r matches Ok(send) && send.channel_id@
            == channel_id@ && send.timeout_seconds == now + PACKET_LIFETIME
            && send.packet matches PacketMsg::Balances),
{
    if accounts.get(channel_id.as_str()).is_none() {
        return Err(ProxyError::ChannelNotBound);
    }
    Ok(IbcSend { channel_id, packet: PacketMsg::Balances, timeout_seconds: now + PACKET_LIFETIME })
}

/// Builds the transfers that move the given coins to the remote account
/// bound to the oracle channel. The sender must be whitelisted, and the
/// remote side must have reported its address already.
pub fn execute_send_funds(
    state: &State,
    twap: &TWAPInfo,
    accounts: &Accounts,
    sender: &str,
    coins: Vec<Coin>,
    transfer_channel_id: String,
    now: u64,
) -> (r: Result<Vec<crate::ibc::TransferMsg>, ProxyError>)
    requires
        now <= u64::MAX - PACKET_LIFETIME,
    ensures
        !mods(state.modules@).contains(sender@) ==> r == Err::<
            Vec<crate::ibc::TransferMsg>,
            ProxyError,
        >(ProxyError::SenderNotWhitelisted),
        mods(state.modules@).contains(sender@) && !assoc_contains(accounts@, twap.channel_id@)
            ==> r == Err::<Vec<crate::ibc::TransferMsg>, ProxyError>(ProxyError::ChannelNotBound),
        mods(state.modules@).contains(sender@) && assoc_contains(accounts@, twap.channel_id@)
            && assoc_get(accounts@, twap.channel_id@)->Some_0.remote_addr is None ==> r == Err::<
            Vec<crate::ibc::TransferMsg>,
            ProxyError,
        >(ProxyError::NoRemoteAddress),
        mods(state.modules@).contains(sender@) && assoc_contains(accounts@, twap.channel_id@)
            && assoc_get(accounts@, twap.channel_id@)->Some_0.remote_addr is Some ==> (r matches
        Ok(msgs) && msgs@.len() == coins@.len() && forall|i: int|
            0 <= i < coins@.len() ==> (#[trigger] msgs@[i]).channel_id@ == transfer_channel_id@
                && msgs@[i].to_address@ == assoc_get(
                accounts@,
                twap.channel_id@,
            )->Some_0.remote_addr->Some_0 && msgs@[i].amount@ == coins@[i]@
                && msgs@[i].timeout_seconds == now + PACKET_LIFETIME),
{
    if !crate::commands::contains_module(&state.modules, sender) {
        return Err(ProxyError::SenderNotWhitelisted);
    }
    let data = match accounts.get(twap.channel_id.as_str()) {
        None => {
            return Err(ProxyError::ChannelNotBound);
        },
        Some(d) => d,
    };
    let remote_addr = match &data.remote_addr {
        Some(addr) => addr.clone(),
        None => {
            return Err(ProxyError::NoRemoteAddress);
        },
    };
    let mut msgs: Vec<crate::ibc::TransferMsg> = Vec::new();
    let mut i: usize = 0;
    while i < coins.len()
        invariant
            0 <= i <= coins.len(),
            msgs@.len() == i,
            remote_addr@ == assoc_get(accounts@, twap.channel_id@)->Some_0.remote_addr->Some_0,
            forall|j: int|
                0 <= j < i ==> (#[trigger] msgs@[j]).channel_id@ == transfer_channel_id@
                    && msgs@[j].to_address@ == remote_addr@ && msgs@[j].amount@ == coins@[j]@
                    && msgs@[j].timeout_seconds == now + PACKET_LIFETIME,
        decreases coins.len() - i,
    {
        msgs.push(
            crate::ibc::TransferMsg {
                channel_id: transfer_channel_id.clone(),
                to_address: remote_addr.clone(),
                amount: coins[i].clone(),
                timeout_seconds: now + PACKET_LIFETIME,
            },
        );
        i = i + 1;
    }
    Ok(msgs)
}

/// The character sequences a list of strings holds.
pub open spec fn str_views(v: Seq<String>) -> Seq<Seq<char>> {
    v.map_values(|s: String| s@)
}

/// The tracked pool keys in descending order, the order queries and
/// answers are correlated in.
pub open spec fn desc_keys(prices: Seq<(ContractEntryV, u128)>) -> Seq<ContractEntryV> {
    Seq::new(prices.len(), |i: int| prices[prices.len() - 1 - i].0)
}

/// The price cache after the first `upto` answers are written to their
/// pools, in correlation order.
pub open spec fn apply_twaps(
    prices: Seq<(ContractEntryV, u128)>,
    keys: Seq<ContractEntryV>,
    vals: Seq<Seq<char>>,
    upto: int,
) -> Seq<(ContractEntryV, u128)>
    decreases upto,
{
    if upto <= 0 {
        prices
    } else {
        assoc_save(
            apply_twaps(prices, keys, vals, upto - 1),
            keys[upto - 1],
            decimal_atomics_of(vals[upto - 1])->Some_0,
            pool_lt(),
        )
    }
}

/// Writes a batch of answered prices into the oracle cache: the answers
/// are zipped positionally against the tracked pools in descending key
/// order, truncating at the shorter side. One unreadable numeral refuses
/// the whole batch.
pub fn apply_twap_results(pool_prices: &mut PriceCache, results: &Vec<String>) -> (r: Result<
    (),
    ProxyError,
>)
    requires
        old(pool_prices).wf(),
    ensures
        final(pool_prices).wf(),
        ({
            let m = if old(pool_prices)@.len() < results@.len() {
                old(pool_prices)@.len() as int
            } else {
                results@.len() as int
            };
            &&& (r is Ok <==> (forall|i: int|
                0 <= i < m ==> decimal_atomics_of((#[trigger] str_views(results@)[i])) is Some))
            &&& (r is Ok ==> final(pool_prices)@ == apply_twaps(
                old(pool_prices)@,
                desc_keys(old(pool_prices)@),
                str_views(results@),
                m,
            ))
            &&& (r is Err ==> final(pool_prices)@ == old(pool_prices)@ && r == Err::<
                (),
                ProxyError,
            >(ProxyError::DecimalParse))
        }),
{
    let ghost orig = pool_prices@;
    let keys = pool_prices.keys_descending();
    let count = if keys.len() < results.len() {
        keys.len()
    } else {
        results.len()
    };
    let ghost m = count as int;
    let mut parsed: Vec<u128> = Vec::new();
    let mut i: usize = 0;
    while i < count
        invariant
            0 <= i <= count,
            count == m,
            m == if orig.len() < results@.len() {
                orig.len() as int
            } else {
                results@.len() as int
            },
            parsed@.len() == i,
            forall|j: int|
                0 <= j < i ==> decimal_atomics_of(#[trigger] str_views(results@)[j]) == Some(
                    parsed@[j],
                ),
        decreases count - i,
    {
        match parse_decimal_atomics(results[i].as_str()) {
            None => {
                proof {
                    assert(str_views(results@)[i as int] == results@[i as int]@);
                    assert(decimal_atomics_of(str_views(results@)[i as int]) is None);
                }
                return Err(ProxyError::DecimalParse);
            },
            Some(v) => {
                proof {
                    assert(str_views(results@)[i as int] == results@[i as int]@);
                }
                parsed.push(v);
            },
        }
        i = i + 1;
    }
    let mut w: usize = 0;
    while w < count
        invariant
            0 <= w <= count,
            count == m,
            m <= orig.len(),
            keys@.len() == orig.len(),
            forall|j: int| 0 <= j < keys@.len() ==> (#[trigger] keys@[j])@ == desc_keys(orig)[j],
            parsed@.len() == count,
            forall|j: int|
                0 <= j < count ==> decimal_atomics_of(#[trigger] str_views(results@)[j]) == Some(
                    parsed@[j],
                ),
            pool_prices@ == apply_twaps(orig, desc_keys(orig), str_views(results@), w as int),
            pool_prices.wf(),
        decreases count - w,
    {
        pool_prices.save(keys[w].clone(), OraclePrice { price: Decimal(parsed[w]) });
        w = w + 1;
    }
    Ok(())
}

/// What an acknowledgement asks the proxy to do next.
#[derive(Debug, PartialEq, Eq, Structural)]
pub enum AckOutcome {
    /// The oracle cache was refreshed; nothing further.
    PricesRefreshed,
    /// Forward everything held remotely back home; the caller builds the
    /// packet once it has resolved the transfer route.
    ForwardAll,
    /// The tag was unknown or absent; the acknowledgement is dropped.
    Ignored,
}

/// Receives the acknowledgement of an earlier packet and dispatches on
/// its correlation tag: a price-refresh tag zips the decoded answers into
/// the oracle cache, the generic tag asks for the forwarding policy, any
/// other tag is ignored. An error acknowledgement aborts with the remote
/// message and changes nothing.
pub fn handle_ica_resp(
    pool_prices: &mut PriceCache,
    id: &str,
    ack: &StdAck,
    twap_results: &Vec<String>,
) -> (r: Result<AckOutcome, ProxyError>)
    requires
        old(pool_prices).wf(),
    ensures
        final(pool_prices).wf(),
        ack@ matches StdAckV::Error(e) ==> (final(pool_prices)@ == old(pool_prices)@
            && (r matches Err(pe) && (pe matches ProxyError::RemoteError { message } && message@
            == e))),
        ack@ is Result && id@ == TWAP_QUERY@ ==> ({
            let m = if old(pool_prices)@.len() < twap_results@.len() {
                old(pool_prices)@.len() as int
            } else {
                twap_results@.len() as int
            };
            &&& (r is Ok <==> (forall|i: int|
                0 <= i < m ==> decimal_atomics_of(
                    (#[trigger] str_views(twap_results@)[i]),
                ) is Some))
            &&& (r is Ok ==> r == Ok::<AckOutcome, ProxyError>(AckOutcome::PricesRefreshed)
                && final(pool_prices)@ == apply_twaps(
                old(pool_prices)@,
                desc_keys(old(pool_prices)@),
                str_views(twap_results@),
                m,
            ))
            &&& (r is Err ==> final(pool_prices)@ == old(pool_prices)@ && r == Err::<
                AckOutcome,
                ProxyError,
            >(ProxyError::DecimalParse))
        }),
        ack@ is Result && id@ != TWAP_QUERY@ && id@ == GENERIC_CALLBACK@ ==> r == Ok::<
            AckOutcome,
            ProxyError,
        >(AckOutcome::ForwardAll) && final(pool_prices)@ == old(pool_prices)@,
        ack@ is Result && id@ != TWAP_QUERY@ && id@ != GENERIC_CALLBACK@ ==> r == Ok::<
            AckOutcome,
            ProxyError,
        >(AckOutcome::Ignored) && final(pool_prices)@ == old(pool_prices)@,
{
    match ack {
        StdAck::Error(e) => Err(ProxyError::RemoteError { message: e.clone() }),
        StdAck::Result(_) => {
            if str_eq(id, TWAP_QUERY) {
                match apply_twap_results(pool_prices, twap_results) {
                    Ok(_) => Ok(AckOutcome::PricesRefreshed),
                    Err(e) => Err(e),
                }
            } else if str_eq(id, GENERIC_CALLBACK) {
                Ok(AckOutcome::ForwardAll)
            } else {
                Ok(AckOutcome::Ignored)
            }
        },
    }
}

/// Builds the packet that sends every remotely held coin back home over
/// the named transfer route, on the oracle channel.
pub fn build_send_all_back<Q>(
    sender: &str,
    transfer_channel: &str,
    channel_id: &str,
    now: u64,
) -> (r: IbcSend<Q>)
    requires
        now <= u64::MAX - PACKET_LIFETIME,
    ensures
        r.channel_id@ == channel_id@,
        r.timeout_seconds == now + PACKET_LIFETIME,
        r.packet matches PacketMsg::SendAllBack { sender: s, transfer_channel: t } && s@ == sender@
            && t@ == transfer_channel@,
{
    IbcSend {
        channel_id: String::from_str(channel_id),
        packet: PacketMsg::SendAllBack {
            sender: String::from_str(sender),
            transfer_channel: String::from_str(transfer_channel),
        },
        timeout_seconds: now + PACKET_LIFETIME,
    }
}

/// Notes the balances the remote account reported; the cached address
/// survives, the snapshot time moves to now.
pub fn on_balance_reported(accounts: &mut Accounts, channel_id: String, balance: Vec<Coin>, now: u64)
    requires
        old(accounts).wf(),
    ensures
        final(accounts).wf(),
        ({
            let prev = assoc_get(old(accounts)@, channel_id@);
            final(accounts)@ == assoc_save(
                old(accounts)@,
                channel_id@,
                (crate::state::AccountDataV {
                    last_update_time: now,
                    remote_addr: match prev {
                        Some(a) => a.remote_addr,
                        None => None,
                    },
                    remote_balance: balance@.map_values(|c: Coin| c@),
                }),
                key_lt(),
            )
        }),
{
    let prev_addr: Option<String> = match accounts.get(channel_id.as_str()) {
        Some(a) => match &a.remote_addr {
            Some(addr) => Some(addr.clone()),
            None => None,
        },
        None => None,
    };
    let data = AccountData { last_update_time: now, remote_addr: prev_addr, remote_balance: balance };
    accounts.save(channel_id, data);
}

/// Notes the address the remote account reported; the cached balances
/// survive, the snapshot time moves to now.
pub fn on_account_reported(accounts: &mut Accounts, channel_id: String, remote_addr: String, now: u64)
    requires
        old(accounts).wf(),
    ensures
        final(accounts).wf(),
        ({
            let prev = assoc_get(old(accounts)@, channel_id@);
            final(accounts)@ == assoc_save(
                old(accounts)@,
                channel_id@,
                (crate::state::AccountDataV {
                    last_update_time: now,
                    remote_addr: Some(remote_addr@),
                    remote_balance: match prev {
                        Some(a) => a.remote_balance,
                        None => Seq::empty(),
                    },
                }),
                key_lt(),
            )
        }),
{
    let prev_balance: Vec<Coin> = match accounts.get(channel_id.as_str()) {
        Some(a) => {
            let mut bal: Vec<Coin> = Vec::new();
            let mut i: usize = 0;
            while i < a.remote_balance.len()
                invariant
                    0 <= i <= a.remote_balance.len(),
                    bal@.len() == i,
                    forall|j: int| 0 <= j < i ==> (#[trigger] bal@[j])@ == a.remote_balance@[j]@,
                decreases a.remote_balance.len() - i,
            {
                bal.push(a.remote_balance[i].clone());
                i = i + 1;
            }
            proof {
                assert(bal@.map_values(|c: Coin| c@) =~= a.remote_balance@.map_values(
                    |c: Coin| c@,
                ));
            }
            bal
        },
        None => Vec::new(),
    };
    proof {
        if assoc_get(old(accounts)@, channel_id@) is None {
            assert(prev_balance@.map_values(|c: Coin| c@) =~= Seq::<crate::state::CoinV>::empty());
        }
    }
    let data = AccountData {
        last_update_time: now,
        remote_addr: Some(remote_addr),
        remote_balance: prev_balance,
    };
    accounts.save(channel_id, data);
}

/// Stores the latest query result seen on a channel.
pub fn store_latest_query(latest: &mut LatestQueries, channel_id: String, ack: StdAck, now: u64)
    requires
        old(latest).wf(),
    ensures
        final(latest).wf(),
        final(latest)@ == assoc_save(
            old(latest)@,
            channel_id@,
            (crate::msg::LatestQueryResponseV { last_update_time: now, response: ack@ }),
            key_lt(),
        ),
{
    latest.save(channel_id, LatestQueryResponse { last_update_time: now, response: ack });
}

/// The current admin.
pub fn query_admin(admin: &String) -> (r: AdminResponse)
    ensures
        r.admin@ == admin@,
{
    AdminResponse { admin: admin.clone() }
}

/// The account bound to one channel; an unbound channel is refused.
pub fn query_account(accounts: &Accounts, channel_id: &str) -> (r: Result<
    AccountResponse,
    ProxyError,
>)
    ensures
        r is Ok <==> assoc_contains(accounts@, channel_id@),
        r matches Ok(resp) ==> assoc_get(accounts@, channel_id@) matches Some(a)
            && resp.last_update_time == a.last_update_time && (match resp.remote_addr {
            Some(x) => a.remote_addr == Some(x@),
            None => a.remote_addr is None,
        }) && resp.remote_balance@.map_values(|c: Coin| c@) == a.remote_balance,
        r is Err ==> r == Err::<AccountResponse, ProxyError>(ProxyError::ChannelNotBound),
{
    match accounts.get(channel_id) {
        None => Err(ProxyError::ChannelNotBound),
        Some(a) => Ok(AccountResponse::from_data(a.clone())),
    }
}

/// Every open account, each tagged with its channel.
pub fn query_list_accounts(accounts: &Accounts) -> (r: crate::msg::ListAccountsResponse)
    ensures
        r.accounts@.len() == accounts@.len(),
        forall|i: int|
            0 <= i < accounts@.len() ==> (#[trigger] r.accounts@[i]).channel_id@ == accounts@[i].0
                && r.accounts@[i].last_update_time == accounts@[i].1.last_update_time && (match r.accounts@[i].remote_addr {
                Some(x) => accounts@[i].1.remote_addr == Some(x@),
                None => accounts@[i].1.remote_addr is None,
            }) && r.accounts@[i].remote_balance@.map_values(|c: Coin| c@)
                == accounts@[i].1.remote_balance,
{
    let mut out: Vec<AccountInfo> = Vec::new();
    let mut i: usize = 0;
    while i < accounts.entries.len()
        invariant
            0 <= i <= accounts.entries.len(),
            out@.len() == i,
            forall|j: int|
                0 <= j < i ==> (#[trigger] out@[j]).channel_id@ == accounts@[j].0
                    && out@[j].last_update_time == accounts@[j].1.last_update_time && (match out@[j].remote_addr {
                    Some(x) => accounts@[j].1.remote_addr == Some(x@),
                    None => accounts@[j].1.remote_addr is None,
                }) && out@[j].remote_balance@.map_values(|c: Coin| c@)
                    == accounts@[j].1.remote_balance,
        decreases accounts.entries.len() - i,
    {
        let info = AccountInfo::convert(
            accounts.entries[i].0.clone(),
            accounts.entries[i].1.clone(),
        );
        out.push(info);
        i = i + 1;
    }
    crate::msg::ListAccountsResponse { accounts: out }
}

/// The latest query result seen on one channel; none stored is refused.
pub fn query_latest_ibc_query_result(latest: &LatestQueries, channel_id: &str) -> (r: Result<
    LatestQueryResponse,
    ProxyError,
>)
    ensures
        r is Ok <==> assoc_contains(latest@, channel_id@),
        r matches Ok(resp) ==> assoc_get(latest@, channel_id@) == Some(resp@),
        r is Err ==> r == Err::<LatestQueryResponse, ProxyError>(ProxyError::ChannelNotBound),
{
    match latest.get(channel_id) {
        None => Err(ProxyError::ChannelNotBound),
        Some(resp) => Ok(resp.clone()),
    }
}

} // verus!
