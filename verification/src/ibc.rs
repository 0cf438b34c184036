//! The wire-facing model of the cross-chain engine: outbound packets with
//! their correlation tag, the two-armed acknowledgement, and the fixed
//! timeout horizon every packet is sent with. The payloads a packet only
//! carries through stay opaque to the proxy.
use vstd::prelude::*;

verus! {

/// How many seconds past "now" an outbound packet stays valid.
pub const PACKET_LIFETIME: u64 = 3600;

/// The correlation tag of a price-refresh query.
pub const TWAP_QUERY: &'static str = "twap";

/// The correlation tag of a generic dispatched batch.
pub const GENERIC_CALLBACK: &'static str = "osmo_swap";

/// The eventual answer to a dispatched packet: a success payload or an
/// error string from the remote side, never both.
#[derive(Debug)]
pub enum StdAck {
    Result(Vec<u8>),
    Error(String),
}

pub enum StdAckV {
    Result(Seq<u8>),
    Error(Seq<char>),
}

impl View for StdAck {
    type V = StdAckV;

    open spec fn view(&self) -> StdAckV {
        match self {
            StdAck::Result(b) => StdAckV::Result(b@),
            StdAck::Error(e) => StdAckV::Error(e@),
        }
    }
}

impl Clone for StdAck {
    fn clone(&self) -> (r: Self)
        ensures
            r@ == self@,
    {
        match self {
            StdAck::Result(b) => StdAck::Result(b.clone()),
            StdAck::Error(e) => StdAck::Error(e.clone()),
        }
    }
}

/// An outbound packet body. `Q` is whatever message or query type the
/// caller routes through; the proxy never looks inside.
#[derive(Debug)]
pub enum PacketMsg<Q> {
    /// Execute the carried messages remotely, optionally asking for a
    /// correlated callback.
    Dispatch { sender: String, msgs: Vec<Q>, callback_id: Option<String> },
    /// Run the carried queries remotely.
    IbcQuery { sender: String, msgs: Vec<Q>, callback_id: Option<String> },
    /// Report the remote account's balances.
    Balances,
    /// Send every held coin back over the named transfer channel.
    SendAllBack { sender: String, transfer_channel: String },
}

/// One packet headed out: the channel, the body, and the absolute second
/// it times out at.
#[derive(Debug)]
pub struct IbcSend<Q> {
    pub channel_id: String,
    pub packet: PacketMsg<Q>,
    pub timeout_seconds: u64,
}

/// A query crafted for the oracle: the time-weighted average price of one
/// pool over the lookback window.
#[derive(Debug)]
pub struct TwapQuery {
    pub pool_id: u64,
    pub quote_asset_denom: String,
    pub base_asset_denom: String,
    pub start_time: i64,
}

pub struct TwapQueryV {
    pub pool_id: u64,
    pub quote_asset_denom: Seq<char>,
    pub base_asset_denom: Seq<char>,
    pub start_time: i64,
}

impl View for TwapQuery {
    type V = TwapQueryV;

    open spec fn view(&self) -> TwapQueryV {
        TwapQueryV {
            pool_id: self.pool_id,
            quote_asset_denom: self.quote_asset_denom@,
            base_asset_denom: self.base_asset_denom@,
            start_time: self.start_time,
        }
    }
}

/// One cross-chain fungible-token transfer.
#[derive(Debug)]
pub struct TransferMsg {
    pub channel_id: String,
    pub to_address: String,
    pub amount: crate::state::Coin,
    pub timeout_seconds: u64,
}

} // verus!
