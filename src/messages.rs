//! The records of the streaming protocol, and the classification of inbound
//! frames into them.
use vstd::prelude::*;

verus! {

/// The payload of an order-book message: the symbol, the changed bid and ask
/// levels as `[price, size]` text pairs, the update id and the sequence number.
#[derive(Debug, Clone)]
pub struct BybitWebSocketOrderbookData {
    pub s: String,
    pub b: Vec<[String; 2]>,
    pub a: Vec<[String; 2]>,
    pub u: u64,
    pub seq: u64,
}

/// An order-book message: `data_type` is `"snapshot"` or `"delta"`.
#[derive(Debug, Clone)]
pub struct BybitWebSocketOrderbookResponse {
    pub topic: String,
    pub data_type: String,
    pub ts: u64,
    pub data: BybitWebSocketOrderbookData,
    pub cts: u64,
}

/// A subscribe or unsubscribe request: `op` with its topics.
#[derive(Debug, Clone)]
pub struct BybitWebSocketSubscription {
    pub op: String,
    pub args: Vec<String>,
}

/// The acknowledgement of a subscription request.
#[derive(Debug, Clone)]
pub struct BybitWebSocketSubscriptionResponse {
    pub success: bool,
    pub ret_msg: String,
    pub conn_id: String,
    pub op: String,
    pub args: Vec<String>,
}

/// What an inbound frame is, once classified.
#[derive(Debug, Clone)]
pub enum BybitWebSocketMessage {
    Orderbook(BybitWebSocketOrderbookResponse),
    Subscription(BybitWebSocketSubscriptionResponse),
    Ping,
    Pong,
    Error(String),
}

} // verus!
