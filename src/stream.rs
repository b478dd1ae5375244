//! The streaming session: endpoint selection, subscription requests, the
//! classification of inbound frames, and the connect / reconnect policy as a
//! state machine that the caller drives.
use vstd::prelude::*;

use crate::messages::{
    BybitWebSocketMessage, BybitWebSocketOrderbookResponse, BybitWebSocketSubscription,
    BybitWebSocketSubscriptionResponse,
};
use crate::text::{nat_text, push_nat_text};
use vstd::string::StringSliceAdditionalSpecFns;
use vstd::utf8::encode_utf8;

verus! {

/// The stream families of the exchange.
#[derive(Debug, Clone, Copy, PartialEq, Eq, Structural)]
pub enum BybitStreamType {
    Spot,
    Linear,
    Inverse,
    Spread,
    Option,
}

pub open spec fn stream_base(is_testnet: bool) -> Seq<char> {
    if is_testnet {
        "wss://stream-testnet.bybit.com/v5/public"@
    } else {
        "wss://stream.bybit.com/v5/public"@
    }
}

pub open spec fn stream_path(t: BybitStreamType) -> Seq<char> {
    match t {
        BybitStreamType::Spot => "/spot"@,
        BybitStreamType::Linear => "/linear"@,
        BybitStreamType::Inverse => "/inverse"@,
        BybitStreamType::Spread => "/spread"@,
        BybitStreamType::Option => "/option"@,
    }
}

impl BybitStreamType {
    /// The public stream URL of this family, on testnet or mainnet.
    pub fn get_url(&self, is_testnet: bool) -> (r: String)
        ensures
            r@ == stream_base(is_testnet) + stream_path(*self),
    {
        let mut url = if is_testnet {
            String::from_str("wss://stream-testnet.bybit.com/v5/public")
        } else {
            String::from_str("wss://stream.bybit.com/v5/public")
        };
        let path = match self {
            BybitStreamType::Spot => "/spot",
            BybitStreamType::Linear => "/linear",
            BybitStreamType::Inverse => "/inverse",
            BybitStreamType::Spread => "/spread",
            BybitStreamType::Option => "/option",
        };
        url.append(path);
        url
    }
}

/// What a session is opened with: the stream, the network, and the
/// reconnect policy.
#[derive(Debug, Clone, Copy)]
pub struct BybitWebSocketConfig {
    pub stream_type: BybitStreamType,
    pub is_testnet: bool,
    pub max_reconnect_attempts: u32,
    pub reconnect_delay_ms: u64,
}

impl Default for BybitWebSocketConfig {
    /// Linear perpetuals on testnet, five attempts one second apart.
    fn default() -> (r: Self)
        ensures
            r.stream_type == BybitStreamType::Linear,
            r.is_testnet,
            r.max_reconnect_attempts == 5,
            r.reconnect_delay_ms == 1000,
    {
        BybitWebSocketConfig {
            stream_type: BybitStreamType::Linear,
            is_testnet: true,
            max_reconnect_attempts: 5,
            reconnect_delay_ms: 1000,
        }
    }
}

/// `orderbook.<depth>.<symbol>`.
pub open spec fn orderbook_topic_text(symbol: Seq<char>, depth: u32) -> Seq<char> {
    "orderbook."@ + nat_text(depth as nat) + "."@ + symbol
}

/// The order-book topic of a symbol at a depth.
pub fn orderbook_topic(symbol: &str, depth: u32) -> (r: String)
    ensures
        r@ == orderbook_topic_text(symbol@, depth),
{
    let mut t = String::from_str("orderbook.");
    push_nat_text(&mut t, depth as u64);
    t.append(".");
    t.append(symbol);
    t
}

impl BybitWebSocketSubscription {
    /// The request that subscribes to a symbol's order book at a depth.
    pub fn subscribe_orderbook(symbol: &str, depth: u32) -> (r: Self)
        ensures
            r.op@ == "subscribe"@,
            r.args.deep_view() == seq![orderbook_topic_text(symbol@, depth)],
    {
        let topic = orderbook_topic(symbol, depth);
        let mut args: Vec<String> = Vec::new();
        args.push(topic);
        proof {
            assert(args.deep_view() =~= seq![orderbook_topic_text(symbol@, depth)]);
        }
        BybitWebSocketSubscription { op: String::from_str("subscribe"), args }
    }

    /// The request that ends a subscription to a symbol's order book.
    pub fn unsubscribe_orderbook(symbol: &str, depth: u32) -> (r: Self)
        ensures
            r.op@ == "unsubscribe"@,
            r.args.deep_view() == seq![orderbook_topic_text(symbol@, depth)],
    {
        let topic = orderbook_topic(symbol, depth);
        let mut args: Vec<String> = Vec::new();
        args.push(topic);
        proof {
            assert(args.deep_view() =~= seq![orderbook_topic_text(symbol@, depth)]);
        }
        BybitWebSocketSubscription { op: String::from_str("unsubscribe"), args }
    }
}

/// `n` occurs in `h` as a run of consecutive bytes.
pub open spec fn has_substring(h: Seq<u8>, n: Seq<u8>) -> bool {
    exists|i: int| 0 <= i && i + n.len() <= h.len() && #[trigger] h.subrange(i, i + n.len()) == n
}

/// Whether `needle` occurs in `hay`.
pub fn text_contains(hay: &str, needle: &str) -> (r: bool)
    ensures
        r == has_substring(encode_utf8(hay@), encode_utf8(needle@)),
{
    let h = hay.as_bytes();
    let n = needle.as_bytes();
    let hl = h.len();
    let nl = n.len();
    if nl > hl {
        return false;
    }
    let mut i: usize = 0;
    while i <= hl - nl
        invariant
            h@ == encode_utf8(hay@),
            n@ == encode_utf8(needle@),
            hl == h@.len(),
            nl == n@.len(),
            nl <= hl,
            forall|j: int| 0 <= j < i ==> #[trigger] h@.subrange(j, j + nl) != n@,
        decreases hl - nl + 1 - i,
    {
        let mut k: usize = 0;
        while k < nl && h[i + k] == n[k]
            invariant
                hl == h@.len(),
                nl == n@.len(),
                i + nl <= hl,
                k <= nl,
                forall|t: int| 0 <= t < k ==> h@[i + t] == n@[t],
            decreases nl - k,
        {
            k = k + 1;
        }
        if k == nl {
            proof {
                assert(h@.subrange(i as int, i + nl) =~= n@);
                assert(h@.subrange(i as int, i as int + n@.len()) == n@);
            }
            return true;
        }
        proof {
            assert(h@.subrange(i as int, i + nl)[k as int] != n@[k as int]);
        }
        i = i + 1;
    }
    false
}

/// A frame as the transport delivers it.
#[derive(Debug, Clone)]
pub enum InboundFrame {
    Text(String),
    Ping,
    Pong,
    Close,
    /// The transport failed, with its description.
    TransportError(String),
    /// Any other frame, such as binary data.
    Other,
}

/// What becomes of one frame: the message handed on, if any, and whether
/// the session goes on reading.
#[derive(Debug, Clone)]
pub struct FrameOutcome {
    pub message: Option<BybitWebSocketMessage>,
    pub keep_reading: bool,
}

/// How a text frame is classified, given what it reads as under the
/// order-book and the acknowledgement schemas: an order-book message first,
/// then an acknowledgement, then a text naming `ping`, then one naming
/// `pong`; anything else is an error carrying the text.
pub open spec fn text_message_kind(
    text: Seq<char>,
    as_orderbook: Option<BybitWebSocketOrderbookResponse>,
    as_subscription: Option<BybitWebSocketSubscriptionResponse>,
    m: BybitWebSocketMessage,
) -> bool {
    match as_orderbook {
        Some(o) => m == BybitWebSocketMessage::Orderbook(o),
        None => match as_subscription {
            Some(s) => m == BybitWebSocketMessage::Subscription(s),
            None => if has_substring(encode_utf8(text), encode_utf8("ping"@)) {
                m is Ping
            } else if has_substring(encode_utf8(text), encode_utf8("pong"@)) {
                m is Pong
            } else {
                m matches BybitWebSocketMessage::Error(e) && e@ == "Unknown message: "@ + text
            },
        },
    }
}

/// Classifies one inbound frame. For a text frame, `as_orderbook` and
/// `as_subscription` are what its text reads as under the two schemas.
/// Control frames are classified by their kind alone; a close ends the
/// reading, and so does a transport error, after it is reported.
pub fn classify_frame(
    frame: InboundFrame,
    as_orderbook: Option<BybitWebSocketOrderbookResponse>,
    as_subscription: Option<BybitWebSocketSubscriptionResponse>,
) -> (r: FrameOutcome)
    ensures
        match frame {
            InboundFrame::Text(t) => r.keep_reading && (r.message matches Some(m)
                && text_message_kind(t@, as_orderbook, as_subscription, m)),
            InboundFrame::Ping => r.keep_reading && r.message matches Some(
                BybitWebSocketMessage::Ping,
            ),
            InboundFrame::Pong => r.keep_reading && r.message matches Some(
                BybitWebSocketMessage::Pong,
            ),
            InboundFrame::Close => !r.keep_reading && r.message is None,
            InboundFrame::TransportError(e) => !r.keep_reading && (r.message matches Some(
                BybitWebSocketMessage::Error(m),
            ) && m@ == "WebSocket error: "@ + e@),
            InboundFrame::Other => r.keep_reading && r.message is None,
        },
{
    match frame {
        InboundFrame::Text(t) => {
            let m = match as_orderbook {
                Some(o) => BybitWebSocketMessage::Orderbook(o),
                None => match as_subscription {
                    Some(s) => BybitWebSocketMessage::Subscription(s),
                    None => {
                        if text_contains(t.as_str(), "ping") {
                            BybitWebSocketMessage::Ping
                        } else if text_contains(t.as_str(), "pong") {
                            BybitWebSocketMessage::Pong
                        } else {
                            let mut e = String::from_str("Unknown message: ");
                            e.append(t.as_str());
                            BybitWebSocketMessage::Error(e)
                        }
                    },
                },
            };
            FrameOutcome { message: Some(m), keep_reading: true }
        },
        InboundFrame::Ping => FrameOutcome {
            message: Some(BybitWebSocketMessage::Ping),
            keep_reading: true,
        },
        InboundFrame::Pong => FrameOutcome {
            message: Some(BybitWebSocketMessage::Pong),
            keep_reading: true,
        },
        InboundFrame::Close => FrameOutcome { message: None, keep_reading: false },
        InboundFrame::TransportError(err) => {
            let mut e = String::from_str("WebSocket error: ");
            e.append(err.as_str());
            FrameOutcome { message: Some(BybitWebSocketMessage::Error(e)), keep_reading: false }
        },
        InboundFrame::Other => FrameOutcome { message: None, keep_reading: true },
    }
}

/// Where a session stands. `attempt` counts the connection attempts made so
/// far in the current round, the one under way included.
#[derive(Debug, Clone, Copy, PartialEq, Eq, Structural)]
pub enum SessionState {
    Disconnected,
    Connecting { attempt: u32 },
    Connected,
    Reconnecting { attempt: u32 },
    Closing,
    /// The attempts are spent; the session tries no more.
    Failed,
}

/// What happened to a session.
#[derive(Debug, Clone, Copy, PartialEq, Eq, Structural)]
pub enum SessionEvent {
    /// The caller asks for a connection.
    Start,
    /// The transport opened.
    Opened,
    /// Opening the transport failed or timed out.
    OpenFailed,
    /// The open transport closed or failed.
    TransportLost,
    /// The caller asks for the session to end.
    Shutdown,
    /// The transport finished closing.
    Closed,
}

/// What the caller is to do next.
#[derive(Debug, Clone, Copy, PartialEq, Eq, Structural)]
pub enum SessionAction {
    /// Open the transport now.
    Open,
    /// Wait this many milliseconds, then open the transport.
    RetryAfter(u64),
    /// Re-issue every active subscription, and treat the books they feed as
    /// stale until a fresh snapshot arrives.
    Resubscribe,
    /// Report that the attempts are spent; the session is over.
    ReportFatal,
    /// Close the transport.
    CloseTransport,
    Nothing,
}

/// A state that the policy can reach: attempt counts start at 1 and never
/// pass the cap.
pub open spec fn session_state_ok(s: SessionState, max_attempts: u32) -> bool {
    match s {
        SessionState::Connecting { attempt } => 1 <= attempt <= max_attempts,
        SessionState::Reconnecting { attempt } => 1 <= attempt <= max_attempts,
        _ => true,
    }
}

/// The reconnect policy. A failed attempt is retried after the delay while
/// attempts remain, and is fatal once `max_attempts` have failed; a lost
/// transport starts a new round, whose success re-issues the subscriptions.
/// A shutdown closes the session from any live state; a failed session stays
/// failed.
pub open spec fn session_next(
    s: SessionState,
    e: SessionEvent,
    max_attempts: u32,
    delay_ms: u64,
) -> (SessionState, SessionAction) {
    match (s, e) {
        (SessionState::Failed, _) => (SessionState::Failed, SessionAction::Nothing),
        (SessionState::Closing, SessionEvent::Closed) => (
            SessionState::Disconnected,
            SessionAction::Nothing,
        ),
        (SessionState::Closing, _) => (SessionState::Closing, SessionAction::Nothing),
        (SessionState::Disconnected, SessionEvent::Start) => if max_attempts == 0 {
            (SessionState::Failed, SessionAction::ReportFatal)
        } else {
            (SessionState::Connecting { attempt: 1 }, SessionAction::Open)
        },
        (SessionState::Disconnected, _) => (SessionState::Disconnected, SessionAction::Nothing),
        (_, SessionEvent::Shutdown) => (SessionState::Closing, SessionAction::CloseTransport),
        (SessionState::Connecting { attempt }, SessionEvent::Opened) => (
            SessionState::Connected,
            SessionAction::Nothing,
        ),
        (SessionState::Reconnecting { attempt }, SessionEvent::Opened) => (
            SessionState::Connected,
            SessionAction::Resubscribe,
        ),
        (SessionState::Connecting { attempt }, SessionEvent::OpenFailed) => if attempt
            >= max_attempts {
            (SessionState::Failed, SessionAction::ReportFatal)
        } else {
            (
                SessionState::Connecting { attempt: (attempt + 1) as u32 },
                SessionAction::RetryAfter(delay_ms),
            )
        },
        (SessionState::Reconnecting { attempt }, SessionEvent::OpenFailed) => if attempt
            >= max_attempts {
            (SessionState::Failed, SessionAction::ReportFatal)
        } else {
            (
                SessionState::Reconnecting { attempt: (attempt + 1) as u32 },
                SessionAction::RetryAfter(delay_ms),
            )
        },
        (SessionState::Connected, SessionEvent::TransportLost) => if max_attempts == 0 {
            (SessionState::Failed, SessionAction::ReportFatal)
        } else {
            (SessionState::Reconnecting { attempt: 1 }, SessionAction::RetryAfter(delay_ms))
        },
        _ => (s, SessionAction::Nothing),
    }
}

impl BybitWebSocketConfig {
    /// One step of the reconnect policy under this configuration.
    pub fn next_session_step(&self, s: SessionState, e: SessionEvent) -> (r: (
        SessionState,
        SessionAction,
    ))
        requires
            session_state_ok(s, self.max_reconnect_attempts),
        ensures
            r == session_next(s, e, self.max_reconnect_attempts, self.reconnect_delay_ms),
            session_state_ok(r.0, self.max_reconnect_attempts),
    {
        let max_attempts = self.max_reconnect_attempts;
        let delay_ms = self.reconnect_delay_ms;
        match (s, e) {
            (SessionState::Failed, _) => (SessionState::Failed, SessionAction::Nothing),
            (SessionState::Closing, SessionEvent::Closed) => (
                SessionState::Disconnected,
                SessionAction::Nothing,
            ),
            (SessionState::Closing, _) => (SessionState::Closing, SessionAction::Nothing),
            (SessionState::Disconnected, SessionEvent::Start) => if max_attempts == 0 {
                (SessionState::Failed, SessionAction::ReportFatal)
            } else {
                (SessionState::Connecting { attempt: 1 }, SessionAction::Open)
            },
            (SessionState::Disconnected, _) => (
                SessionState::Disconnected,
                SessionAction::Nothing,
            ),
            (_, SessionEvent::Shutdown) => (SessionState::Closing, SessionAction::CloseTransport),
            (SessionState::Connecting { attempt }, SessionEvent::Opened) => (
                SessionState::Connected,
                SessionAction::Nothing,
            ),
            (SessionState::Reconnecting { attempt }, SessionEvent::Opened) => (
                SessionState::Connected,
                SessionAction::Resubscribe,
            ),
            (SessionState::Connecting { attempt }, SessionEvent::OpenFailed) => if attempt
                >= max_attempts {
                (SessionState::Failed, SessionAction::ReportFatal)
            } else {
                (
                    SessionState::Connecting { attempt: attempt + 1 },
                    SessionAction::RetryAfter(delay_ms),
                )
            },
            (SessionState::Reconnecting { attempt }, SessionEvent::OpenFailed) => if attempt
                >= max_attempts {
                (SessionState::Failed, SessionAction::ReportFatal)
            } else {
                (
                    SessionState::Reconnecting { attempt: attempt + 1 },
                    SessionAction::RetryAfter(delay_ms),
                )
            },
            (SessionState::Connected, SessionEvent::TransportLost) => if max_attempts == 0 {
                (SessionState::Failed, SessionAction::ReportFatal)
            } else {
                (SessionState::Reconnecting { attempt: 1 }, SessionAction::RetryAfter(delay_ms))
            },
            _ => (s, SessionAction::Nothing),
        }
    }
}

/// The state after `n` failed openings in a row.
pub open spec fn after_failed_openings(
    s: SessionState,
    n: nat,
    max_attempts: u32,
    delay_ms: u64,
) -> SessionState
    decreases n,
{
    if n == 0 {
        s
    } else {
        after_failed_openings(
            session_next(s, SessionEvent::OpenFailed, max_attempts, delay_ms).0,
            (n - 1) as nat,
            max_attempts,
            delay_ms,
        )
    }
}

/// Attempts are bounded: from attempt `attempt` of a round, connecting or
/// reconnecting, the failures of the `max_attempts - attempt + 1` openings
/// that remain end the session in `Failed`, so it never retries forever.
pub proof fn lemma_attempts_bounded(attempt: u32, reconnect: bool, max_attempts: u32, delay_ms: u64)
    requires
        1 <= attempt <= max_attempts,
    ensures
        after_failed_openings(
            if reconnect {
                SessionState::Reconnecting { attempt }
            } else {
                SessionState::Connecting { attempt }
            },
            (max_attempts - attempt + 1) as nat,
            max_attempts,
            delay_ms,
        ) == SessionState::Failed,
    decreases max_attempts - attempt,
{
    let s = if reconnect {
        SessionState::Reconnecting { attempt }
    } else {
        SessionState::Connecting { attempt }
    };
    let next = session_next(s, SessionEvent::OpenFailed, max_attempts, delay_ms).0;
    if attempt < max_attempts {
        lemma_attempts_bounded((attempt + 1) as u32, reconnect, max_attempts, delay_ms);
        assert(next == if reconnect {
            SessionState::Reconnecting { attempt: (attempt + 1) as u32 }
        } else {
            SessionState::Connecting { attempt: (attempt + 1) as u32 }
        });
    } else {
        assert(next == SessionState::Failed);
        assert(after_failed_openings(next, 0, max_attempts, delay_ms) == SessionState::Failed);
    }
}

} // verus!
