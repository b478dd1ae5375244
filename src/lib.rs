//! Order-book synchronisation and request signing for crypto exchange feeds.
//!
//! The library keeps a local order book consistent under snapshot and delta
//! messages, classifies stream frames, drives the reconnect policy of a
//! streaming session, and builds the canonical strings, signatures and
//! headers that authenticated REST requests carry.
use vstd::prelude::*;

pub mod decimal;
pub mod messages;
pub mod orderbook;
pub mod rest;
pub mod signing;
pub mod strategy;
pub mod stream;
pub mod types;
pub mod text;

verus! {

} // verus!
