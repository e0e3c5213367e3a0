//! Verified core of a two-venue crypto-options arbitrage server.
//!
//! The library holds the logic that can be stated and proved: fixed-point
//! decimals, calendar dates, canonical product identities parsed from venue
//! instrument ids, order books with delete-on-zero semantics, cross-venue
//! arbitrage detection, venue frame codecs, subscription tracking, and the
//! reconnect/backoff state machine. The surrounding process (sockets, tasks,
//! configuration) lives outside and drives these functions.

use vstd::prelude::*;

pub mod backoff;
pub mod consumer;
pub mod errors;
pub mod book;
pub mod manager;
pub mod date;
pub mod deribit;
pub mod json;
pub mod decimal;
pub mod message;
pub mod okex;
pub mod product;
pub mod subscription;
pub mod text;

pub use backoff::Backoff;
pub use consumer::{ConsumerAction, ConsumerEvent, ConsumerPhase, WsConsumerState};
pub use errors::{AppMesssage, ArbitrageError, ArbitrageResult};
pub use book::OrderBook;
pub use manager::OrderBookManager;
pub use okex::{OkexAction, OkexArg, OkexData, OkexError, OkexEvent, OkexMessage, OkexOperation, OkexRequest, OkexResponse, OkexResponseData, OkexSubscribeResponse};
pub use message::{ArbitrageOpportunity, InternalMessage, OrderBookUpdate};
pub use date::Date;
pub use deribit::{DeribitChannelData, DeribitChannelMessage, DeribitOrderBook, DeribitRequest, DeribitRequestMethod, DeribitRequestParams, DeribitResponse, DeribitResponseMethod, DerbitResponseParams};
pub use json::JsonVal;
pub use decimal::Decimal;
pub use product::{CryptoAsset, Exchange, ExchangeProduct, OptionType, Product, SettlementAsset};
pub use subscription::{get_products_to_subscibe, DeribitExchangeCallback, OkexExchangeCallback, ProductSubscription};

verus! {

} // verus!
