//! Decision core of an event-driven trading engine for binary prediction
//! markets: news deduplication, tokenisation, feature extraction, market
//! retrieval, belief scoring, Kelly sizing and order synthesis.
//!
//! Monetary amounts and probabilities are fixed-point integers counted in
//! millionths (see [`types::UNIT`]); instants are Unix seconds in UTC.

pub mod text;
pub mod types;
pub mod analyst;
pub mod cache;
pub mod canonical;
pub mod dedup;
pub mod features;
pub mod filter;
pub mod index;
pub mod kelly;
pub mod laws;
pub mod lifecycle;
pub mod marketdata;
pub mod oracle;
pub mod orders;
pub mod rank;
pub mod simhash;
pub mod strategy;
pub mod tokenize;
pub mod window;
