//! Simulation core of a sandbox exchange for perpetual contracts:
//! order admission and cancellation, matching against a stream of public
//! trades, fee and balance bookkeeping, and long/short position aggregates.
pub mod account;
pub mod account_orders;
pub mod balance;
pub mod config;
pub mod error;
pub mod event;
pub mod fixed;
pub mod instrument;
pub mod laws;
pub mod order;
pub mod orderbook;
pub mod position;
pub mod position_meta;
pub mod query_builder;
pub mod request_id;
pub mod subscription;
pub mod test_util;
pub mod trade;
