//! Decision logic of a crypto-currency trading back end: retry policies,
//! symbol subscription planning, observation balancing, progress
//! aggregation and the plain data types exchanged between the services.

pub mod bot;
pub mod config;
pub mod errors;
pub mod exchanges;
pub mod executors;
pub mod historical;
pub mod kvs;
pub mod observers;
pub mod rpc;
pub mod streams;
pub mod strings;
