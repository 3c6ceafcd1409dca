//! Plain records that the services exchange over the wire.

pub mod api_key;
pub mod bookticker;
pub mod history_fetch_request;
pub mod history_progress;
pub mod symbols;
