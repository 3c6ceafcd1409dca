use vstd::prelude::*;

verus! {

/// A request to fetch the price history of a symbol between two instants.
#[derive(Debug, Clone, PartialEq, Eq)]
pub struct HistoryFetchRequest {
    pub end: Option<TimestampSchema>,
    pub exchange: Option<ExchangeEntity>,
    pub start: Option<TimestampSchema>,
    pub symbol: Option<String>,
}

/// An instant, as seconds and nanoseconds since the UNIX epoch.
#[derive(Debug, Clone, Copy, PartialEq, Eq, Structural)]
pub struct TimestampSchema {
    pub nanos: Option<i64>,
    pub seconds: Option<i64>,
}

/// The exchange that a history request is addressed to.
#[derive(Debug, Clone, Copy, PartialEq, Eq, Structural)]
pub enum ExchangeEntity {
    Binance,
}

} // verus!
