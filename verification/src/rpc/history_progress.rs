use vstd::prelude::*;

verus! {

/// How far the history download of a symbol has come.
#[derive(Debug, Clone, PartialEq, Eq)]
pub struct HistoryProgress {
    pub cur: Option<i64>,
    pub exchange: Option<ExchangeEntity>,
    pub size: Option<i64>,
    pub symbol: Option<String>,
}

/// The exchange that a progress report is about.
#[derive(Debug, Clone, Copy, PartialEq, Eq, Structural)]
pub enum ExchangeEntity {
    Binance,
}

} // verus!
