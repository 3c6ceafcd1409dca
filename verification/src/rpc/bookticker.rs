use vstd::prelude::*;

verus! {

/// The best bid and ask of a symbol, as quoted by an exchange.
#[derive(Debug, Clone, PartialEq, Eq)]
pub struct Bookticker {
    pub ask_price: Option<String>,
    pub ask_qty: Option<String>,
    pub bid_price: Option<String>,
    pub bid_qty: Option<String>,
    pub id: Option<String>,
    pub symbol: Option<String>,
}

} // verus!
