use vstd::prelude::*;

verus! {

/// An API key pair registered for an exchange.
#[derive(Debug, Clone, PartialEq, Eq)]
pub struct ApiKey {
    pub exchange: Option<ExchangeEntity>,
    pub id: Option<String>,
    pub label: Option<String>,
    pub prv: Option<String>,
    pub api_key_pub: Option<String>,
}

/// The exchange that an API key belongs to.
#[derive(Debug, Clone, Copy, PartialEq, Eq, Structural)]
pub enum ExchangeEntity {
    Binance,
}

} // verus!
