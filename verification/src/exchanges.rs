use vstd::prelude::*;

verus! {

/// The exchanges that the back end talks to.
#[derive(Debug, Clone, Copy, PartialEq, Eq, Hash, Structural)]
pub enum Exchanges {
    Binance,
}

} // verus!
