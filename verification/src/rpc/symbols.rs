use vstd::prelude::*;

verus! {

/// A tradable pair listed on an exchange.
#[derive(Debug, Clone, PartialEq, Eq)]
pub struct SymbolInfo {
    pub symbol: String,
    pub status: String,
    pub base: String,
    pub quote: String,
}

/// The answer to a symbol listing request.
#[derive(Debug, Clone, PartialEq, Eq)]
pub struct SymbolList {
    pub symbols: Vec<SymbolInfo>,
}

/// The base currencies of the listed pairs.
#[derive(Debug, Clone, PartialEq, Eq)]
pub struct BaseSymbols {
    pub symbols: Vec<String>,
}

impl SymbolList {
    /// The names of the listed symbols, in listing order.
    pub fn symbol_names(&self) -> (names: Vec<String>)
        ensures
            names@.len() == self.symbols@.len(),
            forall|i: int| 0 <= i < names@.len() ==> #[trigger] names@[i]@ == self.symbols@[i].symbol@,
    {
        let mut names: Vec<String> = Vec::new();
        for i in 0..self.symbols.len()
            invariant
                names@.len() == i,
                forall|j: int| 0 <= j < i ==> #[trigger] names@[j]@ == self.symbols@[j].symbol@,
        {
            names.push(self.symbols[i].symbol.clone());
        }
        names
    }
}

} // verus!
