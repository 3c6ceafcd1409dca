use vstd::prelude::*;

use crate::exchanges::Exchanges;
use crate::strings::lemma_push_contains;

verus! {

/// What an observer node tells the controller about itself.
#[derive(Debug, Clone, PartialEq, Eq)]
pub enum TradeObserverNodeEvent {
    /// A node is registered for the exchange.
    Regist(Exchanges),
    /// A node is unregistered; it was registered for the exchange and the symbols.
    Unregist(Exchanges, Vec<String>),
    Ping(String),
}

/// What the controller instructs observer nodes to do.
#[derive(Debug, Clone)]
pub enum TradeObserverControlEvent {
    /// An observer is to start observing the symbol.
    SymbolAdd(Exchanges, String),
    /// An observer is to stop observing the symbol.
    SymbolDel(Exchanges, String),
}

/// The mathematical value of a control event.
pub enum ControlEventView {
    SymbolAdd(Exchanges, Seq<char>),
    SymbolDel(Exchanges, Seq<char>),
}

impl ControlEventView {
    pub open spec fn exchange(self) -> Exchanges {
        match self {
            ControlEventView::SymbolAdd(x, _) => x,
            ControlEventView::SymbolDel(x, _) => x,
        }
    }

    pub open spec fn symbol(self) -> Seq<char> {
        match self {
            ControlEventView::SymbolAdd(_, s) => s,
            ControlEventView::SymbolDel(_, s) => s,
        }
    }
}

impl View for TradeObserverControlEvent {
    type V = ControlEventView;

    open spec fn view(&self) -> ControlEventView {
        match self {
            TradeObserverControlEvent::SymbolAdd(x, s) => ControlEventView::SymbolAdd(*x, s@),
            TradeObserverControlEvent::SymbolDel(x, s) => ControlEventView::SymbolDel(*x, s@),
        }
    }
}

impl PartialEq for TradeObserverControlEvent {
    fn eq(&self, other: &Self) -> (same: bool) {
        match (self, other) {
            (
                TradeObserverControlEvent::SymbolAdd(x, s),
                TradeObserverControlEvent::SymbolAdd(y, t),
            ) => *x == *y && *s == *t,
            (
                TradeObserverControlEvent::SymbolDel(x, s),
                TradeObserverControlEvent::SymbolDel(y, t),
            ) => *x == *y && *s == *t,
            _ => false,
        }
    }
}

impl vstd::std_specs::cmp::PartialEqSpecImpl for TradeObserverControlEvent {
    open spec fn obeys_eq_spec() -> bool {
        true
    }

    open spec fn eq_spec(&self, other: &Self) -> bool {
        self@ == other@
    }
}

impl Eq for TradeObserverControlEvent {

}

impl TradeObserverControlEvent {
    /// A copy of the event.
    pub fn clone_event(&self) -> (copy: Self)
        ensures
            copy@ == self@,
    {
        match self {
            TradeObserverControlEvent::SymbolAdd(x, s) => TradeObserverControlEvent::SymbolAdd(*x, s.clone()),
            TradeObserverControlEvent::SymbolDel(x, s) => TradeObserverControlEvent::SymbolDel(*x, s.clone()),
        }
    }
}

/// The views of a sequence of control events.
pub open spec fn events_view(v: Seq<TradeObserverControlEvent>) -> Seq<ControlEventView> {
    v.map_values(|e: TradeObserverControlEvent| e@)
}

/// Whether `events` holds an event equal to `event`.
pub fn contains_event(events: &Vec<TradeObserverControlEvent>, event: &TradeObserverControlEvent) -> (found: bool)
    ensures
        found == events_view(events@).contains(event@),
{
    for i in 0..events.len()
        invariant
            forall|j: int| 0 <= j < i ==> events@[j]@ != event@,
    {
        if events[i] == *event {
            assert(events_view(events@)[i as int] == event@);
            return true;
        }
    }
    proof {
        if events_view(events@).contains(event@) {
            let k = choose|k: int| 0 <= k < events_view(events@).len() && events_view(events@)[k] == event@;
            assert(events@[k]@ == event@);
        }
    }
    false
}

/// Appends `event` unless an equal event is already there.
pub fn push_unique(events: &mut Vec<TradeObserverControlEvent>, event: TradeObserverControlEvent)
    ensures
        events_view(old(events)@).no_duplicates() ==> events_view(final(events)@).no_duplicates(),
        forall|e: ControlEventView| events_view(final(events)@).contains(e)
            <==> (events_view(old(events)@).contains(e) || e == event@),
{
    if !contains_event(events, &event) {
        let ghost before = events@;
        let ghost ev = event@;
        events.push(event);
        assert(events_view(events@) == events_view(before).push(ev));
        proof {
            lemma_push_contains(events_view(before), ev);
        }
    }
}

/// The exchange and the name of a listed symbol.
#[derive(Debug, Clone, PartialEq, Eq)]
pub struct ExchangeSymbol {
    pub exchange: Exchanges,
    pub symbol: String,
}

impl ExchangeSymbol {
    /// The exchange that lists the symbol.
    pub fn exchange(&self) -> (x: Exchanges)
        ensures
            x == self.exchange,
    {
        self.exchange
    }
}

/// A symbol was listed on, or delisted from, an exchange.
#[derive(Debug, Clone, PartialEq, Eq)]
pub enum SymbolEvent {
    Add(ExchangeSymbol),
    Remove(ExchangeSymbol),
}

impl From<SymbolEvent> for TradeObserverControlEvent {
    fn from(value: SymbolEvent) -> (event: Self) {
        match value {
            SymbolEvent::Add(info) => TradeObserverControlEvent::SymbolAdd(info.exchange(), info.symbol),
            SymbolEvent::Remove(info) => TradeObserverControlEvent::SymbolDel(info.exchange(), info.symbol),
        }
    }
}

impl vstd::std_specs::convert::FromSpecImpl<SymbolEvent> for TradeObserverControlEvent {
    open spec fn obeys_from_spec() -> bool {
        true
    }

    open spec fn from_spec(v: SymbolEvent) -> Self {
        match v {
            SymbolEvent::Add(info) => TradeObserverControlEvent::SymbolAdd(info.exchange, info.symbol),
            SymbolEvent::Remove(info) => TradeObserverControlEvent::SymbolDel(info.exchange, info.symbol),
        }
    }
}

} // verus!
