use vstd::prelude::*;

use crate::exchanges::Exchanges;
use crate::kvs::{KVS, NODE_EXCHANGE_TYPE_KVS_NAME, NODE_KVS_NAME};
use crate::observers::events::{
    events_view, push_unique, ControlEventView, TradeObserverControlEvent,
};
use crate::strings::{nested_view, strings_view};

verus! {

/// Whether `symbol` is in one of the lists.
pub open spec fn in_some_list(lists: Seq<Seq<Seq<char>>>, symbol: Seq<char>) -> bool {
    exists|i: int| 0 <= i < lists.len() && #[trigger] lists[i].contains(symbol)
}

/// The control events that rebalance the excess symbols of the overflowed
/// nodes: each excess symbol is removed from its node and added again, so
/// that the controller hands it to a node with room.
pub open spec fn balancing_events(exchange: Exchanges, excess: Seq<Seq<Seq<char>>>) -> Set<
    ControlEventView,
> {
    Set::new(
        |e: ControlEventView| e.exchange() == exchange && in_some_list(excess, e.symbol()),
    )
}

/// Spreads the symbols of an exchange evenly over the observer nodes.
///
/// It holds two handles on the key-value store: the lists of the symbols
/// that each node observes, and the exchange that each node serves.
pub struct ObservationBalancer<T> {
    node_kvs: KVS<T>,
    exchange_type_kvs: KVS<T>,
}

/// `balancer` works on the store `kvs`: the node lists under
/// `NODE_KVS_NAME`, through a clone of `kvs`, and the exchanges of the nodes
/// under `NODE_EXCHANGE_TYPE_KVS_NAME`, through `kvs` itself.
pub open spec fn built_from<T: Clone>(balancer: ObservationBalancer<T>, kvs: T) -> bool {
    &&& balancer.node_kvs_spec().channel_name_spec() == NODE_KVS_NAME@
    &&& cloned(kvs, balancer.node_kvs_spec().connection_spec())
    &&& balancer.exchange_type_kvs_spec().channel_name_spec() == NODE_EXCHANGE_TYPE_KVS_NAME@
    &&& balancer.exchange_type_kvs_spec().connection_spec() == kvs
}

impl<T: Clone> ObservationBalancer<T> {
    /// A balancer that works on the store `kvs`.
    pub fn new(kvs: T) -> (balancer: Self)
        ensures
            built_from(balancer, kvs),
    {
        let node_kvs = KVS::new(kvs.clone(), String::from_str(NODE_KVS_NAME));
        let exchange_type_kvs = KVS::new(kvs, String::from_str(NODE_EXCHANGE_TYPE_KVS_NAME));
        ObservationBalancer { node_kvs, exchange_type_kvs }
    }
}

impl<T> ObservationBalancer<T> {
    pub closed spec fn node_kvs_spec(&self) -> KVS<T> {
        self.node_kvs
    }

    pub closed spec fn exchange_type_kvs_spec(&self) -> KVS<T> {
        self.exchange_type_kvs
    }

    /// The handle on the symbol lists of the nodes.
    pub fn node_kvs(&self) -> (kvs: &KVS<T>)
        ensures
            *kvs == self.node_kvs_spec(),
    {
        &self.node_kvs
    }

    /// The handle on the exchanges that the nodes serve.
    pub fn exchange_type_kvs(&self) -> (kvs: &KVS<T>)
        ensures
            *kvs == self.exchange_type_kvs_spec(),
    {
        &self.exchange_type_kvs
    }

    /// The number of symbols that each node observes when they are spread
    /// evenly, rounded down.
    pub fn num_average_symbols(&self, num_symbols: usize, num_nodes: usize) -> (avg: usize)
        requires
            num_nodes > 0,
        ensures
            avg == num_symbols / num_nodes,
    {
        num_symbols / num_nodes
    }

    /// The control events that move away the symbols beyond the average of
    /// each overflowed node. `excess[i]` lists the symbols that the i-th
    /// overflowed node observes past the average.
    pub fn get_event_to_balancing(&self, exchange: Exchanges, excess: &Vec<Vec<String>>) -> (events:
        Vec<TradeObserverControlEvent>)
        ensures
            events_view(events@).no_duplicates(),
            forall|e: ControlEventView| #[trigger]
                events_view(events@).contains(e) <==> balancing_events(
                    exchange,
                    nested_view(excess@),
                ).contains(e),
            forall|i: int, j: int|
                0 <= i < excess@.len() && 0 <= j < excess@[i]@.len() ==> {
                    &&& events_view(events@).contains(
                        ControlEventView::SymbolDel(exchange, #[trigger] excess@[i]@[j]@),
                    )
                    &&& events_view(events@).contains(
                        ControlEventView::SymbolAdd(exchange, excess@[i]@[j]@),
                    )
                },
            forall|k: int|
                0 <= k < events@.len() ==> exists|i: int, j: int|
                    0 <= i < excess@.len() && 0 <= j < excess@[i]@.len() && (#[trigger] events@[k]@
                        == ControlEventView::SymbolDel(exchange, excess@[i]@[j]@) || events@[k]@
                        == ControlEventView::SymbolAdd(exchange, excess@[i]@[j]@)),
    {
        let mut events: Vec<TradeObserverControlEvent> = Vec::new();
        let ghost lists = nested_view(excess@);
        for i in 0..excess.len()
            invariant
                lists == nested_view(excess@),
                events_view(events@).no_duplicates(),
                forall|e: ControlEventView| #[trigger]
                    events_view(events@).contains(e) <==> (e.exchange() == exchange && exists|k: int|
                        0 <= k < i && #[trigger] lists[k].contains(e.symbol())),
        {
            let symbols = &excess[i];
            let ghost before = events@;
            for j in 0..symbols.len()
                invariant
                    lists == nested_view(excess@),
                    symbols == excess@[i as int],
                    events_view(events@).no_duplicates(),
                    forall|e: ControlEventView| #[trigger]
                        events_view(events@).contains(e) <==> (events_view(before).contains(e) || (
                        e.exchange() == exchange && strings_view(symbols@).subrange(
                            0,
                            j as int,
                        ).contains(e.symbol()))),
            {
                let ghost sym = symbols@[j as int]@;
                let ghost mid = events@;
                push_unique(
                    &mut events,
                    TradeObserverControlEvent::SymbolDel(exchange, symbols[j].clone()),
                );
                push_unique(
                    &mut events,
                    TradeObserverControlEvent::SymbolAdd(exchange, symbols[j].clone()),
                );
                assert(strings_view(symbols@).subrange(0, j + 1) == strings_view(symbols@).subrange(
                    0,
                    j as int,
                ).push(sym));
                assert forall|e: ControlEventView| #[trigger]
                    events_view(events@).contains(e) <==> (events_view(before).contains(e) || (
                    e.exchange() == exchange && strings_view(symbols@).subrange(
                        0,
                        j + 1,
                    ).contains(e.symbol()))) by {
                    let pre = strings_view(symbols@).subrange(0, j as int);
                    if e.exchange() == exchange && e.symbol() == sym {
                        assert(pre.push(sym)[pre.len() as int] == sym);
                        match e {
                            ControlEventView::SymbolAdd(_, _) => {},
                            ControlEventView::SymbolDel(_, _) => {},
                        }
                    }
                    if pre.push(sym).contains(e.symbol()) && e.symbol() != sym {
                        let k = choose|k: int| 0 <= k < pre.push(sym).len() && pre.push(sym)[k] == e.symbol();
                        assert(pre[k] == e.symbol());
                    }
                    if pre.contains(e.symbol()) {
                        let k = choose|k: int| 0 <= k < pre.len() && pre[k] == e.symbol();
                        assert(pre.push(sym)[k] == e.symbol());
                    }
                }
            }
            assert(strings_view(symbols@).subrange(0, symbols@.len() as int) == lists[i as int]);
            assert forall|e: ControlEventView| #[trigger]
                events_view(events@).contains(e) <==> (e.exchange() == exchange && exists|k: int|
                    0 <= k < i + 1 && #[trigger] lists[k].contains(e.symbol())) by {
                if e.exchange() == exchange && lists[i as int].contains(e.symbol()) {
                    assert(strings_view(symbols@).subrange(0, symbols@.len() as int).contains(e.symbol()));
                }
            }
        }
        proof {
            assert forall|i: int, j: int|
                0 <= i < excess@.len() && 0 <= j < excess@[i]@.len() implies {
                    &&& events_view(events@).contains(
                        ControlEventView::SymbolDel(exchange, #[trigger] excess@[i]@[j]@),
                    )
                    &&& events_view(events@).contains(
                        ControlEventView::SymbolAdd(exchange, excess@[i]@[j]@),
                    )
                } by {
                assert(lists[i] == strings_view(excess@[i]@));
                assert(lists[i][j] == excess@[i]@[j]@);
                assert(lists[i].contains(excess@[i]@[j]@));
                assert(ControlEventView::SymbolDel(exchange, excess@[i]@[j]@).symbol()
                    == excess@[i]@[j]@);
                assert(ControlEventView::SymbolAdd(exchange, excess@[i]@[j]@).symbol()
                    == excess@[i]@[j]@);
            }
            assert forall|k: int| 0 <= k < events@.len() implies exists|i: int, j: int|
                0 <= i < excess@.len() && 0 <= j < excess@[i]@.len() && (#[trigger] events@[k]@
                    == ControlEventView::SymbolDel(exchange, excess@[i]@[j]@) || events@[k]@
                    == ControlEventView::SymbolAdd(exchange, excess@[i]@[j]@)) by {
                let e = events@[k]@;
                assert(events_view(events@)[k] == e);
                assert(events_view(events@).contains(e));
                let i = choose|i: int| 0 <= i < lists.len() && #[trigger] lists[i].contains(e.symbol());
                let j = choose|j: int| 0 <= j < lists[i].len() && lists[i][j] == e.symbol();
                assert(lists[i] == strings_view(excess@[i]@));
                assert(excess@[i]@[j]@ == e.symbol());
                match e {
                    ControlEventView::SymbolAdd(_, _) => {},
                    ControlEventView::SymbolDel(_, _) => {},
                }
            }
        }
        events
    }
}

/// An event is a rebalancing instruction exactly when it is about the
/// balanced exchange and about a symbol in the excess of some overflowed
/// node; both the removal and the re-addition of each such symbol are
/// instructed.
pub proof fn lemma_balancing_events_membership(
    exchange: Exchanges,
    excess: Seq<Seq<Seq<char>>>,
    x: Exchanges,
    symbol: Seq<char>,
)
    ensures
        balancing_events(exchange, excess).contains(ControlEventView::SymbolAdd(x, symbol)) <==> (x
            == exchange && exists|i: int| 0 <= i < excess.len() && #[trigger] excess[i].contains(symbol)),
        balancing_events(exchange, excess).contains(ControlEventView::SymbolDel(x, symbol)) <==> (x
            == exchange && exists|i: int| 0 <= i < excess.len() && #[trigger] excess[i].contains(symbol)),
{
}

/// Balancing instructs to remove a symbol exactly when it instructs to add it
/// again, and every instruction is about the exchange that was balanced.
pub proof fn lemma_balancing_events_paired(
    exchange: Exchanges,
    excess: Seq<Seq<Seq<char>>>,
    x: Exchanges,
    symbol: Seq<char>,
)
    ensures
        balancing_events(exchange, excess).contains(ControlEventView::SymbolDel(x, symbol))
            <==> balancing_events(exchange, excess).contains(ControlEventView::SymbolAdd(x, symbol)),
        balancing_events(exchange, excess).contains(ControlEventView::SymbolAdd(x, symbol)) ==> x
            == exchange,
{
}

} // verus!
