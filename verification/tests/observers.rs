use midas::exchanges::Exchanges;
use midas::observers::balancer::ObservationBalancer;
use midas::observers::events::{
    contains_event, push_unique, ExchangeSymbol, SymbolEvent, TradeObserverControlEvent,
    TradeObserverNodeEvent,
};
use midas::observers::init::Init;
use midas::observers::sockets::{
    SocketLoad, SocketTable, SubscriptionTarget, MAX_STREAMS_PER_SOCKET, MAX_SYMBOLS_PER_SOCKET,
};

fn add(s: &str) -> TradeObserverControlEvent {
    TradeObserverControlEvent::SymbolAdd(Exchanges::Binance, s.to_string())
}

fn del(s: &str) -> TradeObserverControlEvent {
    TradeObserverControlEvent::SymbolDel(Exchanges::Binance, s.to_string())
}

fn strings(v: &[&str]) -> Vec<String> {
    v.iter().map(|s| s.to_string()).collect()
}

fn load(symbols: &[&str], streams: usize) -> SocketLoad {
    SocketLoad { symbols: strings(symbols), streams }
}

#[test]
fn symbol_event_becomes_control_event() {
    let info = ExchangeSymbol { exchange: Exchanges::Binance, symbol: "BTCUSDT".to_string() };
    let added: TradeObserverControlEvent = SymbolEvent::Add(info.clone()).into();
    let removed: TradeObserverControlEvent = SymbolEvent::Remove(info).into();
    assert!(added == add("BTCUSDT"));
    assert!(removed == del("BTCUSDT"));
    assert!(added != removed);
}

#[test]
fn node_events_compare_by_value() {
    let a = TradeObserverNodeEvent::Unregist(Exchanges::Binance, strings(&["A"]));
    assert_eq!(a.clone(), a);
    assert_ne!(TradeObserverNodeEvent::Ping("x".to_string()), TradeObserverNodeEvent::Regist(Exchanges::Binance));
}

#[test]
fn push_unique_skips_equal_events() {
    let mut v = vec![add("A")];
    push_unique(&mut v, add("A"));
    assert_eq!(v.len(), 1);
    push_unique(&mut v, del("A"));
    assert_eq!(v.len(), 2);
    assert!(contains_event(&v, &del("A")));
    assert!(!contains_event(&v, &add("B")));
}

#[test]
fn average_symbols_rounds_down() {
    let b = ObservationBalancer::new(());
    assert_eq!(b.num_average_symbols(25, 4), 6);
    assert_eq!(b.num_average_symbols(3, 4), 0);
    assert_eq!(b.num_average_symbols(8, 4), 2);
}

#[test]
fn balancing_pairs_removal_with_addition() {
    let b = ObservationBalancer::new(7u8);
    assert_eq!(*b.exchange_type_kvs().connection(), 7u8);
    assert_eq!(*b.node_kvs().connection(), 7u8);
    assert_eq!(b.node_kvs().channel_name("n"), "observer_node:n");
    assert_eq!(b.exchange_type_kvs().channel_name("n"), "observer_node_exchange_type:n");
    let excess = vec![strings(&["A", "B"]), strings(&["B", "C"]), vec![]];
    let events = b.get_event_to_balancing(Exchanges::Binance, &excess);
    assert_eq!(events.len(), 6);
    for s in ["A", "B", "C"] {
        assert!(events.iter().any(|e| *e == add(s)));
        assert!(events.iter().any(|e| *e == del(s)));
    }
    for (i, e) in events.iter().enumerate() {
        for f in events.iter().skip(i + 1) {
            assert!(e != f);
        }
    }
}

#[test]
fn balancing_nothing_gives_no_event() {
    let b = ObservationBalancer::new(());
    assert!(b.get_event_to_balancing(Exchanges::Binance, &vec![]).is_empty());
}

#[test]
fn init_publishes_the_union_once() {
    let init = Init::new(());
    let diff = vec![add("A"), del("B"), add("A")];
    let balanced = vec![del("B"), add("C")];
    let events = init.controls_to_publish(&diff, &balanced);
    assert_eq!(events.len(), 3);
    assert!(events.iter().any(|e| *e == add("A")));
    assert!(events.iter().any(|e| *e == del("B")));
    assert!(events.iter().any(|e| *e == add("C")));
    assert_eq!(init.dlock().channel_name("Binance"), "init_lock:Binance");
    assert_eq!(init.balancer().node_kvs().channel_name("n"), "observer_node:n");
}

#[test]
fn empty_table_subscribes_on_a_new_socket() {
    let t = SocketTable::new();
    assert_eq!(t.len(), 0);
    assert_eq!(t.get_socket(), None);
    assert_eq!(t.subscription_target(), SubscriptionTarget::New(0));
}

#[test]
fn last_socket_with_room_is_reused() {
    let mut t = SocketTable::new();
    t.insert(0, load(&["A"; 100], 1));
    t.insert(1, load(&["B"], 1));
    assert_eq!(t.get_socket(), Some(1));
    assert_eq!(t.subscription_target(), SubscriptionTarget::Existing(1));
}

#[test]
fn full_socket_is_not_reused() {
    let mut t = SocketTable::new();
    let full: Vec<&str> = vec!["S"; MAX_SYMBOLS_PER_SOCKET];
    t.insert(0, load(&full, 1));
    assert_eq!(t.get_socket(), None);
    let mut u = SocketTable::new();
    u.insert(0, load(&["A"], MAX_STREAMS_PER_SOCKET));
    assert_eq!(u.get_socket(), None);
    assert_eq!(u.subscription_target(), SubscriptionTarget::New(1));
    let mut w = SocketTable::new();
    w.insert(0, load(&["A"; 99], MAX_STREAMS_PER_SOCKET - 1));
    assert_eq!(w.get_socket(), Some(0));
}

#[test]
fn gap_in_keys_targets_the_count() {
    let mut t = SocketTable::new();
    t.insert(1, load(&["A"], 1));
    assert_eq!(t.get_socket(), None);
    assert_eq!(t.subscription_target(), SubscriptionTarget::New(1));
}

#[test]
fn not_subscribed_filters_and_deduplicates() {
    let mut t = SocketTable::new();
    t.insert(0, load(&["A", "B"], 1));
    let fresh = t.not_subscribed(&strings(&["A", "C", "D", "C", "B"]));
    assert_eq!(fresh, strings(&["C", "D"]));
    assert!(t.is_observed(&"B".to_string()));
    assert!(!t.is_observed(&"C".to_string()));
}

#[test]
fn subscribed_among_keeps_request_order() {
    let mut t = SocketTable::new();
    t.insert(0, load(&["A"], 1));
    t.insert(1, load(&["B"], 1));
    let held = t.subscribed_among(&strings(&["B", "X", "A", "B"]));
    assert_eq!(held, strings(&["B", "A", "B"]));
}

#[test]
fn retain_used_drops_idle_sockets() {
    let mut t = SocketTable::new();
    t.insert(0, load(&[], 1));
    t.insert(1, load(&["A"], 1));
    t.insert(2, load(&[], 1));
    let mut removed = t.retain_used();
    removed.sort();
    assert_eq!(removed, vec![0, 2]);
    assert_eq!(t.len(), 1);
    assert!(t.is_observed(&"A".to_string()));
}

#[test]
fn requests_split_by_ten() {
    let symbols: Vec<String> = (0..25).map(|i| format!("S{}", i)).collect();
    let chunks = SocketTable::requests(&symbols);
    assert_eq!(chunks.len(), 3);
    assert_eq!(chunks[0].len(), 10);
    assert_eq!(chunks[1].len(), 10);
    assert_eq!(chunks[2].len(), 5);
    assert_eq!(chunks.concat(), symbols);
    assert!(SocketTable::requests(&vec![]).is_empty());
    assert_eq!(SocketTable::requests(&strings(&["A"; 10])).len(), 1);
}

#[test]
fn socket_load_reports_its_counts() {
    let l = load(&["A", "B"], 3);
    assert_eq!(l.len(), 2);
    assert_eq!(l.len_socket(), 3);
    assert!(l.has_symbol(&"A".to_string()));
    assert!(!l.has_symbol(&"C".to_string()));
}

#[test]
fn plan_covers_each_new_symbol_once() {
    let mut t = SocketTable::new();
    t.insert(0, load(&["S0"], 1));
    let requested: Vec<String> = (0..23).map(|i| format!("S{}", i % 21)).collect();
    let plan = t.subscription_plan(&requested);
    assert_eq!(plan.len(), 2);
    assert!(plan.iter().all(|c| !c.is_empty() && c.len() <= 10));
    let mut flat = plan.concat();
    flat.sort();
    let mut expected: Vec<String> = (1..21).map(|i| format!("S{}", i)).collect();
    expected.sort();
    assert_eq!(flat, expected);
}

#[test]
fn subscription_steps_keep_keys_contiguous() {
    let mut t = SocketTable::new();
    let first = strings(&["A", "B"]);
    let target = t.subscription_target();
    assert_eq!(target, SubscriptionTarget::New(0));
    t.record_subscription(target, &first, 1);
    let target = t.subscription_target();
    assert_eq!(target, SubscriptionTarget::Existing(0));
    t.record_subscription(target, &strings(&["C"]), 2);
    assert_eq!(t.len(), 1);
    assert_eq!(t.subscribed_among(&strings(&["A", "B", "C", "D"])), strings(&["A", "B", "C"]));
    t.record_subscription(SubscriptionTarget::Existing(0), &strings(&["D"]), MAX_STREAMS_PER_SOCKET);
    let target = t.subscription_target();
    assert_eq!(target, SubscriptionTarget::New(1));
    t.record_subscription(target, &strings(&["E"]), 1);
    assert_eq!(t.len(), 2);
    assert_eq!(t.get_socket(), Some(1));
    assert!(t.is_observed(&"D".to_string()));
}
