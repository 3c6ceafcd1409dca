use midas::exchanges::Exchanges;
use midas::historical::progress::{
    completed, progress_channel, ExchangeManager, HistChartProg, KlineFetchStatus,
    ProgressAggregator,
};
use midas::historical::service::{
    on_client_message, progress_of, store_rejection, subscribe_failure_message,
    unserializable_progress, ClientAction, Server, StatusCheckRequest, StoreFailure,
    SERVICE_UNAVAILABLE, SUBSCRIBE_FAILURE_CLOSE_CODE,
};
use midas::rpc::history_fetch_request::HistoryFetchRequest;

fn prog(symbol: &str, cur_symbol: i64, cur_object: i64) -> HistChartProg {
    HistChartProg {
        symbol: symbol.to_string(),
        num_symbols: 3,
        cur_symbol_num: cur_symbol,
        num_objects: 100,
        cur_object_num: cur_object,
    }
}

fn totals(status: KlineFetchStatus) -> (i64, i64, i64, i64) {
    match status {
        KlineFetchStatus::WIP(p) => (p.num_symbols, p.cur_symbol_num, p.num_objects, p.cur_object_num),
        KlineFetchStatus::Completed => panic!("expected a progress"),
    }
}

#[test]
fn first_report_is_taken_as_is() {
    let mut agg = ProgressAggregator::new();
    assert_eq!(totals(agg.record(prog("A", 1, 10))), (3, 1, 100, 10));
}

#[test]
fn later_reports_add_up_per_symbol() {
    let mut agg = ProgressAggregator::new();
    agg.record(prog("A", 1, 10));
    agg.record(prog("B", 1, 5));
    let mut later = prog("A", 2, 20);
    later.num_symbols = 99;
    later.num_objects = 999;
    assert_eq!(totals(agg.record(later)), (3, 3, 100, 30));
    assert_eq!(totals(agg.record(prog("B", 1, 5))), (3, 2, 100, 10));
}

#[test]
fn overflowing_report_does_not_fit() {
    let mut agg = ProgressAggregator::new();
    agg.record(prog("A", 1, i64::MAX));
    assert!(!agg.fits(&prog("A", 0, 1)));
    assert!(agg.fits(&prog("A", 0, 0)));
    assert!(agg.fits(&prog("B", 0, 1)));
}

#[test]
fn completion_status() {
    assert!(matches!(completed(), KlineFetchStatus::Completed));
}

#[test]
fn progress_is_broadcast_per_exchange() {
    assert_eq!(progress_channel("binance"), "binance.kline.progress");
    let m = ExchangeManager::new("binance".to_string(), ());
    assert_eq!(m.progress_channel(), "binance.kline.progress");
}

#[test]
fn missing_counts_are_zero() {
    let p = progress_of(Exchanges::Binance, "A".to_string(), None, Some(4));
    assert_eq!((p.size, p.cur), (0, 4));
    let q = progress_of(Exchanges::Binance, "A".to_string(), Some(9), None);
    assert_eq!((q.size, q.cur), (9, 0));
    assert_eq!(q.symbol, "A");
}

#[test]
fn client_messages_are_decided_in_order() {
    let fetch = HistoryFetchRequest { end: None, exchange: None, start: None, symbol: Some("A".to_string()) };
    let check = StatusCheckRequest { exchange: Exchanges::Binance, symbol: "A".to_string() };
    assert_eq!(on_client_message(true, Some(fetch.clone()), Some(check.clone())), ClientAction::Stop);
    assert_eq!(
        on_client_message(false, Some(fetch.clone()), Some(check.clone())),
        ClientAction::PublishFetch(fetch)
    );
    assert_eq!(on_client_message(false, None, Some(check.clone())), ClientAction::ReportProgress(check));
    assert_eq!(on_client_message(false, None, None), ClientAction::Ignore);
}

#[test]
fn subscription_failure_closes_with_the_error() {
    assert_eq!(SUBSCRIBE_FAILURE_CLOSE_CODE, 1011);
    assert_eq!(
        subscribe_failure_message("boom"),
        "Got an error while trying to subscribe the channel: boom"
    );
    assert_eq!(unserializable_progress(), "Failed to serialize the progress data.");
    assert_eq!(Server {}, Server {});
}

#[test]
fn unreadable_stores_are_rejected() {
    let s = store_rejection(StoreFailure::Symbols, "down");
    assert_eq!((s.code, s.message.as_str()), (SERVICE_UNAVAILABLE, "(DB, Symbol): down"));
    assert_eq!(store_rejection(StoreFailure::Size, "x").message, "(Redis, Size) x");
    assert_eq!(store_rejection(StoreFailure::Current, "y").message, "(Redis, Current) y");
    assert_eq!(SERVICE_UNAVAILABLE, 503);
}

use midas::historical::splitter::{
    objects_to_fetch, split_bounds, splitter_step, SplitterAction, SplitterEvent,
};
use midas::rpc::history_fetch_request::{ExchangeEntity, TimestampSchema};

fn ts(s: i64) -> TimestampSchema {
    TimestampSchema { nanos: Some(0), seconds: Some(s) }
}

#[test]
fn missing_bounds_are_the_epoch() {
    let req = HistoryFetchRequest { end: Some(ts(60)), exchange: None, start: None, symbol: None };
    assert_eq!(split_bounds(&req), (ts(0), ts(60)));
    let req = HistoryFetchRequest { end: None, exchange: None, start: Some(ts(5)), symbol: None };
    assert_eq!(split_bounds(&req), (ts(5), ts(0)));
    assert_eq!(objects_to_fetch(Some(12)), 12);
    assert_eq!(objects_to_fetch(None), 0);
}

#[test]
fn splitter_decisions() {
    let req = HistoryFetchRequest {
        end: None,
        exchange: Some(ExchangeEntity::Binance),
        start: None,
        symbol: Some("BTCUSDT".to_string()),
    };
    assert_eq!(splitter_step(&req, SplitterEvent::SplitterFailed), SplitterAction::SkipRequest);
    assert_eq!(splitter_step(&req, SplitterEvent::ResetFailed), SplitterAction::SkipRequest);
    assert_eq!(splitter_step(&req, SplitterEvent::CountWriteFailed), SplitterAction::Continue);
    assert_eq!(splitter_step(&req, SplitterEvent::WindowsDone), SplitterAction::NextRequest);
    assert_eq!(
        splitter_step(&req, SplitterEvent::Window(ts(0), ts(60))),
        SplitterAction::Publish(HistoryFetchRequest {
            end: Some(ts(60)),
            exchange: Some(ExchangeEntity::Binance),
            start: Some(ts(0)),
            symbol: Some("BTCUSDT".to_string()),
        })
    );
}
