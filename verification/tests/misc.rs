use midas::bot::{check_bot_id, failure_code, reject, BotFailure};
use midas::config::{
    config_path, redis_client, Config, ConnectionAttempts, RetryAction, ServiceAddresses, DEFAULT_CONFIG_PATH, TLS,
    MAX_CONNECTION_ATTEMPTS,
};
use midas::errors::{EmptyError, GenericError, MaximumAttemptExceeded, StatusFailure, WebsocketError};
use midas::executors::{
    check_response, first_failure, max_state, order_endpoints, position_indices, removal_failure,
    removal_plan, signed_query, state_after_orders, state_after_removal, CancelOrder,
    PositionSummary, RemovalFailure, StatusFailure as ResponseFailure, POSITIONS_COLLECTION,
    REQUEST_TIMEOUT_SECS,
};
use midas::kvs::{KVS, INIT_LOCK_NAME, NODE_EXCHANGE_TYPE_KVS_NAME, NODE_KVS_NAME};
use midas::rpc::symbols::{SymbolInfo, SymbolList};
use midas::streams::{
    check_handshake, connect_failure, handshake_result, subscribe_request, subscription_params, trade_stream,
    is_informational, is_success, user_data_stream_endpoint, user_stream_step, user_stream_url,
    TradeSubRequest, UserStreamAction, UserStreamEvent,
};

#[test]
fn error_messages() {
    assert_eq!(MaximumAttemptExceeded.to_string(), "Maximum retrieving count exceeded.");
    let e = EmptyError { field: "symbol".to_string() };
    assert_eq!(e.to_string(), "Field symbol is required, but it's empty");
    assert_eq!(GenericError::new("oops").to_string(), "oops");
    let f = StatusFailure { url: url::Url::parse("https://example.com/x").unwrap(), code: 500, text: "t".to_string() };
    assert_eq!(f.code, 500);
}

#[test]
fn connection_is_attempted_ten_times() {
    let mut a = ConnectionAttempts::new();
    for _ in 0..MAX_CONNECTION_ATTEMPTS - 1 {
        assert_eq!(a.on_attempt(false), RetryAction::Retry);
    }
    assert_eq!(a.on_attempt(false), RetryAction::GiveUp);
}

#[test]
fn first_connection_ends_the_attempts() {
    let mut a = ConnectionAttempts::new();
    assert_eq!(a.on_attempt(false), RetryAction::Retry);
    assert_eq!(a.on_attempt(true), RetryAction::Connected);
}

#[test]
fn config_path_defaults() {
    assert_eq!(config_path(None), DEFAULT_CONFIG_PATH);
    assert_eq!(config_path(Some("a.yml".to_string())), "a.yml");
    let tls = TLS { prv_key: "k".to_string(), cert: "c".to_string(), ca: "a".to_string() };
    assert_eq!(tls.clone(), tls);
    let s = ServiceAddresses { historical: "h".to_string(), symbol: "s".to_string() };
    assert_eq!(s.clone(), s);
}

#[test]
fn order_state_is_the_largest_success() {
    let states = vec![Some(3), None, Some(7), Some(5)];
    assert_eq!(max_state(&states), Some(7));
    assert_eq!(max_state(&vec![None, None]), None);
    assert_eq!(state_after_orders(2, &states), 7);
    assert_eq!(state_after_orders(2, &vec![None]), 2);
    assert_eq!(first_failure(&states), Some(1));
    assert_eq!(first_failure(&vec![Some(1)]), None);
}

#[test]
fn removal_state_and_failure() {
    assert_eq!(state_after_removal(5, Some(8), Some(2)), 2);
    assert_eq!(state_after_removal(5, Some(1), Some(2)), 1);
    assert_eq!(state_after_removal(5, None, None), 5);
    assert_eq!(state_after_removal(5, None, Some(9)), 5);
    assert_eq!(removal_failure(&vec![Some(1), None], &vec![None]), Some(RemovalFailure::Cancel(1)));
    assert_eq!(removal_failure(&vec![Some(1)], &vec![Some(1), None]), Some(RemovalFailure::Reverse(1)));
    assert_eq!(removal_failure(&vec![], &vec![]), None);
}

#[test]
fn order_endpoints_skip_bad_bases() {
    let bases = vec!["https://api.binance.com".to_string(), "not a url".to_string()];
    let eps = order_endpoints(&bases);
    assert_eq!(eps.len(), 1);
    assert_eq!(eps[0].source, "https://api.binance.com/api/v3/order");
    assert_eq!(eps[0].url, "https://api.binance.com/api/v3/order");
    let odd = order_endpoints(&vec!["HTTPS://Example.COM".to_string()]);
    assert_eq!(odd[0].source, "HTTPS://Example.COM/api/v3/order");
    assert_eq!(odd[0].url, "https://example.com/api/v3/order");
    assert_eq!(signed_query("a=1", "sig"), "a=1&signature=sig");
}

#[test]
fn handshake_accepts_informational_only() {
    assert_eq!(check_handshake(101), Ok(()));
    assert_eq!(
        check_handshake(404),
        Err(WebsocketError { status: Some(404), msg: Some("Not Found".to_string()) })
    );
    assert_eq!(check_handshake(599), Err(WebsocketError { status: Some(599), msg: None }));
    assert_eq!(handshake_result(200, true, None), Ok(()));
}

#[test]
fn trade_streams_are_lower_case() {
    assert_eq!(subscription_params(&vec!["BTCUSDT".to_string(), "EthBtc".to_string()]), vec!["btcusdt@trade", "ethbtc@trade"]);
    assert_eq!(trade_stream("x"), "x@trade");
    match subscribe_request(7, &vec!["ABC".to_string()]) {
        TradeSubRequest::Subscribe(inner) => {
            assert_eq!(inner.id, 7);
            assert_eq!(inner.params, vec!["abc@trade"]);
        },
    }
    assert_eq!(user_stream_url("wss://s", "key"), "wss://s/key");
    assert_eq!(user_data_stream_endpoint("https://a"), "https://a/api/v3/userDataStream");
}

#[test]
fn kvs_keys_are_prefixed() {
    let kvs = KVS::new(1u8, NODE_KVS_NAME.to_string());
    assert_eq!(kvs.channel_name("n1"), "observer_node:n1");
    assert_eq!(*kvs.connection(), 1u8);
    assert_eq!(NODE_EXCHANGE_TYPE_KVS_NAME, "observer_node_exchange_type");
    assert_eq!(INIT_LOCK_NAME, "init_lock");
}

#[test]
fn symbol_names_keep_order() {
    let info = |s: &str| SymbolInfo { symbol: s.to_string(), status: "TRADING".to_string(), base: "B".to_string(), quote: "Q".to_string() };
    let list = SymbolList { symbols: vec![info("A"), info("B")] };
    assert_eq!(list.symbol_names(), vec!["A", "B"]);
}

#[test]
fn bot_id_must_match() {
    assert!(check_bot_id(&"1".to_string(), &Some("1".to_string())).is_ok());
    let e = check_bot_id(&"1".to_string(), &Some("2".to_string())).unwrap_err();
    assert_eq!((e.code, e.message.as_str()), (417, "ID mismatch"));
    assert!(check_bot_id(&"1".to_string(), &None).is_err());
    assert_eq!(failure_code(BotFailure::InvalidBot), 417);
    assert_eq!(failure_code(BotFailure::SaveFailed), 500);
    assert_eq!(reject(BotFailure::TranspileFailed, "x".to_string()).code, 500);
}

#[test]
fn removal_cancels_all_and_sells_filled() {
    let pos = |s: &str, id: i64, f: bool| PositionSummary { symbol: s.to_string(), order_id: id, has_fills: f };
    let plan = removal_plan(&vec![pos("A", 1, true), pos("B", 2, false), pos("C", 3, true)]);
    assert_eq!(plan.cancels, vec![
        CancelOrder { symbol: "A".to_string(), order_id: 1 },
        CancelOrder { symbol: "B".to_string(), order_id: 2 },
        CancelOrder { symbol: "C".to_string(), order_id: 3 },
    ]);
    assert_eq!(plan.reversals, vec![0, 2]);
    assert!(removal_plan(&vec![]).cancels.is_empty());
}

#[test]
fn executor_settings() {
    assert_eq!(POSITIONS_COLLECTION, "binance.positions");
    assert_eq!(REQUEST_TIMEOUT_SECS, 5);
    assert_eq!(position_indices(), vec!["orderId", "clientOrderId", "settlementGid", "positionGroupId"]);
}

#[test]
fn store_addresses_are_checked() {
    assert!(redis_client("redis://127.0.0.1:6379").is_ok());
    assert!(redis_client("http://127.0.0.1:6379").is_err());
    assert!(redis_client("not a url").is_err());
    let tls = TLS { prv_key: "k".to_string(), cert: "c".to_string(), ca: "a".to_string() };
    let cfg = Config {
        host: "h".to_string(),
        db_url: "d".to_string(),
        broker_url: "b".to_string(),
        transpiler_url: "t".to_string(),
        redis_url: "redis://x".to_string(),
        tls,
    };
    assert_eq!(cfg.clone(), cfg);
}

#[test]
fn failed_answers_are_reported() {
    assert_eq!(check_response("u".to_string(), 200, None), Ok(()));
    assert_eq!(check_response("u".to_string(), 299, Some("b".to_string())), Ok(()));
    assert_eq!(
        check_response("u".to_string(), 400, Some("bad".to_string())),
        Err(ResponseFailure { url: Some("u".to_string()), code: 400, text: "bad".to_string() })
    );
    assert_eq!(
        check_response("u".to_string(), 503, None).unwrap_err().text,
        "Failed to get the text"
    );
}

#[test]
fn status_classes() {
    assert!(is_informational(100) && is_informational(199) && !is_informational(200));
    assert!(is_success(200) && is_success(299) && !is_success(300) && !is_success(199));
}

#[test]
fn user_stream_decisions() {
    assert_eq!(
        user_stream_step("wss://s", UserStreamEvent::ListenKey(Some("k".to_string()))),
        UserStreamAction::Connect("wss://s/k".to_string())
    );
    assert_eq!(user_stream_step("wss://s", UserStreamEvent::ListenKey(None)), UserStreamAction::Skip);
    assert_eq!(user_stream_step("wss://s", UserStreamEvent::ConnectFailed), UserStreamAction::Skip);
    assert_eq!(user_stream_step("wss://s", UserStreamEvent::ReadFailed), UserStreamAction::Skip);
    assert_eq!(user_stream_step("wss://s", UserStreamEvent::Message), UserStreamAction::Handle);
    assert_eq!(user_stream_step("wss://s", UserStreamEvent::HandlerFailed), UserStreamAction::Stop);
}

#[test]
fn connection_failure_has_no_status() {
    assert_eq!(
        connect_failure("refused".to_string()),
        WebsocketError { status: None, msg: Some("refused".to_string()) }
    );
}
