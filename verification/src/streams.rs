//! The exchange streams: the websocket handshake check and the trade
//! subscription request.

use vstd::prelude::*;

use crate::errors::WebsocketError;

verus! {

/// The reason phrase that `http` gives the status code `code`.
pub uninterp spec fn canonical_reason_of(code: u16) -> Option<Seq<char>>;

/// The lower case form that `str::to_lowercase` gives `s`.
pub uninterp spec fn lowercase_of(s: Seq<char>) -> Seq<char>;

/// Calls `http::StatusCode::from_u16` and then `StatusCode::canonical_reason`:
/// the standard reason phrase of a known code, `None` for an unknown one and
/// for a number outside 100 to 999, which is no status code.
#[verifier::external_body]
fn canonical_reason(code: u16) -> (reason: Option<String>)
    ensures
        match reason {
            Some(r) => canonical_reason_of(code) == Some(r@),
            None => canonical_reason_of(code) is None,
        },
        code < 100 || code > 999 ==> reason is None,
{
    match http::StatusCode::from_u16(code) {
        Ok(status) => match status.canonical_reason() {
            Some(r) => Some(r.to_string()),
            None => None,
        },
        Err(_) => None,
    }
}

/// Whether the status code is informational: within 100 to 199, as
/// `http::StatusCode::is_informational` has it.
pub fn is_informational(code: u16) -> (informational: bool)
    ensures
        informational == (100 <= code < 200),
{
    100 <= code && code < 200
}

/// Whether the status code is a success: within 200 to 299, as
/// `http::StatusCode::is_success` has it.
pub fn is_success(code: u16) -> (success: bool)
    ensures
        success == (200 <= code < 300),
{
    200 <= code && code < 300
}

/// Calls `str::to_lowercase`.
#[verifier::external_body]
fn to_lowercase(s: &str) -> (lower: String)
    ensures
        lower@ == lowercase_of(s@),
{
    s.to_lowercase()
}

/// The outcome of a websocket handshake answered with `code`: only an
/// informational answer switches protocols; any other is reported with the
/// code and its reason phrase.
pub fn handshake_result(code: u16, informational: bool, reason: Option<String>) -> (result: Result<
    (),
    WebsocketError,
>)
    ensures
        informational ==> result is Ok,
        !informational ==> result == Err::<(), WebsocketError>(
            WebsocketError { status: Some(code), msg: reason },
        ),
{
    if informational {
        Ok(())
    } else {
        Err(WebsocketError { status: Some(code), msg: reason })
    }
}

/// The report of a websocket connection that failed before any answer,
/// carrying the transport's message.
pub fn connect_failure(msg: String) -> (err: WebsocketError)
    ensures
        err.status is None,
        err.msg == Some(msg),
{
    WebsocketError { status: None, msg: Some(msg) }
}

/// Checks the status code that a websocket handshake was answered with.
pub fn check_handshake(code: u16) -> (result: Result<(), WebsocketError>)
    ensures
        result is Ok <==> 100 <= code < 200,
        result matches Err(e) ==> e.status == Some(code) && match e.msg {
            Some(m) => canonical_reason_of(code) == Some(m@),
            None => canonical_reason_of(code) is None,
        },
{
    let informational = is_informational(code);
    let reason = canonical_reason(code);
    handshake_result(code, informational, reason)
}

/// The name of the trade stream of a symbol already in lower case.
pub fn trade_stream(lowered: &str) -> (stream: String)
    ensures
        stream@ == lowered@ + "@trade"@,
{
    lowered.to_owned().concat("@trade")
}

/// The trade streams of the symbols, in order.
pub fn subscription_params(symbols: &Vec<String>) -> (params: Vec<String>)
    ensures
        params@.len() == symbols@.len(),
        forall|i: int|
            0 <= i < params@.len() ==> #[trigger] params@[i]@ == lowercase_of(symbols@[i]@)
                + "@trade"@,
{
    let mut params: Vec<String> = Vec::new();
    for i in 0..symbols.len()
        invariant
            params@.len() == i,
            forall|j: int|
                0 <= j < i ==> #[trigger] params@[j]@ == lowercase_of(symbols@[j]@) + "@trade"@,
    {
        let lowered = to_lowercase(symbols[i].as_str());
        params.push(trade_stream(lowered.as_str()));
    }
    params
}

/// The websocket address of the user data stream of a listen key.
pub fn user_stream_url(ws_endpoint: &str, listen_key: &str) -> (url: String)
    ensures
        url@ == ws_endpoint@ + "/"@ + listen_key@,
{
    ws_endpoint.to_owned().concat("/").concat(listen_key)
}

/// What happens on the user data stream.
#[derive(Debug, Clone, PartialEq, Eq)]
pub enum UserStreamEvent {
    /// A listen key arrived; `None` where its bytes are no UTF-8 text.
    ListenKey(Option<String>),
    /// Connecting to the stream of a listen key failed.
    ConnectFailed,
    /// Reading from a stream failed.
    ReadFailed,
    /// A message arrived from a stream.
    Message,
    /// Handling a message failed.
    HandlerFailed,
}

/// What the user stream does next.
#[derive(Debug, Clone, PartialEq, Eq)]
pub enum UserStreamAction {
    /// Connect to the stream at this address.
    Connect(String),
    /// Hand the message to the handler.
    Handle,
    /// Leave the event and wait for the next one.
    Skip,
    /// Stop with the handler's error.
    Stop,
}

/// The decision of the user stream on an event: a listen key that is text
/// is connected to under `ws_endpoint`, one that is not is dropped; failed
/// connections and reads are skipped; a message is handled; a failed
/// handling stops the stream.
pub fn user_stream_step(ws_endpoint: &str, event: UserStreamEvent) -> (action: UserStreamAction)
    ensures
        match event {
            UserStreamEvent::ListenKey(Some(k)) => action matches UserStreamAction::Connect(url)
                && url@ == ws_endpoint@ + "/"@ + k@,
            UserStreamEvent::Message => action == UserStreamAction::Handle,
            UserStreamEvent::HandlerFailed => action == UserStreamAction::Stop,
            _ => action == UserStreamAction::Skip,
        },
{
    match event {
        UserStreamEvent::ListenKey(Some(k)) => UserStreamAction::Connect(
            user_stream_url(ws_endpoint, k.as_str()),
        ),
        UserStreamEvent::ListenKey(None) => UserStreamAction::Skip,
        UserStreamEvent::ConnectFailed => UserStreamAction::Skip,
        UserStreamEvent::ReadFailed => UserStreamAction::Skip,
        UserStreamEvent::Message => UserStreamAction::Handle,
        UserStreamEvent::HandlerFailed => UserStreamAction::Stop,
    }
}

/// The REST address that hands out listen keys for the user data stream.
pub fn user_data_stream_endpoint(rest_endpoint: &str) -> (url: String)
    ensures
        url@ == rest_endpoint@ + "/api/v3/userDataStream"@,
{
    rest_endpoint.to_owned().concat("/api/v3/userDataStream")
}

/// The body of a trade subscription request.
#[derive(Debug, Clone, PartialEq, Eq)]
pub struct TradeSubRequestInner {
    pub id: u32,
    pub params: Vec<String>,
}

/// A request on the trade websocket.
#[derive(Debug, Clone, PartialEq, Eq)]
pub enum TradeSubRequest {
    Subscribe(TradeSubRequestInner),
}

/// The request that subscribes the observer `id` to the trades of the symbols.
pub fn subscribe_request(id: u32, symbols: &Vec<String>) -> (request: TradeSubRequest)
    ensures
        request matches TradeSubRequest::Subscribe(inner) && inner.id == id && inner.params@.len()
            == symbols@.len() && forall|i: int|
            0 <= i < symbols@.len() ==> #[trigger] inner.params@[i]@ == lowercase_of(symbols@[i]@)
                + "@trade"@,
{
    TradeSubRequest::Subscribe(TradeSubRequestInner { id, params: subscription_params(symbols) })
}

} // verus!
