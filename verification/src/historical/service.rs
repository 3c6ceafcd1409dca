use vstd::prelude::*;

use crate::bot::Status;
use crate::exchanges::Exchanges;
use crate::rpc::history_fetch_request::HistoryFetchRequest;

verus! {

/// The server of the historical chart service.
#[derive(Debug, Clone, Copy, PartialEq, Eq, Structural)]
pub struct Server {}

/// The download progress of a symbol, as sent to websocket clients.
#[derive(Debug, Clone, PartialEq, Eq)]
pub struct Progress {
    pub exchange: Exchanges,
    pub symbol: String,
    /// The number of objects to fetch.
    pub size: i64,
    /// The number of objects fetched so far.
    pub cur: i64,
}

/// A client asks for the progress of a symbol.
#[derive(Debug, Clone, PartialEq, Eq)]
pub struct StatusCheckRequest {
    pub exchange: Exchanges,
    pub symbol: String,
}

/// What the service does with a message from a websocket client.
#[derive(Debug, Clone, PartialEq, Eq)]
pub enum ClientAction {
    /// The client closed the socket: stop serving it.
    Stop,
    /// Publish the fetch request to the date splitter.
    PublishFetch(HistoryFetchRequest),
    /// Answer with the progress of the symbol.
    ReportProgress(StatusCheckRequest),
    /// The message is none of these: leave it.
    Ignore,
}

/// The HTTP status code of a store that cannot be reached.
pub const SERVICE_UNAVAILABLE: u16 = 503;

/// The store that the progress websocket could not read before opening.
#[derive(Debug, Clone, Copy, PartialEq, Eq, Structural)]
pub enum StoreFailure {
    /// The symbol records in the database.
    Symbols,
    /// The numbers of objects to fetch.
    Size,
    /// The numbers of objects fetched so far.
    Current,
}

/// The text that names a failed store and carries its error.
pub open spec fn store_failure_text(store: StoreFailure, error: Seq<char>) -> Seq<char> {
    match store {
        StoreFailure::Symbols => "(DB, Symbol): "@ + error,
        StoreFailure::Size => "(Redis, Size) "@ + error,
        StoreFailure::Current => "(Redis, Current) "@ + error,
    }
}

/// The rejection of a websocket request whose store could not be read.
pub fn store_rejection(store: StoreFailure, error: &str) -> (status: Status)
    ensures
        status.code == SERVICE_UNAVAILABLE,
        status.message@ == store_failure_text(store, error@),
{
    let prefix = match store {
        StoreFailure::Symbols => String::from_str("(DB, Symbol): "),
        StoreFailure::Size => String::from_str("(Redis, Size) "),
        StoreFailure::Current => String::from_str("(Redis, Current) "),
    };
    Status { code: SERVICE_UNAVAILABLE, message: prefix.concat(error) }
}

/// The close code sent when the status channel cannot be subscribed to.
pub const SUBSCRIBE_FAILURE_CLOSE_CODE: u16 = 1011;

/// The close message sent when the status channel cannot be subscribed to.
pub fn subscribe_failure_message(error: &str) -> (message: String)
    ensures
        message@ == "Got an error while trying to subscribe the channel: "@ + error@,
{
    String::from_str("Got an error while trying to subscribe the channel: ").concat(error)
}

/// The payload sent in place of a progress that could not be serialized.
pub fn unserializable_progress() -> (payload: String)
    ensures
        payload@ == "Failed to serialize the progress data."@,
{
    String::from_str("Failed to serialize the progress data.")
}

/// The progress to send, where a store that could not be read counts as zero.
pub fn progress_of(exchange: Exchanges, symbol: String, size: Option<i64>, cur: Option<i64>) -> (p:
    Progress)
    ensures
        p.exchange == exchange,
        p.symbol == symbol,
        p.size == match size {
            Some(v) => v,
            None => 0,
        },
        p.cur == match cur {
            Some(v) => v,
            None => 0,
        },
{
    Progress { exchange, symbol, size: size.unwrap_or(0), cur: cur.unwrap_or(0) }
}

/// Decides on a client message: a close message stops the service; else a
/// message that reads as a fetch request is published; else one that reads
/// as a status check is answered; anything else is left.
pub fn on_client_message(
    is_close: bool,
    as_fetch: Option<HistoryFetchRequest>,
    as_check: Option<StatusCheckRequest>,
) -> (action: ClientAction)
    ensures
        is_close ==> action == ClientAction::Stop,
        !is_close && as_fetch is Some ==> action == ClientAction::PublishFetch(as_fetch->0),
        !is_close && as_fetch is None && as_check is Some ==> action == ClientAction::ReportProgress(
            as_check->0,
        ),
        !is_close && as_fetch is None && as_check is None ==> action == ClientAction::Ignore,
{
    if is_close {
        ClientAction::Stop
    } else {
        match as_fetch {
            Some(req) => ClientAction::PublishFetch(req),
            None => match as_check {
                Some(req) => ClientAction::ReportProgress(req),
                None => ClientAction::Ignore,
            },
        }
    }
}

} // verus!
