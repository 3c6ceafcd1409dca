use vstd::prelude::*;

use crate::rpc::history_fetch_request::{HistoryFetchRequest, TimestampSchema};

verus! {

/// The UNIX epoch, which stands for a bound that a request leaves out.
pub open spec fn epoch() -> TimestampSchema {
    TimestampSchema { nanos: Some(0), seconds: Some(0) }
}

/// The range that a fetch request asks to split: its start and its end,
/// where a missing bound counts as the epoch.
pub fn split_bounds(req: &HistoryFetchRequest) -> (bounds: (TimestampSchema, TimestampSchema))
    ensures
        bounds.0 == match req.start {
            Some(s) => s,
            None => epoch(),
        },
        bounds.1 == match req.end {
            Some(e) => e,
            None => epoch(),
        },
{
    let start = match req.start {
        Some(s) => s,
        None => TimestampSchema { nanos: Some(0), seconds: Some(0) },
    };
    let end = match req.end {
        Some(e) => e,
        None => TimestampSchema { nanos: Some(0), seconds: Some(0) },
    };
    (start, end)
}

/// The number of objects to fetch that is stored for a request: the number
/// of windows that the splitter yields, or 0 where it cannot tell.
pub fn objects_to_fetch(num_windows: Option<usize>) -> (count: i64)
    ensures
        count == match num_windows {
            Some(n) => n as i64,
            None => 0i64,
        },
{
    match num_windows {
        Some(n) => n as i64,
        None => 0,
    }
}

/// What happens while a fetch request is split into windows.
#[derive(Debug, Clone, PartialEq, Eq)]
pub enum SplitterEvent {
    /// The splitter refused the range.
    SplitterFailed,
    /// The stored progress of the symbol could not be reset.
    ResetFailed,
    /// The number of objects to fetch could not be stored.
    CountWriteFailed,
    /// The splitter yielded a window.
    Window(TimestampSchema, TimestampSchema),
    /// The splitter yielded its last window.
    WindowsDone,
}

/// What the splitter worker does next.
#[derive(Debug, Clone, PartialEq, Eq)]
pub enum SplitterAction {
    /// Leave this request and wait for the next one.
    SkipRequest,
    /// Go on with this request.
    Continue,
    /// Publish this request for one window.
    Publish(HistoryFetchRequest),
    /// The request is done: wait for the next one.
    NextRequest,
}

/// The decision of the splitter worker on an event about the request `req`:
/// a refused range or a failed reset skips the request; a failed count
/// write goes on; each window is published as the request with that start
/// and end; the end of the windows ends the request.
pub fn splitter_step(req: &HistoryFetchRequest, event: SplitterEvent) -> (action: SplitterAction)
    ensures
        match event {
            SplitterEvent::SplitterFailed => action == SplitterAction::SkipRequest,
            SplitterEvent::ResetFailed => action == SplitterAction::SkipRequest,
            SplitterEvent::CountWriteFailed => action == SplitterAction::Continue,
            SplitterEvent::Window(s, e) => action == SplitterAction::Publish(
                HistoryFetchRequest { start: Some(s), end: Some(e), ..*req },
            ),
            SplitterEvent::WindowsDone => action == SplitterAction::NextRequest,
        },
{
    match event {
        SplitterEvent::SplitterFailed => SplitterAction::SkipRequest,
        SplitterEvent::ResetFailed => SplitterAction::SkipRequest,
        SplitterEvent::CountWriteFailed => SplitterAction::Continue,
        SplitterEvent::Window(s, e) => SplitterAction::Publish(
            HistoryFetchRequest {
                start: Some(s),
                end: Some(e),
                exchange: req.exchange,
                symbol: req.symbol.clone(),
            },
        ),
        SplitterEvent::WindowsDone => SplitterAction::NextRequest,
    }
}

} // verus!
