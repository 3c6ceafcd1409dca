//! Bookkeeping of the order executor: which round-robin client state to keep
//! after a batch of requests, and which failure to report.

use vstd::prelude::*;

use crate::streams::is_success;
use crate::strings::strings_view;

verus! {

/// Whether `url::Url::parse` accepts `s` as an absolute URL.
pub uninterp spec fn url_parses(s: Seq<char>) -> bool;

/// The serialization (`Url::as_str`) of the URL that `url::Url::parse` makes of `s`.
pub uninterp spec fn url_serialization(s: Seq<char>) -> Seq<char>;

/// Calls `url::Url::parse`: `Some` with the serialization of the parsed URL
/// (`Url::as_str`) where `s` is an absolute URL, `None` where the parser
/// reports an error.
#[verifier::external_body]
fn parse_url(s: &str) -> (url: Option<String>)
    ensures
        url is Some <==> url_parses(s@),
        url matches Some(u) ==> u@ == url_serialization(s@),
{
    match url::Url::parse(s) {
        Ok(u) => Some(u.as_str().to_string()),
        Err(_) => None,
    }
}

/// The path of the order endpoint of the exchange's REST API.
pub open spec fn order_path() -> Seq<char> {
    "/api/v3/order"@
}

/// The order endpoint under a REST base address: the text it was parsed
/// from, and the serialization of the parsed URL.
#[derive(Debug, Clone, PartialEq, Eq)]
pub struct OrderEndpoint {
    pub source: String,
    pub url: String,
}

/// The order endpoints under the base addresses, in order, skipping those
/// that do not parse as URLs.
pub fn order_endpoints(bases: &Vec<String>) -> (endpoints: Vec<OrderEndpoint>)
    ensures
        endpoints@.map_values(|e: OrderEndpoint| e.source@) == strings_view(bases@).map_values(
            |b: Seq<char>| b + order_path(),
        ).filter(|t: Seq<char>| url_parses(t)),
        forall|i: int|
            0 <= i < endpoints@.len() ==> #[trigger] endpoints@[i].url@ == url_serialization(
                endpoints@[i].source@,
            ),
{
    let ghost texts = strings_view(bases@).map_values(|b: Seq<char>| b + order_path());
    let ghost pred = |t: Seq<char>| url_parses(t);
    let mut endpoints: Vec<OrderEndpoint> = Vec::new();
    for i in 0..bases.len()
        invariant
            texts == strings_view(bases@).map_values(|b: Seq<char>| b + order_path()),
            pred == (|t: Seq<char>| url_parses(t)),
            endpoints@.map_values(|e: OrderEndpoint| e.source@) == texts.take(i as int).filter(pred),
            forall|j: int|
                0 <= j < endpoints@.len() ==> #[trigger] endpoints@[j].url@ == url_serialization(
                    endpoints@[j].source@,
                ),
    {
        let text = bases[i].clone().concat("/api/v3/order");
        proof {
            reveal_strlit("/api/v3/order");
        }
        assert(text@ == texts[i as int]);
        assert(texts.take(i + 1) == texts.take(i as int).push(text@));
        proof {
            texts.take(i as int).lemma_filter_push(text@, pred);
        }
        let ghost before = endpoints@;
        match parse_url(text.as_str()) {
            Some(url) => {
                endpoints.push(OrderEndpoint { source: text, url });
                assert(endpoints@.map_values(|e: OrderEndpoint| e.source@) == before.map_values(
                    |e: OrderEndpoint| e.source@,
                ).push(texts[i as int]));
            },
            None => {
                assert(!pred(text@));
            },
        }
    }
    assert(texts.take(bases@.len() as int) == texts);
    endpoints
}

/// The collection that holds the positions of the executor.
pub const POSITIONS_COLLECTION: &'static str = "binance.positions";

/// The connect and request timeouts of the REST client, in seconds.
pub const REQUEST_TIMEOUT_SECS: u64 = 5;

/// The fields of the positions collection that are indexed.
pub fn position_indices() -> (fields: Vec<&'static str>)
    ensures
        fields@.len() == 4,
        fields@[0]@ == "orderId"@,
        fields@[1]@ == "clientOrderId"@,
        fields@[2]@ == "settlementGid"@,
        fields@[3]@ == "positionGroupId"@,
{
    let mut fields: Vec<&'static str> = Vec::new();
    fields.push("orderId");
    fields.push("clientOrderId");
    fields.push("settlementGid");
    fields.push("positionGroupId");
    fields
}

/// What the executor knows of an open position when removing its group.
#[derive(Debug, Clone, PartialEq, Eq)]
pub struct PositionSummary {
    pub symbol: String,
    pub order_id: i64,
    /// Whether the order's answer carries a list of fills, even an empty one.
    pub has_fills: bool,
}

/// A request to cancel the order of a position.
#[derive(Debug, Clone, PartialEq, Eq)]
pub struct CancelOrder {
    pub symbol: String,
    pub order_id: i64,
}

/// The requests that remove an order group.
#[derive(Debug, Clone, PartialEq, Eq)]
pub struct RemovalPlan {
    /// One cancellation per position, in order.
    pub cancels: Vec<CancelOrder>,
    /// The indices of the positions to sell back at market, in order.
    pub reversals: Vec<usize>,
}

/// Removing an order group cancels the order of every position, and sells
/// back at market every position that was filled.
pub fn removal_plan(positions: &Vec<PositionSummary>) -> (plan: RemovalPlan)
    ensures
        plan.cancels@.len() == positions@.len(),
        forall|i: int|
            0 <= i < positions@.len() ==> #[trigger] plan.cancels@[i].symbol@ == positions@[i].symbol@
                && plan.cancels@[i].order_id == positions@[i].order_id,
        forall|j: int, k: int|
            0 <= j < k < plan.reversals@.len() ==> plan.reversals@[j] < plan.reversals@[k],
        forall|j: int|
            0 <= j < plan.reversals@.len() ==> #[trigger] plan.reversals@[j] < positions@.len()
                && positions@[plan.reversals@[j] as int].has_fills,
        forall|i: int|
            0 <= i < positions@.len() && #[trigger] positions@[i].has_fills ==> plan.reversals@.contains(
                i as usize,
            ),
{
    let mut cancels: Vec<CancelOrder> = Vec::new();
    let mut reversals: Vec<usize> = Vec::new();
    for i in 0..positions.len()
        invariant
            cancels@.len() == i,
            forall|j: int|
                0 <= j < i ==> #[trigger] cancels@[j].symbol@ == positions@[j].symbol@
                    && cancels@[j].order_id == positions@[j].order_id,
            forall|j: int, k: int| 0 <= j < k < reversals@.len() ==> reversals@[j] < reversals@[k],
            forall|j: int| 0 <= j < reversals@.len() ==> #[trigger] reversals@[j] < i,
            forall|j: int|
                0 <= j < reversals@.len() ==> #[trigger] positions@[reversals@[j] as int].has_fills,
            forall|j: int|
                0 <= j < i && #[trigger] positions@[j].has_fills ==> reversals@.contains(j as usize),
    {
        let p = &positions[i];
        cancels.push(CancelOrder { symbol: p.symbol.clone(), order_id: p.order_id });
        if p.has_fills {
            let ghost before = reversals@;
            reversals.push(i);
            proof {
                crate::strings::lemma_push_contains(before, i);
            }
        }
    }
    RemovalPlan { cancels, reversals }
}

/// A request of the executor was answered with a status that is no success.
#[derive(Debug, Clone, PartialEq, Eq)]
pub struct StatusFailure {
    pub url: Option<String>,
    pub code: u16,
    pub text: String,
}

/// The text reported where the body of a failed answer cannot be read.
pub open spec fn unreadable_body() -> Seq<char> {
    "Failed to get the text"@
}

/// Checks the answer to a cancellation or a sale: a success status passes;
/// any other is reported with the address that answered, the code, and the
/// body, or `unreadable_body()` where the body could not be read.
pub fn check_response(url: String, code: u16, body: Option<String>) -> (result: Result<(), StatusFailure>)
    ensures
        result is Ok <==> 200 <= code < 300,
        result matches Err(f) ==> f.url == Some(url) && f.code == code && f.text@ == match body {
            Some(b) => b@,
            None => unreadable_body(),
        },
{
    if is_success(code) {
        Ok(())
    } else {
        let text = match body {
            Some(b) => b,
            None => String::from_str("Failed to get the text"),
        };
        Err(StatusFailure { url: Some(url), code, text })
    }
}

/// A query string with its signature appended.
pub fn signed_query(query: &str, signature: &str) -> (signed: String)
    ensures
        signed@ == query@ + "&signature="@ + signature@,
{
    query.to_owned().concat("&signature=").concat(signature)
}

/// The largest state among the requests that succeeded; `states[i]` is the
/// client state that request `i` ended with, or `None` where it failed.
pub open spec fn max_state_spec(states: Seq<Option<usize>>) -> Option<usize>
    decreases states.len(),
{
    if states.len() == 0 {
        None
    } else {
        let rest = max_state_spec(states.drop_last());
        match (states.last(), rest) {
            (Some(s), Some(m)) => Some(if s > m { s } else { m }),
            (Some(s), None) => Some(s),
            (None, r) => r,
        }
    }
}

/// The largest state among the requests that succeeded, if any did.
pub fn max_state(states: &Vec<Option<usize>>) -> (m: Option<usize>)
    ensures
        m == max_state_spec(states@),
        m is None <==> forall|i: int| 0 <= i < states@.len() ==> #[trigger] states@[i] is None,
        m matches Some(v) ==> (exists|i: int| 0 <= i < states@.len() && #[trigger] states@[i] == Some(v))
            && forall|i: int|
            0 <= i < states@.len() && #[trigger] states@[i] is Some ==> states@[i]->0 <= v,
{
    let mut m: Option<usize> = None;
    for i in 0..states.len()
        invariant
            m == max_state_spec(states@.take(i as int)),
            m is None <==> forall|j: int| 0 <= j < i ==> #[trigger] states@[j] is None,
            m matches Some(v) ==> (exists|j: int| 0 <= j < i && #[trigger] states@[j] == Some(v))
                && forall|j: int| 0 <= j < i && #[trigger] states@[j] is Some ==> states@[j]->0 <= v,
    {
        assert(states@.take(i + 1).drop_last() == states@.take(i as int));
        assert(states@.take(i + 1).last() == states@[i as int]);
        match states[i] {
            Some(s) => {
                match m {
                    Some(v) => {
                        if s > v {
                            m = Some(s);
                        }
                    },
                    None => {
                        m = Some(s);
                    },
                }
            },
            None => {},
        }
    }
    assert(states@.take(states@.len() as int) == states@);
    m
}

/// The index of the first request that failed, if any did.
pub fn first_failure(states: &Vec<Option<usize>>) -> (index: Option<usize>)
    ensures
        match index {
            Some(i) => i < states@.len() && states@[i as int] is None && forall|j: int|
                0 <= j < i ==> #[trigger] states@[j] is Some,
            None => forall|j: int| 0 <= j < states@.len() ==> #[trigger] states@[j] is Some,
        },
{
    for i in 0..states.len()
        invariant
            forall|j: int| 0 <= j < i ==> #[trigger] states@[j] is Some,
    {
        if states[i].is_none() {
            return Some(i);
        }
    }
    None
}

/// The client state after placing orders: the largest state that a
/// successful request ended with, or the current one where all failed.
pub fn state_after_orders(current: usize, states: &Vec<Option<usize>>) -> (next: usize)
    ensures
        next == match max_state_spec(states@) {
            Some(m) => m,
            None => current,
        },
{
    match max_state(states) {
        Some(m) => m,
        None => current,
    }
}

/// The client state after removing an order group: the state of the
/// cancellations where one succeeded, lowered to the state of the position
/// reversals where that one is not above it.
pub fn state_after_removal(current: usize, cancel_state: Option<usize>, reverse_state: Option<usize>) -> (next: usize)
    ensures
        ({
            let s = match cancel_state {
                Some(c) => c,
                None => current,
            };
            next == match reverse_state {
                Some(r) => if s >= r {
                    r
                } else {
                    s
                },
                None => s,
            }
        }),
{
    let s = match cancel_state {
        Some(c) => c,
        None => current,
    };
    match reverse_state {
        Some(r) => if s >= r {
            r
        } else {
            s
        },
        None => s,
    }
}

/// The failure that removing an order group reports.
#[derive(Debug, Clone, Copy, PartialEq, Eq, Structural)]
pub enum RemovalFailure {
    /// The cancellation with this index failed.
    Cancel(usize),
    /// The reversal of the position with this index failed.
    Reverse(usize),
}

/// The failure to report: the first failed cancellation, else the first
/// failed reversal, else none.
pub fn removal_failure(cancels: &Vec<Option<usize>>, reverses: &Vec<Option<usize>>) -> (failure:
    Option<RemovalFailure>)
    ensures
        match failure {
            Some(RemovalFailure::Cancel(i)) => i < cancels@.len() && cancels@[i as int] is None
                && forall|j: int| 0 <= j < i ==> #[trigger] cancels@[j] is Some,
            Some(RemovalFailure::Reverse(i)) => (forall|j: int|
                0 <= j < cancels@.len() ==> #[trigger] cancels@[j] is Some) && i < reverses@.len()
                && reverses@[i as int] is None && forall|j: int|
                0 <= j < i ==> #[trigger] reverses@[j] is Some,
            None => (forall|j: int| 0 <= j < cancels@.len() ==> #[trigger] cancels@[j] is Some)
                && forall|j: int| 0 <= j < reverses@.len() ==> #[trigger] reverses@[j] is Some,
        },
{
    match first_failure(cancels) {
        Some(i) => Some(RemovalFailure::Cancel(i)),
        None => match first_failure(reverses) {
            Some(i) => Some(RemovalFailure::Reverse(i)),
            None => None,
        },
    }
}

} // verus!
