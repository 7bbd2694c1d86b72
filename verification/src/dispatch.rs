//! One exchange with the transport, step by step.
//!
//! The transport sends, waits and reads; what to do with what arrives is
//! decided here. An exchange starts in `Sending`. When the head of a response
//! arrives, the exchange says how to read the payload; when the payload
//! arrives, or when the transport fails, it delivers the result to show. An
//! exchange delivers at most once, and whatever arrives after that is ignored.

use crate::http_types::{header_fields, header_listing};
use crate::response::{
    binary_response, classify_head, failed_response, failure_response, head_of, text_response,
    HttpResponse, HttpResponseView, ResponseHead, ResponseHeadView,
};
use vstd::prelude::*;

verus! {

/// Where an exchange stands.
pub enum Exchange {
    /// The request for `url` is under way.
    Sending { url: String },
    /// The head of the response is in, its payload is being read.
    Reading { head: ResponseHead },
    /// The result was delivered.
    Delivered,
}

/// What an `Exchange` holds.
pub enum ExchangeView {
    Sending { url: Seq<char> },
    Reading { head: ResponseHeadView },
    Delivered,
}

impl View for Exchange {
    type V = ExchangeView;

    open spec fn view(&self) -> ExchangeView {
        match self {
            Exchange::Sending { url } => ExchangeView::Sending { url: url@ },
            Exchange::Reading { head } => ExchangeView::Reading { head: head@ },
            Exchange::Delivered => ExchangeView::Delivered,
        }
    }
}

/// What the transport reports.
pub enum Arrival {
    /// The request failed before any response; the text says why.
    Failed(String),
    /// The status and the headers of the response.
    Head { status: u16, headers: reqwest::header::HeaderMap },
    /// The payload read as bytes, or why it could not be read.
    Bytes(Result<Vec<u8>, String>),
    /// The payload read as text, or why it could not be read.
    Text(Result<String, String>),
}

/// What the transport is to do next.
pub enum Next {
    /// Read the payload as bytes and report it.
    ReadBytes,
    /// Read the payload as text and report it.
    ReadText,
    /// Hand this result to the consumer; the exchange is over.
    Deliver(HttpResponse),
    /// Nothing: what arrived does not belong here.
    Ignore,
}

/// What a `Next` holds.
pub enum NextView {
    ReadBytes,
    ReadText,
    Deliver(HttpResponseView),
    Ignore,
}

impl View for Next {
    type V = NextView;

    open spec fn view(&self) -> NextView {
        match self {
            Next::ReadBytes => NextView::ReadBytes,
            Next::ReadText => NextView::ReadText,
            Next::Deliver(response) => NextView::Deliver(response@),
            Next::Ignore => NextView::Ignore,
        }
    }
}

/// What was read as bytes.
pub open spec fn bytes_read(read: Result<Vec<u8>, String>) -> Result<Seq<u8>, Seq<char>> {
    match read {
        Ok(bytes) => Ok(bytes@),
        Err(message) => Err(message@),
    }
}

/// What was read as text.
pub open spec fn text_read(read: Result<String, String>) -> Result<Seq<char>, Seq<char>> {
    match read {
        Ok(text) => Ok(text@),
        Err(message) => Err(message@),
    }
}

/// Whether `arrival` is what an exchange in `state` waits for.
pub open spec fn expected(state: ExchangeView, arrival: Arrival) -> bool {
    match state {
        ExchangeView::Sending { .. } => arrival is Failed || arrival is Head,
        ExchangeView::Reading { head } => if head.is_binary {
            arrival is Bytes
        } else {
            arrival is Text
        },
        ExchangeView::Delivered => false,
    }
}

/// Where an exchange in `state` stands after `arrival`.
pub open spec fn next_state(state: ExchangeView, arrival: Arrival) -> ExchangeView {
    if !expected(state, arrival) {
        state
    } else {
        match (state, arrival) {
            (ExchangeView::Sending { url }, Arrival::Head { status, headers }) => {
                ExchangeView::Reading {
                    head: head_of(url, status, header_fields(headers), header_listing(headers)),
                }
            },
            _ => ExchangeView::Delivered,
        }
    }
}

/// What an exchange in `state` asks for after `arrival`.
pub open spec fn next_action(state: ExchangeView, arrival: Arrival) -> NextView {
    if !expected(state, arrival) {
        NextView::Ignore
    } else {
        match (state, arrival) {
            (ExchangeView::Sending { url }, Arrival::Head { status, headers }) => {
                if head_of(
                    url,
                    status,
                    header_fields(headers),
                    header_listing(headers),
                ).is_binary {
                    NextView::ReadBytes
                } else {
                    NextView::ReadText
                }
            },
            (ExchangeView::Sending { url }, Arrival::Failed(message)) => NextView::Deliver(
                failed_response(message@),
            ),
            (ExchangeView::Reading { head }, Arrival::Bytes(read)) => NextView::Deliver(
                binary_response(head, bytes_read(read)),
            ),
            (ExchangeView::Reading { head }, Arrival::Text(read)) => NextView::Deliver(
                text_response(head, text_read(read)),
            ),
            _ => NextView::Ignore,
        }
    }
}

/// How many results an exchange that starts in `state` delivers while
/// `arrivals` come in, one after the other.
pub open spec fn deliveries(state: ExchangeView, arrivals: Seq<Arrival>) -> nat
    decreases arrivals.len(),
{
    if arrivals.len() == 0 {
        0
    } else {
        let first: nat = if next_action(state, arrivals[0]) is Deliver {
            1
        } else {
            0
        };
        first + deliveries(next_state(state, arrivals[0]), arrivals.drop_first())
    }
}

impl Exchange {
    /// The exchange for a request for `url` that was just sent.
    pub fn start(url: String) -> (r: Exchange)
        ensures
            r@ == (ExchangeView::Sending { url: url@ }),
    {
        Exchange::Sending { url }
    }

    /// Takes in what arrived and says what to do next.
    pub fn step(self, arrival: Arrival) -> (r: (Exchange, Next))
        ensures
            r.0@ == next_state(self@, arrival),
            r.1@ == next_action(self@, arrival),
    {
        match self {
            Exchange::Sending { url } => match arrival {
                Arrival::Failed(message) => (
                    Exchange::Delivered,
                    Next::Deliver(failure_response(message.as_str())),
                ),
                Arrival::Head { status, headers } => {
                    let head = classify_head(url.as_str(), status, &headers);
                    let next = if head.is_binary {
                        Next::ReadBytes
                    } else {
                        Next::ReadText
                    };
                    (Exchange::Reading { head }, next)
                },
                _ => (Exchange::Sending { url }, Next::Ignore),
            },
            Exchange::Reading { head } => {
                if head.is_binary {
                    match arrival {
                        Arrival::Bytes(read) => (
                            Exchange::Delivered,
                            Next::Deliver(head.complete_binary(read)),
                        ),
                        _ => (Exchange::Reading { head }, Next::Ignore),
                    }
                } else {
                    match arrival {
                        Arrival::Text(read) => (
                            Exchange::Delivered,
                            Next::Deliver(head.complete_text(read)),
                        ),
                        _ => (Exchange::Reading { head }, Next::Ignore),
                    }
                }
            },
            Exchange::Delivered => (Exchange::Delivered, Next::Ignore),
        }
    }
}

/// A result is delivered exactly on the step that ends the exchange, and an
/// exchange that has ended ignores whatever arrives.
pub proof fn law_delivery_ends(state: ExchangeView, arrival: Arrival)
    ensures
        next_action(state, arrival) is Deliver <==> (!(state is Delivered) && next_state(
            state,
            arrival,
        ) is Delivered),
        state is Delivered ==> next_state(state, arrival) is Delivered && next_action(
            state,
            arrival,
        ) is Ignore,
{
}

/// Whatever arrives, and in whatever order, an exchange delivers at most one
/// result.
pub proof fn law_at_most_one_delivery(state: ExchangeView, arrivals: Seq<Arrival>)
    ensures
        deliveries(state, arrivals) <= 1,
        state is Delivered ==> deliveries(state, arrivals) == 0,
    decreases arrivals.len(),
{
    if arrivals.len() > 0 {
        law_delivery_ends(state, arrivals[0]);
        law_at_most_one_delivery(next_state(state, arrivals[0]), arrivals.drop_first());
    }
}

/// A request that fails delivers its one result at once: a response with the
/// status `Error` that carries the message of the failure.
pub proof fn law_failure_delivers(url: Seq<char>, message: String, later: Seq<Arrival>)
    ensures
        next_action(ExchangeView::Sending { url }, Arrival::Failed(message))
            == NextView::Deliver(failed_response(message@)),
        failed_response(message@).status == "Error"@,
        deliveries(ExchangeView::Sending { url }, seq![Arrival::Failed(message)] + later) == 1,
{
    let state = ExchangeView::Sending { url };
    let arrivals = seq![Arrival::Failed(message)] + later;
    assert(arrivals[0] == Arrival::Failed(message));
    assert(arrivals.drop_first() =~= later);
    law_at_most_one_delivery(ExchangeView::Delivered, later);
}

/// A response whose head and payload arrive delivers its one result when the
/// payload is in.
pub proof fn law_response_delivers(
    url: Seq<char>,
    head: Arrival,
    payload: Arrival,
    later: Seq<Arrival>,
)
    requires
        head is Head,
        expected(next_state(ExchangeView::Sending { url }, head), payload),
    ensures
        deliveries(ExchangeView::Sending { url }, seq![head, payload] + later) == 1,
{
    let state = ExchangeView::Sending { url };
    let arrivals = seq![head, payload] + later;
    assert(arrivals[0] == head);
    assert(arrivals.drop_first() =~= seq![payload] + later);
    let reading = next_state(state, head);
    let rest = seq![payload] + later;
    assert(rest[0] == payload);
    assert(rest.drop_first() =~= later);
    law_at_most_one_delivery(ExchangeView::Delivered, later);
    assert(next_state(reading, payload) is Delivered);
    assert(deliveries(reading, rest) == 1);
    assert(deliveries(state, arrivals) == deliveries(reading, rest));
}

} // verus!
