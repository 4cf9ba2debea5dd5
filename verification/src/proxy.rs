//! One proxy cycle as a state machine. The caller does the waiting: it
//! reads the inbound body, sends the upstream request, reads the upstream
//! body or pulls its chunks, and reports each outcome as an event. Every
//! decision is made here: what is sent, what is answered, and with which
//! status a cycle fails.
//!
//! The request is corrected on the way from `Receiving` to `Dispatching`,
//! and the response is classified, once and for good, on the way from
//! `Dispatching` to `BufferedPatching` or `StreamPatching`.

use crate::forward::{
    build_upstream_url, delivered_chunk, delivered_response_body, finish_response_body,
    forwarded_headers, forwarded_request_body, is_forwarded_name, lemma_forwarded_values,
    patch_stream_chunk, prepare_request, request_patch, upstream_url, RequestPatch,
};
use crate::headers::{
    classify_response, content_type_mentions, header_list, header_values, is_json_request,
    is_json_response, lemma_sanitized_headers, sanitize_response_headers, sanitized,
    values_named, Header, ResponseKind,
};
use crate::text::{decimal, push_decimal, push_text, string_of};
use http::{HeaderMap, HeaderValue};
use vstd::prelude::*;
use vstd::string::StringSliceAdditionalSpecFns;

verus! {

/// The status that answers an inbound body that could not be read.
pub const BAD_REQUEST: u16 = 400;

/// The status that answers an upstream that could not be reached or read.
pub const BAD_GATEWAY: u16 = 502;

/// An inbound request without its body.
#[derive(Debug, PartialEq, Eq)]
pub struct RequestHead {
    pub method: String,
    pub path: String,
    pub query: String,
    pub headers: HeaderMap<HeaderValue>,
}

/// The request that goes upstream, and what became of the correction of
/// its body, for the log.
#[derive(Debug, PartialEq, Eq)]
pub struct OutboundRequest {
    pub method: String,
    pub url: String,
    pub headers: Vec<Header>,
    pub body: Vec<u8>,
    pub patch: RequestPatch,
}

/// An upstream response without its body.
#[derive(Debug, PartialEq, Eq)]
pub struct ResponseHead {
    pub status: u16,
    pub headers: HeaderMap<HeaderValue>,
}

/// Where a proxy cycle stands.
#[derive(Debug, PartialEq, Eq)]
pub enum ProxyState {
    /// The inbound body is being read.
    Receiving(RequestHead),
    /// The upstream request is out.
    Dispatching,
    /// The whole upstream body is being read. The head is the one that the
    /// client will get; `json` says whether the body is to be corrected.
    BufferedPatching { head: ResponseHead, json: bool },
    /// The upstream body is passed on chunk by chunk.
    StreamPatching,
    /// The cycle is over.
    Done,
}

/// What the caller reports.
#[derive(Debug, PartialEq, Eq)]
pub enum ProxyEvent {
    /// The inbound body was read in full.
    RequestBody(Vec<u8>),
    /// The inbound body could not be read.
    RequestBodyFailed,
    /// The upstream answered.
    UpstreamHead(ResponseHead),
    /// The upstream request could not be sent.
    UpstreamFailed,
    /// The upstream body was read in full.
    ResponseBody(Vec<u8>),
    /// The upstream body could not be read.
    ResponseBodyFailed,
    /// The upstream stream gave a chunk.
    Chunk(Vec<u8>),
    /// The upstream stream failed.
    ChunkFailed,
    /// The upstream stream ended.
    StreamEnded,
}

/// What the caller is to do next.
#[derive(Debug, PartialEq, Eq)]
pub enum ProxyAction {
    /// Answer the client with this status; nothing more is owed.
    Reject(u16),
    /// Send this request upstream and report the outcome.
    Send(OutboundRequest),
    /// Read the whole upstream body and report the outcome.
    ReadBody,
    /// Answer the client with this head, then pull the upstream chunks one
    /// at a time and report each.
    BeginStream(ResponseHead),
    /// Answer the client with this head and this body.
    Respond { head: ResponseHead, body: Vec<u8> },
    /// Pass this chunk on to the client.
    Emit(Vec<u8>),
    /// End the client's stream.
    EndStream,
    /// Break the client's stream off with an I/O error; nothing more is
    /// passed on.
    FailStream,
    /// The event was none that the state waits for: drop the cycle.
    Abort,
}

/// Whether `out` is the upstream request for the inbound request `head`
/// with body `body`: the same method, the upstream address, the forwarded
/// headers with their values, the body that goes upstream, and what became
/// of its correction.
pub open spec fn is_outbound(
    upstream: Seq<char>,
    head: RequestHead,
    body: Seq<u8>,
    out: OutboundRequest,
) -> bool {
    &&& out.method@ == head.method@
    &&& out.url@ == upstream_url(upstream, head.path@, head.query@)
    &&& forall|name: Seq<char>|
        #![trigger values_named(out.headers@, name)]
        values_named(out.headers@, name) == if is_forwarded_name(name) && header_values(
            head.headers,
        ).contains_key(name) {
            header_values(head.headers)[name]
        } else {
            Seq::empty()
        }
    &&& out.body@ == forwarded_request_body(
        content_type_mentions(header_values(head.headers), "application/json".spec_bytes()),
        body,
    )
    &&& out.patch == request_patch(
        content_type_mentions(header_values(head.headers), "application/json".spec_bytes()),
        body,
    )
}

/// Whether `out` is the head that the client gets for the upstream head
/// `head`: the same status, and the headers without those that no longer
/// describe the body.
pub open spec fn is_delivered_head(head: ResponseHead, out: ResponseHead) -> bool {
    &&& out.status == head.status
    &&& header_values(out.headers) == sanitized(header_values(head.headers))
}

/// Whether the upstream head announces an event stream.
pub open spec fn is_streaming(head: ResponseHead) -> bool {
    content_type_mentions(header_values(head.headers), "text/event-stream".spec_bytes())
}

/// The transitions of a proxy cycle: whether, in `state`, the event `event`
/// leads to `next` with the action `action`.
pub open spec fn transition(
    upstream: Seq<char>,
    state: ProxyState,
    event: ProxyEvent,
    next: ProxyState,
    action: ProxyAction,
) -> bool {
    match (state, event) {
        (ProxyState::Receiving(head), ProxyEvent::RequestBody(body)) => {
            &&& next is Dispatching
            &&& action matches ProxyAction::Send(out)
            &&& is_outbound(upstream, head, body@, out)
        },
        (ProxyState::Receiving(_), ProxyEvent::RequestBodyFailed) => {
            &&& next is Done
            &&& action == ProxyAction::Reject(BAD_REQUEST)
        },
        (ProxyState::Dispatching, ProxyEvent::UpstreamFailed) => {
            &&& next is Done
            &&& action == ProxyAction::Reject(BAD_GATEWAY)
        },
        (ProxyState::Dispatching, ProxyEvent::UpstreamHead(head)) => {
            if is_streaming(head) {
                &&& next is StreamPatching
                &&& action matches ProxyAction::BeginStream(out)
                &&& is_delivered_head(head, out)
            } else {
                &&& action is ReadBody
                &&& next matches ProxyState::BufferedPatching { head: out, json }
                &&& is_delivered_head(head, out)
                &&& json == content_type_mentions(
                    header_values(head.headers),
                    "application/json".spec_bytes(),
                )
            }
        },
        (ProxyState::BufferedPatching { head, json }, ProxyEvent::ResponseBody(body)) => {
            &&& next is Done
            &&& action matches ProxyAction::Respond { head: out, body: sent }
            &&& out == head
            &&& sent@ == delivered_response_body(json, body@)
        },
        (ProxyState::BufferedPatching { .. }, ProxyEvent::ResponseBodyFailed) => {
            &&& next is Done
            &&& action == ProxyAction::Reject(BAD_GATEWAY)
        },
        (ProxyState::StreamPatching, ProxyEvent::Chunk(chunk)) => {
            &&& next is StreamPatching
            &&& action matches ProxyAction::Emit(sent)
            &&& sent@ == delivered_chunk(chunk@)
        },
        (ProxyState::StreamPatching, ProxyEvent::ChunkFailed) => {
            &&& next is Done
            &&& action is FailStream
        },
        (ProxyState::StreamPatching, ProxyEvent::StreamEnded) => {
            &&& next is Done
            &&& action is EndStream
        },
        _ => {
            &&& next is Done
            &&& action is Abort
        },
    }
}

/// Builds the upstream request for an inbound request and its body.
pub fn build_outbound(upstream: &str, head: RequestHead, body: Vec<u8>) -> (out: OutboundRequest)
    ensures
        is_outbound(upstream@, head, body@, out),
{
    let json = is_json_request(&head.headers);
    let url = build_upstream_url(upstream, head.path.as_str(), head.query.as_str());
    let list = header_list(&head.headers);
    let ghost listed = list@;
    let headers = forwarded_headers(list);
    let (body, patch) = prepare_request(json, body);
    let out = OutboundRequest { method: head.method, url, headers, body, patch };
    proof {
        assert forall|name: Seq<char>| #![trigger values_named(out.headers@, name)]
            values_named(out.headers@, name) == if is_forwarded_name(name) && header_values(
                head.headers,
            ).contains_key(name) {
                header_values(head.headers)[name]
            } else {
                Seq::empty()
            } by {
            lemma_forwarded_values(listed, name);
        }
    }
    out
}

/// Makes the head that the client gets of an upstream head.
pub fn deliver_head(head: ResponseHead) -> (out: ResponseHead)
    ensures
        is_delivered_head(head, out),
{
    let mut out = head;
    sanitize_response_headers(&mut out.headers);
    out
}

/// One step of a proxy cycle: takes the state and what the caller reports,
/// and gives the next state and what the caller is to do.
pub fn step(upstream: &str, state: ProxyState, event: ProxyEvent) -> (next: (
    ProxyState,
    ProxyAction,
))
    ensures
        transition(upstream@, state, event, next.0, next.1),
{
    match (state, event) {
        (ProxyState::Receiving(head), ProxyEvent::RequestBody(body)) => {
            let out = build_outbound(upstream, head, body);
            (ProxyState::Dispatching, ProxyAction::Send(out))
        },
        (ProxyState::Receiving(_), ProxyEvent::RequestBodyFailed) => {
            (ProxyState::Done, ProxyAction::Reject(BAD_REQUEST))
        },
        (ProxyState::Dispatching, ProxyEvent::UpstreamFailed) => {
            (ProxyState::Done, ProxyAction::Reject(BAD_GATEWAY))
        },
        (ProxyState::Dispatching, ProxyEvent::UpstreamHead(head)) => {
            let kind = classify_response(&head.headers);
            let out = deliver_head(head);
            match kind {
                ResponseKind::Streaming => (
                    ProxyState::StreamPatching,
                    ProxyAction::BeginStream(out),
                ),
                ResponseKind::Buffered => {
                    let json = is_json_response(&out.headers);
                    proof {
                        lemma_sanitized_headers(header_values(head.headers));
                    }
                    (ProxyState::BufferedPatching { head: out, json }, ProxyAction::ReadBody)
                },
            }
        },
        (ProxyState::BufferedPatching { head, json }, ProxyEvent::ResponseBody(body)) => {
            let body = finish_response_body(json, body);
            (ProxyState::Done, ProxyAction::Respond { head, body })
        },
        (ProxyState::BufferedPatching { .. }, ProxyEvent::ResponseBodyFailed) => {
            (ProxyState::Done, ProxyAction::Reject(BAD_GATEWAY))
        },
        (ProxyState::StreamPatching, ProxyEvent::Chunk(chunk)) => {
            let chunk = patch_stream_chunk(chunk);
            (ProxyState::StreamPatching, ProxyAction::Emit(chunk))
        },
        (ProxyState::StreamPatching, ProxyEvent::ChunkFailed) => {
            (ProxyState::Done, ProxyAction::FailStream)
        },
        (ProxyState::StreamPatching, ProxyEvent::StreamEnded) => {
            (ProxyState::Done, ProxyAction::EndStream)
        },
        _ => (ProxyState::Done, ProxyAction::Abort),
    }
}

/// How a response is handled is decided once: a cycle that streams goes on
/// streaming until it is over, a cycle that buffers ends with its one
/// answer, and a cycle that is over stays so. A cycle fails with 400 only
/// while it receives, and with 502 only while it dispatches or buffers.
pub proof fn lemma_transitions(
    upstream: Seq<char>,
    state: ProxyState,
    event: ProxyEvent,
    next: ProxyState,
    action: ProxyAction,
)
    requires
        transition(upstream, state, event, next, action),
    ensures
        state is StreamPatching ==> next is StreamPatching || next is Done,
        state is BufferedPatching ==> next is Done,
        state is Done ==> next is Done && action is Abort,
        next is StreamPatching ==> state is StreamPatching || state is Dispatching,
        next is BufferedPatching ==> state is Dispatching,
        action == ProxyAction::Reject(BAD_REQUEST) ==> state is Receiving,
        action == ProxyAction::Reject(BAD_GATEWAY) ==> state is Dispatching
            || state is BufferedPatching,
        action is Respond || action is Emit ==> event is ResponseBody || event is Chunk,
{
}

/// The address that the proxy listens on: every interface where
/// `bind_all` is set, the local one otherwise, and the port.
pub open spec fn listen_address(bind_all: bool, port: u16) -> Seq<char> {
    if bind_all {
        "0.0.0.0:"@ + decimal(port as nat)
    } else {
        "127.0.0.1:"@ + decimal(port as nat)
    }
}

/// Builds the address that the proxy listens on.
pub fn bind_address(bind_all: bool, port: u16) -> (address: String)
    ensures
        address@ == listen_address(bind_all, port),
{
    let mut out: Vec<char> = Vec::new();
    if bind_all {
        push_text(&mut out, "0.0.0.0:");
    } else {
        push_text(&mut out, "127.0.0.1:");
    }
    push_decimal(&mut out, port as u32);
    let address = string_of(out.as_slice());
    address
}

} // verus!
