//! What goes upstream: the address, the headers that are copied, and the
//! body; and what comes back to the client of a body or a chunk.

use crate::body::{fix_response_body, fixed_request_body, fixed_response_body};
use crate::codec::{parsed_bytes, written_bytes, JsonError};
use crate::json::Json;
use crate::patch::{corrected_tools, count_tool_patches, patch_request, patched_request};
use crate::frame::{fix_streaming_chunk, fixed_chunk};
use crate::headers::{is_named, value_bytes, values_named, Header};
use crate::text::{chars_of, has_prefix_at, same_text, string_of};
use vstd::prelude::*;
use vstd::slice::slice_subrange;
use vstd::string::StringExecFns;

verus! {

/// Whether a request header is copied to the upstream request. Left out
/// are `host`, every name that begins with `sec-`, `connection`,
/// `accept-encoding` and `content-length`: they mean nothing across the
/// hop, or are set anew when the request is sent.
pub open spec fn is_forwarded_name(name: Seq<char>) -> bool {
    &&& name != "host"@
    &&& !"sec-"@.is_prefix_of(name)
    &&& name != "connection"@
    &&& name != "accept-encoding"@
    &&& name != "content-length"@
}

/// The test whether a header is copied to the upstream request.
pub open spec fn is_forwarded() -> spec_fn(Header) -> bool {
    |h: Header| is_forwarded_name(h.name@)
}

/// Whether the header named `name` is copied to the upstream request.
pub fn forwards_header(name: &str) -> (r: bool)
    ensures
        r == is_forwarded_name(name@),
{
    if same_text(name, "host") || same_text(name, "connection") || same_text(
        name,
        "accept-encoding",
    ) || same_text(name, "content-length") {
        return false;
    }
    let chars = chars_of(name);
    let prefix = chars_of("sec-");
    !has_prefix_at(chars.as_slice(), 0, prefix.as_slice())
}

/// The headers that are copied to the upstream request, in their order.
pub fn forwarded_headers(list: Vec<Header>) -> (out: Vec<Header>)
    ensures
        out@ == list@.filter(is_forwarded()),
{
    let ghost keep = is_forwarded();
    let mut out: Vec<Header> = Vec::new();
    assert(list@.take(0).filter(keep) =~= Seq::<Header>::empty()) by {
        reveal(Seq::filter);
    }
    for header in it: list.into_iter()
        invariant
            it.seq() == list@,
            keep == is_forwarded(),
            out@ == list@.take(it.index() as int).filter(keep),
    {
        proof {
            let i = it.index() as int;
            assert(list@.take(i + 1) =~= list@.take(i).push(list@[i]));
            list@.take(i).lemma_filter_push(list@[i], keep);
        }
        if forwards_header(header.name.as_str()) {
            out.push(header);
        }
    }
    assert(list@.take(list@.len() as int) =~= list@);
    out
}

/// Filtering the headers by the forwarding rule keeps, under every name
/// that is forwarded, the values it had, and nothing under any other name.
pub proof fn lemma_forwarded_values(list: Seq<Header>, name: Seq<char>)
    ensures
        values_named(list.filter(is_forwarded()), name) == if is_forwarded_name(name) {
            values_named(list, name)
        } else {
            Seq::empty()
        },
    decreases list.len(),
{
    let keep = is_forwarded();
    let named = is_named(name);
    let value = value_bytes();
    if list.len() == 0 {
        reveal(Seq::filter);
    } else {
        let rest = list.drop_last();
        let last = list.last();
        lemma_forwarded_values(rest, name);
        assert(list =~= rest.push(last));
        rest.lemma_filter_push(last, keep);
        rest.lemma_filter_push(last, named);
        rest.filter(keep).lemma_filter_push(last, named);
        if named(last) {
            if keep(last) {
                assert(rest.filter(keep).filter(named).push(last).map_values(value)
                    =~= rest.filter(keep).filter(named).map_values(value).push(value(last)));
            }
        }
    }
}

/// `text` without the slashes at its end.
pub open spec fn without_trailing_slashes(text: Seq<char>) -> Seq<char>
    decreases text.len(),
{
    if text.len() > 0 && text.last() == '/' {
        without_trailing_slashes(text.drop_last())
    } else {
        text
    }
}

/// The address of the upstream request: the base address without the
/// slashes at its end, then the path as it came, then `?` and the query
/// where there is one.
pub open spec fn upstream_url(base: Seq<char>, path: Seq<char>, query: Seq<char>) -> Seq<char> {
    if query.len() == 0 {
        without_trailing_slashes(base) + path
    } else {
        without_trailing_slashes(base) + path + "?"@ + query
    }
}

/// Builds the address of the upstream request.
pub fn build_upstream_url(base: &str, path: &str, query: &str) -> (url: String)
    ensures
        url@ == upstream_url(base@, path@, query@),
{
    let chars = chars_of(base);
    let mut end: usize = chars.len();
    assert(chars@.subrange(0, end as int) =~= chars@);
    while end > 0 && chars[end - 1] == '/'
        invariant
            end <= chars@.len(),
            without_trailing_slashes(chars@.subrange(0, end as int)) == without_trailing_slashes(
                chars@,
            ),
        decreases end,
    {
        assert(chars@.subrange(0, end as int).drop_last() =~= chars@.subrange(0, end - 1));
        end = end - 1;
    }
    let mut url = string_of(slice_subrange(chars.as_slice(), 0, end));
    url.append(path);
    if !query.is_empty() {
        url.append("?");
        url.append(query);
    }
    url
}

/// The body that goes upstream: where the request declares JSON and has a
/// body, the corrected body if it could be corrected; in every other case
/// the body as it came.
pub open spec fn forwarded_request_body(json: bool, body: Seq<u8>) -> Seq<u8> {
    if json && body.len() > 0 {
        match fixed_request_body(body) {
            Ok(fixed) => fixed,
            Err(_) => body,
        }
    } else {
        body
    }
}

/// What became of the correction of a request body.
#[derive(Debug, Clone, Copy, PartialEq, Eq)]
pub enum RequestPatch {
    /// The body is empty or not declared as JSON: no correction was tried.
    Skipped,
    /// The body could not be corrected and goes upstream as it came.
    Failed(JsonError),
    /// The body was read, and `corrected` of its tools were given the
    /// default schema.
    Applied { corrected: usize },
}

/// What becomes of the correction of a request body: it is tried where
/// the request declares JSON and has a body, fails where the body is no
/// JSON document or cannot be written again, and else tells how many
/// tools were corrected.
pub open spec fn request_patch(json: bool, body: Seq<u8>) -> RequestPatch {
    if json && body.len() > 0 {
        match parsed_bytes(body) {
            None => RequestPatch::Failed(JsonError::InvalidJson),
            Some(doc) => match written_bytes(patched_request(doc)) {
                Some(_) => RequestPatch::Applied { corrected: corrected_tools(doc) as usize },
                None => RequestPatch::Failed(JsonError::NotSerializable),
            },
        }
    } else {
        RequestPatch::Skipped
    }
}

/// The body that the client gets of a buffered response: where the
/// response declares JSON, the corrected body if it could be corrected; in
/// every other case the body as it came.
pub open spec fn delivered_response_body(json: bool, body: Seq<u8>) -> Seq<u8> {
    if json {
        match fixed_response_body(body) {
            Ok(fixed) => fixed,
            Err(_) => body,
        }
    } else {
        body
    }
}

/// The chunk that the client gets of a streamed response: the corrected
/// chunk if it could be corrected, else the chunk as it came.
pub open spec fn delivered_chunk(chunk: Seq<u8>) -> Seq<u8> {
    match fixed_chunk(chunk) {
        Ok(fixed) => fixed,
        Err(_) => chunk,
    }
}

/// Chooses the body that goes upstream and tells what became of its
/// correction. `json` says whether the request declares a JSON body. A
/// body that is not declared as JSON passes through byte for byte,
/// whatever it holds.
pub fn prepare_request(json: bool, body: Vec<u8>) -> (out: (Vec<u8>, RequestPatch))
    ensures
        out.0@ == forwarded_request_body(json, body@),
        out.1 == request_patch(json, body@),
        !json ==> out.0@ == body@,
{
    if json && body.len() > 0 {
        match Json::from_slice(body.as_slice()) {
            Err(e) => (body, RequestPatch::Failed(e)),
            Ok(doc) => {
                let corrected = count_tool_patches(&doc);
                match patch_request(doc).to_bytes() {
                    Ok(fixed) => (fixed, RequestPatch::Applied { corrected }),
                    Err(e) => (body, RequestPatch::Failed(e)),
                }
            },
        }
    } else {
        (body, RequestPatch::Skipped)
    }
}

/// Chooses the body that goes upstream. `json` says whether the request
/// declares a JSON body. A body that is not declared as JSON passes through
/// byte for byte, whatever it holds.
pub fn prepare_request_body(json: bool, body: Vec<u8>) -> (out: Vec<u8>)
    ensures
        out@ == forwarded_request_body(json, body@),
        !json ==> out@ == body@,
{
    prepare_request(json, body).0
}

/// Chooses the body that the client gets of a buffered response. `json`
/// says whether the response declares a JSON body. A body that is not
/// declared as JSON passes through byte for byte, whatever it holds.
pub fn finish_response_body(json: bool, body: Vec<u8>) -> (out: Vec<u8>)
    ensures
        out@ == delivered_response_body(json, body@),
        !json ==> out@ == body@,
{
    if json {
        match fix_response_body(body.as_slice()) {
            Ok(fixed) => fixed,
            Err(_) => body,
        }
    } else {
        body
    }
}

/// Chooses the chunk that the client gets of a streamed response.
pub fn patch_stream_chunk(chunk: Vec<u8>) -> (out: Vec<u8>)
    ensures
        out@ == delivered_chunk(chunk@),
{
    match fix_streaming_chunk(chunk.as_slice()) {
        Ok(fixed) => fixed,
        Err(_) => chunk,
    }
}

} // verus!
