//! What the proxy decides from headers, and what it does to them: which
//! request headers go upstream, which response headers no longer describe
//! the body that is sent on, and what kind of body a response carries.

use crate::text::same_bytes;
use http::{HeaderMap, HeaderValue};
use vstd::prelude::*;
use vstd::slice::slice_subrange;
use vstd::string::StringSliceAdditionalSpecFns;

verus! {

/// The header multimap of the `http` crate.
#[verifier::external_type_specification]
#[verifier::external_body]
#[verifier::reject_recursive_types(T)]
pub struct ExHeaderMap<T>(http::HeaderMap<T>);

/// The header value of the `http` crate.
#[verifier::external_type_specification]
#[verifier::external_body]
pub struct ExHeaderValue(http::HeaderValue);

/// What a header map holds: under each name, in lower case, the values
/// stored for it, in their order, each as its bytes.
pub uninterp spec fn header_values(headers: HeaderMap<HeaderValue>) -> Map<Seq<char>, Seq<Seq<u8>>>;

/// One header as plain values.
#[derive(Debug, PartialEq, Eq)]
pub struct Header {
    pub name: String,
    pub value: Vec<u8>,
}

/// Whether `name` is written the way header maps store names: between 1 and
/// 64 characters, each a lower-case letter, a digit or a hyphen.
pub open spec fn is_stored_name(name: Seq<char>) -> bool {
    &&& 1 <= name.len() <= 64
    &&& forall|i: int|
        0 <= i < name.len() ==> {
            let c = #[trigger] name[i];
            ('a' <= c <= 'z') || ('0' <= c <= '9') || c == '-'
        }
}

/// The test whether a header has the name `name`.
pub open spec fn is_named(name: Seq<char>) -> spec_fn(Header) -> bool {
    |h: Header| h.name@ == name
}

/// The bytes of a header's value.
pub open spec fn value_bytes() -> spec_fn(Header) -> Seq<u8> {
    |h: Header| h.value@
}

/// The values that a list of headers holds under `name`, in their order.
pub open spec fn values_named(list: Seq<Header>, name: Seq<char>) -> Seq<Seq<u8>> {
    list.filter(is_named(name)).map_values(value_bytes())
}

/// `HeaderMap::remove` with a `&str` key: every value stored under the name
/// leaves the map, and nothing else changes.
#[verifier::external_body]
fn remove_header(headers: &mut HeaderMap<HeaderValue>, name: &str)
    requires
        is_stored_name(name@),
    ensures
        header_values(*final(headers)) == header_values(*old(headers)).remove(name@),
{
    headers.remove(name);
}

/// `HeaderMap::get` with a `&str` key, and `HeaderValue::as_bytes` on what
/// it finds: the bytes of the first value stored under the name, and
/// nothing where the map has no such name.
#[verifier::external_body]
fn first_header_value(headers: &HeaderMap<HeaderValue>, name: &str) -> (found: Option<Vec<u8>>)
    requires
        is_stored_name(name@),
    ensures
        match found {
            Some(value) => header_values(*headers).contains_key(name@) && header_values(
                *headers,
            )[name@].len() > 0 && value@ == header_values(*headers)[name@][0],
            None => !header_values(*headers).contains_key(name@),
        },
{
    headers.get(name).map(|value| value.as_bytes().to_vec())
}

/// `HeaderMap::iter`, each pair as plain values (`HeaderName::as_str`,
/// `HeaderValue::as_bytes`): the list holds, for every name, exactly the
/// values stored under it, in their order. The order of the names is not
/// stated.
#[verifier::external_body]
pub(crate) fn header_list(headers: &HeaderMap<HeaderValue>) -> (list: Vec<Header>)
    ensures
        forall|name: Seq<char>|
            #![trigger values_named(list@, name)]
            values_named(list@, name) == if header_values(*headers).contains_key(name) {
                header_values(*headers)[name]
            } else {
                Seq::empty()
            },
{
    headers.iter().map(
        |(name, value)|
            Header { name: name.as_str().to_string(), value: value.as_bytes().to_vec() },
    ).collect()
}

/// Whether every byte is one that a header value may show as text: a
/// visible ASCII character, a space or a tab.
pub open spec fn is_visible_ascii(value: Seq<u8>) -> bool {
    forall|i: int| 0 <= i < value.len() ==> visible_byte(#[trigger] value[i])
}

/// Whether `b` is a visible ASCII character, a space or a tab.
pub open spec fn visible_byte(b: u8) -> bool {
    (32 <= b < 127) || b == 9
}

/// Whether `needle` stands somewhere in `hay`.
pub open spec fn occurs_in(needle: Seq<u8>, hay: Seq<u8>) -> bool {
    exists|i: int| occurs_at(needle, hay, i)
}

/// Whether `needle` stands in `hay` at position `i`.
pub open spec fn occurs_at(needle: Seq<u8>, hay: Seq<u8>, i: int) -> bool {
    0 <= i && i + needle.len() <= hay.len() && hay.subrange(i, i + needle.len()) == needle
}

/// Whether the content type of `headers` mentions `token`: the first
/// `content-type` value is text and holds the token somewhere.
pub open spec fn content_type_mentions(
    values: Map<Seq<char>, Seq<Seq<u8>>>,
    token: Seq<u8>,
) -> bool {
    &&& values.contains_key("content-type"@)
    &&& is_visible_ascii(values["content-type"@][0])
    &&& occurs_in(token, values["content-type"@][0])
}

/// Whether every byte of a header value can be shown as text.
pub fn value_is_text(value: &[u8]) -> (r: bool)
    ensures
        r == is_visible_ascii(value@),
{
    let mut i: usize = 0;
    while i < value.len()
        invariant
            0 <= i <= value@.len(),
            forall|j: int| 0 <= j < i ==> visible_byte(#[trigger] value@[j]),
        decreases value@.len() - i,
    {
        let b = value[i];
        if !((32 <= b && b < 127) || b == 9) {
            return false;
        }
        i = i + 1;
    }
    true
}

/// Whether `needle` stands somewhere in `hay`.
pub fn contains_bytes(hay: &[u8], needle: &[u8]) -> (r: bool)
    ensures
        r == occurs_in(needle@, hay@),
{
    let n = hay.len();
    let m = needle.len();
    if m > n {
        return false;
    }
    if m == 0 {
        assert(hay@.subrange(0, 0) =~= needle@);
        assert(occurs_at(needle@, hay@, 0));
        return true;
    }
    let mut i: usize = 0;
    while i <= n - m
        invariant
            n == hay@.len(),
            m == needle@.len(),
            0 < m <= n,
            0 <= i <= n - m + 1,
            forall|j: int| 0 <= j < i ==> !occurs_at(needle@, hay@, j),
        decreases n - m + 1 - i,
    {
        if same_bytes(slice_subrange(hay, i, i + m), needle) {
            assert(occurs_at(needle@, hay@, i as int));
            return true;
        }
        i = i + 1;
    }
    false
}

/// The three names are written the way header maps store names.
proof fn lemma_stored_names()
    ensures
        is_stored_name("content-type"@),
        is_stored_name("content-encoding"@),
        is_stored_name("transfer-encoding"@),
        is_stored_name("content-length"@),
{
    reveal_strlit("content-type");
    reveal_strlit("content-encoding");
    reveal_strlit("transfer-encoding");
    reveal_strlit("content-length");
}

/// Whether the content type of `headers` mentions `token`.
fn mentions(headers: &HeaderMap<HeaderValue>, token: &str) -> (r: bool)
    ensures
        r == content_type_mentions(header_values(*headers), token.spec_bytes()),
{
    proof {
        lemma_stored_names();
    }
    match first_header_value(headers, "content-type") {
        Some(value) => value_is_text(value.as_slice()) && contains_bytes(
            value.as_slice(),
            token.as_bytes(),
        ),
        None => false,
    }
}

/// Whether a request declares a JSON body: its content type mentions
/// `application/json`.
pub fn is_json_request(headers: &HeaderMap<HeaderValue>) -> (r: bool)
    ensures
        r == content_type_mentions(header_values(*headers), "application/json".spec_bytes()),
{
    mentions(headers, "application/json")
}

/// Whether a response declares a JSON body: its content type mentions
/// `application/json`.
pub fn is_json_response(headers: &HeaderMap<HeaderValue>) -> (r: bool)
    ensures
        r == content_type_mentions(header_values(*headers), "application/json".spec_bytes()),
{
    mentions(headers, "application/json")
}

/// How the body of a response is handled.
#[derive(Debug, Clone, Copy, PartialEq, Eq)]
pub enum ResponseKind {
    /// The whole body is read before anything is sent on.
    Buffered,
    /// The body is sent on chunk by chunk.
    Streaming,
}

/// Decides how a response is handled: streaming where its content type
/// mentions `text/event-stream`, buffered otherwise.
pub fn classify_response(headers: &HeaderMap<HeaderValue>) -> (kind: ResponseKind)
    ensures
        kind == if content_type_mentions(
            header_values(*headers),
            "text/event-stream".spec_bytes(),
        ) {
            ResponseKind::Streaming
        } else {
            ResponseKind::Buffered
        },
{
    if mentions(headers, "text/event-stream") {
        ResponseKind::Streaming
    } else {
        ResponseKind::Buffered
    }
}

/// What is left of response headers once the body has been decoded and
/// rewritten: everything but `content-encoding`, `transfer-encoding` and
/// `content-length`.
pub open spec fn sanitized(values: Map<Seq<char>, Seq<Seq<u8>>>) -> Map<Seq<char>, Seq<Seq<u8>>> {
    values.remove("content-encoding"@).remove("transfer-encoding"@).remove("content-length"@)
}

/// Removes the headers that no longer describe the body: the encoding, the
/// transfer encoding and the length. Every other header stays as it is.
pub fn sanitize_response_headers(headers: &mut HeaderMap<HeaderValue>)
    ensures
        header_values(*final(headers)) == sanitized(header_values(*old(headers))),
{
    proof {
        lemma_stored_names();
    }
    remove_header(headers, "content-encoding");
    remove_header(headers, "transfer-encoding");
    remove_header(headers, "content-length");
}

/// Sanitizing removes the three headers and touches no other: every other
/// name, the content type among them, keeps its values, so a response is
/// classified the same before and after. Sanitizing twice is sanitizing
/// once.
pub proof fn lemma_sanitized_headers(values: Map<Seq<char>, Seq<Seq<u8>>>)
    ensures
        forall|token: Seq<u8>|
            content_type_mentions(sanitized(values), token) == content_type_mentions(
                values,
                token,
            ),
        forall|name: Seq<char>|
            name != "content-encoding"@ && name != "transfer-encoding"@ && name
                != "content-length"@ ==> (sanitized(values).contains_key(name)
                == values.contains_key(name) && sanitized(values)[name] == values[name]),
        !sanitized(values).contains_key("content-encoding"@),
        !sanitized(values).contains_key("transfer-encoding"@),
        !sanitized(values).contains_key("content-length"@),
        sanitized(values).contains_key("content-type"@) == values.contains_key("content-type"@),
        sanitized(values)["content-type"@] == values["content-type"@],
        sanitized(sanitized(values)) == sanitized(values),
{
    reveal_strlit("content-type");
    reveal_strlit("content-encoding");
    reveal_strlit("transfer-encoding");
    reveal_strlit("content-length");
    assert("content-type"@.len() != "content-encoding"@.len());
    assert("content-type"@.len() != "transfer-encoding"@.len());
    assert("content-type"@.len() != "content-length"@.len());
}

} // verus!
