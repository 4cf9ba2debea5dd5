//! One frame of an event stream: `data: <payload>` and a blank line. A
//! frame is taken apart, its payload corrected, and put together again;
//! whatever is not such a frame passes through byte for byte.

use crate::body::bytes_result;
use crate::codec::{parsed_text, written_text, JsonError};
use crate::json::Json;
use crate::patch::{event_lacks_details, needs_event_patch, patch_event, patched_event};
use crate::text::{
    chars_of, has_prefix_at, same_text, string_of, trim_bounds, trimmed, utf8_text,
};
use vstd::prelude::*;
use vstd::slice::{slice_subrange, slice_to_vec};
use vstd::string::{StrSliceExecFns, StringExecFns};
use vstd::utf8::{decode_utf8, encode_utf8, valid_utf8};

verus! {

/// What a chunk of a stream holds.
#[derive(Debug, PartialEq, Eq)]
pub enum Frame {
    /// Not a `data: ` frame: it passes through as it is.
    Foreign,
    /// The end-of-stream marker `[DONE]`, which is never read as JSON.
    Done,
    /// A payload, with the prefix and the surrounding white space removed.
    Data(String),
}

/// The payload of a frame's text: what stands behind the one `data: `
/// prefix, without the white space at its two ends.
pub open spec fn frame_payload(text: Seq<char>) -> Seq<char> {
    trimmed(text.skip("data: "@.len() as int))
}

/// The text of the frame that carries `payload`.
pub open spec fn frame_text(payload: Seq<char>) -> Seq<char> {
    "data: "@ + payload + "\n\n"@
}

/// The model of a decoded frame.
pub enum FrameValue {
    Foreign,
    Done,
    Data(Seq<char>),
}

impl Frame {
    /// The model of this frame.
    pub open spec fn view(&self) -> FrameValue {
        match self {
            Frame::Foreign => FrameValue::Foreign,
            Frame::Done => FrameValue::Done,
            Frame::Data(payload) => FrameValue::Data(payload@),
        }
    }
}

/// What the text of a chunk decodes to.
pub open spec fn decoded_frame(text: Seq<char>) -> FrameValue {
    if !"data: "@.is_prefix_of(text) {
        FrameValue::Foreign
    } else if frame_payload(text) == "[DONE]"@ {
        FrameValue::Done
    } else {
        FrameValue::Data(frame_payload(text))
    }
}

/// What correcting one chunk of a stream gives. A chunk that is no UTF-8
/// text is an error. A chunk that is no `data: ` frame, the end-of-stream
/// marker, a payload that is no JSON document and a payload that needs no
/// correction all give the chunk itself. A payload that lacks usage
/// details gives the frame of the corrected payload.
pub open spec fn fixed_chunk(chunk: Seq<u8>) -> Result<Seq<u8>, JsonError> {
    if !valid_utf8(chunk) {
        Err(JsonError::InvalidUtf8)
    } else {
        match decoded_frame(decode_utf8(chunk)) {
            FrameValue::Foreign => Ok(chunk),
            FrameValue::Done => Ok(chunk),
            FrameValue::Data(payload) => match parsed_text(payload) {
                None => Ok(chunk),
                Some(doc) => if event_lacks_details(doc) {
                    match written_text(patched_event(doc)) {
                        Some(json) => Ok(encode_utf8(frame_text(json))),
                        None => Err(JsonError::NotSerializable),
                    }
                } else {
                    Ok(chunk)
                },
            },
        }
    }
}

/// Takes the text of a chunk apart.
pub fn decode_frame(text: &str) -> (frame: Frame)
    ensures
        frame@ == decoded_frame(text@),
{
    let chars = chars_of(text);
    let prefix = chars_of("data: ");
    assert(chars@.skip(0) =~= chars@);
    if !has_prefix_at(chars.as_slice(), 0, prefix.as_slice()) {
        return Frame::Foreign;
    }
    let (from, to) = trim_bounds(chars.as_slice(), prefix.len());
    let payload = string_of(slice_subrange(chars.as_slice(), from, to));
    if same_text(payload.as_str(), "[DONE]") {
        Frame::Done
    } else {
        Frame::Data(payload)
    }
}

/// Puts a payload into a frame: `data: `, the payload, and a blank line.
pub fn encode_frame(payload: &str) -> (bytes: Vec<u8>)
    ensures
        bytes@ == encode_utf8(frame_text(payload@)),
{
    let mut text = "data: ".to_owned();
    text.append(payload);
    text.append("\n\n");
    text.as_str().as_bytes_vec()
}

/// Corrects one chunk of a streamed response: where its payload is a JSON
/// document whose `response.usage` lacks a detail member, the frame is
/// written anew with the details completed; every other chunk is returned
/// byte for byte. A chunk that is no UTF-8 text is an error, which the
/// caller answers by forwarding the chunk as it came.
pub fn fix_streaming_chunk(chunk: &[u8]) -> (r: Result<Vec<u8>, JsonError>)
    ensures
        bytes_result(r) == fixed_chunk(chunk@),
{
    let text = match utf8_text(chunk) {
        Some(text) => text,
        None => {
            return Err(JsonError::InvalidUtf8);
        },
    };
    match decode_frame(text) {
        Frame::Foreign => Ok(slice_to_vec(chunk)),
        Frame::Done => Ok(slice_to_vec(chunk)),
        Frame::Data(payload) => match Json::from_text(payload.as_str()) {
            Err(_) => Ok(slice_to_vec(chunk)),
            Ok(doc) => {
                if needs_event_patch(&doc) {
                    match patch_event(doc).to_text() {
                        Ok(json) => Ok(encode_frame(json.as_str())),
                        Err(e) => Err(e),
                    }
                } else {
                    Ok(slice_to_vec(chunk))
                }
            },
        },
    }
}

/// A chunk of text that does not begin with `data: `, or whose payload is
/// the end-of-stream marker, comes back exactly as it is.
pub proof fn lemma_unread_chunks_pass(chunk: Seq<u8>)
    requires
        valid_utf8(chunk),
        !"data: "@.is_prefix_of(decode_utf8(chunk)) || frame_payload(decode_utf8(chunk))
            == "[DONE]"@,
    ensures
        fixed_chunk(chunk) == Ok::<Seq<u8>, JsonError>(chunk),
{
}

/// Correcting a corrected chunk gives the same bytes again, for every
/// chunk whose corrected payload reads back as the document that was
/// written.
pub proof fn lemma_fix_streaming_chunk_idempotent(chunk: Seq<u8>, once: Seq<u8>)
    requires
        fixed_chunk(chunk) == Ok::<Seq<u8>, JsonError>(once),
        once != chunk ==> ({
            let doc = parsed_text(frame_payload(decode_utf8(chunk)))->0;
            let written = frame_text(written_text(patched_event(doc))->0);
            parsed_text(frame_payload(written)) == Some(patched_event(doc))
        }),
    ensures
        fixed_chunk(once) == Ok::<Seq<u8>, JsonError>(once),
{
    if once != chunk {
        let doc = parsed_text(frame_payload(decode_utf8(chunk)))->0;
        let json = written_text(patched_event(doc))->0;
        let written = frame_text(json);
        vstd::utf8::encode_utf8_valid_utf8(written);
        vstd::utf8::encode_utf8_decode_utf8(written);
        assert("data: "@ =~= written.subrange(0, "data: "@.len() as int));
        crate::patch::lemma_patched_event(doc);
        crate::patch::lemma_patched_event(patched_event(doc));
    }
}

/// The end-of-stream frame `data: [DONE]` with its blank line decodes to
/// the marker, so it comes back exactly as it is.
pub proof fn lemma_done_frame_passes()
    ensures
        decoded_frame("data: [DONE]\n\n"@) == FrameValue::Done,
        fixed_chunk(encode_utf8("data: [DONE]\n\n"@)) == Ok::<Seq<u8>, JsonError>(
            encode_utf8("data: [DONE]\n\n"@),
        ),
{
    let frame = "data: [DONE]\n\n"@;
    let prefix = "data: "@;
    let marker = "[DONE]"@;
    reveal_strlit("data: [DONE]\n\n");
    reveal_strlit("data: ");
    reveal_strlit("[DONE]");
    let rest = frame.skip(6);
    assert(prefix =~= frame.subrange(0, 6));
    assert(crate::text::trim_start(rest) == rest);
    let shorter = rest.drop_last();
    assert(shorter.drop_last() =~= marker);
    assert(crate::text::trim_end(marker) == marker);
    assert(crate::text::trim_end(shorter) == marker);
    vstd::utf8::encode_utf8_valid_utf8(frame);
    vstd::utf8::encode_utf8_decode_utf8(frame);
}

} // verus!
