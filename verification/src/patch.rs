//! The schema corrections that make requests and responses agree with what
//! the other side expects, as rewrites of a JSON document.

use crate::json::{
    find_member, first_member, items_view, lemma_first_member_push, lemma_view, lemma_with_member,
    members_view, replace_member_value, Json, JsonValue, Member,
};
use vstd::prelude::*;

verus! {

/// The schema that a tool's `parameters` get where they declare no `type`:
/// `"type": "object"` is added, and `"properties": {}` too where that is
/// missing as well. Parameters that declare a `type`, and values that are
/// no objects, stay as they are.
pub open spec fn with_default_schema(params: JsonValue) -> JsonValue {
    match params {
        JsonValue::Object(members) => if first_member(members, "type"@) is None {
            let typed = members.push(("type"@, JsonValue::Text("object"@)));
            if first_member(typed, "properties"@) is None {
                JsonValue::Object(
                    typed.push(("properties"@, JsonValue::Object(Seq::empty()))),
                )
            } else {
                JsonValue::Object(typed)
            }
        } else {
            params
        },
        _ => params,
    }
}

/// `holder` with the default schema applied to its `parameters` member.
pub open spec fn with_patched_parameters(holder: JsonValue) -> JsonValue {
    match holder.member("parameters"@) {
        Some(params) => holder.with_member("parameters"@, with_default_schema(params)),
        None => holder,
    }
}

/// Whether a tool keeps its parameters under `function`: it has a
/// `function` member, and that holds a `parameters` member.
pub open spec fn has_nested_parameters(tool: JsonValue) -> bool {
    tool.member("function"@) matches Some(function) && function.member("parameters"@) is Some
}

/// One element of `tools`, corrected. The parameters are those under
/// `function` where the tool keeps some there, and the tool's own in every
/// other case: a `function` without parameters does not hide them.
pub open spec fn patched_tool(tool: JsonValue) -> JsonValue {
    if has_nested_parameters(tool) {
        tool.with_member("function"@, with_patched_parameters(tool.member("function"@)->0))
    } else {
        with_patched_parameters(tool)
    }
}

/// The correction of one element of `tools`, as a function.
pub open spec fn tool_patch() -> spec_fn(JsonValue) -> JsonValue {
    |tool: JsonValue| patched_tool(tool)
}

/// A request document with every element of its `tools` array corrected.
/// A document without `tools`, or whose `tools` is no array, stays as it is.
pub open spec fn patched_request(doc: JsonValue) -> JsonValue {
    match doc.member("tools"@) {
        Some(JsonValue::Array(tools)) => doc.with_member(
            "tools"@,
            JsonValue::Array(tools.map_values(tool_patch())),
        ),
        _ => doc,
    }
}

/// The value `{"cached_tokens": 0}`.
pub open spec fn default_input_details() -> JsonValue {
    JsonValue::Object(
        seq![("cached_tokens"@, JsonValue::Number(crate::codec::unsigned_number(0)))],
    )
}

/// The value `{"reasoning_tokens": 0}`.
pub open spec fn default_output_details() -> JsonValue {
    JsonValue::Object(
        seq![("reasoning_tokens"@, JsonValue::Number(crate::codec::unsigned_number(0)))],
    )
}

/// A `usage` object with the detail members it lacks added at its end, each
/// with its default. Members that are there keep their values; a value that
/// is no object stays as it is.
pub open spec fn with_usage_details(usage: JsonValue) -> JsonValue {
    match usage {
        JsonValue::Object(members) => {
            let first = if first_member(members, "input_tokens_details"@) is None {
                members.push(("input_tokens_details"@, default_input_details()))
            } else {
                members
            };
            let second = if first_member(first, "output_tokens_details"@) is None {
                first.push(("output_tokens_details"@, default_output_details()))
            } else {
                first
            };
            JsonValue::Object(second)
        },
        _ => usage,
    }
}

/// `holder` with the usage details completed in its `usage` member.
pub open spec fn with_patched_usage(holder: JsonValue) -> JsonValue {
    match holder.member("usage"@) {
        Some(usage) => holder.with_member("usage"@, with_usage_details(usage)),
        None => holder,
    }
}

/// A buffered response document, corrected: the usage details are completed
/// in the top-level `usage`.
pub open spec fn patched_response(doc: JsonValue) -> JsonValue {
    with_patched_usage(doc)
}

/// The payload of one stream frame, corrected: the usage details are
/// completed in `response.usage`.
pub open spec fn patched_event(doc: JsonValue) -> JsonValue {
    match doc.member("response"@) {
        Some(response) => doc.with_member("response"@, with_patched_usage(response)),
        None => doc,
    }
}

/// Applies the default schema to a tool's parameters.
pub fn apply_default_schema(params: Json) -> (out: Json)
    ensures
        out@ == with_default_schema(params@),
{
    proof {
        lemma_view(params);
    }
    match params {
        Json::Object(members) => {
            let mut members = members;
            if find_member(&members, "type").is_none() {
                let ghost before = members_view(members@);
                members.push(Member { key: "type".to_owned(), value: Json::text("object") });
                assert(members_view(members@) =~= before.push(
                    ("type"@, JsonValue::Text("object"@)),
                ));
                if find_member(&members, "properties").is_none() {
                    let ghost typed = members_view(members@);
                    members.push(
                        Member { key: "properties".to_owned(), value: Json::empty_object() },
                    );
                    assert(members_view(members@) =~= typed.push(
                        ("properties"@, JsonValue::Object(Seq::empty())),
                    ));
                }
            }
            let out = Json::Object(members);
            proof {
                lemma_view(out);
            }
            out
        },
        other => other,
    }
}

/// Applies `apply_default_schema` to the `parameters` member of `holder`.
pub fn patch_parameters(holder: Json) -> (out: Json)
    ensures
        out@ == with_patched_parameters(holder@),
{
    proof {
        lemma_view(holder);
    }
    match holder {
        Json::Object(members) => {
            let mut members = members;
            match find_member(&members, "parameters") {
                Some(i) => {
                    let params = replace_member_value(&mut members, i, Json::Null);
                    let patched = apply_default_schema(params);
                    let _ = replace_member_value(&mut members, i, patched);
                    let out = Json::Object(members);
                    proof {
                        lemma_view(out);
                        assert(out@->Object_0 =~= holder@->Object_0.update(
                            i as int,
                            (holder@->Object_0[i as int].0, patched@),
                        ));
                    }
                    out
                },
                None => Json::Object(members),
            }
        },
        other => other,
    }
}

/// Corrects one element of `tools`.
pub fn patch_tool(tool: Json) -> (out: Json)
    ensures
        out@ == patched_tool(tool@),
{
    proof {
        lemma_view(tool);
    }
    match tool {
        Json::Object(members) => {
            let mut members = members;
            let nested = match find_member(&members, "function") {
                Some(i) => if members[i].value.get("parameters").is_some() {
                    Some(i)
                } else {
                    None
                },
                None => None,
            };
            match nested {
                Some(i) => {
                    let function = replace_member_value(&mut members, i, Json::Null);
                    let patched = patch_parameters(function);
                    let _ = replace_member_value(&mut members, i, patched);
                    let out = Json::Object(members);
                    proof {
                        lemma_view(out);
                        assert(out@->Object_0 =~= tool@->Object_0.update(
                            i as int,
                            (tool@->Object_0[i as int].0, patched@),
                        ));
                    }
                    out
                },
                None => patch_parameters(Json::Object(members)),
            }
        },
        other => other,
    }
}

/// Corrects every element of a `tools` array.
pub fn patch_tools(tools: Vec<Json>) -> (out: Vec<Json>)
    ensures
        items_view(out@) == items_view(tools@).map_values(tool_patch()),
{
    let mut out: Vec<Json> = Vec::new();
    let ghost target = items_view(tools@).map_values(tool_patch());
    for tool in it: tools.into_iter()
        invariant
            it.seq() == tools@,
            target == items_view(tools@).map_values(tool_patch()),
            out@.len() == it.index(),
            forall|j: int| 0 <= j < it.index() ==> (#[trigger] out@[j])@ == target[j],
    {
        let patched = patch_tool(tool);
        out.push(patched);
    }
    out
}

/// The request correction: gives every tool whose parameters declare no
/// `type` the default schema.
pub fn patch_request(doc: Json) -> (out: Json)
    ensures
        out@ == patched_request(doc@),
{
    proof {
        lemma_view(doc);
    }
    match doc {
        Json::Object(members) => {
            let mut members = members;
            match find_member(&members, "tools") {
                Some(i) => {
                    let tools = replace_member_value(&mut members, i, Json::Null);
                    let ghost found = tools@;
                    proof {
                        lemma_view(tools);
                    }
                    let patched = match tools {
                        Json::Array(items) => {
                            let items = patch_tools(items);
                            let patched = Json::Array(items);
                            proof {
                                lemma_view(patched);
                            }
                            patched
                        },
                        other => other,
                    };
                    let _ = replace_member_value(&mut members, i, patched);
                    let out = Json::Object(members);
                    proof {
                        lemma_view(out);
                        assert(out@->Object_0 =~= doc@->Object_0.update(
                            i as int,
                            (doc@->Object_0[i as int].0, patched@),
                        ));
                        if !(found is Array) {
                            assert(out@->Object_0 =~= doc@->Object_0);
                        }
                    }
                    out
                },
                None => Json::Object(members),
            }
        },
        other => other,
    }
}

/// An object with the single member `key: 0`.
fn zero_counter(key: &str) -> (out: Json)
    ensures
        out@ == JsonValue::Object(
            seq![(key@, JsonValue::Number(crate::codec::unsigned_number(0)))],
        ),
{
    let mut members: Vec<Member> = Vec::new();
    members.push(Member { key: key.to_owned(), value: Json::unsigned(0) });
    let out = Json::Object(members);
    proof {
        lemma_view(out);
        assert(out@->Object_0 =~= seq![
            (key@, JsonValue::Number(crate::codec::unsigned_number(0))),
        ]);
    }
    out
}

/// Completes the detail members of a `usage` object.
pub fn complete_usage_details(usage: Json) -> (out: Json)
    ensures
        out@ == with_usage_details(usage@),
{
    proof {
        lemma_view(usage);
    }
    match usage {
        Json::Object(members) => {
            let mut members = members;
            if find_member(&members, "input_tokens_details").is_none() {
                let ghost before = members_view(members@);
                members.push(
                    Member {
                        key: "input_tokens_details".to_owned(),
                        value: zero_counter("cached_tokens"),
                    },
                );
                assert(members_view(members@) =~= before.push(
                    ("input_tokens_details"@, default_input_details()),
                ));
            }
            if find_member(&members, "output_tokens_details").is_none() {
                let ghost before = members_view(members@);
                members.push(
                    Member {
                        key: "output_tokens_details".to_owned(),
                        value: zero_counter("reasoning_tokens"),
                    },
                );
                assert(members_view(members@) =~= before.push(
                    ("output_tokens_details"@, default_output_details()),
                ));
            }
            let out = Json::Object(members);
            proof {
                lemma_view(out);
            }
            out
        },
        other => other,
    }
}

/// Completes the usage details in the `usage` member of `holder`.
pub fn patch_usage(holder: Json) -> (out: Json)
    ensures
        out@ == with_patched_usage(holder@),
{
    proof {
        lemma_view(holder);
    }
    match holder {
        Json::Object(members) => {
            let mut members = members;
            match find_member(&members, "usage") {
                Some(i) => {
                    let usage = replace_member_value(&mut members, i, Json::Null);
                    let patched = complete_usage_details(usage);
                    let _ = replace_member_value(&mut members, i, patched);
                    let out = Json::Object(members);
                    proof {
                        lemma_view(out);
                        assert(out@->Object_0 =~= holder@->Object_0.update(
                            i as int,
                            (holder@->Object_0[i as int].0, patched@),
                        ));
                    }
                    out
                },
                None => Json::Object(members),
            }
        },
        other => other,
    }
}

/// The response correction: completes the usage details in the top-level
/// `usage` of a buffered response.
pub fn patch_response(doc: Json) -> (out: Json)
    ensures
        out@ == patched_response(doc@),
{
    patch_usage(doc)
}

/// The stream correction: completes the usage details in `response.usage`
/// of one frame's payload.
pub fn patch_event(doc: Json) -> (out: Json)
    ensures
        out@ == patched_event(doc@),
{
    proof {
        lemma_view(doc);
    }
    match doc {
        Json::Object(members) => {
            let mut members = members;
            match find_member(&members, "response") {
                Some(i) => {
                    let response = replace_member_value(&mut members, i, Json::Null);
                    let patched = patch_usage(response);
                    let _ = replace_member_value(&mut members, i, patched);
                    let out = Json::Object(members);
                    proof {
                        lemma_view(out);
                        assert(out@->Object_0 =~= doc@->Object_0.update(
                            i as int,
                            (doc@->Object_0[i as int].0, patched@),
                        ));
                    }
                    out
                },
                None => Json::Object(members),
            }
        },
        other => other,
    }
}

/// The parameters that the request correction looks at in a tool: those
/// under `function` where the tool keeps some there, else the tool's own.
pub open spec fn tool_parameters(tool: JsonValue) -> Option<JsonValue> {
    if has_nested_parameters(tool) {
        (tool.member("function"@)->0).member("parameters"@)
    } else {
        tool.member("parameters"@)
    }
}

/// Whether a value is an object that declares no `type`: the one kind of
/// parameters that the request correction changes.
pub open spec fn lacks_type(params: JsonValue) -> bool {
    params is Object && params.member("type"@) is None
}

/// Whether a value is an object that lacks one of the two detail members:
/// the one kind of `usage` that the usage correction changes.
pub open spec fn lacks_usage_details(usage: JsonValue) -> bool {
    usage is Object && (usage.member("input_tokens_details"@) is None || usage.member(
        "output_tokens_details"@,
    ) is None)
}

/// The default schema changes parameters exactly where they are an object
/// without `type`, and what it returns declares a `type`.
pub proof fn lemma_default_schema(params: JsonValue)
    ensures
        lacks_type(params) <==> with_default_schema(params) != params,
        !lacks_type(with_default_schema(params)),
        with_default_schema(with_default_schema(params)) == with_default_schema(params),
{
    if let JsonValue::Object(members) = params {
        if first_member(members, "type"@) is None {
            let kind = ("type"@, JsonValue::Text("object"@));
            let props = ("properties"@, JsonValue::Object(Seq::empty()));
            let typed = members.push(kind);
            lemma_first_member_push(members, kind, "type"@);
            lemma_first_member_push(typed, props, "type"@);
        }
    }
}

/// Completing the usage details changes a value exactly where it is an
/// object that lacks one of them, and what it returns lacks none.
pub proof fn lemma_usage_details(usage: JsonValue)
    ensures
        lacks_usage_details(usage) <==> with_usage_details(usage) != usage,
        !lacks_usage_details(with_usage_details(usage)),
        with_usage_details(with_usage_details(usage)) == with_usage_details(usage),
{
    reveal_strlit("input_tokens_details");
    reveal_strlit("output_tokens_details");
    if let JsonValue::Object(members) = usage {
        let input = ("input_tokens_details"@, default_input_details());
        let output = ("output_tokens_details"@, default_output_details());
        assert(input.0 != output.0) by {
            assert(input.0.len() != output.0.len());
        }
        let first = if first_member(members, "input_tokens_details"@) is None {
            members.push(input)
        } else {
            members
        };
        lemma_first_member_push(members, input, "input_tokens_details"@);
        lemma_first_member_push(members, input, "output_tokens_details"@);
        lemma_first_member_push(first, output, "input_tokens_details"@);
        lemma_first_member_push(first, output, "output_tokens_details"@);
    }
}

/// Neither correction drops, changes or reorders a member that is there:
/// what an object held stands unchanged at the front of what it holds
/// afterwards.
pub proof fn lemma_members_kept(value: JsonValue)
    ensures
        value matches JsonValue::Object(members) ==> {
            &&& with_default_schema(value) matches JsonValue::Object(typed)
            &&& members.is_prefix_of(typed)
            &&& with_usage_details(value) matches JsonValue::Object(detailed)
            &&& members.is_prefix_of(detailed)
        },
        !(value is Object) ==> with_default_schema(value) == value && with_usage_details(value)
            == value,
{
}

/// What the correction of a holder's `parameters` changes and keeps.
pub proof fn lemma_patched_parameters(holder: JsonValue)
    ensures
        with_patched_parameters(holder) != holder <==> (holder.member("parameters"@) matches Some(
            params,
        ) && lacks_type(params)),
        with_patched_parameters(with_patched_parameters(holder)) == with_patched_parameters(
            holder,
        ),
        forall|other: Seq<char>|
            other != "parameters"@ ==> with_patched_parameters(holder).member(other)
                == holder.member(other),
        with_patched_parameters(holder).member("parameters"@) == match holder.member(
            "parameters"@,
        ) {
            Some(params) => Some(with_default_schema(params)),
            None => None,
        },
{
    let key = "parameters"@;
    if let Some(params) = holder.member(key) {
        let fixed = with_default_schema(params);
        let once = holder.with_member(key, fixed);
        lemma_default_schema(params);
        lemma_with_member(holder, key, fixed, key);
        lemma_with_member(once, key, fixed, key);
        assert forall|other: Seq<char>| other != key implies once.member(other) == holder.member(
            other,
        ) by {
            lemma_with_member(holder, key, fixed, other);
        }
    }
}

/// What the correction of a holder's `usage` changes and keeps.
pub proof fn lemma_patched_usage(holder: JsonValue)
    ensures
        with_patched_usage(holder) != holder <==> (holder.member("usage"@) matches Some(usage)
            && lacks_usage_details(usage)),
        with_patched_usage(with_patched_usage(holder)) == with_patched_usage(holder),
{
    let key = "usage"@;
    if let Some(usage) = holder.member(key) {
        let fixed = with_usage_details(usage);
        let once = holder.with_member(key, fixed);
        lemma_usage_details(usage);
        lemma_with_member(holder, key, fixed, key);
        lemma_with_member(once, key, fixed, key);
    }
}

/// A tool is changed exactly where the parameters that the correction looks
/// at are an object without `type`. So a tool whose parameters declare a
/// `type`, are no object, or are missing, is left as it is. And correcting
/// a tool twice is correcting it once.
pub proof fn lemma_patched_tool(tool: JsonValue)
    ensures
        patched_tool(tool) != tool <==> (tool_parameters(tool) matches Some(params) && lacks_type(
            params,
        )),
        patched_tool(patched_tool(tool)) == patched_tool(tool),
{
    reveal_strlit("function");
    reveal_strlit("parameters");
    assert("function"@ != "parameters"@) by {
        assert("function"@.len() != "parameters"@.len());
    }
    let key = "function"@;
    if has_nested_parameters(tool) {
        let function = tool.member(key)->0;
        let fixed = with_patched_parameters(function);
        let once = tool.with_member(key, fixed);
        lemma_patched_parameters(function);
        lemma_patched_parameters(fixed);
        lemma_with_member(tool, key, fixed, key);
        lemma_with_member(once, key, fixed, key);
    } else {
        lemma_patched_parameters(tool);
        lemma_patched_parameters(with_patched_parameters(tool));
    }
}

/// A tool is left exactly as it is where the parameters that the
/// correction looks at already declare a `type`.
pub proof fn lemma_typed_tool_untouched(tool: JsonValue)
    requires
        tool_parameters(tool) matches Some(params) && params.member("type"@) is Some,
    ensures
        patched_tool(tool) == tool,
{
    lemma_patched_tool(tool);
}

/// The request correction applied twice gives what it gives applied once.
pub proof fn lemma_patched_request_idempotent(doc: JsonValue)
    ensures
        patched_request(patched_request(doc)) == patched_request(doc),
{
    let key = "tools"@;
    if let Some(JsonValue::Array(tools)) = doc.member(key) {
        let fixed = tools.map_values(tool_patch());
        let once = doc.with_member(key, JsonValue::Array(fixed));
        lemma_with_member(doc, key, JsonValue::Array(fixed), key);
        let again = fixed.map_values(tool_patch());
        assert(again =~= fixed) by {
            assert forall|i: int| 0 <= i < fixed.len() implies again[i] == fixed[i] by {
                lemma_patched_tool(tools[i]);
            }
        }
        lemma_with_member(once, key, JsonValue::Array(fixed), key);
    }
}

/// In a corrected request every element of `tools` is the corrected
/// element of the request as it came, at the same place; every other
/// member of the document is what it was.
pub proof fn lemma_patched_request_members(doc: JsonValue, other: Seq<char>)
    ensures
        other != "tools"@ ==> patched_request(doc).member(other) == doc.member(other),
        doc.member("tools"@) matches Some(JsonValue::Array(tools)) ==> patched_request(
            doc,
        ).member("tools"@) == Some(
            JsonValue::Array(tools.map_values(tool_patch())),
        ),
        !(doc.member("tools"@) matches Some(JsonValue::Array(_))) ==> patched_request(doc) == doc,
{
    let key = "tools"@;
    if let Some(JsonValue::Array(tools)) = doc.member(key) {
        let fixed = JsonValue::Array(tools.map_values(tool_patch()));
        lemma_with_member(doc, key, fixed, other);
        lemma_with_member(doc, key, fixed, key);
    }
}

/// A response whose `usage` already holds both detail members is left
/// exactly as it is; so is one without a `usage` object. And the response
/// correction applied twice gives what it gives applied once.
pub proof fn lemma_patched_response(doc: JsonValue)
    ensures
        patched_response(doc) != doc <==> (doc.member("usage"@) matches Some(usage)
            && lacks_usage_details(usage)),
        patched_response(patched_response(doc)) == patched_response(doc),
{
    lemma_patched_usage(doc);
}

/// A response whose `usage` already holds both detail members is left
/// exactly as it is.
pub proof fn lemma_complete_usage_untouched(doc: JsonValue)
    requires
        doc.member("usage"@) matches Some(usage) && usage.member("input_tokens_details"@) is Some
            && usage.member("output_tokens_details"@) is Some,
    ensures
        patched_response(doc) == doc,
{
    lemma_patched_response(doc);
}

/// Whether the stream correction changes a frame's payload: it has a
/// `response` whose `usage` is an object that lacks a detail member.
pub open spec fn event_lacks_details(doc: JsonValue) -> bool {
    doc.member("response"@) matches Some(response) && response.member("usage"@) matches Some(
        usage,
    ) && lacks_usage_details(usage)
}

/// The stream correction changes a payload exactly where
/// `event_lacks_details` holds, and applied twice it gives what it gives
/// applied once.
pub proof fn lemma_patched_event(doc: JsonValue)
    ensures
        patched_event(doc) != doc <==> event_lacks_details(doc),
        patched_event(patched_event(doc)) == patched_event(doc),
{
    let key = "response"@;
    if let Some(response) = doc.member(key) {
        let fixed = with_patched_usage(response);
        let once = doc.with_member(key, fixed);
        lemma_patched_usage(response);
        lemma_with_member(doc, key, fixed, key);
        lemma_with_member(once, key, fixed, key);
    }
}

/// Whether the stream correction would change this payload.
pub fn needs_event_patch(doc: &Json) -> (needed: bool)
    ensures
        needed == event_lacks_details(doc@),
        needed == (patched_event(doc@) != doc@),
{
    proof {
        lemma_patched_event(doc@);
    }
    match doc.get("response") {
        Some(response) => match response.get("usage") {
            Some(usage) => {
                proof {
                    lemma_view(*usage);
                }
                match usage {
                    Json::Object(members) => find_member(members, "input_tokens_details").is_none()
                        || find_member(members, "output_tokens_details").is_none(),
                    _ => false,
                }
            },
            None => false,
        },
        None => false,
    }
}

/// Whether the request correction changes a tool: the parameters it looks
/// at are an object without `type`.
pub open spec fn tool_lacks_schema(tool: JsonValue) -> bool {
    tool_parameters(tool) matches Some(params) && lacks_type(params)
}

/// How many of the first `n` tools the request correction changes.
pub open spec fn corrected_among(tools: Seq<JsonValue>, n: nat) -> nat
    decreases n,
{
    if n == 0 {
        0
    } else {
        corrected_among(tools, (n - 1) as nat) + if tool_lacks_schema(tools[n - 1]) {
            1nat
        } else {
            0nat
        }
    }
}

/// How many tools of a request the request correction changes.
pub open spec fn corrected_tools(doc: JsonValue) -> nat {
    match doc.member("tools"@) {
        Some(JsonValue::Array(tools)) => corrected_among(tools, tools.len()),
        _ => 0,
    }
}

/// Whether the request correction would change this tool.
pub fn needs_tool_patch(tool: &Json) -> (needed: bool)
    ensures
        needed == tool_lacks_schema(tool@),
        needed == (patched_tool(tool@) != tool@),
{
    proof {
        lemma_patched_tool(tool@);
    }
    let holder = match tool.get("function") {
        Some(function) => if function.get("parameters").is_some() {
            function
        } else {
            tool
        },
        None => tool,
    };
    match holder.get("parameters") {
        Some(params) => {
            proof {
                lemma_view(*params);
            }
            match params {
                Json::Object(members) => find_member(members, "type").is_none(),
                _ => false,
            }
        },
        None => false,
    }
}

/// Counts the tools of a request that the request correction would change.
pub fn count_tool_patches(doc: &Json) -> (count: usize)
    ensures
        count == corrected_tools(doc@),
{
    match doc.get("tools") {
        Some(tools) => {
            proof {
                lemma_view(*tools);
            }
            match tools {
                Json::Array(items) => {
                    let mut count: usize = 0;
                    let mut i: usize = 0;
                    while i < items.len()
                        invariant
                            i <= items.len(),
                            count <= i,
                            count == corrected_among(items_view(items@), i as nat),
                        decreases items.len() - i,
                    {
                        if needs_tool_patch(&items[i]) {
                            count = count + 1;
                        }
                        i = i + 1;
                    }
                    count
                },
                _ => 0,
            }
        },
        None => 0,
    }
}

} // verus!
