//! The JSON that the Gemini API takes and gives: tool declarations,
//! conversation contents, and the parts of a response.

use crate::json::{
    at_key, at_pos, count_of, items_of, json_views, lemma_array_view, lemma_object_view, member,
    member_of, member_views, text_of, Json, JsonSpec, Member, MemberSpec,
};
use crate::model::{ChatMessage, CompletionResponse, ContentPart, ToolCall, Usage, UserContent};
use crate::text::{chars_of, push_all, same_text, string_of};
use vstd::prelude::*;
use vstd::string::StrSliceExecFns;

verus! {

/// What `str::to_uppercase` makes of a string: its upper-case form by the
/// rules of Unicode.
pub uninterp spec fn uppercase_of(s: Seq<char>) -> Seq<char>;

/// `str::to_uppercase` returns the upper-case equivalent of the string as
/// a new `String`; what it returns depends on the string alone.
#[verifier::external_body]
fn to_uppercase(s: &str) -> (r: String)
    ensures
        r@ == uppercase_of(s@),
{
    s.to_uppercase()
}

/// A JSON schema with its type names in upper case, as Gemini wants
/// them: in every object the string under `type` is upper-cased, the
/// schemas under `properties` and the schema under `items` are converted
/// in turn; arrays are converted item by item; anything else stays.
pub open spec fn converted(schema: JsonSpec) -> JsonSpec
    decreases schema, 0int,
{
    match schema {
        JsonSpec::Object(members) => JsonSpec::Object(
            Seq::new(
                members.len(),
                |i: int|
                    if 0 <= i < members.len() {
                        MemberSpec {
                            name: members[i].name,
                            value: converted_under(members[i].name, members[i].value),
                        }
                    } else {
                        MemberSpec { name: Seq::empty(), value: JsonSpec::Null }
                    },
            ),
        ),
        JsonSpec::Array(items) => JsonSpec::Array(
            Seq::new(
                items.len(),
                |i: int|
                    if 0 <= i < items.len() {
                        converted(items[i])
                    } else {
                        JsonSpec::Null
                    },
            ),
        ),
        _ => schema,
    }
}

/// What becomes of the value that a schema object holds under `key`.
pub open spec fn converted_under(key: Seq<char>, value: JsonSpec) -> JsonSpec
    decreases value, 1int,
{
    if key == "type"@ {
        match value {
            JsonSpec::Text(t) => JsonSpec::Text(uppercase_of(t)),
            _ => value,
        }
    } else if key == "properties"@ {
        match value {
            JsonSpec::Object(props) => JsonSpec::Object(
                Seq::new(
                    props.len(),
                    |i: int|
                        if 0 <= i < props.len() {
                            MemberSpec { name: props[i].name, value: converted(props[i].value) }
                        } else {
                            MemberSpec { name: Seq::empty(), value: JsonSpec::Null }
                        },
                ),
            ),
            _ => value,
        }
    } else if key == "items"@ {
        converted(value)
    } else {
        value
    }
}

/// Converts JSON Schema types (lower case) to Gemini types (upper case).
/// Handles nested objects and arrays.
#[verifier::loop_isolation(false)]
pub fn convert_json_schema_types(schema: &Json) -> (r: Json)
    ensures
        r@ == converted(schema@),
    decreases schema, 0int,
{
    match schema {
        Json::Object(members) => {
            let mut out: Vec<Member> = Vec::new();
            let mut i: usize = 0;
            while i < members.len()
                invariant
                    i <= members@.len(),
                    out@.len() == i,
                    forall|k: int|
                        0 <= k < i ==> (#[trigger] out@[k]).name@ == members@[k].name@
                            && out@[k].value@ == converted_under(
                            members@[k].name@,
                            members@[k].value@,
                        ),
                decreases members@.len() - i,
            {
                let value = convert_under(members[i].name.as_str(), &members[i].value);
                out.push(Member { name: members[i].name.clone(), value });
                i += 1;
            }
            proof {
                lemma_object_view(*members);
                assert(member_views(out@) =~= converted(schema@)->Object_0);
            }
            Json::object(out)
        },
        Json::Array(items) => {
            let mut out: Vec<Json> = Vec::new();
            let mut i: usize = 0;
            while i < items.len()
                invariant
                    i <= items@.len(),
                    out@.len() == i,
                    forall|k: int| 0 <= k < i ==> (#[trigger] out@[k])@ == converted(items@[k]@),
                decreases items@.len() - i,
            {
                out.push(convert_json_schema_types(&items[i]));
                i += 1;
            }
            proof {
                lemma_array_view(*items);
                assert(json_views(out@) =~= converted(schema@)->Array_0);
            }
            Json::array(out)
        },
        _ => schema.copy(),
    }
}

/// Converts the value that a schema object holds under `key`.
#[verifier::loop_isolation(false)]
fn convert_under(key: &str, value: &Json) -> (r: Json)
    ensures
        r@ == converted_under(key@, value@),
    decreases value, 1int,
{
    if same_text(key, "type") {
        match value {
            Json::Text(t) => Json::Text(to_uppercase(t.as_str())),
            _ => value.copy(),
        }
    } else if same_text(key, "properties") {
        match value {
            Json::Object(props) => {
                let mut out: Vec<Member> = Vec::new();
                let mut i: usize = 0;
                while i < props.len()
                    invariant
                        i <= props@.len(),
                        out@.len() == i,
                        forall|k: int|
                            0 <= k < i ==> (#[trigger] out@[k]).name@ == props@[k].name@
                                && out@[k].value@ == converted(props@[k].value@),
                    decreases props@.len() - i,
                {
                    let converted_value = convert_json_schema_types(&props[i].value);
                    out.push(Member { name: props[i].name.clone(), value: converted_value });
                    i += 1;
                }
                proof {
                    lemma_object_view(*props);
                    assert(member_views(out@) =~= converted_under(key@, value@)->Object_0);
                }
                Json::object(out)
            },
            _ => value.copy(),
        }
    } else if same_text(key, "items") {
        convert_json_schema_types(value)
    } else {
        value.copy()
    }
}

/// An object with one member.
pub open spec fn object1(name: Seq<char>, value: JsonSpec) -> JsonSpec {
    JsonSpec::Object(seq![MemberSpec { name, value }])
}

/// An object with two members.
pub open spec fn object2(n1: Seq<char>, v1: JsonSpec, n2: Seq<char>, v2: JsonSpec) -> JsonSpec {
    JsonSpec::Object(seq![MemberSpec { name: n1, value: v1 }, MemberSpec { name: n2, value: v2 }])
}

/// An object with three members.
pub open spec fn object3(
    n1: Seq<char>,
    v1: JsonSpec,
    n2: Seq<char>,
    v2: JsonSpec,
    n3: Seq<char>,
    v3: JsonSpec,
) -> JsonSpec {
    JsonSpec::Object(
        seq![
            MemberSpec { name: n1, value: v1 },
            MemberSpec { name: n2, value: v2 },
            MemberSpec { name: n3, value: v3 },
        ],
    )
}

fn make_object1(n1: &str, v1: Json) -> (j: Json)
    ensures
        j@ == object1(n1@, v1@),
{
    let mut members: Vec<Member> = Vec::new();
    members.push(member(n1, v1));
    assert(member_views(members@) =~= seq![MemberSpec { name: n1@, value: v1@ }]);
    Json::object(members)
}

fn make_object2(n1: &str, v1: Json, n2: &str, v2: Json) -> (j: Json)
    ensures
        j@ == object2(n1@, v1@, n2@, v2@),
{
    let mut members: Vec<Member> = Vec::new();
    members.push(member(n1, v1));
    members.push(member(n2, v2));
    assert(member_views(members@) =~= seq![
        MemberSpec { name: n1@, value: v1@ },
        MemberSpec { name: n2@, value: v2@ },
    ]);
    Json::object(members)
}

fn make_object3(n1: &str, v1: Json, n2: &str, v2: Json, n3: &str, v3: Json) -> (j: Json)
    ensures
        j@ == object3(n1@, v1@, n2@, v2@, n3@, v3@),
{
    let mut members: Vec<Member> = Vec::new();
    members.push(member(n1, v1));
    members.push(member(n2, v2));
    members.push(member(n3, v3));
    assert(member_views(members@) =~= seq![
        MemberSpec { name: n1@, value: v1@ },
        MemberSpec { name: n2@, value: v2@ },
        MemberSpec { name: n3@, value: v3@ },
    ]);
    Json::object(members)
}

/// The declaration of one tool: its name and description as they are,
/// and its parameters as a converted schema.
pub open spec fn declaration_of(tool: JsonSpec) -> JsonSpec {
    object3(
        "name"@,
        at_key(tool, "name"@),
        "description"@,
        at_key(tool, "description"@),
        "parameters"@,
        converted(at_key(tool, "parameters"@)),
    )
}

/// The tools as Gemini takes them: one object that holds the declarations
/// of all of them under `functionDeclarations`.
pub open spec fn gemini_tools_of(tools: Seq<JsonSpec>) -> JsonSpec {
    object1(
        "functionDeclarations"@,
        JsonSpec::Array(Seq::new(tools.len(), |i: int| declaration_of(tools[i]))),
    )
}

/// Converts tool schemas from the generic format to Gemini's
/// `functionDeclarations` format.
pub fn to_gemini_tools(tools: &[Json]) -> (r: Json)
    ensures
        r@ == gemini_tools_of(json_views(tools@)),
{
    let mut declarations: Vec<Json> = Vec::new();
    let mut i: usize = 0;
    while i < tools.len()
        invariant
            i <= tools@.len(),
            declarations@.len() == i,
            forall|k: int|
                0 <= k < i ==> (#[trigger] declarations@[k])@ == declaration_of(tools@[k]@),
        decreases tools@.len() - i,
    {
        let tool = &tools[i];
        let params = convert_json_schema_types(&tool.at("parameters"));
        declarations.push(
            make_object3(
                "name",
                tool.at("name"),
                "description",
                tool.at("description"),
                "parameters",
                params,
            ),
        );
        i += 1;
    }
    assert(json_views(declarations@) =~= Seq::new(
        tools@.len(),
        |i: int| declaration_of(json_views(tools@)[i]),
    ));
    make_object1("functionDeclarations", Json::array(declarations))
}

/// A part that holds text.
pub open spec fn text_part(text: Seq<char>) -> JsonSpec {
    object1("text"@, JsonSpec::Text(text))
}

/// One part of a user message: text, or an image as inline data.
pub open spec fn user_part(part: ContentPart) -> JsonSpec {
    match part {
        ContentPart::Text(text) => text_part(text@),
        ContentPart::Image { media_type, data } => object1(
            "inlineData"@,
            object2("mimeType"@, JsonSpec::Text(media_type@), "data"@, JsonSpec::Text(data@)),
        ),
    }
}

/// The part that asks for a tool call.
pub open spec fn call_part(call: ToolCall) -> JsonSpec {
    object1(
        "functionCall"@,
        object2("name"@, JsonSpec::Text(call.name@), "args"@, call.arguments@),
    )
}

/// The parts of an assistant message: its text, unless it has none or the
/// text is empty, then one part for each tool call; an empty text part
/// where there would be no part at all.
pub open spec fn assistant_parts(content: Option<String>, calls: Seq<ToolCall>) -> Seq<JsonSpec> {
    let text = match content {
        Some(t) => if t@.len() > 0 {
            seq![text_part(t@)]
        } else {
            Seq::empty()
        },
        None => Seq::empty(),
    };
    let parts = text + Seq::new(calls.len(), |i: int| call_part(calls[i]));
    if parts.len() == 0 {
        seq![text_part(Seq::empty())]
    } else {
        parts
    }
}

/// The response of a tool as Gemini takes it: the content itself where it
/// is JSON, else an object that holds the content as text under `result`.
pub open spec fn tool_response(content: Seq<char>, parsed: Option<JsonSpec>) -> JsonSpec {
    match parsed {
        Some(value) => value,
        None => object1("result"@, JsonSpec::Text(content)),
    }
}

/// A role with its parts.
pub open spec fn content_of(role: Seq<char>, parts: Seq<JsonSpec>) -> JsonSpec {
    object2("role"@, JsonSpec::Text(role), "parts"@, JsonSpec::Array(parts))
}

/// One message in Gemini's content format: user messages and tool results
/// speak in the role `user`, assistant messages in the role `model`; a
/// system message, which has its own place in a request, becomes an empty
/// user message. `parsed` is the content of a tool result read as JSON,
/// if it is JSON.
pub open spec fn gemini_content(msg: ChatMessage, parsed: Option<JsonSpec>) -> JsonSpec {
    match msg {
        ChatMessage::System { .. } => content_of("user"@, seq![text_part(Seq::empty())]),
        ChatMessage::User { content } => content_of(
            "user"@,
            match content {
                UserContent::Text(text) => seq![text_part(text@)],
                UserContent::Multimodal(parts) => Seq::new(
                    parts@.len(),
                    |i: int| user_part(parts@[i]),
                ),
            },
        ),
        ChatMessage::Assistant { content, tool_calls } => content_of(
            "model"@,
            assistant_parts(content, tool_calls@),
        ),
        ChatMessage::Tool { tool_call_id, content } => content_of(
            "user"@,
            seq![
                object1(
                    "functionResponse"@,
                    object2(
                        "name"@,
                        JsonSpec::Text(tool_call_id@),
                        "response"@,
                        tool_response(content@, parsed),
                    ),
                ),
            ],
        ),
    }
}

fn make_text_part(text: &str) -> (j: Json)
    ensures
        j@ == text_part(text@),
{
    make_object1("text", Json::text(text))
}

fn empty_text_part() -> (j: Json)
    ensures
        j@ == text_part(Seq::empty()),
{
    proof {
        reveal_strlit("");
        assert(""@ =~= Seq::<char>::empty());
    }
    make_text_part("")
}

fn make_content(role: &str, parts: Vec<Json>) -> (j: Json)
    ensures
        j@ == content_of(role@, json_views(parts@)),
{
    make_object2("role", Json::text(role), "parts", Json::array(parts))
}

fn one(part: Json) -> (parts: Vec<Json>)
    ensures
        json_views(parts@) == seq![part@],
{
    let mut parts: Vec<Json> = Vec::new();
    parts.push(part);
    assert(json_views(parts@) =~= seq![part@]);
    parts
}

/// The view of an optional JSON value.
pub open spec fn opt_json(v: Option<&Json>) -> Option<JsonSpec> {
    match v {
        Some(j) => Some(j@),
        None => None,
    }
}

/// Converts one message to Gemini's content format. `parsed` is the
/// content of a tool result read as JSON, if it is JSON; it is not looked
/// at for any other message.
pub fn to_gemini_message(msg: &ChatMessage, parsed: Option<&Json>) -> (r: Json)
    ensures
        r@ == gemini_content(*msg, opt_json(parsed)),
{
    match msg {
        ChatMessage::System { .. } => make_content("user", one(empty_text_part())),
        ChatMessage::User { content } => {
            let parts = match content {
                UserContent::Text(text) => one(make_text_part(text.as_str())),
                UserContent::Multimodal(parts) => {
                    let mut out: Vec<Json> = Vec::new();
                    let mut i: usize = 0;
                    while i < parts.len()
                        invariant
                            i <= parts@.len(),
                            out@.len() == i,
                            forall|k: int| 0 <= k < i ==> (#[trigger] out@[k])@ == user_part(parts@[k]),
                        decreases parts@.len() - i,
                    {
                        let part = match &parts[i] {
                            ContentPart::Text(text) => make_text_part(text.as_str()),
                            ContentPart::Image { media_type, data } => make_object1(
                                "inlineData",
                                make_object2(
                                    "mimeType",
                                    Json::text(media_type.as_str()),
                                    "data",
                                    Json::text(data.as_str()),
                                ),
                            ),
                        };
                        out.push(part);
                        i += 1;
                    }
                    assert(json_views(out@) =~= Seq::new(
                        parts@.len(),
                        |i: int| user_part(parts@[i]),
                    ));
                    out
                },
            };
            make_content("user", parts)
        },
        ChatMessage::Assistant { content, tool_calls } => {
            let mut parts: Vec<Json> = Vec::new();
            if let Some(text) = content {
                if text.as_str().unicode_len() > 0 {
                    parts.push(make_text_part(text.as_str()));
                }
            }
            let ghost text = json_views(parts@);
            let ghost calls = Seq::new(tool_calls@.len(), |i: int| call_part(tool_calls@[i]));
            assert(text =~= match *content {
                Some(t) => if t@.len() > 0 {
                    seq![text_part(t@)]
                } else {
                    Seq::empty()
                },
                None => Seq::empty(),
            });
            let mut i: usize = 0;
            while i < tool_calls.len()
                invariant
                    i <= tool_calls@.len(),
                    calls == Seq::new(tool_calls@.len(), |i: int| call_part(tool_calls@[i])),
                    json_views(parts@) == text + calls.take(i as int),
                decreases tool_calls@.len() - i,
            {
                let call = &tool_calls[i];
                let ghost before = json_views(parts@);
                parts.push(
                    make_object1(
                        "functionCall",
                        make_object2(
                            "name",
                            Json::text(call.name.as_str()),
                            "args",
                            call.arguments.copy(),
                        ),
                    ),
                );
                proof {
                    assert(json_views(parts@) =~= before.push(call_part(tool_calls@[i as int])));
                    assert(calls.take(i + 1) =~= calls.take(i as int).push(
                        call_part(tool_calls@[i as int]),
                    ));
                    assert(text + calls.take(i + 1) =~= (text + calls.take(i as int)).push(
                        call_part(tool_calls@[i as int]),
                    ));
                }
                i += 1;
            }
            assert(calls.take(tool_calls@.len() as int) == calls);
            if parts.len() == 0 {
                parts = one(empty_text_part());
            }
            make_content("model", parts)
        },
        ChatMessage::Tool { tool_call_id, content } => {
            let response = match parsed {
                Some(value) => value.copy(),
                None => make_object1("result", Json::text(content.as_str())),
            };
            make_content(
                "user",
                one(
                    make_object1(
                        "functionResponse",
                        make_object2(
                            "name",
                            Json::text(tool_call_id.as_str()),
                            "response",
                            response,
                        ),
                    ),
                ),
            )
        },
    }
}

/// What was read of the `i`-th message's content as JSON.
pub open spec fn parsed_at(parsed: Seq<Option<Json>>, i: int) -> Option<JsonSpec> {
    if 0 <= i < parsed.len() {
        match parsed[i] {
            Some(j) => Some(j@),
            None => None,
        }
    } else {
        None
    }
}

/// Converts messages to Gemini's content format, one content for each
/// message. `parsed[i]` is the content of the `i`-th message read as JSON,
/// if it is JSON; it matters for tool results only.
pub fn to_gemini_messages(messages: &[&ChatMessage], parsed: &[Option<Json>]) -> (r: Vec<Json>)
    ensures
        r@.len() == messages@.len(),
        forall|i: int|
            0 <= i < r@.len() ==> (#[trigger] r@[i])@ == gemini_content(
                *messages@[i],
                parsed_at(parsed@, i),
            ),
{
    let mut out: Vec<Json> = Vec::new();
    let mut i: usize = 0;
    while i < messages.len()
        invariant
            i <= messages@.len(),
            out@.len() == i,
            forall|k: int|
                0 <= k < i ==> (#[trigger] out@[k])@ == gemini_content(
                    *messages@[k],
                    parsed_at(parsed@, k),
                ),
        decreases messages@.len() - i,
    {
        let read = if i < parsed.len() {
            parsed[i].as_ref()
        } else {
            None
        };
        out.push(to_gemini_message(messages[i], read));
        i += 1;
    }
    out
}

/// The tool call that a response part asks for, if it asks for one: the
/// function's name, which also serves as the call's id, and its arguments.
/// A name that is missing or no string counts as empty.
pub open spec fn is_call_of(call: ToolCall, part: JsonSpec) -> bool {
    match member_of(part, "functionCall"@) {
        Some(fc) => {
            let name = match text_of(at_key(fc, "name"@)) {
                Some(n) => n,
                None => Seq::empty(),
            };
            call.id@ == name && call.name@ == name && call.arguments@ == at_key(fc, "args"@)
        },
        None => false,
    }
}

/// Whether `calls` are the tool calls that `parts` ask for, in order.
pub open spec fn are_calls_of(calls: Seq<ToolCall>, parts: Seq<JsonSpec>) -> bool
    decreases parts.len(),
{
    if parts.len() == 0 {
        calls.len() == 0
    } else if member_of(parts.last(), "functionCall"@).is_some() {
        calls.len() > 0 && is_call_of(calls.last(), parts.last()) && are_calls_of(
            calls.drop_last(),
            parts.drop_last(),
        )
    } else {
        are_calls_of(calls, parts.drop_last())
    }
}

/// Parses the tool calls (`functionCall`) from Gemini response parts.
pub fn parse_tool_calls(parts: &[Json]) -> (calls: Vec<ToolCall>)
    ensures
        are_calls_of(calls@, json_views(parts@)),
{
    let mut calls: Vec<ToolCall> = Vec::new();
    let mut i: usize = 0;
    let ghost all = json_views(parts@);
    assert(all.take(0).len() == 0);
    while i < parts.len()
        invariant
            i <= parts@.len(),
            all == json_views(parts@),
            are_calls_of(calls@, all.take(i as int)),
        decreases parts@.len() - i,
    {
        proof {
            let next = all.take(i + 1);
            assert(next.drop_last() == all.take(i as int));
            assert(next.last() == parts@[i as int]@);
        }
        match parts[i].get("functionCall") {
            Some(fc) => {
                let name = match fc.at("name").as_str() {
                    Some(n) => n.to_owned(),
                    None => String::new(),
                };
                let ghost before = calls@;
                calls.push(ToolCall { id: name.clone(), name, arguments: fc.at("args") });
                assert(calls@.drop_last() == before);
            },
            None => {},
        }
        i += 1;
    }
    assert(all.take(parts@.len() as int) == all);
    calls
}

/// The texts of the parts that hold a string under `text`, one after the
/// other.
pub open spec fn joined_text(parts: Seq<JsonSpec>) -> Seq<char>
    decreases parts.len(),
{
    if parts.len() == 0 {
        Seq::empty()
    } else {
        joined_text(parts.drop_last()) + match text_of(at_key(parts.last(), "text"@)) {
            Some(t) => t,
            None => Seq::empty(),
        }
    }
}

/// Whether some part holds a string under `text`.
pub open spec fn has_text(parts: Seq<JsonSpec>) -> bool {
    exists|i: int| 0 <= i < parts.len() && text_of(at_key(#[trigger] parts[i], "text"@)).is_some()
}

/// Extracts the text content from Gemini response parts: the texts of all
/// parts joined, or nothing where no part holds text.
pub fn extract_text(parts: &[Json]) -> (text: Option<String>)
    ensures
        match text {
            Some(t) => has_text(json_views(parts@)) && t@ == joined_text(json_views(parts@)),
            None => !has_text(json_views(parts@)),
        },
{
    let mut out: Vec<char> = Vec::new();
    let mut found = false;
    let mut i: usize = 0;
    let ghost all = json_views(parts@);
    assert(all.take(0).len() == 0);
    while i < parts.len()
        invariant
            i <= parts@.len(),
            all == json_views(parts@),
            out@ == joined_text(all.take(i as int)),
            found == has_text(all.take(i as int)),
        decreases parts@.len() - i,
    {
        let ghost before = all.take(i as int);
        let ghost next = all.take(i + 1);
        proof {
            assert(next.drop_last() == before);
            assert(next.last() == parts@[i as int]@);
        }
        let value = parts[i].at("text");
        match value.as_str() {
            Some(t) => {
                push_all(&mut out, &chars_of(t));
                found = true;
                assert(text_of(at_key(next[i as int], "text"@)).is_some());
            },
            None => {
                proof {
                    if has_text(next) {
                        let w = choose|w: int|
                            0 <= w < next.len() && text_of(
                                at_key(#[trigger] next[w], "text"@),
                            ).is_some();
                        assert(before[w] == next[w]);
                    }
                    if has_text(before) {
                        let w = choose|w: int|
                            0 <= w < before.len() && text_of(
                                at_key(#[trigger] before[w], "text"@),
                            ).is_some();
                        assert(before[w] == next[w]);
                    }
                }
            },
        }
        proof {
            if found && !has_text(next) {
                if has_text(before) {
                    let w = choose|w: int|
                        0 <= w < before.len() && text_of(
                            at_key(#[trigger] before[w], "text"@),
                        ).is_some();
                    assert(before[w] == next[w]);
                }
            }
        }
        i += 1;
    }
    assert(all.take(parts@.len() as int) == all);
    if found {
        Some(string_of(&out))
    } else {
        None
    }
}

/// The most tokens that an answer may take.
pub const MAX_OUTPUT_TOKENS: u32 = 8192;

/// The body of a generation request: the contents, the limit on output
/// tokens, the system instruction if there is one, and the tools if there
/// are any.
pub open spec fn request_body_of(
    contents: Seq<JsonSpec>,
    system: Option<Seq<char>>,
    tools: Seq<JsonSpec>,
) -> JsonSpec {
    let base = seq![
        MemberSpec { name: "contents"@, value: JsonSpec::Array(contents) },
        MemberSpec {
            name: "generationConfig"@,
            value: object1("maxOutputTokens"@, JsonSpec::Number("8192"@)),
        },
    ];
    let with_system = match system {
        Some(text) => base.push(
            MemberSpec {
                name: "systemInstruction"@,
                value: object1("parts"@, JsonSpec::Array(seq![text_part(text)])),
            },
        ),
        None => base,
    };
    JsonSpec::Object(
        if tools.len() > 0 {
            with_system.push(
                MemberSpec { name: "tools"@, value: JsonSpec::Array(seq![gemini_tools_of(tools)]) },
            )
        } else {
            with_system
        },
    )
}

/// The characters of an optional string slice.
pub open spec fn opt_text(s: Option<&str>) -> Option<Seq<char>> {
    match s {
        Some(t) => Some(t@),
        None => None,
    }
}

/// Builds the body of a generation request.
pub fn request_body(contents: Vec<Json>, system: Option<&str>, tools: &[Json]) -> (body: Json)
    ensures
        body@ == request_body_of(json_views(contents@), opt_text(system), json_views(tools@)),
{
    let ghost base = seq![
        MemberSpec { name: "contents"@, value: JsonSpec::Array(json_views(contents@)) },
        MemberSpec {
            name: "generationConfig"@,
            value: object1("maxOutputTokens"@, JsonSpec::Number("8192"@)),
        },
    ];
    let mut members: Vec<Member> = Vec::new();
    members.push(member("contents", Json::array(contents)));
    members.push(
        member(
            "generationConfig",
            make_object1("maxOutputTokens", Json::Number("8192".to_owned())),
        ),
    );
    assert(member_views(members@) =~= base);
    if let Some(text) = system {
        let ghost before = member_views(members@);
        let instruction = make_object1("parts", Json::array(one(make_text_part(text))));
        members.push(member("systemInstruction", instruction));
        assert(member_views(members@) =~= before.push(
            MemberSpec {
                name: "systemInstruction"@,
                value: object1("parts"@, JsonSpec::Array(seq![text_part(text@)])),
            },
        ));
    }
    if tools.len() > 0 {
        let ghost before = member_views(members@);
        let declared = to_gemini_tools(tools);
        members.push(member("tools", Json::array(one(declared))));
        assert(member_views(members@) =~= before.push(
            MemberSpec {
                name: "tools"@,
                value: JsonSpec::Array(seq![gemini_tools_of(json_views(tools@))]),
            },
        ));
    }
    Json::object(members)
}

/// The parts of the first candidate of a response; none where the
/// response has no such array.
pub open spec fn response_parts_of(response: JsonSpec) -> Seq<JsonSpec> {
    match items_of(
        at_key(
            at_key(at_pos(at_key(response, "candidates"@), 0), "content"@),
            "parts"@,
        ),
    ) {
        Some(parts) => parts,
        None => Seq::empty(),
    }
}

/// The parts of the first candidate of a response.
pub fn response_parts(response: &Json) -> (parts: Vec<Json>)
    ensures
        json_views(parts@) == response_parts_of(response@),
{
    let candidates = response.at("candidates");
    let first = match candidates.item(0) {
        Some(c) => c.copy(),
        None => Json::Null,
    };
    let found = first.at("content").at("parts");
    match found.as_array() {
        Some(items) => {
            let mut out: Vec<Json> = Vec::new();
            let mut i: usize = 0;
            while i < items.len()
                invariant
                    i <= items@.len(),
                    out@.len() == i,
                    forall|k: int| 0 <= k < i ==> (#[trigger] out@[k])@ == items@[k]@,
                decreases items@.len() - i,
            {
                out.push(items[i].copy());
                i += 1;
            }
            assert(json_views(out@) =~= json_views(items@));
            out
        },
        None => {
            let out: Vec<Json> = Vec::new();
            assert(json_views(out@) =~= Seq::<JsonSpec>::empty());
            out
        },
    }
}

/// A count of tokens as a response gives it under `key` of its usage
/// metadata: the number there, cut to 32 bits; zero where there is none.
pub open spec fn token_count_of(response: JsonSpec, key: Seq<char>) -> u32 {
    match count_of(at_key(at_key(response, "usageMetadata"@), key)) {
        Some(n) => (n % 0x1_0000_0000) as u32,
        None => 0,
    }
}

/// The usage that a response reports.
pub open spec fn usage_of(response: JsonSpec) -> Usage {
    Usage {
        input_tokens: token_count_of(response, "promptTokenCount"@),
        output_tokens: token_count_of(response, "candidatesTokenCount"@),
    }
}

/// The low 32 bits of a count.
pub fn low_32(n: u64) -> (r: u32)
    ensures
        r == (n % 0x1_0000_0000) as u32,
{
    (n % 0x1_0000_0000) as u32
}

fn token_count(response: &Json, key: &str) -> (n: u32)
    ensures
        n == token_count_of(response@, key@),
{
    match response.at("usageMetadata").at(key).as_u64() {
        Some(n) => low_32(n),
        None => 0,
    }
}

/// The usage that a response reports.
pub fn read_usage(response: &Json) -> (usage: Usage)
    ensures
        usage == usage_of(response@),
{
    Usage {
        input_tokens: token_count(response, "promptTokenCount"),
        output_tokens: token_count(response, "candidatesTokenCount"),
    }
}

/// Reads a completion out of a response: the text and the tool calls of
/// the first candidate's parts, and the usage.
pub fn read_completion(response: &Json) -> (completion: CompletionResponse)
    ensures
        match completion.text {
            Some(t) => has_text(response_parts_of(response@)) && t@ == joined_text(
                response_parts_of(response@),
            ),
            None => !has_text(response_parts_of(response@)),
        },
        are_calls_of(completion.tool_calls@, response_parts_of(response@)),
        completion.usage == usage_of(response@),
{
    let parts = response_parts(response);
    CompletionResponse {
        text: extract_text(parts.as_slice()),
        tool_calls: parse_tool_calls(parts.as_slice()),
        usage: read_usage(response),
    }
}

/// The page token to ask for next, where a listing goes on: the token of
/// the page that was read, unless it has none or an empty one.
pub fn next_page(token: Option<String>) -> (next: Option<String>)
    ensures
        match token {
            Some(t) => if t@.len() > 0 {
                next == Some(t)
            } else {
                next.is_none()
            },
            None => next.is_none(),
        },
{
    match token {
        Some(t) => {
            if t.as_str().unicode_len() > 0 {
                Some(t)
            } else {
                None
            }
        },
        None => None,
    }
}

} // verus!
