use moltis_core::gemini_format::{
    convert_json_schema_types, extract_text, parse_tool_calls, to_gemini_message,
    to_gemini_messages, to_gemini_tools,
};
use moltis_core::json::{member, Json, Member};
use moltis_core::model::{ChatMessage, ContentPart, ToolCall, UserContent};

/// The library's value for a `serde_json` value.
fn from_value(v: &serde_json::Value) -> Json {
    match v {
        serde_json::Value::Null => Json::Null,
        serde_json::Value::Bool(b) => Json::Bool(*b),
        serde_json::Value::Number(n) => Json::Number(n.to_string()),
        serde_json::Value::String(s) => Json::Text(s.clone()),
        serde_json::Value::Array(a) => Json::Array(a.iter().map(from_value).collect()),
        serde_json::Value::Object(o) => Json::Object(
            o.iter()
                .map(|(k, v)| Member {
                    name: k.clone(),
                    value: from_value(v),
                })
                .collect(),
        ),
    }
}

/// The `serde_json` value for a value of the library.
fn to_value(j: &Json) -> serde_json::Value {
    match j {
        Json::Null => serde_json::Value::Null,
        Json::Bool(b) => serde_json::Value::Bool(*b),
        Json::Number(n) => serde_json::from_str(n).unwrap(),
        Json::Text(s) => serde_json::Value::String(s.clone()),
        Json::Array(a) => serde_json::Value::Array(a.iter().map(to_value).collect()),
        Json::Object(o) => serde_json::Value::Object(
            o.iter()
                .map(|m| (m.name.clone(), to_value(&m.value)))
                .collect(),
        ),
    }
}

fn parse(text: &str) -> Json {
    from_value(&serde_json::from_str::<serde_json::Value>(text).unwrap())
}

fn value(text: &str) -> serde_json::Value {
    serde_json::from_str(text).unwrap()
}

#[test]
fn convert_json_schema_types_converts_type_to_uppercase() {
    let schema = parse(
        r#"{
            "type": "object",
            "properties": {
                "name": { "type": "string" },
                "count": { "type": "integer" },
                "items": {
                    "type": "array",
                    "items": { "type": "number" }
                }
            }
        }"#,
    );

    let converted = to_value(&convert_json_schema_types(&schema));

    assert_eq!(converted["type"], "OBJECT");
    assert_eq!(converted["properties"]["name"]["type"], "STRING");
    assert_eq!(converted["properties"]["count"]["type"], "INTEGER");
    assert_eq!(converted["properties"]["items"]["type"], "ARRAY");
    assert_eq!(converted["properties"]["items"]["items"]["type"], "NUMBER");
}

#[test]
fn schema_conversion_leaves_everything_else_alone() {
    let schema = parse(
        r#"{
            "type": ["string", "null"],
            "description": "type",
            "enum": ["type", 1, 2.5, true, null],
            "properties": "not an object",
            "items": [ { "type": "string" }, { "type": 7 }, "type" ],
            "required": ["type"],
            "additional": { "type": "string" },
            "default": -12.5e3
        }"#,
    );
    let converted = to_value(&convert_json_schema_types(&schema));
    assert_eq!(
        converted,
        value(
            r#"{
            "type": ["string", "null"],
            "description": "type",
            "enum": ["type", 1, 2.5, true, null],
            "properties": "not an object",
            "items": [ { "type": "STRING" }, { "type": 7 }, "type" ],
            "required": ["type"],
            "additional": { "type": "string" },
            "default": -12.5e3
        }"#
        )
    );
    // Upper-casing goes by Unicode, as the standard library does it.
    let odd = convert_json_schema_types(&parse(r#"{"type": "straße-ǆ"}"#));
    assert_eq!(to_value(&odd)["type"], "straße-ǆ".to_uppercase());
    assert_eq!(to_value(&odd)["type"], "STRASSE-Ǆ");

    for plain in ["null", "true", "12", "\"type\"", "[]", "{}"] {
        assert_eq!(to_value(&convert_json_schema_types(&parse(plain))), value(plain));
    }
    // A property that is itself called "type" holds a schema.
    let nested = parse(r#"{"properties": {"type": {"type": "string"}, "items": {"type": "array"}}}"#);
    assert_eq!(
        to_value(&convert_json_schema_types(&nested)),
        value(r#"{"properties": {"type": {"type": "STRING"}, "items": {"type": "ARRAY"}}}"#)
    );
}

#[test]
fn to_gemini_tools_creates_function_declarations() {
    let tools = vec![parse(
        r#"{
            "name": "get_weather",
            "description": "Get weather for a location",
            "parameters": {
                "type": "object",
                "properties": {
                    "location": { "type": "string" }
                },
                "required": ["location"]
            }
        }"#,
    )];

    let gemini_tools = to_value(&to_gemini_tools(&tools));

    assert!(gemini_tools["functionDeclarations"].is_array());
    let decls = gemini_tools["functionDeclarations"].as_array().unwrap();
    assert_eq!(decls.len(), 1);
    assert_eq!(decls[0]["name"], "get_weather");
    assert_eq!(decls[0]["description"], "Get weather for a location");
    assert_eq!(decls[0]["parameters"]["type"], "OBJECT");
}

#[test]
fn tools_without_fields_get_nulls() {
    let tools = vec![parse(r#"{"name": "bare"}"#), parse("17")];
    assert_eq!(
        to_value(&to_gemini_tools(&tools)),
        value(
            r#"{"functionDeclarations": [
                {"name": "bare", "description": null, "parameters": null},
                {"name": null, "description": null, "parameters": null}
            ]}"#
        )
    );
    assert_eq!(
        to_value(&to_gemini_tools(&[])),
        value(r#"{"functionDeclarations": []}"#)
    );
}

#[test]
fn to_gemini_messages_converts_user_message() {
    let msg = ChatMessage::user("Hello");
    let messages = vec![&msg];

    let gemini = to_gemini_messages(&messages, &[]);

    assert_eq!(gemini.len(), 1);
    let first = to_value(&gemini[0]);
    assert_eq!(first["role"], "user");
    assert_eq!(first["parts"][0]["text"], "Hello");
}

#[test]
fn to_gemini_messages_converts_assistant_message() {
    let msg = ChatMessage::assistant("Hi there");
    let messages = vec![&msg];

    let gemini = to_gemini_messages(&messages, &[]);

    assert_eq!(gemini.len(), 1);
    let first = to_value(&gemini[0]);
    assert_eq!(first["role"], "model");
    assert_eq!(first["parts"][0]["text"], "Hi there");
}

#[test]
fn to_gemini_messages_converts_assistant_with_tool_calls() {
    let msg = ChatMessage::assistant_with_tools(None, vec![ToolCall {
        id: "call_123".into(),
        name: "get_weather".into(),
        arguments: parse(r#"{"location": "Boston"}"#),
    }]);
    let messages = vec![&msg];

    let gemini = to_gemini_messages(&messages, &[]);

    assert_eq!(gemini.len(), 1);
    let first = to_value(&gemini[0]);
    assert_eq!(first["role"], "model");
    let parts = first["parts"].as_array().unwrap();
    assert_eq!(parts.len(), 1);
    assert_eq!(parts[0]["functionCall"]["name"], "get_weather");
    assert_eq!(parts[0]["functionCall"]["args"]["location"], "Boston");
}

#[test]
fn to_gemini_messages_converts_tool_result() {
    let msg = ChatMessage::tool("get_weather", r#"{"temperature": 72}"#);
    let messages = vec![&msg];
    // The content is JSON, and was read as such.
    let parsed = vec![Some(parse(r#"{"temperature": 72}"#))];

    let gemini = to_gemini_messages(&messages, &parsed);

    assert_eq!(gemini.len(), 1);
    let first = to_value(&gemini[0]);
    assert_eq!(first["role"], "user");
    let parts = first["parts"].as_array().unwrap();
    assert_eq!(parts[0]["functionResponse"]["name"], "get_weather");
    assert_eq!(parts[0]["functionResponse"]["response"]["temperature"], 72);
}

#[test]
fn every_kind_of_message_in_gemini_format() {
    let system = ChatMessage::system("be brief");
    assert_eq!(
        to_value(&to_gemini_message(&system, None)),
        value(r#"{"role": "user", "parts": [{"text": ""}]}"#)
    );

    let multimodal = ChatMessage::User {
        content: UserContent::Multimodal(vec![
            ContentPart::Text("what is this?".into()),
            ContentPart::Image {
                media_type: "image/png".into(),
                data: "aGVsbG8=".into(),
            },
        ]),
    };
    assert_eq!(
        to_value(&to_gemini_message(&multimodal, None)),
        value(
            r#"{"role": "user", "parts": [
                {"text": "what is this?"},
                {"inlineData": {"mimeType": "image/png", "data": "aGVsbG8="}}
            ]}"#
        )
    );
    let empty_multimodal = ChatMessage::User {
        content: UserContent::Multimodal(vec![]),
    };
    assert_eq!(
        to_value(&to_gemini_message(&empty_multimodal, None)),
        value(r#"{"role": "user", "parts": []}"#)
    );

    for content in [None, Some(String::new())] {
        let silent = ChatMessage::Assistant {
            content,
            tool_calls: vec![],
        };
        assert_eq!(
            to_value(&to_gemini_message(&silent, None)),
            value(r#"{"role": "model", "parts": [{"text": ""}]}"#)
        );
    }
    let calls_only = ChatMessage::Assistant {
        content: Some(String::new()),
        tool_calls: vec![
            ToolCall {
                id: "1".into(),
                name: "a".into(),
                arguments: Json::Null,
            },
            ToolCall {
                id: "2".into(),
                name: "b".into(),
                arguments: parse("[1, 2]"),
            },
        ],
    };
    assert_eq!(
        to_value(&to_gemini_message(&calls_only, None)),
        value(
            r#"{"role": "model", "parts": [
                {"functionCall": {"name": "a", "args": null}},
                {"functionCall": {"name": "b", "args": [1, 2]}}
            ]}"#
        )
    );

    let plain_result = ChatMessage::tool("lookup", "not json at all");
    assert_eq!(
        to_value(&to_gemini_message(&plain_result, None)),
        value(
            r#"{"role": "user", "parts": [{"functionResponse":
                {"name": "lookup", "response": {"result": "not json at all"}}}]}"#
        )
    );
    // What was read counts for tool results only.
    let read = parse("[true]");
    assert_eq!(
        to_value(&to_gemini_message(&plain_result, Some(&read))),
        value(
            r#"{"role": "user", "parts": [{"functionResponse":
                {"name": "lookup", "response": [true]}}]}"#
        )
    );
    let user = ChatMessage::user("hi");
    assert_eq!(
        to_value(&to_gemini_message(&user, Some(&read))),
        value(r#"{"role": "user", "parts": [{"text": "hi"}]}"#)
    );
}

#[test]
fn parse_tool_calls_extracts_function_calls() {
    let parts = vec![
        parse(r#"{ "text": "I'll check the weather" }"#),
        parse(
            r#"{
            "functionCall": {
                "name": "get_weather",
                "args": { "location": "Boston" }
            }
        }"#,
        ),
    ];

    let tool_calls = parse_tool_calls(&parts);

    assert_eq!(tool_calls.len(), 1);
    assert_eq!(tool_calls[0].name, "get_weather");
    assert_eq!(tool_calls[0].id, "get_weather");
    assert_eq!(to_value(&tool_calls[0].arguments)["location"], "Boston");
}

#[test]
fn tool_calls_with_odd_shapes() {
    let parts = vec![
        parse(r#"{"functionCall": {"name": 5}}"#),
        parse(r#"["functionCall"]"#),
        parse(r#"{"functionCall": null, "text": "x"}"#),
        parse(r#"{"functioncall": {"name": "no"}}"#),
        parse(r#"{"functionCall": {"name": "b", "args": [1]}}"#),
    ];
    let calls = parse_tool_calls(&parts);
    let got: Vec<(String, String, serde_json::Value)> = calls
        .iter()
        .map(|c| (c.id.clone(), c.name.clone(), to_value(&c.arguments)))
        .collect();
    assert_eq!(
        got,
        vec![
            (String::new(), String::new(), serde_json::Value::Null),
            (String::new(), String::new(), serde_json::Value::Null),
            ("b".to_string(), "b".to_string(), value("[1]")),
        ]
    );
    assert!(parse_tool_calls(&[]).is_empty());
}

#[test]
fn extract_text_combines_text_parts() {
    let parts = vec![
        parse(r#"{ "text": "Hello " }"#),
        parse(r#"{ "text": "world!" }"#),
    ];

    let text = extract_text(&parts);

    assert_eq!(text, Some("Hello world!".to_string()));
}

#[test]
fn extract_text_returns_none_for_empty_parts() {
    let parts: Vec<Json> = vec![];
    assert_eq!(extract_text(&parts), None);

    let parts = vec![parse(r#"{ "functionCall": { "name": "test" } }"#)];
    assert_eq!(extract_text(&parts), None);
}

#[test]
fn extract_text_skips_parts_without_a_string() {
    let parts = vec![
        parse(r#"{"text": 5}"#),
        parse(r#"{"text": ""}"#),
        parse(r#""text""#),
        parse(r#"{"functionCall": {}, "text": "a"}"#),
        parse(r#"{"text": null}"#),
        parse(r#"{"text": "b"}"#),
    ];
    assert_eq!(extract_text(&parts), Some("ab".to_string()));
    assert_eq!(extract_text(&[parse(r#"{"text": ""}"#)]), Some(String::new()));
}

#[test]
fn json_values_of_the_library() {
    let j = Json::object(vec![
        member("a", Json::text("x")),
        member("b", Json::array(vec![Json::Null, Json::Bool(true)])),
        member("a", Json::Number("2".to_string())),
    ]);
    // The first member of a name is the one that is found.
    assert_eq!(j.get("a"), Some(&Json::Text("x".to_string())));
    assert_eq!(j.get("c"), None);
    assert_eq!(j.at("c"), Json::Null);
    assert_eq!(j.at("b"), Json::Array(vec![Json::Null, Json::Bool(true)]));
    assert_eq!(Json::Null.get("a"), None);
    assert_eq!(Json::text("a").as_str(), Some("a"));
    assert_eq!(j.as_str(), None);
    assert_eq!(j.copy(), j);
    assert_eq!(j.clone(), j);
}
