use moltis_core::gemini_format::{
    next_page, read_completion, read_usage, request_body, response_parts, MAX_OUTPUT_TOKENS,
};
use moltis_core::gemini_stream::{data_payloads, on_end, on_event, split_blocks};
use moltis_core::json::{Json, Member};
use moltis_core::model::{StreamEvent, Usage};

fn from_value(v: &serde_json::Value) -> Json {
    match v {
        serde_json::Value::Null => Json::Null,
        serde_json::Value::Bool(b) => Json::Bool(*b),
        serde_json::Value::Number(n) => Json::Number(n.to_string()),
        serde_json::Value::String(s) => Json::Text(s.clone()),
        serde_json::Value::Array(a) => Json::Array(a.iter().map(from_value).collect()),
        serde_json::Value::Object(o) => Json::Object(
            o.iter()
                .map(|(k, v)| Member {
                    name: k.clone(),
                    value: from_value(v),
                })
                .collect(),
        ),
    }
}

fn to_value(j: &Json) -> serde_json::Value {
    match j {
        Json::Null => serde_json::Value::Null,
        Json::Bool(b) => serde_json::Value::Bool(*b),
        Json::Number(n) => serde_json::from_str(n).unwrap(),
        Json::Text(s) => serde_json::Value::String(s.clone()),
        Json::Array(a) => serde_json::Value::Array(a.iter().map(to_value).collect()),
        Json::Object(o) => serde_json::Value::Object(
            o.iter()
                .map(|m| (m.name.clone(), to_value(&m.value)))
                .collect(),
        ),
    }
}

fn parse(text: &str) -> Json {
    from_value(&serde_json::from_str::<serde_json::Value>(text).unwrap())
}

fn value(text: &str) -> serde_json::Value {
    serde_json::from_str(text).unwrap()
}

#[test]
fn request_body_with_and_without_system_and_tools() {
    assert_eq!(MAX_OUTPUT_TOKENS, 8192);
    let contents = vec![parse(r#"{"role": "user", "parts": [{"text": "hi"}]}"#)];
    assert_eq!(
        to_value(&request_body(contents, None, &[])),
        value(
            r#"{
                "contents": [{"role": "user", "parts": [{"text": "hi"}]}],
                "generationConfig": {"maxOutputTokens": 8192}
            }"#
        )
    );

    let tools = vec![parse(
        r#"{"name": "t", "description": "d", "parameters": {"type": "object"}}"#,
    )];
    assert_eq!(
        to_value(&request_body(vec![], Some("You are helpful"), &tools)),
        value(
            r#"{
                "contents": [],
                "generationConfig": {"maxOutputTokens": 8192},
                "systemInstruction": {"parts": [{"text": "You are helpful"}]},
                "tools": [{"functionDeclarations": [
                    {"name": "t", "description": "d", "parameters": {"type": "OBJECT"}}
                ]}]
            }"#
        )
    );
    let body = request_body(vec![], Some(""), &[]);
    assert_eq!(
        to_value(&body),
        value(
            r#"{
                "contents": [],
                "generationConfig": {"maxOutputTokens": 8192},
                "systemInstruction": {"parts": [{"text": ""}]}
            }"#
        )
    );
    // No member occurs twice.
    if let Json::Object(members) = &body {
        let mut names: Vec<&str> = members.iter().map(|m| m.name.as_str()).collect();
        names.sort();
        names.dedup();
        assert_eq!(names.len(), members.len());
    } else {
        panic!("the body is no object");
    }
}

#[test]
fn completion_is_read_from_the_first_candidate() {
    let response = parse(
        r#"{
            "candidates": [
                {"content": {"role": "model", "parts": [
                    {"text": "It is "},
                    {"functionCall": {"name": "get_weather", "args": {"location": "NYC"}}},
                    {"text": "sunny"}
                ]}, "finishReason": "STOP"},
                {"content": {"parts": [{"text": "ignored"}]}}
            ],
            "usageMetadata": {"promptTokenCount": 12, "candidatesTokenCount": 34, "totalTokenCount": 46}
        }"#,
    );
    assert_eq!(response_parts(&response).len(), 3);
    let completion = read_completion(&response);
    assert_eq!(completion.text, Some("It is sunny".to_string()));
    assert_eq!(completion.tool_calls.len(), 1);
    assert_eq!(completion.tool_calls[0].name, "get_weather");
    assert_eq!(
        completion.usage,
        Usage {
            input_tokens: 12,
            output_tokens: 34
        }
    );
}

#[test]
fn missing_parts_and_odd_counts() {
    for text in [
        "{}",
        "null",
        r#"{"candidates": []}"#,
        r#"{"candidates": {"0": {"content": {"parts": [{"text": "x"}]}}}}"#,
        r#"{"candidates": [{"content": {"parts": {"text": "x"}}}]}"#,
        r#"{"candidates": [{"content": null}]}"#,
    ] {
        let completion = read_completion(&parse(text));
        assert_eq!(completion.text, None, "{text}");
        assert!(completion.tool_calls.is_empty());
        assert_eq!(
            completion.usage,
            Usage {
                input_tokens: 0,
                output_tokens: 0
            }
        );
    }
    for (count, want) in [
        ("0", 0u32),
        ("7", 7),
        ("4294967295", u32::MAX),
        ("4294967296", 0),
        ("4294967303", 7),
        ("18446744073709551615", u32::MAX),
        ("18446744073709551616", 0),
        ("-1", 0),
        ("1.0", 0),
        ("1e3", 0),
        ("\"5\"", 0),
        ("null", 0),
        ("[5]", 0),
    ] {
        let text = format!(r#"{{"usageMetadata": {{"promptTokenCount": {count}, "candidatesTokenCount": 3}}}}"#);
        let v = value(&text);
        let std_way = v["usageMetadata"]["promptTokenCount"].as_u64().unwrap_or(0) as u32;
        assert_eq!(want, std_way, "{count}");
        assert_eq!(
            read_usage(&from_value(&v)),
            Usage {
                input_tokens: want,
                output_tokens: 3
            },
            "{count}"
        );
    }
}

#[test]
fn listing_goes_on_while_there_is_a_page_token() {
    assert_eq!(next_page(None), None);
    assert_eq!(next_page(Some(String::new())), None);
    assert_eq!(next_page(Some("abc".to_string())), Some("abc".to_string()));
    assert_eq!(next_page(Some(" ".to_string())), Some(" ".to_string()));
}

/// The blocks of a buffer, cut as the standard library's `find` cuts them.
fn blocks_by_find(text: &str) -> (Vec<String>, String) {
    let mut buf = text.to_string();
    let mut blocks = Vec::new();
    while let Some(pos) = buf.find("\n\n") {
        blocks.push(buf[..pos].to_string());
        buf = buf[pos + 2..].to_string();
    }
    (blocks, buf)
}

fn payloads_by_std(block: &str) -> Vec<String> {
    block
        .lines()
        .filter_map(|l| l.strip_prefix("data: "))
        .map(String::from)
        .collect()
}

#[test]
fn blocks_and_data_lines_as_the_standard_library_cuts_them() {
    let texts = [
        "",
        "\n",
        "\n\n",
        "\n\n\n",
        "\n\n\n\n",
        "data: {}\n\n",
        "data: {}\n\ndata: [1]\n\ndata: tail",
        "event: x\ndata: a\nid: 1\n\n",
        "data: a\r\ndata: b\r\n\r\ndata: c\n\n",
        "data: a\r\n\ndata: b\r",
        "a\n\n\nb\n\n",
        "data:no space\n data: indented\ndata: \ndata: é€🦀\n\n",
        "data: x\rdata: y\n\n",
        "\r\n\r\n",
        "no newline at all",
    ];
    for text in texts {
        for cut in 0..=text.len() {
            if !text.is_char_boundary(cut) {
                continue;
            }
            let (pending, chunk) = text.split_at(cut);
            let (blocks, rest) = split_blocks(pending, chunk);
            assert_eq!((blocks.clone(), rest), blocks_by_find(text), "{text:?} at {cut}");
            for b in &blocks {
                assert_eq!(data_payloads(b), payloads_by_std(b), "{b:?}");
            }
        }
        assert_eq!(data_payloads(text), payloads_by_std(text), "{text:?}");
    }
    assert_eq!(
        split_blocks("data: a\n", "\ndata: b"),
        (vec!["data: a".to_string()], "data: b".to_string())
    );
    assert_eq!(
        data_payloads("id: 1\ndata: {\"x\": 1}\r\ndata: data: y"),
        vec!["{\"x\": 1}".to_string(), "data: y".to_string()]
    );
}

#[test]
fn stream_events_of_an_answer() {
    let zero = Usage {
        input_tokens: 0,
        output_tokens: 0,
    };
    let first = parse(
        r#"{"candidates": [{"content": {"parts": [{"text": "Hel"}, {"text": ""}, {"text": "lo"}]}}],
            "usageMetadata": {"promptTokenCount": 5}}"#,
    );
    let step = on_event(&first, zero);
    assert_eq!(
        step.events,
        vec![
            StreamEvent::Delta("Hel".to_string()),
            StreamEvent::Delta("lo".to_string())
        ]
    );
    assert!(!step.finished);
    assert_eq!(
        step.usage,
        Usage {
            input_tokens: 5,
            output_tokens: 0
        }
    );

    let last = parse(
        r#"{"candidates": [{"content": {"parts": [{"text": "!"}]}, "finishReason": "STOP"}],
            "usageMetadata": {"candidatesTokenCount": 9, "promptTokenCount": "five"}}"#,
    );
    let step = on_event(&last, step.usage);
    let done = Usage {
        input_tokens: 5,
        output_tokens: 9,
    };
    assert_eq!(
        step.events,
        vec![StreamEvent::Delta("!".to_string()), StreamEvent::Done(done)]
    );
    assert!(step.finished);
    assert_eq!(step.usage, done);

    let cut_off = parse(r#"{"candidates": [{"finishReason": "MAX_TOKENS"}]}"#);
    let step = on_event(&cut_off, done);
    assert_eq!(step.events, vec![StreamEvent::Done(done)]);
    assert!(step.finished);

    for text in [
        r#"{"candidates": [{"finishReason": "SAFETY"}]}"#,
        r#"{"candidates": [{"finishReason": "stop"}]}"#,
        r#"{"candidates": [{}, {"finishReason": "STOP"}]}"#,
        r#"{"finishReason": "STOP"}"#,
        r#"{"usageMetadata": null}"#,
        "[]",
    ] {
        let step = on_event(&parse(text), done);
        assert!(step.events.is_empty(), "{text}");
        assert!(!step.finished, "{text}");
        assert_eq!(step.usage, done, "{text}");
    }
    assert_eq!(on_end(done), StreamEvent::Done(done));
}
