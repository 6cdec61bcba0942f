use moltis_core::model::{extract_system_instruction, ChatMessage, UserContent};

#[test]
fn extract_system_instruction_separates_system_message() {
    let messages = vec![
        ChatMessage::system("You are helpful"),
        ChatMessage::user("Hello"),
        ChatMessage::assistant("Hi there"),
    ];

    let (system, remaining) = extract_system_instruction(&messages);

    assert_eq!(system, Some("You are helpful".to_string()));
    assert_eq!(remaining.len(), 2);
    assert!(matches!(remaining[0], ChatMessage::User { .. }));
    assert!(matches!(remaining[1], ChatMessage::Assistant { .. }));
}

#[test]
fn the_last_system_message_wins_and_order_is_kept() {
    let messages = vec![
        ChatMessage::user("one"),
        ChatMessage::system("first"),
        ChatMessage::tool("call-1", "{\"ok\":true}"),
        ChatMessage::system("second"),
        ChatMessage::assistant("two"),
    ];
    let (system, remaining) = extract_system_instruction(&messages);
    assert_eq!(system, Some("second".to_string()));
    assert_eq!(remaining.len(), 3);
    assert!(matches!(
        remaining[0],
        ChatMessage::User { content: UserContent::Text(t) } if t == "one"
    ));
    assert!(matches!(
        remaining[1],
        ChatMessage::Tool { tool_call_id, content } if tool_call_id == "call-1" && content == "{\"ok\":true}"
    ));
    assert!(matches!(
        remaining[2],
        ChatMessage::Assistant { content: Some(t), tool_calls } if t == "two" && tool_calls.is_empty()
    ));
    // The references point into the input.
    assert!(std::ptr::eq(remaining[0], &messages[0]));
    assert!(std::ptr::eq(remaining[2], &messages[4]));
}

#[test]
fn no_system_message_and_no_messages() {
    let (system, remaining) = extract_system_instruction(&[]);
    assert_eq!(system, None);
    assert!(remaining.is_empty());

    let only = vec![ChatMessage::system("a"), ChatMessage::system("")];
    let (system, remaining) = extract_system_instruction(&only);
    assert_eq!(system, Some(String::new()));
    assert!(remaining.is_empty());

    let none = vec![ChatMessage::user("x")];
    let (system, remaining) = extract_system_instruction(&none);
    assert_eq!(system, None);
    assert_eq!(remaining.len(), 1);
}
