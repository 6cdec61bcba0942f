//! The messages of a conversation with a language model.

use crate::json::Json;
use vstd::prelude::*;

verus! {

/// One part of a user message that mixes text and images.
#[derive(Debug, Clone)]
pub enum ContentPart {
    Text(String),
    Image { media_type: String, data: String },
}

/// What a user said.
#[derive(Debug, Clone)]
pub enum UserContent {
    Text(String),
    Multimodal(Vec<ContentPart>),
}

/// A call of a tool that the model asks for.
#[derive(Debug, Clone)]
pub struct ToolCall {
    pub id: String,
    pub name: String,
    pub arguments: Json,
}

/// One message of a conversation.
#[derive(Debug, Clone)]
#[allow(inconsistent_fields)]
pub enum ChatMessage {
    System { content: String },
    User { content: UserContent },
    Assistant { content: Option<String>, tool_calls: Vec<ToolCall> },
    Tool { tool_call_id: String, content: String },
}

/// The tokens that a request took.
#[derive(Debug, Clone, Copy, PartialEq, Eq, Structural)]
pub struct Usage {
    pub input_tokens: u32,
    pub output_tokens: u32,
}

/// What a model answered.
#[derive(Debug, Clone)]
pub struct CompletionResponse {
    pub text: Option<String>,
    pub tool_calls: Vec<ToolCall>,
    pub usage: Usage,
}

/// One event of a streamed answer.
#[derive(Debug, Clone, PartialEq, Eq)]
pub enum StreamEvent {
    /// More text.
    Delta(String),
    /// The answer is complete.
    Done(Usage),
    /// The answer failed.
    Error(String),
}

impl ChatMessage {
    /// A system message.
    pub fn system(content: &str) -> (m: ChatMessage)
        ensures
            m matches ChatMessage::System { content: c } && c@ == content@,
    {
        ChatMessage::System { content: content.to_owned() }
    }

    /// A user message that is plain text.
    pub fn user(content: &str) -> (m: ChatMessage)
        ensures
            m matches ChatMessage::User { content: UserContent::Text(c) } && c@ == content@,
    {
        ChatMessage::User { content: UserContent::Text(content.to_owned()) }
    }

    /// An assistant message that is plain text, without tool calls.
    pub fn assistant(content: &str) -> (m: ChatMessage)
        ensures
            m matches ChatMessage::Assistant { content: Some(c), tool_calls } && c@ == content@
                && tool_calls@.len() == 0,
    {
        ChatMessage::Assistant { content: Some(content.to_owned()), tool_calls: Vec::new() }
    }

    /// An assistant message with tool calls.
    pub fn assistant_with_tools(content: Option<String>, tool_calls: Vec<ToolCall>) -> (m:
        ChatMessage)
        ensures
            m == (ChatMessage::Assistant { content, tool_calls }),
    {
        ChatMessage::Assistant { content, tool_calls }
    }

    /// The result of a tool call.
    pub fn tool(tool_call_id: &str, content: &str) -> (m: ChatMessage)
        ensures
            m matches ChatMessage::Tool { tool_call_id: i, content: c } && i@ == tool_call_id@
                && c@ == content@,
    {
        ChatMessage::Tool { tool_call_id: tool_call_id.to_owned(), content: content.to_owned() }
    }
}

/// The content of the last system message among `messages`, if there is
/// one.
pub open spec fn last_system(messages: Seq<ChatMessage>) -> Option<Seq<char>>
    decreases messages.len(),
{
    if messages.len() == 0 {
        None
    } else {
        match messages.last() {
            ChatMessage::System { content } => Some(content@),
            _ => last_system(messages.drop_last()),
        }
    }
}

/// The messages that are not system messages, in order.
pub open spec fn without_system(messages: Seq<ChatMessage>) -> Seq<ChatMessage>
    decreases messages.len(),
{
    if messages.len() == 0 {
        Seq::empty()
    } else if messages.last() is System {
        without_system(messages.drop_last())
    } else {
        without_system(messages.drop_last()).push(messages.last())
    }
}

/// The messages that a sequence of references points to.
pub open spec fn pointed(refs: Seq<&ChatMessage>) -> Seq<ChatMessage> {
    Seq::new(refs.len(), |i: int| *refs[i])
}

/// Extracts the system instruction from messages: the content of the last
/// system message, and the messages that are left without the system
/// messages.
pub fn extract_system_instruction(messages: &[ChatMessage]) -> (out: (
    Option<String>,
    Vec<&ChatMessage>,
))
    ensures
        crate::whatsapp_business::types::opt_view(out.0) == last_system(messages@),
        pointed(out.1@) == without_system(messages@),
{
    let mut system_text: Option<String> = None;
    let mut remaining: Vec<&ChatMessage> = Vec::new();
    let mut i: usize = 0;
    assert(messages@.take(0).len() == 0);
    assert(pointed(remaining@) =~= without_system(messages@.take(0)));
    while i < messages.len()
        invariant
            i <= messages@.len(),
            crate::whatsapp_business::types::opt_view(system_text) == last_system(
                messages@.take(i as int),
            ),
            pointed(remaining@) == without_system(messages@.take(i as int)),
        decreases messages@.len() - i,
    {
        let msg = &messages[i];
        proof {
            let next = messages@.take(i + 1);
            assert(next.drop_last() == messages@.take(i as int));
            assert(next.last() == messages@[i as int]);
        }
        match msg {
            ChatMessage::System { content } => {
                system_text = Some(content.clone());
            },
            _ => {
                let ghost before = pointed(remaining@);
                remaining.push(msg);
                assert(pointed(remaining@) =~= before.push(*msg));
            },
        }
        i += 1;
    }
    assert(messages@.take(messages@.len() as int) == messages@);
    (system_text, remaining)
}

} // verus!
