//! Chat data model shared by the agent loop, the session store and the UI events.
//!
//! A message is modelled by its view [`MessageView`], in which every text is a
//! `Seq<char>`; contracts elsewhere speak of these views.
use vstd::prelude::*;

use crate::text::to_string;

verus! {

/// Author of a chat message (OpenAI chat roles).
#[derive(Clone, Copy, Debug, PartialEq, Eq, Structural)]
pub enum Role {
    System,
    User,
    Assistant,
    Tool,
}

/// One function invocation requested by the model.
#[derive(Clone, Debug)]
pub struct FunctionCall {
    pub name: String,
    /// JSON text of the arguments (OpenAI format).
    pub arguments: String,
}

/// A tool call of an assistant message.
#[derive(Clone, Debug)]
pub struct ToolCall {
    pub id: String,
    pub call_type: String,
    pub function: FunctionCall,
}

/// An OpenAI-compatible chat message.
#[derive(Clone, Debug)]
pub struct ChatMessage {
    pub role: Role,
    pub content: Option<String>,
    pub tool_calls: Option<Vec<ToolCall>>,
    pub tool_call_id: Option<String>,
}

pub struct FunctionCallView {
    pub name: Seq<char>,
    pub arguments: Seq<char>,
}

pub struct ToolCallView {
    pub id: Seq<char>,
    pub call_type: Seq<char>,
    pub function: FunctionCallView,
}

pub struct MessageView {
    pub role: Role,
    pub content: Option<Seq<char>>,
    pub tool_calls: Option<Seq<ToolCallView>>,
    pub tool_call_id: Option<Seq<char>>,
}

pub open spec fn opt_view(o: Option<String>) -> Option<Seq<char>> {
    match o {
        Some(s) => Some(s@),
        None => None,
    }
}

impl View for FunctionCall {
    type V = FunctionCallView;

    open spec fn view(&self) -> FunctionCallView {
        FunctionCallView { name: self.name@, arguments: self.arguments@ }
    }
}

impl View for ToolCall {
    type V = ToolCallView;

    open spec fn view(&self) -> ToolCallView {
        ToolCallView { id: self.id@, call_type: self.call_type@, function: self.function@ }
    }
}

pub open spec fn calls_view(v: Seq<ToolCall>) -> Seq<ToolCallView> {
    v.map_values(|c: ToolCall| c@)
}

pub open spec fn opt_calls_view(o: Option<Vec<ToolCall>>) -> Option<Seq<ToolCallView>> {
    match o {
        Some(v) => Some(calls_view(v@)),
        None => None,
    }
}

impl View for ChatMessage {
    type V = MessageView;

    open spec fn view(&self) -> MessageView {
        MessageView {
            role: self.role,
            content: opt_view(self.content),
            tool_calls: opt_calls_view(self.tool_calls),
            tool_call_id: opt_view(self.tool_call_id),
        }
    }
}

/// The views of a sequence of messages.
pub open spec fn msgs_view(s: Seq<ChatMessage>) -> Seq<MessageView> {
    s.map_values(|m: ChatMessage| m@)
}

/// The text of a message's content, empty when it has none.
pub open spec fn content_or_empty(m: MessageView) -> Seq<char> {
    match m.content {
        Some(c) => c,
        None => Seq::empty(),
    }
}

pub open spec fn message_of(role: Role, content: Option<Seq<char>>) -> MessageView {
    MessageView { role, content, tool_calls: None, tool_call_id: None }
}

/// A copy of an optional string.
pub fn copy_opt_string(o: &Option<String>) -> (r: Option<String>)
    ensures
        opt_view(r) == opt_view(*o),
{
    match o {
        Some(s) => Some(s.clone()),
        None => None,
    }
}

impl FunctionCall {
    pub fn duplicate(&self) -> (r: FunctionCall)
        ensures
            r@ == self@,
    {
        FunctionCall { name: self.name.clone(), arguments: self.arguments.clone() }
    }
}

impl ToolCall {
    pub fn duplicate(&self) -> (r: ToolCall)
        ensures
            r@ == self@,
    {
        ToolCall {
            id: self.id.clone(),
            call_type: self.call_type.clone(),
            function: self.function.duplicate(),
        }
    }
}

/// A copy of a list of tool calls.
pub fn copy_calls(v: &Vec<ToolCall>) -> (r: Vec<ToolCall>)
    ensures
        calls_view(r@) == calls_view(v@),
{
    let mut r: Vec<ToolCall> = Vec::new();
    let mut i: usize = 0;
    while i < v.len()
        invariant
            i <= v@.len(),
            calls_view(r@) =~= calls_view(v@.take(i as int)),
        decreases v.len() - i,
    {
        r.push(v[i].duplicate());
        i += 1;
        assert(calls_view(v@.take(i as int)) =~= calls_view(v@.take(i - 1)).push(v@[i - 1]@));
    }
    assert(v@.take(v@.len() as int) =~= v@);
    r
}

impl ChatMessage {
    /// A system message with the given content.
    pub fn system(content: &str) -> (m: ChatMessage)
        ensures
            m@ == message_of(Role::System, Some(content@)),
    {
        ChatMessage {
            role: Role::System,
            content: Some(to_string(content)),
            tool_calls: None,
            tool_call_id: None,
        }
    }

    /// A user message with the given content.
    pub fn user(content: &str) -> (m: ChatMessage)
        ensures
            m@ == message_of(Role::User, Some(content@)),
    {
        ChatMessage {
            role: Role::User,
            content: Some(to_string(content)),
            tool_calls: None,
            tool_call_id: None,
        }
    }

    /// An assistant message with optional text and optional tool calls.
    pub fn assistant(content: Option<String>, tool_calls: Option<Vec<ToolCall>>) -> (m:
        ChatMessage)
        ensures
            m@ == (MessageView {
                role: Role::Assistant,
                content: opt_view(content),
                tool_calls: opt_calls_view(tool_calls),
                tool_call_id: None,
            }),
    {
        ChatMessage { role: Role::Assistant, content, tool_calls, tool_call_id: None }
    }

    /// A tool result answering the call `tool_call_id`.
    pub fn tool(tool_call_id: &str, content: &str) -> (m: ChatMessage)
        ensures
            m@ == (MessageView {
                role: Role::Tool,
                content: Some(content@),
                tool_calls: None,
                tool_call_id: Some(tool_call_id@),
            }),
    {
        ChatMessage {
            role: Role::Tool,
            content: Some(to_string(content)),
            tool_calls: None,
            tool_call_id: Some(to_string(tool_call_id)),
        }
    }

    /// A copy of this message.
    pub fn duplicate(&self) -> (r: ChatMessage)
        ensures
            r@ == self@,
    {
        let tool_calls = match &self.tool_calls {
            Some(v) => Some(copy_calls(v)),
            None => None,
        };
        ChatMessage {
            role: self.role,
            content: copy_opt_string(&self.content),
            tool_calls,
            tool_call_id: copy_opt_string(&self.tool_call_id),
        }
    }
}

/// A copy of a list of messages.
pub fn copy_messages(v: &[ChatMessage]) -> (r: Vec<ChatMessage>)
    ensures
        msgs_view(r@) == msgs_view(v@),
{
    let mut r: Vec<ChatMessage> = Vec::new();
    let mut i: usize = 0;
    while i < v.len()
        invariant
            i <= v@.len(),
            msgs_view(r@) =~= msgs_view(v@.take(i as int)),
        decreases v.len() - i,
    {
        r.push(v[i].duplicate());
        i += 1;
        assert(msgs_view(v@.take(i as int)) =~= msgs_view(v@.take(i - 1)).push(v@[i - 1]@));
    }
    assert(v@.take(v@.len() as int) =~= v@);
    r
}

/// The `type` of a tool call when the server leaves it out.
pub fn default_tool_type() -> (r: String)
    ensures
        r@ == "function"@,
{
    to_string("function")
}

/// Which stream a streamed piece of model output belongs to.
#[derive(Clone, Copy, Debug, PartialEq, Eq, Structural)]
pub enum DeltaKind {
    Thinking,
    Text,
}

/// Events the agent streams to the user interface during a turn.
#[derive(Clone, Debug)]
pub enum AgentEvent {
    /// Reasoning tokens of the model.
    ThinkingDelta { session_id: String, delta: String },
    /// Answer tokens shown to the user.
    TextDelta { session_id: String, delta: String },
    /// The model decided to call a tool.
    ToolCallStart { session_id: String, call_id: String, name: String, arguments: String },
    /// A tool call finished.
    ToolCallEnd { session_id: String, call_id: String, name: String, ok: bool, result: String },
    /// One user turn is over.
    TurnEnd { session_id: String, elapsed_ms: u64 },
    Error { session_id: String, message: String },
    /// Status of the model server (loading | ready | down).
    ServerStatus { status: String, detail: String },
}

/// Accumulated result of one model completion.
#[derive(Clone, Debug)]
pub struct CompletionResult {
    pub content: String,
    pub reasoning: String,
    pub tool_calls: Vec<ToolCall>,
}

impl CompletionResult {
    /// An empty completion: no text, no reasoning, no tool calls.
    pub fn empty() -> (r: CompletionResult)
        ensures
            r.content@ == Seq::<char>::empty(),
            r.reasoning@ == Seq::<char>::empty(),
            r.tool_calls@.len() == 0,
    {
        CompletionResult { content: String::new(), reasoning: String::new(), tool_calls: Vec::new() }
    }
}

impl Default for CompletionResult {
    fn default() -> (r: CompletionResult)
        ensures
            r.content@ == Seq::<char>::empty(),
            r.reasoning@ == Seq::<char>::empty(),
            r.tool_calls@.len() == 0,
    {
        CompletionResult::empty()
    }
}

} // verus!
