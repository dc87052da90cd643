//! The conversation: messages, tool calls, model turns and agent steps.
use vstd::prelude::*;
use serde_json::Value;

use crate::json::clone_json;

verus! {

/// The id that ties a tool reply to the call it answers.
#[derive(Debug, PartialEq, Eq)]
pub struct ToolCallId(String);

impl View for ToolCallId {
    type V = Seq<char>;

    closed spec fn view(&self) -> Seq<char> {
        self.0@
    }
}

impl ToolCallId {
    /// An id with the given text.
    pub fn new(id: String) -> (res: Self)
        ensures
            res@ == id@,
    {
        ToolCallId(id)
    }

    /// The text of the id.
    pub fn as_str(&self) -> (res: &str)
        ensures
            res@ == self@,
    {
        self.0.as_str()
    }
}

impl Clone for ToolCallId {
    fn clone(&self) -> (res: Self)
        ensures
            res == *self,
    {
        ToolCallId(self.0.clone())
    }
}

/// A request of the model to run one tool.
#[derive(Debug, PartialEq)]
pub struct ToolCall {
    pub id: ToolCallId,
    pub name: String,
    pub arguments: Value,
}

/// What a tool call is: its id, the tool's name and the arguments.
pub struct ToolCallView {
    pub id: Seq<char>,
    pub name: Seq<char>,
    pub arguments: Value,
}

impl View for ToolCall {
    type V = ToolCallView;

    open spec fn view(&self) -> ToolCallView {
        ToolCallView { id: self.id@, name: self.name@, arguments: self.arguments }
    }
}

impl Clone for ToolCall {
    fn clone(&self) -> (res: Self)
        ensures
            res == *self,
    {
        ToolCall {
            id: self.id.clone(),
            name: self.name.clone(),
            arguments: clone_json(&self.arguments),
        }
    }
}

/// The views of a sequence of tool calls.
pub open spec fn calls_view(calls: Seq<ToolCall>) -> Seq<ToolCallView> {
    calls.map_values(|c: ToolCall| c@)
}

/// One message of the conversation.
#[derive(Clone, Debug, PartialEq)]
pub enum Message {
    System { text: String },
    User { text: String },
    Assistant { text: Option<String>, tool_calls: Vec<ToolCall> },
    Tool { tool_call_id: ToolCallId, content: String },
}

/// What a message is, with its texts as sequences of characters.
pub enum MessageView {
    System { text: Seq<char> },
    User { text: Seq<char> },
    Assistant { text: Option<Seq<char>>, tool_calls: Seq<ToolCallView> },
    Tool { tool_call_id: Seq<char>, content: Seq<char> },
}

impl View for Message {
    type V = MessageView;

    open spec fn view(&self) -> MessageView {
        match self {
            Message::System { text } => MessageView::System { text: text@ },
            Message::User { text } => MessageView::User { text: text@ },
            Message::Assistant { text, tool_calls } => MessageView::Assistant {
                text: text.deep_view(),
                tool_calls: calls_view(tool_calls@),
            },
            Message::Tool { tool_call_id, content } => MessageView::Tool {
                tool_call_id: tool_call_id@,
                content: content@,
            },
        }
    }
}

/// The views of a sequence of messages.
pub open spec fn messages_view(messages: Seq<Message>) -> Seq<MessageView> {
    messages.map_values(|m: Message| m@)
}

/// What the agent does next.
#[derive(Clone, Debug, PartialEq)]
pub enum Step {
    CallModel,
    RunTools(Vec<ToolCall>),
    Stop { text: String },
}

/// What a step is.
pub enum StepView {
    CallModel,
    RunTools(Seq<ToolCallView>),
    Stop { text: Seq<char> },
}

impl View for Step {
    type V = StepView;

    open spec fn view(&self) -> StepView {
        match self {
            Step::CallModel => StepView::CallModel,
            Step::RunTools(calls) => StepView::RunTools(calls_view(calls@)),
            Step::Stop { text } => StepView::Stop { text: text@ },
        }
    }
}

/// One reply of the model: some text, some tool calls, or both.
#[derive(Clone, Debug, PartialEq)]
pub struct AssistantTurn {
    pub text: Option<String>,
    pub tool_calls: Vec<ToolCall>,
}

/// What a model reply is.
pub struct AssistantTurnView {
    pub text: Option<Seq<char>>,
    pub tool_calls: Seq<ToolCallView>,
}

impl View for AssistantTurn {
    type V = AssistantTurnView;

    open spec fn view(&self) -> AssistantTurnView {
        AssistantTurnView { text: self.text.deep_view(), tool_calls: calls_view(self.tool_calls@) }
    }
}

/// Copies a list of tool calls, each call kept as it is.
pub(crate) fn clone_calls(calls: &Vec<ToolCall>) -> (res: Vec<ToolCall>)
    ensures
        res@ == calls@,
{
    let mut res: Vec<ToolCall> = Vec::new();
    let mut i: usize = 0;
    while i < calls.len()
        invariant
            i <= calls.len(),
            res@ == calls@.subrange(0, i as int),
        decreases calls.len() - i,
    {
        res.push(calls[i].clone());
        i = i + 1;
    }
    res
}

/// Copies an optional text.
pub(crate) fn clone_text(text: &Option<String>) -> (res: Option<String>)
    ensures
        res == *text,
{
    match text {
        Some(t) => Some(t.clone()),
        None => None,
    }
}

} // verus!
