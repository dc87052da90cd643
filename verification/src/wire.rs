//! The wire form of the Chat Completions API: the request the library
//! builds from the conversation, and the turn it reads from a reply. The
//! program around the library turns these values into JSON and back.
use vstd::prelude::*;
use serde_json::Value;

use crate::json::{clone_json, json_parse, json_string, json_text, json_to_string, parse_json, string_value};
use crate::message::{
    calls_view, AssistantTurn, AssistantTurnView, Message, MessageView, ToolCall, ToolCallId,
    ToolCallView,
};
use crate::provider::ProviderError;
use crate::tools::ToolSpec;

verus! {

/// A message as the API takes it.
pub struct WireMessage {
    pub role: &'static str,
    pub content: Option<String>,
    pub tool_calls: Option<Vec<WireToolCall>>,
    pub tool_call_id: Option<String>,
}

/// A tool as the API takes it.
pub struct WireTool {
    pub kind: &'static str,
    pub function: WireFunction,
}

/// The function part of a tool.
pub struct WireFunction {
    pub name: String,
    pub description: String,
    pub parameters: Value,
}

/// A tool call as the API sends and takes it.
pub struct WireToolCall {
    pub id: String,
    pub kind: String,
    pub function: WireCallFunction,
}

/// The function part of a tool call; its arguments are JSON text.
pub struct WireCallFunction {
    pub name: String,
    pub arguments: String,
}

/// A request for the next model turn.
pub struct ChatRequest {
    pub model: String,
    pub messages: Vec<WireMessage>,
    pub tools: Vec<WireTool>,
}

/// A reply of the API.
pub struct ChatResponse {
    pub choices: Vec<Choice>,
}

/// One choice of a reply.
pub struct Choice {
    pub message: ResponseMessage,
}

/// The message of a choice.
pub struct ResponseMessage {
    pub content: Option<String>,
    pub tool_calls: Vec<WireToolCall>,
}

/// `w` is the wire form of the tool call `c`: its id, the type `function`,
/// its name, and its arguments as compact JSON text.
pub open spec fn is_wire_call(w: WireToolCall, c: ToolCallView) -> bool {
    &&& w.id@ == c.id
    &&& w.kind@ == "function"@
    &&& w.function.name@ == c.name
    &&& w.function.arguments@ == json_text(c.arguments)
}

/// `w` is the wire form of a list of tool calls, call by call.
pub open spec fn is_wire_calls(w: Seq<WireToolCall>, calls: Seq<ToolCallView>) -> bool {
    &&& w.len() == calls.len()
    &&& forall|i: int| 0 <= i < w.len() ==> #[trigger] is_wire_call(w[i], calls[i])
}

/// `w` is the wire form of the message `m`: its role, its text as the
/// content, the tool calls of an assistant (left out where there are none),
/// and the call id of a tool reply.
pub open spec fn is_wire_message(w: WireMessage, m: MessageView) -> bool {
    match m {
        MessageView::System { text } => {
            &&& w.role@ == "system"@
            &&& w.content.deep_view() == Some(text)
            &&& w.tool_calls is None
            &&& w.tool_call_id is None
        },
        MessageView::User { text } => {
            &&& w.role@ == "user"@
            &&& w.content.deep_view() == Some(text)
            &&& w.tool_calls is None
            &&& w.tool_call_id is None
        },
        MessageView::Assistant { text, tool_calls } => {
            &&& w.role@ == "assistant"@
            &&& w.content.deep_view() == text
            &&& match w.tool_calls {
                None => tool_calls.len() == 0,
                Some(calls) => tool_calls.len() > 0 && is_wire_calls(calls@, tool_calls),
            }
            &&& w.tool_call_id is None
        },
        MessageView::Tool { tool_call_id, content } => {
            &&& w.role@ == "tool"@
            &&& w.content.deep_view() == Some(content)
            &&& w.tool_calls is None
            &&& w.tool_call_id.deep_view() == Some(tool_call_id)
        },
    }
}

/// `w` is the wire form of the tool `s`: the type `function` with the
/// tool's name, description and parameters.
pub open spec fn is_wire_tool(w: WireTool, s: ToolSpec) -> bool {
    &&& w.kind@ == "function"@
    &&& w.function.name@ == s.name@
    &&& w.function.description@ == s.description@
    &&& w.function.parameters == s.parameters
}

/// The wire form of a tool call.
pub fn wire_tool_call(call: &ToolCall) -> (res: WireToolCall)
    ensures
        is_wire_call(res, call@),
{
    proof {
        reveal_strlit("function");
    }
    WireToolCall {
        id: call.id.as_str().to_string(),
        kind: "function".to_string(),
        function: WireCallFunction {
            name: call.name.clone(),
            arguments: json_to_string(&call.arguments),
        },
    }
}

/// The wire forms of a list of tool calls.
fn wire_tool_calls(calls: &Vec<ToolCall>) -> (res: Vec<WireToolCall>)
    ensures
        is_wire_calls(res@, calls_view(calls@)),
{
    let mut res: Vec<WireToolCall> = Vec::new();
    let mut i: usize = 0;
    while i < calls.len()
        invariant
            i <= calls@.len(),
            is_wire_calls(res@, calls_view(calls@.subrange(0, i as int))),
        decreases calls@.len() - i,
    {
        let w = wire_tool_call(&calls[i]);
        res.push(w);
        proof {
            let done = calls_view(calls@.subrange(0, i + 1));
            assert forall|k: int| 0 <= k < res@.len() implies #[trigger] is_wire_call(
                res@[k],
                done[k],
            ) by {
                if k < i {
                    assert(done[k] == calls_view(calls@.subrange(0, i as int))[k]);
                }
            }
        }
        i = i + 1;
    }
    assert(calls@.subrange(0, calls@.len() as int) =~= calls@);
    res
}

/// The wire form of an assistant message holds the wire form of every one
/// of its tool calls, in order (and none where it has none); a tool reply
/// carries the id of the call it answers; each message keeps its role.
pub proof fn wire_messages_keep_every_call(w: WireMessage, m: MessageView)
    requires
        is_wire_message(w, m),
    ensures
        m is System ==> w.role@ == "system"@,
        m is User ==> w.role@ == "user"@,
        m is Assistant ==> w.role@ == "assistant"@,
        m is Tool ==> w.role@ == "tool"@,
        m is Assistant ==> (w.tool_calls is None <==> m->tool_calls.len() == 0),
        m is Assistant && w.tool_calls is Some ==> w.tool_calls->0@.len() == m->tool_calls.len(),
        forall|i: int|
            m is Assistant && w.tool_calls is Some && 0 <= i < m->tool_calls.len() ==> (
            #[trigger] w.tool_calls->0@[i]).id@ == m->tool_calls[i].id,
        forall|i: int|
            m is Assistant && w.tool_calls is Some && 0 <= i < m->tool_calls.len() ==> (
            #[trigger] w.tool_calls->0@[i]).function.name@ == m->tool_calls[i].name,
        forall|i: int|
            m is Assistant && w.tool_calls is Some && 0 <= i < m->tool_calls.len() ==> (
            #[trigger] w.tool_calls->0@[i]).function.arguments@ == json_text(
                m->tool_calls[i].arguments,
            ),
        forall|i: int|
            m is Assistant && w.tool_calls is Some && 0 <= i < m->tool_calls.len() ==> (
            #[trigger] w.tool_calls->0@[i]).kind@ == "function"@,
        m is Tool ==> w.tool_call_id.deep_view() == Some(m->tool_call_id),
        m is Tool ==> w.content.deep_view() == Some(m->content),
        m is System ==> w.content.deep_view() == Some(m->System_text),
        m is User ==> w.content.deep_view() == Some(m->User_text),
        m is Assistant ==> w.content.deep_view() == m->Assistant_text,
        !(m is Assistant) ==> w.tool_calls is None,
        !(m is Tool) ==> w.tool_call_id is None,
{
    if m is Assistant && w.tool_calls is Some {
        let calls = w.tool_calls->0@;
        assert forall|i: int| 0 <= i < m->tool_calls.len() implies is_wire_call(
            #[trigger] calls[i],
            m->tool_calls[i],
        ) by {
            assert(is_wire_call(calls[i], m->tool_calls[i]));
        }
    }
}

/// The wire form of a message.
pub fn wire_message(message: &Message) -> (res: WireMessage)
    ensures
        is_wire_message(res, message@),
        message@ is Assistant ==> (res.tool_calls is None <==> message@->tool_calls.len() == 0),
        message@ is Assistant && res.tool_calls is Some ==> res.tool_calls->0@.len()
            == message@->tool_calls.len(),
        forall|i: int|
            message@ is Assistant && res.tool_calls is Some && 0 <= i < message@->tool_calls.len()
                ==> is_wire_call(#[trigger] res.tool_calls->0@[i], message@->tool_calls[i]),
{
    proof {
        reveal_strlit("system");
        reveal_strlit("user");
        reveal_strlit("assistant");
        reveal_strlit("tool");
    }
    match message {
        Message::System { text } => WireMessage {
            role: "system",
            content: Some(text.clone()),
            tool_calls: None,
            tool_call_id: None,
        },
        Message::User { text } => WireMessage {
            role: "user",
            content: Some(text.clone()),
            tool_calls: None,
            tool_call_id: None,
        },
        Message::Assistant { text, tool_calls } => {
            let content = match text {
                Some(t) => Some(t.clone()),
                None => None,
            };
            let calls = if tool_calls.len() == 0 {
                None
            } else {
                Some(wire_tool_calls(tool_calls))
            };
            WireMessage { role: "assistant", content, tool_calls: calls, tool_call_id: None }
        },
        Message::Tool { tool_call_id, content } => WireMessage {
            role: "tool",
            content: Some(content.clone()),
            tool_calls: None,
            tool_call_id: Some(tool_call_id.as_str().to_string()),
        },
    }
}

/// The wire form of a tool keeps its name, description and parameters.
pub proof fn wire_tools_keep_the_description(w: WireTool, t: ToolSpec)
    requires
        is_wire_tool(w, t),
    ensures
        w.kind@ == "function"@,
        w.function.name@ == t.name@,
        w.function.description@ == t.description@,
        w.function.parameters == t.parameters,
{
}

/// The wire form of a tool's description.
pub fn wire_tool(spec: &ToolSpec) -> (res: WireTool)
    ensures
        is_wire_tool(res, *spec),
{
    proof {
        reveal_strlit("function");
    }
    WireTool {
        kind: "function",
        function: WireFunction {
            name: spec.name.clone(),
            description: spec.description.clone(),
            parameters: clone_json(&spec.parameters),
        },
    }
}

/// The request for the next turn: the model, every message of the
/// conversation in order, and every tool, each in its wire form.
pub fn chat_request(model: &str, messages: &[Message], tools: &[ToolSpec]) -> (res: ChatRequest)
    ensures
        res.model@ == model@,
        res.messages@.len() == messages@.len(),
        forall|i: int|
            0 <= i < messages@.len() ==> #[trigger] is_wire_message(
                res.messages@[i],
                messages@[i]@,
            ),
        res.tools@.len() == tools@.len(),
        forall|i: int| 0 <= i < tools@.len() ==> #[trigger] is_wire_tool(res.tools@[i], tools@[i]),
{
    let mut wire_messages: Vec<WireMessage> = Vec::new();
    let mut i: usize = 0;
    while i < messages.len()
        invariant
            i <= messages@.len(),
            wire_messages@.len() == i,
            forall|k: int|
                0 <= k < i ==> #[trigger] is_wire_message(wire_messages@[k], messages@[k]@),
        decreases messages@.len() - i,
    {
        wire_messages.push(wire_message(&messages[i]));
        i = i + 1;
    }
    let mut wire_tools: Vec<WireTool> = Vec::new();
    let mut j: usize = 0;
    while j < tools.len()
        invariant
            j <= tools@.len(),
            wire_tools@.len() == j,
            forall|k: int| 0 <= k < j ==> #[trigger] is_wire_tool(wire_tools@[k], tools@[k]),
        decreases tools@.len() - j,
    {
        wire_tools.push(wire_tool(&tools[j]));
        j = j + 1;
    }
    ChatRequest { model: model.to_string(), messages: wire_messages, tools: wire_tools }
}

/// The tool call that a wire tool call stands for. The API sends the
/// arguments as JSON text: where that text is JSON they are the value it
/// holds, otherwise the text itself as a JSON string.
pub open spec fn call_from_wire(w: WireToolCall) -> ToolCallView {
    ToolCallView {
        id: w.id@,
        name: w.function.name@,
        arguments: match json_parse(w.function.arguments@) {
            Some(v) => v,
            None => json_string(w.function.arguments@),
        },
    }
}

/// A wire tool call keeps its id and name, and its arguments are exactly
/// the JSON value that their text parses to, however that text is spaced or
/// its keys ordered; only a text that does not parse is kept, as a JSON
/// string.
pub proof fn arguments_are_the_parsed_text(w: WireToolCall)
    ensures
        call_from_wire(w).id == w.id@,
        call_from_wire(w).name == w.function.name@,
        json_parse(w.function.arguments@) is Some ==> Some(call_from_wire(w).arguments) == json_parse(
            w.function.arguments@,
        ),
        json_parse(w.function.arguments@) is None ==> call_from_wire(w).arguments == json_string(
            w.function.arguments@,
        ),
{
}

/// The tool call that a wire tool call stands for.
fn call_of_wire(w: &WireToolCall) -> (res: ToolCall)
    ensures
        res@ == call_from_wire(*w),
        res@.id == w.id@,
        res@.name == w.function.name@,
        json_parse(w.function.arguments@) is Some ==> Some(res@.arguments) == json_parse(
            w.function.arguments@,
        ),
        json_parse(w.function.arguments@) is None ==> res@.arguments == json_string(
            w.function.arguments@,
        ),
{
    let arguments = match parse_json(w.function.arguments.as_str()) {
        Some(value) => value,
        None => string_value(w.function.arguments.clone()),
    };
    ToolCall {
        id: ToolCallId::new(w.id.clone()),
        name: w.function.name.clone(),
        arguments,
    }
}

impl ChatResponse {
    /// The model turn of a reply: the text and tool calls of its first
    /// choice; an `InvalidResponse` error where it has no choice.
    pub fn into_turn(self) -> (res: Result<AssistantTurn, ProviderError>)
        ensures
            match res {
                Err(e) => self.choices@.len() == 0 && (e matches ProviderError::InvalidResponse(s)
                    && s@ == "no choices"@),
                Ok(turn) => self.choices@.len() > 0 && turn@ == (AssistantTurnView {
                    text: self.choices@[0].message.content.deep_view(),
                    tool_calls: self.choices@[0].message.tool_calls@.map_values(
                        |w: WireToolCall| call_from_wire(w),
                    ),
                }),
            },
    {
        let mut choices = self.choices;
        if choices.len() == 0 {
            proof {
                reveal_strlit("no choices");
            }
            return Err(ProviderError::InvalidResponse("no choices".to_string()));
        }
        let first = choices.swap_remove(0);
        let message = first.message;
        let mut tool_calls: Vec<ToolCall> = Vec::new();
        let mut i: usize = 0;
        while i < message.tool_calls.len()
            invariant
                i <= message.tool_calls@.len(),
                tool_calls@.len() == i,
                calls_view(tool_calls@) =~= message.tool_calls@.subrange(0, i as int).map_values(
                    |w: WireToolCall| call_from_wire(w),
                ),
            decreases message.tool_calls@.len() - i,
        {
            let call = call_of_wire(&message.tool_calls[i]);
            let ghost prev = tool_calls@;
            tool_calls.push(call);
            proof {
                let done = message.tool_calls@.subrange(0, i + 1);
                let before = message.tool_calls@.subrange(0, i as int);
                let target = done.map_values(|w: WireToolCall| call_from_wire(w));
                assert forall|k: int| 0 <= k < target.len() implies calls_view(tool_calls@)[k]
                    == target[k] by {
                    if k < i {
                        assert(tool_calls@[k] == prev[k]);
                        assert(done[k] == before[k]);
                        assert(calls_view(prev)[k] == before.map_values(
                            |w: WireToolCall| call_from_wire(w),
                        )[k]);
                    }
                }
                assert(calls_view(tool_calls@) =~= target);
            }
            i = i + 1;
        }
        assert(message.tool_calls@.subrange(0, message.tool_calls@.len() as int)
            =~= message.tool_calls@);
        Ok(AssistantTurn { text: message.content, tool_calls })
    }
}

/// Reading back the wire form of tool calls gives the calls again: ids,
/// names and order, and arguments wherever a value reads back from its JSON
/// text as itself (values nested past `serde_json`'s depth limit, and some
/// floats, do not).
pub proof fn reading_wire_calls_gives_the_calls(
    wire: Seq<WireToolCall>,
    calls: Seq<ToolCallView>,
)
    requires
        is_wire_calls(wire, calls),
        forall|i: int|
            0 <= i < calls.len() ==> json_parse(json_text(#[trigger] calls[i].arguments)) == Some(
                calls[i].arguments,
            ),
    ensures
        wire.map_values(|w: WireToolCall| call_from_wire(w)) == calls,
{
    let back = wire.map_values(|w: WireToolCall| call_from_wire(w));
    assert forall|i: int| 0 <= i < calls.len() implies back[i] == calls[i] by {
        assert(is_wire_call(wire[i], calls[i]));
        assert(json_parse(json_text(calls[i].arguments)) == Some(calls[i].arguments));
    }
    assert(back =~= calls);
}

} // verus!
