use agent_harness::config::Config;
use agent_harness::message::{Message, ToolCall, ToolCallId};
use agent_harness::provider::{success_body, OpenAiSettings, ProviderError};
use agent_harness::tools::ToolSpec;
use agent_harness::wire::{
    chat_request, wire_message, wire_tool, wire_tool_call, ChatResponse, Choice, ResponseMessage,
    WireCallFunction, WireToolCall,
};
use serde_json::Value;

fn json(text: &str) -> Value {
    serde_json::from_str(text).expect("test JSON")
}

fn wire_call(id: &str, name: &str, arguments: &str) -> WireToolCall {
    WireToolCall {
        id: id.into(),
        kind: "function".into(),
        function: WireCallFunction { name: name.into(), arguments: arguments.into() },
    }
}

#[test]
fn tool_call_arguments_go_out_as_json_text() {
    let call = ToolCall {
        id: ToolCallId::new("call_7".to_string()),
        name: "ping".into(),
        arguments: json(r#"{ "n" : 1 }"#),
    };
    let w = wire_tool_call(&call);
    assert_eq!(w.id, "call_7");
    assert_eq!(w.kind, "function");
    assert_eq!(w.function.name, "ping");
    assert_eq!(w.function.arguments, r#"{"n":1}"#);
}

#[test]
fn messages_take_their_roles() {
    let system = wire_message(&Message::System { text: "s".into() });
    assert_eq!((system.role, system.content.as_deref()), ("system", Some("s")));
    let user = wire_message(&Message::User { text: "u".into() });
    assert_eq!((user.role, user.content.as_deref()), ("user", Some("u")));
    let plain = wire_message(&Message::Assistant { text: None, tool_calls: vec![] });
    assert_eq!(plain.role, "assistant");
    assert!(plain.content.is_none() && plain.tool_calls.is_none());
    let calling = wire_message(&Message::Assistant {
        text: Some("t".into()),
        tool_calls: vec![ToolCall {
            id: ToolCallId::new("c1".to_string()),
            name: "x".into(),
            arguments: json("[]"),
        }],
    });
    let calls = calling.tool_calls.expect("calls go out");
    assert_eq!(calls.len(), 1);
    assert_eq!(calls[0].function.arguments, "[]");
    let tool = wire_message(&Message::Tool {
        tool_call_id: ToolCallId::new("c1".to_string()),
        content: "r".into(),
    });
    assert_eq!(tool.role, "tool");
    assert_eq!(tool.tool_call_id.as_deref(), Some("c1"));
    assert_eq!(tool.content.as_deref(), Some("r"));
}

#[test]
fn request_holds_every_message_and_tool() {
    let spec = ToolSpec { name: "n".into(), description: "d".into(), parameters: json(r#"{"type":"object"}"#) };
    let w = wire_tool(&spec);
    assert_eq!((w.kind, w.function.name.as_str(), w.function.description.as_str()), ("function", "n", "d"));
    assert_eq!(w.function.parameters, spec.parameters);
    let messages = vec![Message::User { text: "a".into() }, Message::User { text: "b".into() }];
    let request = chat_request("m1", &messages, &[spec]);
    assert_eq!(request.model, "m1");
    assert_eq!(request.messages.len(), 2);
    assert_eq!(request.messages[1].content.as_deref(), Some("b"));
    assert_eq!(request.tools.len(), 1);
}

#[test]
fn reply_becomes_a_turn() {
    let response = ChatResponse {
        choices: vec![
            Choice {
                message: ResponseMessage {
                    content: Some("hi".into()),
                    tool_calls: vec![
                        wire_call("a", "read_file", r#"{"path":"x"}"#),
                        wire_call("b", "shell", "not json"),
                    ],
                },
            },
            Choice { message: ResponseMessage { content: Some("second".into()), tool_calls: vec![] } },
        ],
    };
    let turn = response.into_turn().expect("one choice");
    assert_eq!(turn.text.as_deref(), Some("hi"));
    assert_eq!(turn.tool_calls.len(), 2);
    assert_eq!(turn.tool_calls[0].id.as_str(), "a");
    assert_eq!(turn.tool_calls[0].name, "read_file");
    assert_eq!(turn.tool_calls[0].arguments, json(r#"{"path":"x"}"#));
    assert_eq!(turn.tool_calls[1].arguments, Value::String("not json".into()));
}

#[test]
fn reply_without_choices_is_invalid() {
    let err = ChatResponse { choices: vec![] }.into_turn().expect_err("no choices");
    assert!(matches!(&err, ProviderError::InvalidResponse(s) if s == "no choices"));
    assert_eq!(err.message(), "invalid response: no choices");
}

#[test]
fn status_outside_2xx_is_an_api_error() {
    assert_eq!(success_body(200, "b".into()).unwrap(), "b");
    assert_eq!(success_body(299, "b".into()).unwrap(), "b");
    let err = success_body(404, "missing".into()).expect_err("not found");
    assert_eq!(err.message(), "api error (404): missing");
    assert!(success_body(199, String::new()).is_err());
    assert!(success_body(300, String::new()).is_err());
    assert_eq!(ProviderError::Http("x".into()).message(), "http error: x");
}

#[test]
fn settings_need_a_key_and_drop_trailing_slashes() {
    let config = Config { api_key: None, base_url: "http://h/v1/".into(), model: "m".into() };
    assert!(matches!(OpenAiSettings::from_config(&config), Err(ProviderError::MissingApiKey)));
    let config = Config { api_key: Some("k".into()), base_url: "http://h/v1//".into(), model: "m".into() };
    let settings = OpenAiSettings::from_config(&config).expect("has a key");
    assert_eq!(settings.base_url, "http://h/v1");
    assert_eq!(settings.completions_url(), "http://h/v1/chat/completions");
    assert_eq!(settings.api_key, "k");
    assert_eq!(settings.model, "m");
}
