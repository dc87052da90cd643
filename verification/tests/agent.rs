use agent_harness::agent::{dispatch, next_step, tool_reply, Action, AgentError, AgentRun, MAX_STEPS};
use agent_harness::message::{AssistantTurn, Message, Step, ToolCall, ToolCallId};
use agent_harness::provider::ProviderError;
use agent_harness::tools::{Tool, ToolError, ToolRegistry, ToolSpec};
use serde_json::Value;

fn json(text: &str) -> Value {
    serde_json::from_str(text).expect("test JSON")
}

/// Replies the test model gives, in order; an error once they run out.
struct FakeProvider {
    turns: Vec<AssistantTurn>,
}

impl FakeProvider {
    fn new(turns: Vec<AssistantTurn>) -> Self {
        Self { turns }
    }

    fn complete(&mut self, _messages: &[Message], _tools: &[ToolSpec]) -> Result<AssistantTurn, ProviderError> {
        if self.turns.is_empty() {
            return Err(ProviderError::InvalidResponse(
                "fake provider has no more turns".into(),
            ));
        }
        Ok(self.turns.remove(0))
    }
}

/// Drives a run the way the program around the library does.
fn run(provider: &mut FakeProvider, registry: &ToolRegistry, messages: &mut Vec<Message>) -> Result<String, AgentError> {
    let specs = registry.specs();
    let mut agent = AgentRun::new();
    loop {
        match agent.poll(registry, messages) {
            Action::CallModel => {
                assert!(agent.awaiting_model());
                let reply = provider.complete(messages, &specs);
                agent.deliver(messages, reply)?;
            }
            Action::Finish(result) => return result,
        }
    }
}

struct Ping;

impl Tool for Ping {
    fn spec(&self) -> ToolSpec {
        ToolSpec {
            name: "ping".into(),
            description: "Echo a test payload.".into(),
            parameters: json(r#"{"type": "object", "properties": {"n": {"type": "number"}}}"#),
        }
    }

    fn call(&self, arguments: Value) -> Result<String, ToolError> {
        Ok(arguments.to_string())
    }
}

struct Failing;

impl Tool for Failing {
    fn spec(&self) -> ToolSpec {
        ToolSpec {
            name: "fail".into(),
            description: "Always fails.".into(),
            parameters: json("{}"),
        }
    }

    fn call(&self, _arguments: Value) -> Result<String, ToolError> {
        Err(ToolError::InvalidArguments("missing field `path`".into()))
    }
}

fn ping_call() -> ToolCall {
    ToolCall {
        id: ToolCallId::new("call_1".to_string()),
        name: "ping".into(),
        arguments: json(r#"{ "n": 1 }"#),
    }
}

#[test]
fn next_step_text_only_is_stop() {
    let step = next_step(AssistantTurn {
        text: Some("hello".into()),
        tool_calls: vec![],
    });
    assert_eq!(
        step,
        Step::Stop {
            text: "hello".into()
        }
    );
}

#[test]
fn next_step_tool_calls_are_run_tools() {
    let calls = vec![ping_call()];
    let step = next_step(AssistantTurn {
        text: Some("working".into()),
        tool_calls: calls.clone(),
    });
    assert_eq!(step, Step::RunTools(calls));
}

#[test]
fn next_step_empty_text_and_no_tools_is_stop() {
    let step = next_step(AssistantTurn {
        text: None,
        tool_calls: vec![],
    });
    assert_eq!(step, Step::Stop { text: String::new() });
}

#[test]
fn run_requests_one_tool_then_text() {
    let mut provider = FakeProvider::new(vec![
        AssistantTurn {
            text: Some("calling ping".into()),
            tool_calls: vec![ping_call()],
        },
        AssistantTurn {
            text: Some("done".into()),
            tool_calls: vec![],
        },
    ]);
    let mut registry = ToolRegistry::new();
    registry.register(Box::new(Ping));
    let mut messages = vec![Message::User {
        text: "go".into(),
    }];

    let answer = run(&mut provider, &registry, &mut messages).expect("run should finish");
    assert_eq!(answer, "done");
    assert_eq!(
        messages,
        vec![
            Message::User { text: "go".into() },
            Message::Assistant {
                text: Some("calling ping".into()),
                tool_calls: vec![ping_call()],
            },
            Message::Tool {
                tool_call_id: ToolCallId::new("call_1".to_string()),
                content: json(r#"{ "n": 1 }"#).to_string(),
            },
            Message::Assistant {
                text: Some("done".into()),
                tool_calls: vec![],
            },
        ]
    );
}

#[test]
fn unknown_tool_becomes_tool_error_message() {
    let mut provider = FakeProvider::new(vec![
        AssistantTurn {
            text: None,
            tool_calls: vec![ToolCall {
                id: ToolCallId::new("call_missing".to_string()),
                name: "not_registered".into(),
                arguments: json("{}"),
            }],
        },
        AssistantTurn {
            text: Some("ok".into()),
            tool_calls: vec![],
        },
    ]);
    let registry = ToolRegistry::new();
    let mut messages = vec![Message::User {
        text: "use a missing tool".into(),
    }];

    run(&mut provider, &registry, &mut messages).expect("unknown tool must not panic");

    match &messages[2] {
        Message::Tool {
            tool_call_id,
            content,
        } => {
            assert_eq!(tool_call_id, &ToolCallId::new("call_missing".to_string()));
            assert!(
                content.contains("not_registered"),
                "error should name the tool, got {content}"
            );
        }
        other => panic!("expected Tool message, got {other:?}"),
    }
}

#[test]
fn unknown_tool_reply_text() {
    let registry = ToolRegistry::new();
    let call = ToolCall {
        id: ToolCallId::new("c".to_string()),
        name: "nope".into(),
        arguments: json("{}"),
    };
    assert_eq!(dispatch(&registry, &call), "unknown tool: nope");
}

#[test]
fn dispatch_passes_the_arguments_to_the_tool() {
    let mut registry = ToolRegistry::new();
    registry.register(Box::new(Ping));
    let call = ToolCall {
        id: ToolCallId::new("c".to_string()),
        name: "ping".into(),
        arguments: json(r#"{"n": [1, 2]}"#),
    };
    assert_eq!(dispatch(&registry, &call), r#"{"n":[1,2]}"#);
}

#[test]
fn failing_tool_reply_is_its_error_message() {
    let mut registry = ToolRegistry::new();
    registry.register(Box::new(Failing));
    let call = ToolCall {
        id: ToolCallId::new("c".to_string()),
        name: "fail".into(),
        arguments: json("{}"),
    };
    assert_eq!(dispatch(&registry, &call), "invalid arguments: missing field `path`");
    assert_eq!(tool_reply(Ok("out".to_string())), "out");
}

#[test]
fn answer_without_text_is_empty() {
    let mut provider = FakeProvider::new(vec![AssistantTurn { text: None, tool_calls: vec![] }]);
    let registry = ToolRegistry::new();
    let mut messages = vec![Message::User { text: "hi".into() }];
    let answer = run(&mut provider, &registry, &mut messages).expect("run should finish");
    assert_eq!(answer, "");
    assert_eq!(messages.len(), 2);
}

#[test]
fn provider_error_ends_the_run() {
    let mut provider = FakeProvider::new(vec![]);
    let registry = ToolRegistry::new();
    let mut messages = vec![Message::User { text: "hi".into() }];
    let err = run(&mut provider, &registry, &mut messages).expect_err("no turns");
    match err {
        AgentError::Provider(ProviderError::InvalidResponse(text)) => {
            assert_eq!(text, "fake provider has no more turns")
        }
        other => panic!("unexpected error {other:?}"),
    }
    assert_eq!(messages.len(), 1);
}

#[test]
fn endless_tool_calls_hit_the_step_limit() {
    let turns: Vec<AssistantTurn> = (0..15)
        .map(|_| AssistantTurn { text: None, tool_calls: vec![ping_call()] })
        .collect();
    let mut provider = FakeProvider::new(turns);
    let mut registry = ToolRegistry::new();
    registry.register(Box::new(Ping));
    let mut messages = vec![Message::User { text: "loop".into() }];
    let err = run(&mut provider, &registry, &mut messages).expect_err("must give up");
    assert!(matches!(err, AgentError::IterationLimit));
    assert_eq!(err.message(), "stopped after 20 steps without a final answer");
    // Ten model turns were read, each with one tool reply.
    assert_eq!(provider.turns.len(), 5);
    assert_eq!(messages.len(), 1 + 10 * 2);
    assert_eq!(MAX_STEPS, 20);
}

#[test]
fn tenth_turn_can_still_answer() {
    let mut turns: Vec<AssistantTurn> = (0..9)
        .map(|_| AssistantTurn { text: None, tool_calls: vec![ping_call()] })
        .collect();
    turns.push(AssistantTurn { text: Some("finally".into()), tool_calls: vec![] });
    let mut provider = FakeProvider::new(turns);
    let mut registry = ToolRegistry::new();
    registry.register(Box::new(Ping));
    let mut messages = vec![];
    let answer = run(&mut provider, &registry, &mut messages).expect("answers in time");
    assert_eq!(answer, "finally");
}

#[test]
fn poll_and_deliver_step_by_step() {
    let mut registry = ToolRegistry::new();
    registry.register(Box::new(Ping));
    let mut messages = vec![];
    let mut agent = AgentRun::new();
    assert!(agent.awaiting_model());
    assert!(matches!(agent.poll(&registry, &mut messages), Action::CallModel));
    agent
        .deliver(&mut messages, Ok(AssistantTurn { text: Some("t".into()), tool_calls: vec![ping_call(), ping_call()] }))
        .expect("turn accepted");
    assert!(!agent.awaiting_model());
    assert_eq!(messages.len(), 1);
    assert!(matches!(agent.poll(&registry, &mut messages), Action::CallModel));
    assert_eq!(messages.len(), 3);
    agent
        .deliver(&mut messages, Ok(AssistantTurn { text: Some("bye".into()), tool_calls: vec![] }))
        .expect("turn accepted");
    match agent.poll(&registry, &mut messages) {
        Action::Finish(Ok(text)) => assert_eq!(text, "bye"),
        _ => panic!("expected an answer"),
    }
    let err = AgentError::Provider(ProviderError::MissingApiKey);
    assert_eq!(err.message(), "OPENAI_API_KEY is required to call a model");
}
