//! The agent loop as a state machine. Each model reply decides the next
//! step; tool calls are dispatched by name through the registry and their
//! replies appended; the run stops on a reply without tool calls, and gives
//! up after `MAX_STEPS` steps. The program around the library asks the model
//! whenever the run says so and hands the reply back.
use vstd::prelude::*;
use serde_json::Value;

use crate::message::{
    calls_view, clone_calls, clone_text, messages_view, AssistantTurn, AssistantTurnView, Message,
    MessageView, Step, StepView, ToolCall, ToolCallView,
};
use crate::provider::{provider_error_text, ProviderError};
use crate::text::push_decimal;
use crate::tools::{is_error_message, ToolError, ToolRegistry};

verus! {

/// How many steps a run may take before it gives up.
pub const MAX_STEPS: usize = 20;

/// Why a run ended without an answer.
#[derive(Debug)]
pub enum AgentError {
    Provider(ProviderError),
    IterationLimit,
}

/// The message of the error of a run.
pub open spec fn agent_error_text(err: AgentError) -> Seq<char> {
    match err {
        AgentError::Provider(e) => provider_error_text(e),
        AgentError::IterationLimit => "stopped after 20 steps without a final answer"@,
    }
}

impl AgentError {
    /// The message of the error.
    pub fn message(&self) -> (res: String)
        ensures
            res@ == agent_error_text(*self),
    {
        match self {
            AgentError::Provider(e) => e.message(),
            AgentError::IterationLimit => {
                let mut out = String::new();
                out.append("stopped after ");
                push_decimal(&mut out, MAX_STEPS as i64);
                out.append(" steps without a final answer");
                proof {
                    reveal_strlit("stopped after ");
                    reveal_strlit(" steps without a final answer");
                    reveal_strlit("stopped after 20 steps without a final answer");
                    assert(crate::text::digits(2) =~= seq!['2']);
                    assert(crate::text::digits(20) =~= seq!['2', '0']);
                    assert(out@ =~= agent_error_text(*self));
                }
                out
            },
        }
    }
}

/// The text of a turn, or the empty text where it has none.
pub open spec fn text_or_empty(text: Option<Seq<char>>) -> Seq<char> {
    match text {
        Some(t) => t,
        None => Seq::empty(),
    }
}

/// The step that a model reply calls for: running its tools where it asks
/// for at least one, otherwise stopping with its text.
pub open spec fn step_after(turn: AssistantTurnView) -> StepView {
    if turn.tool_calls.len() > 0 {
        StepView::RunTools(turn.tool_calls)
    } else {
        StepView::Stop { text: text_or_empty(turn.text) }
    }
}

/// The step that a model reply calls for. Any text beside tool calls stays
/// on the assistant message; a reply without text stops with the empty text.
pub fn next_step(turn: AssistantTurn) -> (res: Step)
    ensures
        res@ == step_after(turn@),
        turn@.tool_calls.len() > 0 ==> res@ == StepView::RunTools(turn@.tool_calls),
        turn@.tool_calls.len() == 0 ==> res@ == (StepView::Stop { text: text_or_empty(turn@.text) }),
{
    if turn.tool_calls.len() > 0 {
        Step::RunTools(turn.tool_calls)
    } else {
        let text = match turn.text {
            Some(t) => t,
            None => String::new(),
        };
        Step::Stop { text }
    }
}

/// A reply that asks for tools runs exactly those tools: the next step holds
/// all of the reply's tool calls, unchanged and in their order. A reply that
/// asks for none stops with its text, or with the empty text where it has
/// none.
pub proof fn next_step_runs_every_requested_call(turn: AssistantTurnView)
    ensures
        turn.tool_calls.len() > 0 ==> step_after(turn) is RunTools,
        turn.tool_calls.len() > 0 ==> step_after(turn)->0.len() == turn.tool_calls.len(),
        forall|i: int|
            0 <= i < turn.tool_calls.len() ==> step_after(turn)->0[i] == #[trigger] turn.tool_calls[i],
        turn.tool_calls.len() == 0 ==> step_after(turn) is Stop,
        turn.tool_calls.len() == 0 && turn.text is None ==> step_after(turn)->text.len() == 0,
        forall|t: Seq<char>|
            turn.tool_calls.len() == 0 && turn.text == Some(t) ==> step_after(turn)->text == t,
{
}

/// The reply sent back for a tool that is not registered.
pub open spec fn unknown_tool_text(name: Seq<char>) -> Seq<char> {
    "unknown tool: "@ + name
}

/// `text` is the reply for what a tool returned: its output, or its error's
/// message.
pub open spec fn is_reply_text(result: Result<String, ToolError>, text: Seq<char>) -> bool {
    match result {
        Ok(output) => text == output@,
        Err(err) => is_error_message(err, text),
    }
}

/// The reply for what a tool returned: its output, or its error's message.
pub fn tool_reply(result: Result<String, ToolError>) -> (res: String)
    ensures
        match result {
            Ok(output) => res == output,
            Err(err) => is_error_message(err, res@),
        },
{
    match result {
        Ok(output) => output,
        Err(err) => err.message(),
    }
}

/// `text` is a reply that the tool registered under `name` may give to
/// `arguments`, as text.
pub open spec fn is_reply_of(
    registry: &ToolRegistry,
    name: Seq<char>,
    arguments: Value,
    text: Seq<char>,
) -> bool {
    exists|reply: Result<String, ToolError>|
        #[trigger] registry.may_reply(name, arguments, reply) && is_reply_text(reply, text)
}

/// Runs the tool that a call names, looked up by name, on the call's
/// arguments, and gives its reply; a name that no tool has gets a reply that
/// names it.
pub fn dispatch(registry: &ToolRegistry, call: &ToolCall) -> (res: String)
    ensures
        !registry.has(call.name@) ==> res@ == unknown_tool_text(call.name@),
        registry.has(call.name@) ==> is_reply_of(registry, call.name@, call.arguments, res@),
{
    match registry.get(call.name.as_str()) {
        Some(tool) => {
            let reply = tool.call(crate::json::clone_json(&call.arguments));
            let ghost given = reply;
            let text = tool_reply(reply);
            assert(registry.may_reply(call.name@, call.arguments, given));
            text
        },
        None => {
            let mut out = String::new();
            out.append("unknown tool: ");
            out.append(call.name.as_str());
            proof {
                reveal_strlit("unknown tool: ");
            }
            out
        },
    }
}

/// `m` is the reply to `call`: a tool message with the call's id, which
/// names the tool where no tool of that name is registered.
pub open spec fn is_tool_reply(registry: &ToolRegistry, m: MessageView, call: ToolCallView) -> bool {
    match m {
        MessageView::Tool { tool_call_id, content } => {
            &&& tool_call_id == call.id
            &&& !registry.has(call.name) ==> content == unknown_tool_text(call.name)
            &&& registry.has(call.name) ==> is_reply_of(registry, call.name, call.arguments, content)
        },
        _ => false,
    }
}

/// `replies` answer `calls` one by one, in order.
pub open spec fn are_tool_replies(
    registry: &ToolRegistry,
    replies: Seq<MessageView>,
    calls: Seq<ToolCallView>,
) -> bool {
    &&& replies.len() == calls.len()
    &&& forall|i: int| 0 <= i < calls.len() ==> #[trigger] is_tool_reply(registry, replies[i], calls[i])
}

/// Replies that answer a list of calls answer each call once, in order: the
/// i-th reply is a tool message carrying the id of the i-th call.
pub proof fn each_call_gets_its_own_reply(
    registry: &ToolRegistry,
    replies: Seq<MessageView>,
    calls: Seq<ToolCallView>,
)
    requires
        are_tool_replies(registry, replies, calls),
    ensures
        replies.len() == calls.len(),
        forall|i: int| 0 <= i < calls.len() ==> #[trigger] replies[i] is Tool,
        forall|i: int| 0 <= i < calls.len() ==> #[trigger] replies[i]->tool_call_id == calls[i].id,
{
    assert forall|i: int| 0 <= i < calls.len() implies #[trigger] replies[i] is Tool && replies[i]->tool_call_id
        == calls[i].id by {
        assert(is_tool_reply(registry, replies[i], calls[i]));
    }
}

/// `after` is `before` with `added` appended.
pub open spec fn appended(before: Seq<MessageView>, after: Seq<MessageView>, added: nat) -> bool {
    &&& after.len() == before.len() + added
    &&& after.subrange(0, before.len() as int) == before
}

/// Appending nothing leaves the messages as they were.
proof fn lemma_appended_nothing(messages: Seq<MessageView>)
    ensures
        appended(messages, messages, 0),
{
    assert(messages.subrange(0, messages.len() as int) =~= messages);
}

/// Runs every call in order and appends one tool message per call.
fn run_tools(registry: &ToolRegistry, calls: &Vec<ToolCall>, messages: &mut Vec<Message>)
    ensures
        appended(messages_view(old(messages)@), messages_view(final(messages)@), calls@.len()),
        are_tool_replies(
            registry,
            messages_view(final(messages)@).subrange(
                old(messages)@.len() as int,
                final(messages)@.len() as int,
            ),
            calls_view(calls@),
        ),
{
    let ghost start = messages@;
    let mut i: usize = 0;
    while i < calls.len()
        invariant
            i <= calls@.len(),
            messages@.len() == start.len() + i,
            messages@.subrange(0, start.len() as int) == start,
            forall|k: int|
                0 <= k < i ==> #[trigger] is_tool_reply(
                    registry,
                    messages@[start.len() + k]@,
                    calls@[k]@,
                ),
        decreases calls@.len() - i,
    {
        let call = &calls[i];
        let content = dispatch(registry, call);
        let ghost prev = messages@;
        messages.push(Message::Tool { tool_call_id: call.id.clone(), content });
        proof {
            assert(messages@.subrange(0, start.len() as int) =~= prev.subrange(
                0,
                start.len() as int,
            ));
            assert forall|k: int| 0 <= k < i + 1 implies #[trigger] is_tool_reply(
                registry,
                messages@[start.len() + k]@,
                calls@[k]@,
            ) by {
                if k < i {
                    assert(messages@[start.len() + k] == prev[start.len() + k]);
                }
            }
        }
        i = i + 1;
    }
    proof {
        let before = messages_view(start);
        let after = messages_view(messages@);
        assert(after.subrange(0, before.len() as int) =~= before);
        let replies = after.subrange(start.len() as int, messages@.len() as int);
        let cv = calls_view(calls@);
        assert forall|k: int| 0 <= k < cv.len() implies #[trigger] is_tool_reply(
            registry,
            replies[k],
            cv[k],
        ) by {
            assert(replies[k] == messages@[start.len() + k]@);
        }
    }
}

/// What the program around the library must do next.
pub enum Action {
    /// Ask the model for its next turn on the messages so far, and hand the
    /// reply to `deliver`.
    CallModel,
    /// The run is over: its answer, or why there is none.
    Finish(Result<String, AgentError>),
}

/// Where a run stands after `poll`.
pub enum Outcome {
    AskModel,
    Answer(Seq<char>),
    OutOfSteps,
}

/// Where a run with this step after this many steps stands once `poll` has
/// run any pending tools: it stops with the text of a `Stop`, and otherwise
/// asks the model again unless the steps are used up.
pub open spec fn poll_outcome(step: StepView, iterations: nat) -> Outcome {
    match step {
        StepView::CallModel => if iterations >= MAX_STEPS {
            Outcome::OutOfSteps
        } else {
            Outcome::AskModel
        },
        StepView::RunTools(_) => if iterations + 1 >= MAX_STEPS {
            Outcome::OutOfSteps
        } else {
            Outcome::AskModel
        },
        StepView::Stop { text } => Outcome::Answer(text),
    }
}

/// The action that an outcome asks for.
pub open spec fn is_action_for(action: Action, outcome: Outcome) -> bool {
    match outcome {
        Outcome::AskModel => action is CallModel,
        Outcome::Answer(text) => action matches Action::Finish(Ok(t)) && t@ == text,
        Outcome::OutOfSteps => action matches Action::Finish(Err(AgentError::IterationLimit)),
    }
}

/// One run of the agent loop: the current step and how many steps it took.
pub struct AgentRun {
    step: Step,
    iterations: usize,
}

impl AgentRun {
    /// The current step.
    pub closed spec fn step(&self) -> StepView {
        self.step@
    }

    /// How many steps the run has taken.
    pub closed spec fn iterations(&self) -> nat {
        self.iterations as nat
    }

    /// The run never passes its step budget, and it waits for the model
    /// exactly after an even number of steps.
    #[verifier::type_invariant]
    closed spec fn well_formed(&self) -> bool {
        &&& self.iterations <= MAX_STEPS
        &&& (self.step is CallModel <==> self.iterations % 2 == 0)
    }

    /// The run waits for a model reply.
    pub open spec fn is_awaiting_model(&self) -> bool {
        self.step() is CallModel && self.iterations() < MAX_STEPS
    }

    /// A new run, which starts by asking the model.
    pub fn new() -> (res: Self)
        ensures
            res.step() is CallModel,
            res.iterations() == 0,
            forall|replies: Seq<AssistantTurnView>|
                #[trigger] outcome_from(res.step(), res.iterations(), replies) == run_outcome(
                    replies,
                    0,
                ),
    {
        AgentRun { step: Step::CallModel, iterations: 0 }
    }

    /// Whether the run waits for a model reply, so that `deliver` may be
    /// called.
    pub fn awaiting_model(&self) -> (res: bool)
        ensures
            res == self.is_awaiting_model(),
    {
        match self.step {
            Step::CallModel => self.iterations < MAX_STEPS,
            _ => false,
        }
    }

    /// Moves the run on as far as it goes without the model: runs the tools
    /// that the last reply asked for, appending one reply each, and says
    /// whether to ask the model or that the run is over.
    pub fn poll(&mut self, registry: &ToolRegistry, messages: &mut Vec<Message>) -> (res: Action)
        ensures
            is_action_for(res, poll_outcome(old(self).step(), old(self).iterations())),
            res is CallModel <==> final(self).is_awaiting_model(),
            appended(
                messages_view(old(messages)@),
                messages_view(final(messages)@),
                (final(messages)@.len() - old(messages)@.len()) as nat,
            ),
            forall|replies: Seq<AssistantTurnView>|
                #[trigger] outcome_from(final(self).step(), final(self).iterations(), replies)
                    == outcome_from(old(self).step(), old(self).iterations(), replies),
            match old(self).step() {
                StepView::RunTools(calls) => {
                    &&& final(self).step() is CallModel
                    &&& final(self).iterations() == old(self).iterations() + 1
                    &&& appended(
                        messages_view(old(messages)@),
                        messages_view(final(messages)@),
                        calls.len(),
                    )
                    &&& are_tool_replies(
                        registry,
                        messages_view(final(messages)@).subrange(
                            old(messages)@.len() as int,
                            final(messages)@.len() as int,
                        ),
                        calls,
                    )
                },
                _ => {
                    &&& final(self).step() == old(self).step()
                    &&& final(self).iterations() == old(self).iterations()
                    &&& final(messages)@ == old(messages)@
                },
            },
    {
        proof {
            use_type_invariant(&*self);
            lemma_appended_nothing(messages_view(messages@));
        }
        match &self.step {
            Step::CallModel => {
                if self.iterations >= MAX_STEPS {
                    Action::Finish(Err(AgentError::IterationLimit))
                } else {
                    Action::CallModel
                }
            },
            Step::Stop { text } => Action::Finish(Ok(text.clone())),
            Step::RunTools(calls) => {
                run_tools(registry, calls, messages);
                let iterations = self.iterations + 1;
                *self = AgentRun { step: Step::CallModel, iterations };
                if iterations >= MAX_STEPS {
                    Action::Finish(Err(AgentError::IterationLimit))
                } else {
                    Action::CallModel
                }
            },
        }
    }

    /// Hands the model's reply to a run that waits for one. A failed call
    /// ends the run with its error. A turn is appended as an assistant
    /// message with its text and tool calls, and decides the next step.
    pub fn deliver(
        &mut self,
        messages: &mut Vec<Message>,
        reply: Result<AssistantTurn, ProviderError>,
    ) -> (res: Result<(), AgentError>)
        requires
            old(self).is_awaiting_model(),
        ensures
            appended(
                messages_view(old(messages)@),
                messages_view(final(messages)@),
                (final(messages)@.len() - old(messages)@.len()) as nat,
            ),
            match reply {
                Err(e) => {
                    &&& res == Err::<(), AgentError>(AgentError::Provider(e))
                    &&& final(self).step() == old(self).step()
                    &&& final(self).iterations() == old(self).iterations()
                    &&& final(messages)@ == old(messages)@
                },
                Ok(turn) => {
                    &&& res is Ok
                    &&& messages_view(final(messages)@) == messages_view(old(messages)@).push(
                        MessageView::Assistant { text: turn@.text, tool_calls: turn@.tool_calls },
                    )
                    &&& final(self).step() == step_after(turn@)
                    &&& final(self).iterations() == old(self).iterations() + 1
                    &&& forall|rest: Seq<AssistantTurnView>|
                        #[trigger] outcome_from(final(self).step(), final(self).iterations(), rest)
                            == outcome_from(
                            old(self).step(),
                            old(self).iterations(),
                            seq![turn@] + rest,
                        )
                },
            },
    {
        proof {
            use_type_invariant(&*self);
            lemma_appended_nothing(messages_view(messages@));
        }
        match reply {
            Err(e) => Err(AgentError::Provider(e)),
            Ok(turn) => {
                let ghost old_messages = messages@;
                let message = Message::Assistant {
                    text: clone_text(&turn.text),
                    tool_calls: clone_calls(&turn.tool_calls),
                };
                messages.push(message);
                proof {
                    assert(messages_view(messages@) =~= messages_view(old_messages).push(
                        MessageView::Assistant { text: turn@.text, tool_calls: turn@.tool_calls },
                    ));
                    assert(messages_view(messages@).subrange(0, old_messages.len() as int)
                        =~= messages_view(old_messages));
                }
                let ghost t = turn@;
                let step = next_step(turn);
                let iterations = self.iterations + 1;
                *self = AgentRun { step, iterations };
                proof {
                    assert forall|rest: Seq<AssistantTurnView>|
                        #[trigger] outcome_from(self.step(), self.iterations(), rest)
                            == outcome_from(
                            old(self).step(),
                            old(self).iterations(),
                            seq![t] + rest,
                        ) by {
                        let all = seq![t] + rest;
                        assert(all[0] == t);
                        assert(all.drop_first() =~= rest);
                    }
                }
                Ok(())
            },
        }
    }
}

/// Where a run stands that waits for the model after `iterations` steps,
/// when the model gives these replies in turn: `deliver` takes each reply,
/// and `poll` runs its tools and asks again, until a reply without tool calls
/// gives the answer or the steps are used up.
pub open spec fn run_outcome(replies: Seq<AssistantTurnView>, iterations: nat) -> Outcome
    decreases replies.len(),
{
    match poll_outcome(StepView::CallModel, iterations) {
        Outcome::AskModel => if replies.len() == 0 {
            Outcome::AskModel
        } else {
            match poll_outcome(step_after(replies[0]), iterations + 1) {
                Outcome::AskModel => run_outcome(replies.drop_first(), iterations + 2),
                other => other,
            }
        },
        other => other,
    }
}

/// Where a run with this step after this many steps stands when the model
/// gives these replies in turn: a run that just started stands where
/// `run_outcome` says, and `poll` and `deliver` keep it there.
pub open spec fn outcome_from(
    step: StepView,
    iterations: nat,
    replies: Seq<AssistantTurnView>,
) -> Outcome {
    match poll_outcome(step, iterations) {
        Outcome::AskModel => run_outcome(
            replies,
            if step is RunTools {
                iterations + 1
            } else {
                iterations
            },
        ),
        other => other,
    }
}

/// The messages of a run only grow: what `poll` and `deliver` append one
/// after the other is appended to the messages the run began with.
pub proof fn appends_compose(
    first: Seq<MessageView>,
    second: Seq<MessageView>,
    third: Seq<MessageView>,
    added_first: nat,
    added_second: nat,
)
    requires
        appended(first, second, added_first),
        appended(second, third, added_second),
    ensures
        appended(first, third, added_first + added_second),
{
    assert(third.subrange(0, first.len() as int) =~= second.subrange(0, first.len() as int));
}

/// A whole run only appends: across any number of `poll` and `deliver`
/// steps, each appending to the messages it found, the messages that the run
/// began with stay at the front as they were.
pub proof fn run_only_appends(history: Seq<Seq<MessageView>>, added: Seq<nat>)
    requires
        history.len() == added.len() + 1,
        forall|i: int| 0 <= i < added.len() ==> appended(#[trigger] history[i], history[i + 1], added[i]),
    ensures
        history.last().len() >= history[0].len(),
        history.last().subrange(0, history[0].len() as int) == history[0],
    decreases added.len(),
{
    if added.len() == 0 {
        assert(history.last().subrange(0, history[0].len() as int) =~= history[0]);
    } else {
        let shorter = history.drop_last();
        let fewer = added.drop_last();
        assert forall|i: int| 0 <= i < fewer.len() implies appended(
            #[trigger] shorter[i],
            shorter[i + 1],
            fewer[i],
        ) by {
            assert(appended(history[i], history[i + 1], added[i]));
        }
        run_only_appends(shorter, fewer);
        let k = added.len() - 1;
        assert(appended(history[k], history[k + 1], added[k]));
        let sum = (history[k].len() - history[0].len()) as nat;
        assert(appended(history[0], history[k], sum)) by {
            assert(history[k].subrange(0, history[0].len() as int) =~= history[0]);
        }
        appends_compose(history[0], history[k], history[k + 1], sum, added[k]);
    }
}

/// How many times a run may ask the model.
pub open spec fn model_call_budget() -> nat {
    (MAX_STEPS / 2) as nat
}

proof fn lemma_answer_from(replies: Seq<AssistantTurnView>, k: int, m: nat)
    requires
        0 <= k < replies.len(),
        2 * m + 2 * k < MAX_STEPS,
        replies[k].tool_calls.len() == 0,
        forall|j: int| 0 <= j < k ==> (#[trigger] replies[j]).tool_calls.len() > 0,
    ensures
        run_outcome(replies, 2 * m) == Outcome::Answer(text_or_empty(replies[k].text)),
    decreases k,
{
    if k > 0 {
        let rest = replies.drop_first();
        assert(replies[0].tool_calls.len() > 0);
        assert forall|j: int| 0 <= j < k - 1 implies (#[trigger] rest[j]).tool_calls.len() > 0 by {
            assert(rest[j] == replies[j + 1]);
        }
        lemma_answer_from(rest, k - 1, m + 1);
        assert(2 * m + 2 == 2 * (m + 1));
    }
}

/// The answer of a run is the text of the first model reply that asks for no
/// tool (the empty text where it has none), when that reply comes within the
/// model call budget.
pub proof fn first_reply_without_tools_is_the_answer(replies: Seq<AssistantTurnView>, k: int)
    requires
        0 <= k < replies.len(),
        k < model_call_budget(),
        replies[k].tool_calls.len() == 0,
        forall|j: int| 0 <= j < k ==> (#[trigger] replies[j]).tool_calls.len() > 0,
    ensures
        run_outcome(replies, 0) == Outcome::Answer(text_or_empty(replies[k].text)),
{
    lemma_answer_from(replies, k, 0);
}

proof fn lemma_budget_from(replies: Seq<AssistantTurnView>, m: nat)
    requires
        m <= model_call_budget(),
        replies.len() >= model_call_budget() - m,
    ensures
        run_outcome(replies, 2 * m) == run_outcome(
            replies.take(model_call_budget() - m),
            2 * m,
        ),
    decreases model_call_budget() - m,
{
    let short = replies.take(model_call_budget() - m);
    if m < model_call_budget() {
        assert(short[0] == replies[0]);
        assert(short.drop_first() =~= replies.drop_first().take(model_call_budget() - (m + 1)));
        lemma_budget_from(replies.drop_first(), m + 1);
        assert(2 * m + 2 == 2 * (m + 1));
    }
}

/// A run reads at most `model_call_budget()` model replies: whatever the
/// model would say after that cannot change how the run ends.
pub proof fn model_is_asked_at_most_budget_times(replies: Seq<AssistantTurnView>)
    requires
        replies.len() >= model_call_budget(),
    ensures
        run_outcome(replies, 0) == run_outcome(replies.take(model_call_budget() as int), 0),
{
    lemma_budget_from(replies, 0);
}

proof fn lemma_out_of_steps_from(replies: Seq<AssistantTurnView>, m: nat)
    requires
        m <= model_call_budget(),
        replies.len() >= model_call_budget() - m,
        forall|j: int|
            0 <= j < model_call_budget() - m ==> (#[trigger] replies[j]).tool_calls.len() > 0,
    ensures
        run_outcome(replies, 2 * m) == Outcome::OutOfSteps,
    decreases model_call_budget() - m,
{
    if m < model_call_budget() {
        let rest = replies.drop_first();
        assert(replies[0].tool_calls.len() > 0);
        assert forall|j: int| 0 <= j < model_call_budget() - (m + 1) implies (
        #[trigger] rest[j]).tool_calls.len() > 0 by {
            assert(rest[j] == replies[j + 1]);
        }
        lemma_out_of_steps_from(rest, m + 1);
        assert(2 * m + 2 == 2 * (m + 1));
    }
}

/// A model that asks for tools on every reply cannot keep a run going: after
/// `model_call_budget()` such replies the run stops with `IterationLimit`.
pub proof fn endless_tool_requests_run_out_of_steps(replies: Seq<AssistantTurnView>)
    requires
        replies.len() >= model_call_budget(),
        forall|j: int| 0 <= j < model_call_budget() ==> (#[trigger] replies[j]).tool_calls.len() > 0,
    ensures
        run_outcome(replies, 0) == Outcome::OutOfSteps,
{
    lemma_out_of_steps_from(replies, 0);
}

} // verus!
