# agent-harness

A small command-line agent: it sends a prompt to an OpenAI-compatible chat
model, runs local tools when the model asks for them, and prints the final
answer. The decision logic is a Verus library with proved contracts; the
command, the HTTP calls and the file and process work are ordinary Rust
around it.

## Layout

- `src/` — the verified library (`agent_harness`):
  - `message.rs`: messages, tool calls, model turns and steps, with their views.
  - `agent.rs`: `next_step`, tool dispatch, and `AgentRun`, the agent loop as a
    state machine (`poll` runs pending tools and says whether to ask the model;
    `deliver` takes the model's reply). The proof functions at the end state
    what a whole run does: the first reply without tool calls is the answer,
    and a run asks the model at most `MAX_STEPS / 2` times, and only ever
    appends to its messages.
  - `tools.rs`: the `Tool` trait, the `ToolRegistry` (a map from name to
    tool, kept as a list of entries with unique names; the last registration
    of a name wins), `scoped_path` (paths with `..` are refused), the
    directory the write tool creates first, and the replies of the shell and
    write tools.
  - `builtin.rs`: the descriptions and argument schemas of the built-in
    tools `read_file`, `write_file` and `shell`.
  - `config.rs`: `Config` from the three `OPENAI_*` variables, trimmed, with
    defaults for blank values.
  - `provider.rs`: provider errors, the endpoint settings, the HTTP status rule.
  - `wire.rs`: the Chat Completions request and reply, and how a reply becomes
    a turn.
  - `json.rs`, `text.rs`: `serde_json` values carried through, trimming and
    decimal text.
- `app/` — the program: argument parsing, environment, `reqwest` calls, the
  built-in tools' file and process work, and the async loop that drives
  `AgentRun`.
- `tests/` — tests of the library, including whole runs with a scripted model.

A tool implemented in plain Rust keeps the defaults of `Tool::describes` and
`Tool::replies`, so the library states nothing of what it describes or
replies beyond what it returns; a tool verified with Verus can say more.

## Run

```
export OPENAI_API_KEY=sk-...
# optional
export OPENAI_BASE_URL=https://api.openai.com/v1
export OPENAI_MODEL=gpt-4.1-mini
agent-harness "list the files here and tell me what this crate is"
```
