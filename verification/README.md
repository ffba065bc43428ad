# deepagents

The decision logic of an agent runtime, verified with Verus: how a run
loop moves from step to step, how provider answers (streamed or whole)
become steps, how tool calls are normalized, approved, held for a human
and resumed, how prompt caches are keyed, consulted and refreshed, how
memory is stored, evicted, filtered and packed for the model, how skills
are loaded, validated, governed and selected, and how model levels resolve
to providers.

## Layout

- `src/` — the library. Every function carries a `requires`/`ensures`
  contract over spec functions and views; laws that span several calls
  are public proof functions named `law_*`. Calls into `serde_json`,
  `sha2`, `hex`, `semver`, `chrono` and `anyhow` go through small trusted
  wrappers whose contracts state what those crates do.
  - `runtime/run_loop.rs` — the run loop as a state machine
    (`runner_step`), with resume; `runtime/run_output.rs` assembles what a
    run hands back.
  - `runtime/prompt_cache_runtime.rs` — the cached provider step
    (`begin_cached_step`, `finish_cached_step`).
  - `runtime/call_policy.rs` — what becomes of each tool call;
    `runtime/call_queue.rs` runs a step's calls one by one as a state
    machine (`calls_step`, `resume_calls`) and records each result with
    the tool message the model reads (`record_tool_result`).
  - `runtime/filesystem_runtime_middleware.rs` — when a large tool result
    goes to a file, and what is left in its place (`plan_offload`,
    `finish_offload`).
  - `provider/mock.rs` — a scripted provider (`MockProvider`).
  - `provider/openai_compatible/` — SSE framing, stream assembly
    (`stream_step`, `stream_finish`) and whole responses
    (`parse_chat_response`).
  - `memory/`, `skills/`, `provider/catalog.rs` — memory store, skills,
    model-level resolution.
- `app/` — the parts that wait on the outside world: files, clocks,
  locks, async provider calls and the JSON wire forms. It drives the
  library's state machines (`app/runner.rs` with the agent environment of
  `app/agent.rs`, `app/prompt_cache.rs`, `app/stream.rs`) and keeps the
  floating-point memory ranking.
- `tests/` — tests of the library on concrete values.
