# rustforge

A local orchestrator for AI agent workflows: workflows are written in YAML,
their agents run one after another, side by side, or in an order that puts
each agent after the agents it depends on, pass results to each other
through `{agent.output}` placeholders, and call tools (files, shell,
web pages, HTTP APIs, PDF files, the clipboard) under permission policies.

## Layout

- `src/` is the library, verified with Verus. Functions state in their
  contracts what they return, and the executors the events they send on
  the bus's channel; where a result comes from outside (the clock, random
  identifiers, a new subscription to the channel) the contract states what
  holds of every outcome, or nothing when no plain value stands for it; the laws of the library (what a read gives back
  after a write, what an undo restores, in which order keys sort, what a
  valid workflow guarantees) are public proof functions named `law_*`.
  - `engine/`: workflow model, validation (with dependency-cycle
    detection), interpolation of templates, sequential, parallel and
    dependency-ordered runs, merging of results, and the events each run
    publishes.
  - `config/`, `cli/`: settings, their defaults and environment overrides,
    `config get`/`config set`, and the command line grammar.
  - `security/`: permission policies, audit log queries, path and command
    checks, process outcomes.
  - `storage/`, `memory.rs`: stored executions and checkpoints, message keys.
  - `tools/`, `agents/`, `llm/`, `api/`: how tool calls are read and answered,
    the registries, agent outputs, provider requests and replies with
    fallback, and the answers of the HTTP interface.
  - `text.rs`, `json.rs`, `numbers.rs`, `registry.rs`: text, JSON values,
    numerals and a keyed registry that the rest is built on.
- `app/` is the `rustforge` program around the library: file, database,
  network and process access, the HTTP server, serde and clap types, and
  the async traits that users implement (agents, tools, providers, memory).
- `tests/` runs the library on concrete cases.
