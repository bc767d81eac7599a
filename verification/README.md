# Mycelix — agentic orchestrator, verified core

Mycelix (wordmark **M Y C**) routes OpenAI-compatible chat requests across
many providers with three strategies: **fallback**, **round-robin** and
**fusion** (fan-out to a panel, then a judge synthesizes the answers).

The routing logic, the persisted state, the configuration, the wire-level
helpers of the HTTP API and the dashboard's logic form a library verified
with [Verus](https://github.com/verus-lang/verus); the HTTP server around
it is ordinary Rust.

## Layout

| Path | What it holds |
|------|---------------|
| `src/orchestrator.rs` | Model resolution, round-robin cursors, the fallback and fusion runs as state machines, the judge prompt; laws of fallback and rotation. |
| `src/state.rs` | Providers, combos, API keys, usage counters and the capped request log, with the laws of each change. |
| `src/config.rs` | `config.toml` model: seeding the state and building the orchestrator. |
| `src/server.rs` | Request authorization, usage reports and summaries, request-log listings, provider tests. |
| `src/openai.rs` | OpenAI-compatible endpoints, error-body truncation, server-sent-event framing, rate-limit capture. |
| `src/logbuf.rs` | The capped console-log ring. |
| `src/ui.rs` | Dashboard logic: strategy chips, provider cards' model lists, the live console, report lines. |
| `src/types.rs`, `src/text.rs`, `src/mock.rs` | Shared types and errors, string helpers, the in-memory mock provider. |
| `app/` | The Axum backend: routes, JSON (de)serialization, HTTP calls, async fan-out and timers. |
| `tests/` | Scenario tests of the library. |

Provider calls are asynchronous and live in `app/`: the library decides what
to call next and the server reports each outcome back (`Plan`,
`FallbackRun`, `FusionRun`).
