# roci_core

The semantic chat runtime of the roci agent: turns, messages, tool calls,
approvals and human interactions projected into per-thread snapshots, with a
numbered event stream that clients replay from a cursor.

## Layout

- `src/` — the verified library (Verus).
  - `ids`, `text` — thread, turn and message identifiers and their text
    forms. Fresh thread ids and the current time are inputs: the library
    never draws random numbers or reads the clock.
  - `domain`, `event`, `error` — snapshots, event payloads and errors, each
    with a mathematical view.
  - `thread`, `turn_ops`, `projector`, `projection` — the projection of one
    thread, closing and canceling turns, the multi-thread projector, and the
    mapping of agent-loop events onto projection steps.
  - `store`, `jsonl`, `subscription` — replay stores (in memory, and the
    state behind the JSONL file store) and replay-then-live subscriptions.
  - `runtime`, `runtime_types`, `compaction`, `plan`, `subagents` — the agent
    runtime's state machine, history compaction and branch summaries,
    structured plans, and sub-agent profile resolution.
  - `laws` — properties proved across operations.
- `tests/` — tests of the library.
- `app/` — the I/O side: fresh thread ids and the clock, the JSONL file store, live event delivery over a
  broadcast channel, JSON parsing of plan output, serialized event forms and
  `std::error::Error` wrappers.
