# macp-runtime

A runtime for the Multi-Agent Coordination Protocol (MACP): sessions bound
to a coordination mode (decision, proposal, task, handoff, quorum, and the
multi-round and descriptor-driven extensions), governance policies, an
append-only log from which sessions are rebuilt, and the security layer that
authenticates callers, authorizes modes and rate-limits senders.

## Layout

- `src/` is the library, written in Verus. Each operation carries a
  `requires`/`ensures` contract over mathematical models (`Seq`, `Map`, the
  views of the library's types), and Verus proves the code against it.
  - `runtime.rs`: the coordination kernel. Requests are decided (`plan_*`),
    the caller makes the decision durable, then the decision is applied
    (`commit_*`, `apply_*`, `expire_*`, `cancel_*`).
  - `mode/`: one module per coordination mode, each with the spec of what
    starting a session and handling a message do.
  - `mode_registry.rs`, `policy/`: the registries of modes and of policies,
    and the policy evaluators.
  - `replay.rs`, `log_store.rs`: the log and the rebuilding of sessions from it.
  - `security.rs`, `auth.rs`, `jwt.rs`, `extensions.rs`: callers,
    credentials, signature keys and token checks, and extension providers.
  - `laws.rs`: properties that span several operations.
- `tests/` exercises the library on concrete scenarios.
- `app/` is the process around the library: environment configuration,
  protobuf and JSON decoding, the file-backed log,
  floating-point policy comparisons and the figures their reasons print,
  reading JWKS documents and token claims as JSON, and a request loop over
  JSON lines.
