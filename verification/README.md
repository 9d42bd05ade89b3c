# praxis

Verified core logic of the Praxis proxy, written in Verus.

- `src/origin.rs` — RFC 6454 origin normalization, with its laws
  (lowercase output, no WebSocket scheme, default-port equivalence,
  idempotence on port-free results).
- `src/kv.rs` — in-memory key-value store over `dashmap`, with exact,
  prefix, suffix and `regex` lookup; contracts over a `Map` model.
- `src/balance.rs` — the `Strategy` dispatch and `build_strategy`, and
  the three strategies they dispatch to: weighted round robin (each
  endpoint serves a run as long as its weight, in order), least
  connections (fewest in-flight requests, first on ties, with a counter per
  endpoint position), and consistent hashing (a polynomial key hash modulo
  1_000_000_007 picks a home position; the first healthy endpoint from
  there is chosen). Health is a flag per endpoint position; the
  strategies pass over unhealthy endpoints while a healthy one remains.
- `src/upstream.rs` — a cluster's resolved entry and the upstream built
  for a selected endpoint (SNI falls back to the `Host` header; the
  connection options are shared through one `Arc`). The entry is generic
  over the type of the connection options.
- `src/yaml.rs`, `src/clusters.rs` — a YAML document tree and the
  cluster names referenced by router and load-balancer filters.
- `src/nemo.rs` — validation of the NeMo Guardrails provider settings.
- `src/semaphore.rs`, `src/connections.rs` — the connection limit over a
  `tokio` semaphore, with the capacity it was set to; only the first
  `init` sets it.
- `src/pattern.rs` — `regex` key patterns kept with their source text.
- `src/listener.rs` — the step-by-step decisions of registering a TCP or
  TLS listener.
- `src/proxy.rs` — benchmark start commands (cargo or docker).
- `src/text.rs` — string helpers with exact specifications.

`app/lib.rs` holds what cannot be verified: path canonicalization,
YAML deserialization with serde, the process-wide limit in a static, and
the tokio runtime for benchmarks.
