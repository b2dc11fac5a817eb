# stellar

The verified core of Stellar, an operations control plane for StarRocks and
Apache Doris clusters. The library states the behaviour of its functions in
`requires` / `ensures` contracts that Verus proves.

## Layout

- `src/` — the verified library.
  - `agent/` — the operations agent: event collection from metrics
    snapshots, convergence of events, incident escalation, rule diagnosis,
    LLM hypothesis validation and the two-phase write actions.
  - `ai/` — chat sessions and the streaming protocol of chat completions.
  - `llm/` — LLM providers, credential encryption, analysis protocol,
    prompt construction, result merging and SQL diagnosis.
  - `cluster/` — StarRocks and Doris statements and the reading of their
    answers, cluster health and cluster records.
  - `audit.rs`, `stats.rs`, `baseline.rs` — audit-log analysis and data
    statistics.
  - `rbac.rs`, `profile_access.rs` — access policies and profile-access
    records.
  - `text.rs`, `rows.rs` — text and result-row primitives with their
    specifications.
- `tests/` — tests of the library.
- `app/` — the unverified shell: HTTP clients, JSON (de)serialization and
  floating-point computations.

Calls into `regex`, `aes-gcm`, `sha2` and `base64` stand behind small
trusted wrappers whose contracts name what the outside crate computes.
