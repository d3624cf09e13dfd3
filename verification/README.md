# api

The rules of a multi-tenant back office for interior fit-out firms (leads,
projects, quotations and change orders, procurement, manufacturing, site
execution, design approvals, schedules, milestone and progressive billing
with Indian GST), written in Verus and proved against their contracts.

- `src/` is the verified library. Each module takes plain values (ids,
  statuses, amounts as decimals (mantissa and scale), dates as day numbers, the caller's
  role assignments) and returns what to record or why a request is refused.
  Contracts are stated over spec functions in the same module; the public
  proof functions named `lemma_*` state properties that span several calls
  (one approved quotation per project, an acyclic dependency graph, what a
  re-baseline does to the total, sessions and passwords that round-trip).
- Calls into `rust_decimal`, `chrono`, `sha2`, `hex` and `rand` stand behind
  small trusted wrappers whose doc comments say what is assumed of them.
- `tests/` runs the library on concrete values.
- `app/` is the HTTP service (axum, sea-orm on PostgreSQL): it reads rows,
  asks the library, writes the outcome and answers the client.
