# praxis

Filter-pipeline logic of the Praxis proxy, with its contracts proved by Verus.

- `src/` is the verified library: request and response models, conditions,
  the filter registry and pipeline (body capabilities, TCP phase scheduling,
  ordering warnings), the built-in filters (routing, load balancing, IP
  access control, forwarded headers, header edits, static responses, request
  IDs, access logging, JSON body fields, guardrails, external processing,
  provider fallback) and the benchmark planner (scenarios, load-generator
  command lines, proxy start commands, report error counts).
- `tests/` runs the library on concrete values.
- `app/` is the unverified runtime: asynchronous filter traits and pipeline
  execution, YAML configuration, and the benchmark runner's processes,
  files, sockets and floating-point result handling.
