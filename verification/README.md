# XScope

XScope sells access to language models. A gateway checks who calls, what the call
may cost and which pool of model servers takes it; a control plane keeps projects,
keys, money, clusters and pools; an agent in each cluster carries out what the
control plane wants there.

This crate holds the decisions of all three as verified code. Each function takes
what was looked up, says in its contract what it returns or changes, and is proved
by Verus. A contract speaks of every input, but for those on which a count, an
amount of money or a time would leave its integer type: these are ruled out by
`requires`. Where that takes more than a comparison, a function beside it, named
like `settles_in_range`, tells whether an input is ruled out. Promises that span
functions are public proof functions whose names start with `law_`.

- `src/domain`: records and rules that all programs share.
- `src/control`: the control plane: accounts and reservations, reviews, the
  feed of financial events and its worker, payments and refunds, catalog and
  routes, clusters, managed pools and traffic.
- `src/gateway`: the gateway: keys and rate limits, admission, pool selection,
  stream metering, usage delivery, the write-ahead log and its segments.
- `src/agent`: the cluster agent: what it accepts, applies and reports.
- `src/text.rs`, `src/collections.rs`, `src/crypto.rs`, `src/headers.rs`,
  `src/json.rs`, `src/time.rs`: texts, maps and the other crates that the rules
  call. What is said there of other crates' functions is trusted, not proved.
- `tests`: runs of the library on concrete values.
- `app`: ordinary Rust around the library: HTTP interfaces, the database, Redis,
  Kubernetes, threads and the proxy. The first argument picks the program.

Times are microseconds since the Unix epoch. Money is counted in millionths of the
currency's minor unit where usage is charged, and in minor units where it is paid.
