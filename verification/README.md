# Organization Invitation

A verified core for the invitation lifecycle of organizations: single-use tokens, revisions,
caller-scoped idempotency keys, durable commands under leases, and bounded worker batches. It is
written in Rust with Verus: every rule stands in `src/` with its contract, and every contract is
proved.

## How it is built

The rules never touch a database or another service. An operation reads the rows that it needs,
hands them to the rules together with the instant of its transaction and fresh identifiers, and
gets a plan back: the writes of the transaction, in order, and its answer. Commands that reach
other services are driven the same way, from an event to the next action, until they are settled.

- `text`, `uuids`, `base64url`, `instants`, `digests`, `urls`: texts, identifiers and the outside
  functions on them.
- `validation`, `config`, `authorization`, `contract`, `worker_contract`, `operations`: what each
  operation asks of its caller and its request, and what it answers.
- `token`: derived tokens and their verifiers.
- `records`, `writes`: what is stored, and what a transaction writes.
- `mutations`, `lifecycle`, `acceptance`, `commands`, `settlement`, `dispatch`: the rules.
- `cursor`, `tools`: pages of a list, and the agent tools.
- `tables`, `invariants`, `laws`, `queries`, `batches`, `claims`: the store as a mathematical
  object, what every transaction keeps of it, what holds of every history, what is read from it,
  and what the batches of a worker do to it.

`app/` is the plugin around the rules: PostgreSQL, the ports of other plugins, JSON. `tests/` runs
the rules, among others against a store in memory.

## What is not proved

Functions of other crates are taken at the word of their documentation. Each stands behind one
function marked `external_body`, or behind an `assume_specification`, whose comment names the
outside function and says what is taken for granted of it.

PostgreSQL is taken to run a plan's writes in one transaction on the rows that it locked.
