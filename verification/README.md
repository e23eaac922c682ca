# garage-secrets-controller

A controller that provisions Garage S3 buckets, access keys and grants from records kept in
OpenBao's KV version 2 store, and writes the outcome back into each record.

The decisions are a verified library (`src/`), written in Verus:

- `reconciler` — one reconciliation pass as a state machine. From each answer of OpenBao or
  Garage it computes the next request, until the pass ends. Its laws: the pass always moves
  forward and ends, entries are handled in the order listed and a failure is marked on its
  record while the pass goes on, a dry run never writes, creates or grants, records already
  `ready` are left alone and a pass over them changes nothing, existing resources are
  adopted, written records read back as `ready`, and an error mark keeps the other members
  of a record.
- `model` — the bucket, key and grant records, decoded from and encoded to JSON by serde's
  rules (defaults, missing and duplicate fields, error texts); decoding an encoded record
  gives it back.
- `garage`, `openbao` — the requests sent to each service and how each reply is read.
- `json`, `text`, `error`, `config`, `build_info` — JSON values, character helpers, error
  texts, settings and the start-up banner.

`app/` holds what Verus does not check: the command line, the HTTP clients, the reading of
OpenBao's reply envelopes, logging and the loop that performs the requests the state machine asks for.
