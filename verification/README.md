# Pulse

A bot that receives Github webhook requests, checks their HMAC-SHA256
signatures, formats their payloads into messages from configurable templates,
posts the messages to Discord, and keeps weekly activity statistics of the
repositories it hears about.

## Layout

- `src/` is the library, verified with Verus. Each public function states its
  result in its contract, over the models in the spec functions beside it.
  - `json.rs`: JSON values, their compact text, and JSON Pointer lookups.
  - `text.rs`: replacing, splitting and searching text.
  - `event.rs`: payloads, templates, the criteria that select a template, and
    template expansion.
  - `github.rs`: Github event actions and the reply of each kind of event.
  - `signature.rs`: checking the `x-hub-signature-256` header (HMAC by OpenSSL).
  - `filter.rs`: the request filter as a machine of stages and actions.
  - `stats.rs`: repository statistics and the weekly summary.
  - `throttle.rs`: rate limiting by address.
  - `util.rs`, `status.rs`, `discord.rs`: hex dumps, HTTP statuses, webhooks.
- `app/` is the server around it: configuration files, HTTP(S) with axum,
  posting to Discord with reqwest, and the weekly summary loop.
- `tests/` holds the tests of the library.
