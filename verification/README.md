# ccs_proxy

The decisions of a local proxy between command line clients and the model providers behind it,
written in Verus: which providers a request is sent to and in which order, when a failed attempt
is repeated or handed to the next provider, what is changed in a request on its way out, and when
an answer may be called a success.

- `src/` is the library. Every function in it is verified against its contract.
  - `codec`, `content_encoding`: undoing compressed bodies within a limit.
  - `json`, `text`, `text_map`, `headers`: plain values that the rest works on.
  - `provider`, `provider_router`, `key_pool`: providers, routes, and pools of keys.
  - `provider_retry`, `codex_auto_review`: when an error is worth another attempt.
  - `handler_context`: what is known of a request while it is served.
  - `forwarder`: the request on its way out, its answer on its way back, and the walk through the
    providers between the two.
  - `failover_switch`: making the provider that answered the current one.
  - `diagnostic`: test requests, kept within bounds.
- `app/` sends, reads and waits, and asks the library what to do next.
- `tests/` runs the library on given values.

What is taken from other crates and believed without proof stands in `codec` (flate2, brotli,
zstd), `json` (serde_json), `headers` and `forwarder/request_headers` (http) and `text` (the
standard library).
