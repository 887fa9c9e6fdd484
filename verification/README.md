# deeplx-pro

A small HTTP service that exposes DeepL translation through a simple REST API
(`POST /translate`, the DeepL-compatible `POST /v2/translate` and
`GET /v2/languages`, and `GET /health`). Texts longer than 1500 characters are
split at natural boundaries, translated piece by piece and joined again;
rate-limited or failed requests are retried once. Every translation request
goes to DeepL's free endpoint, with no account needed. When `API_KEY` is set,
the two translation endpoints ask for it in `Authorization: DeepL-Auth-Key
<key>`, `Authorization: Bearer <key>` or `X-API-Key: <key>`.

The decision logic is a library verified with Verus:

- `src/chunk.rs`: splitting text into pieces of at most N characters, cut after
  a blank line, a newline or sentence punctuation, with the laws that the pieces
  reassemble the text and respect the limit.
- `src/lang.rs`: the language table and the resolution of language codes
  (case-insensitive for ASCII codes, `_` read as `-`, `EN`/`PT`/`ZH` aliases),
  with the laws that every listed and internal code resolves to its own entry
  and that codes differing only in ASCII case select the same language.
- `src/upstream.rs`: validating a text, building the upstream request and
  interpreting the upstream reply.
- `src/job.rs`: the scheduling of a batch of texts: pieces in order, one retry
  after a retryable error, results joined per text, with the laws over a whole
  run: every piece sent once in order when all succeed, and the first error
  that is not retried ends the batch.
- `src/error.rs`, `src/api.rs`: errors, HTTP status mapping, the API key check
  and the shapes of the service's answers; `src/instance.rs`: the client instance identifier;
  `src/text.rs`: character-level string helpers.

`app/main.rs` is the unverified program around it: configuration from the
environment, the axum server, the outbound HTTP client and JSON encoding.
