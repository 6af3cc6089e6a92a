# Twins

Deterministic protocol twins for black-box integration tests: an OpenAI Responses
and Chat Completions twin and an Anthropic Messages twin. Both answer from
scripted scenarios, inject failures, and record live exchanges for offline replay.

`src/` is the verified library. Every response is planned there as plain data and
every decision has a contract that Verus proves: request validation, credentials,
scenario queues, response plans, event streams, recordings and settings. Public
proof functions state what holds across functions, such as that a recorded stream
shows what the document of the same response shows.

| Module | Holds |
| --- | --- |
| `text`, `json`, `codec`, `sse`, `headers`, `credentials` | text, JSON values, event streams, headers and tokens |
| `reply`, `transport` | responses as plain data, raw response bodies |
| `hash`, `recorder`, `settings` | request keys, recordings, settings |
| `anthropic` | requests and their validation, scenarios, plans, streams, recording, the proxy's decisions |
| `openai` | plans, streams, recording and its inverse, the proxy's decisions |

`app/` holds the HTTP servers around the library: routes, timing, files and the
upstream client. `tests/` runs the library with the real crates linked.
