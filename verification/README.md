# gproxy

The decision logic of an LLM gateway, written and proved in Verus.

- `src/` is the library. `config` builds the runtime configuration, `extract`
  turns a request into its routing context, `responses_ws` bridges WebSocket
  frames and the HTTP pipeline, `gateway` and `edge` hold what the native
  handlers and the edge entry points decide, and `sse` reads event streams and
  checks the lifecycle of a streamed message. `headers` and `json` give the
  header maps of `http` and the values of `serde_json` a mathematical model;
  `text` holds the string operations that the rest is written with, and `fold`
  what holds of going through pieces up to the first failure. `reception` says
  how the outcome of a WebSocket frame is received.
- `tests/` runs the library.
- `app/` is ordinary Rust around it: axum handlers, the entry points for edge
  runtimes, and the command line's view of the configuration. The pipeline
  itself is behind the traits in `app/backend.rs`.

Functions named `law_...` state what holds of several functions together. A
function marked `external_body` makes a call into `std`, `http` or `serde_json`,
with what converts its arguments and its result; its comment names the call and
says what is taken for granted about it.
