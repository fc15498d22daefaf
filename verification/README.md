# twobobs

A terminal chat agent that talks to an LLM gateway, with its logic verified in Verus.

- `src/` is the library. `sse` and `stream` read streamed completions, `llm` builds requests and
  reads answers, `tui` and `turn` decide what keys and events do, `cost` reports what calls cost;
  `json`, `text`, `entries`, `tools`, `history` and `agent` hold the data that they work on.
- `stream_laws`, `turn_laws`, `request_laws`, `replay_laws` and `cost_laws` state what holds of the
  library as a whole, each law a proof function.
- `app/` does the I/O: HTTP, the terminal and the arithmetic of prices, which are floats.
- `tests/` runs the library with the crates that it calls.

Trusted are the parser and printer of `serde_json`, its numbers, the check of header values of
`reqwest`, and three functions of strings in the standard library; the doc comment of each trusted
item says what is claimed of it.
