# vg-model-router

A local proxy for Codex. It takes Responses requests (`POST /v1/responses`, streaming or not),
passes them on to the upstream, and shows the model of every reply with the prefix `viv-`. With
`mode = "model-router"` it chooses the model itself: a classifier says how hard a turn is, and the
turn goes to the small, the medium or the frontier model.

The library under `src/` holds the rules, written in Rust and proved with Verus. The program under
`app/` does the input and output: HTTP, files, the environment, the terminal.

| Module | What it holds |
|---|---|
| `text`, `tally` | text over characters, counting by name |
| `json`, `codec` | JSON documents, and reading and writing them through `serde_json` |
| `measure` | readings, bounds and elapsed time |
| `items`, `state` | the items of a conversation, and the text that the classifier sees |
| `tier`, `sessions`, `router` | the tiers, the decisions that a turn keeps, and the router |
| `convert`, `trainlog` | Chat form, the records of routed requests, and their export |
| `stream` | streams, passed on line by line with the model prefixed |
| `report` | the lines of the log |
| `config`, `server` | settings, the command line, headers, and the course of a request |
| `outside` | small services of the standard library and of the header types |

What each function does is in its `ensures`; properties that span functions are the proof
functions named `law_…`. JSON is a mathematical tree (`JsonV`) in all contracts. What the library
takes on trust from `serde_json`, the standard library and the header types is in the functions
marked `external_body` and in the `assume_specification` items, each with a comment on what is
claimed.

Floating-point quantities stay outside the library: the share of cached tokens in the log, and the
default of `cheap_threshold`.
