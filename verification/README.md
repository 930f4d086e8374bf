# MyGate

A gateway for language models. Clients speak the OpenAI Chat Completions or the Anthropic Messages
protocol and name an alias; the gateway asks the backends of the alias's chain, one after the other,
in the protocol that each of them speaks, and answers in the protocol of the client.

- `src/` is the library, verified with Verus: the configuration and its checks, alias resolution,
  the fallback run, both protocols in both directions, the event streams and the answers to errors.
- `app/` is the program around it: HTTP, files, logging and metrics.
- `tests/` runs the library on concrete requests, answers and streams.

| Module | What it holds |
|---|---|
| `config`, `names` | The configuration, its validation, sorting by priority, and reload |
| `gateway` | The unified request form, alias resolution, the fallback run, `<think>` blocks |
| `backend` | Requests to backends and what their answers come to |
| `router` | Requests of clients, answers to them, and streams |
| `json`, `json_codec` | JSON values, read and written by `serde_json` |
| `text` | Trimming, searching and splitting text |
| `laws` | What holds across the two protocols |

What is believed without proof stands in the functions marked `external_body` in `json`,
`json_codec`, `backend::openai_compat` and `router::sse`: they call `serde_json`, `uuid` and the
UTF-8 functions of the standard library.
