# one_router

A gateway in front of language-model providers. Clients speak OpenAI's Chat
Completions or Anthropic's Messages; the gateway picks the providers for a
request, turns it into what each of them expects, and turns the answer back,
whole or streamed.

`src/` is a library verified with Verus: everything that the gateway decides or
computes. `app/` is the program around it: HTTP, the database, files and the
terminal. `tests/` runs the library on concrete values.

| Module | What it holds |
| --- | --- |
| `text`, `bytes`, `json`, `index_table`, `table` | texts, bytes that arrive cut anywhere, JSON values, small tables, and their models |
| `sse` | framing of server-sent events |
| `codex` | the two wire formats and their bridges; Codex requests, streams and logins |
| `commandcode` | Command Code requests, streams, keys and the browser login |
| `adapter` | the request that goes to a provider, and its whole answers |
| `model`, `select`, `runtime`, `backoff`, `flow`, `failover_laws` | providers and pools, whom to ask, and one request on its way |
| `admin`, `config`, `providers`, `pools`, `stats`, `logging` | what the admin interface decides and shows |
| `onboarding` | what the setup decides |
| `clock`, `random`, `encode` | time, chance and encodings |

Contracts are stated over models: a JSON value is a tree with finite maps, a
stream is a state and the events behind it, a table is a map. Proof functions
whose names begin with `law_` state what holds across functions. Functions of
other crates are reached through small items whose comments say what is taken
for granted of them.

Times of the database are microseconds since 1970; times to wait are counted in
milliseconds of a clock that only moves forward. Counters wrap around.
