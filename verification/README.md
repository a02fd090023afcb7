# model-router

A router between chat clients and model providers. A request comes in as an Anthropic
Messages, an OpenAI Chat Completions or an OpenAI Responses request; the model that it names
gives it a tag, the tag gives it routes, and each route leads to a provider that speaks one of
the three formats. The router converts the request to that format and the answer back, as a
whole or as a stream, and the client always sees the model that it asked for.

The library under `src/` holds the rules, and Verus proves that the code follows them:

- `json`: JSON values, with `serde_json` for text and bytes.
- `text`, `seqs`, `order`, `keys`, `clock`: texts, sequences, the order of texts, keys that
  differ, and the time.
- `config`: providers, routes, tags, defaults, and the log of requests.
- `convert`: conversions of requests (`requests`), of responses (`responses`) and of streams
  (`streaming`) between the three formats.
- `proxy`: the way of a request. `routing` finds the candidates, `failover` the next route to
  try, `forward` what goes on to the provider, `replies` and `streams` what goes back, and
  `session` says after each thing that happened what is to be done next. `trial` sends a prompt
  through the routes of a tag.
- `api`, `pages`, `takeover`: the management API, the pages beside it, and the settings of
  clients.

The contracts speak of views: a JSON value is a `JsonV`, a text a sequence of characters, and a
conversion of a stream a machine that reads lines. What is taken on trust stands in `text`,
`clock` and `json`, each item with what it claims of the function behind it.

The program under `app/` is the server around the library: it reads and writes sockets and
files, and leaves the decisions to the library.
