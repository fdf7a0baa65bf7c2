# gpui-agentic-http

A local-only HTTP surface for driving and inspecting a desktop app without a
human at the keyboard, with a tool bridge in front of it. What the two decide
is verified with Verus.

- `src/registry.rs`: what an app module makes callable (`Action`, `Param`,
  `ParamLocation`, `ModuleRegistration`), and the check that a registry is
  valid and routable.
- `src/server.rs`: which action a request means, the list of actions that the
  server answers `GET /` with, and what every request is answered.
- `src/query.rs`: reading a query string, and writing its values.
- `src/client.rs`: the port, the request and the response of one round trip.
- `src/mcp.rs`: actions as tools, tool calls as requests, and the JSON-RPC
  messages around them.
- `src/json.rs`: JSON values and what they mean.
- `src/text.rs`: comparing, cutting and writing text.
- `src/serde_bridge.rs`: what is taken on trust from `serde_json`. Beside it,
  `String::push` in `src/text.rs`, `String::from_utf8` in `src/query.rs` and
  `String::from_utf8_lossy` in `src/client.rs` are taken on trust from the
  standard library.
- `src/laws/`: what holds of all of it together: query strings read back, every
  argument is placed, tools are the registered actions, and a tool call reaches
  its action.
- `app/`: sockets, threads, standard input and output, and the types that
  `serde` writes. An app links `app/lib.rs` in; `app/main.rs` is the tool bridge
  as a program.

An action's `path` does not repeat the prefix of its module: the server puts
the prefix in front itself, when it routes and when it lists. A module with the
prefix `map` declares `/state`, not `/map/state`; the latter is requested under
`/map/map/state`.
