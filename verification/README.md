# web3_transports

JSON-RPC 2.0 between a client and its node, over HTTP, local sockets and WebSockets.

`src/` is the logic, verified with Verus. It does no I/O: it says what to send, takes what came
back, and says for whom that is.

- `rpc`, `json`: the messages, and what `serde_json` and `jsonrpc_core` do with them. The contracts
  of what is called there are believed, not proved; each says which function it speaks of.
- `helpers`, `ids`, `text`, `error`, `api`: building requests, numbering them, reading responses.
- `address`, `channels`: URLs and credentials, and channels whose other end is gone.
- `subscriptions`: which receiver a notification is for.
- `transports::http`: batches are matched with their responses by id.
- `transports::ipc`: a stream of bytes is cut into JSON values, each of which is handed to whoever
  waits for it.
- `transports::ws`: where to connect to, and the same for messages that come whole.

What holds of each transport as a whole is stated and proved in the `laws` module beside it.

`app/` runs the transports: sockets, channels, tasks and logging. `tests/` runs the library.
