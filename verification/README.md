# acadctl plugin

The part of `acadctl` that runs inside AutoCAD: clients list, open, save, close, undo and
redo drawings and have AutoLISP executed on them, one mutation at a time.

`src/` is the library. Every function in it carries a contract that Verus proves.

- `scheduler` queues operations, gives the native side one at a time, and settles those
  who wait. `scheduler::model` is its mathematical model, `scheduler::laws` what holds of it
  whatever happens.
- `exec` and `execution` are the state machines of an execution: source validation, the undo
  group around a batch of forms, its outcome, its bounded output, and the printers of values.
- `printing` is what both printers share; `exec::value::printer_layout` breaks lines.
- `documents`, `doc` and `drawing` keep the identity of open documents over `registry` and
  `identity`; `naming` and `ids` hold their names and identifiers.
- `history` knows which undo steps belong to the plugin.
- `native`, `native_actions`, `bridge`, `bridge_protocol` and `template` are the boundary to
  the native side and to AutoLISP.
- `rpc` and `rpc_server` are what clients are answered.

`app/` is ordinary Rust around the library: the bridge to C++, threads, timers and streams.
The form scanner and the endpoint for clients are handed in by whoever embeds it.

Calls into other crates go through a few functions whose contracts are taken on trust:
`bytes` holds sources, `camino` splits paths, `nanoid` draws identifiers and `unicode-width`
measures text.
