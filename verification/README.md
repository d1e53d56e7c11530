# codex_dashboard

The logic of a desktop dashboard that monitors and controls local Codex
sessions through the Codex App Server (JSON-RPC over the server's standard
input and output), verified with Verus.

- `src/` is the verified library: the JSON values exchanged with the server
  and the lookups on them (`json`), the dashboard's data and how it is read
  from the server's answers (`models`), the JSON-RPC messages and their
  routing (`rpc`), the parameters and paging of requests (`requests`), the
  session list (`sessions`), approval requests (`approvals`), notifications
  (`events`), the connection state with its request ids and diagnostics
  (`app_server`), finding the `codex` binary (`process`), checking login URLs
  (`login`), text operations (`text`), copies (`dup`), and properties that
  hold across operations (`laws`).
- `app/` is the Tauri application around it: the child process, its pipes,
  the channels that wait for answers, events to the interface, and the
  serde forms of the data.
- `tests/` exercises the library on concrete values.
