# socket_server_manager

The backend of a socket server manager: it keeps a configuration of managed
services (WebSocket, Socket.IO, HTTP with SSE streams, and a shared-port mode
that serves mock HTTP responses next to the socket protocol), starts and stops
them, tracks their clients, runtimes and logs, pushes scheduled events, runs
independent mock HTTP services, guards its management API with bearer tokens
and keeps an audit trail.

## Layout

- `src/` — the library, written in Verus. Every decision of the backend lives
  here with a contract: the configuration store and its sanitising, the mock
  rule engine (paths, methods, header/query conditions, bodies), the routing
  of HTTP services, the client registry, the runtime bookkeeping of services,
  the log ring buffer and its queries, the audit log, the token table and the
  access rules, the WebSocket message pump, the admin heartbeat, the load-test
  tallies, and the parsing of `lsof` / `netstat` output. Public proof
  functions named `law_*` state properties that span several operations.
- `app/` — ordinary Rust around the library: files on disk, the axum REST API,
  the listeners of the managed services, the admin WebSocket, port release,
  timers and the load test.
- `tests/` — tests of the library through its public API.
