# node_agent

The decision logic of a VPN node agent that registers with a hub over a
WebSocket, adds and removes users on its Xray and Hysteria2 back-ends at the
hub's request, and reports per-user traffic.

- `src/` is the verified library (Verus):
  - `config` — settings from environment values, defaults, port parsing;
  - `dto` — the hub protocol's messages as plain values;
  - `hub` — registration, the authentication handshake, the running
    session's decisions, periodic reports and the reconnect back-off;
  - `commands` — add-user with rollback, remove-user, traffic report and
    health check, each as a step-by-step decision procedure;
  - `xray` — the Xray API requests (protobuf-encoded through prost's field
    encoders), error handling and statistics parsing;
  - `hysteria` — the users its auth hook admits, its API addresses, reading
    its traffic document and per-user deltas between readings;
  - `traffic` — per-user byte tables; `text` — string helpers; `proto` —
    protobuf field encoding.
- `app/` is the program around it: environment, sockets, gRPC, HTTP, timers
  and JSON.
- `tests/` exercises the library on concrete values.
