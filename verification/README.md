# taihao

The device services of Taihao OS — the communication centre, the extension
bridge, the HAL gateway, the agent and the real-time loop — with their
decision logic verified in Verus.

- `src/` is the verified library: configuration defaults and lookups, the
  two-link dispatcher with its fail-over rule, link statistics, message
  framing, JSON-RPC checks and parameter whitelisting, the HAL tool and device
  whitelists with their audit records, SKILL frontmatter checks, signatures
  and the registry, prompt building and decision acceptance, the mode table of
  the real-time loop, and the health replies. `src/laws.rs` states the
  properties that span several operations.
- `app/` holds the service programs (`taihao <service>`): sockets, files,
  HTTP, MQTT and WebSocket clients, the async runtimes and serde forms of the
  library's types.
- `tests/` exercises the library on concrete values.
