# edge_transport_http_egress

Outbound HTTP transport with its logic verified in Verus.

- `src/` — the verified library: `HttpConfig` and its builders, the
  `StringMap` used for headers, query and form fields, request assembly
  (`plan_request`, URL resolution), response acceptance (size cap, status
  mapping, health and feed verdicts), the `text/event-stream` grammar and a
  chunked decoder with its laws, WebSocket message/frame mapping, metrics
  samples of a call, the middleware chains the factories wire, the
  client settings (with the default headers the client accepts), header
  text of responses, and validation.
- `tests/` — tests of the library.
- `app/` — the asynchronous runtime around it: the reqwest-based egress,
  SSE and WebSocket tasks, metrics recording, and the factories that
  assemble clients from configuration and middleware crates.
