# gatewayd

The data plane of an ingress gateway: nginx with proxy-wasm filters, and an
admin daemon that loads revision bundles, renders the nginx configuration,
answers the admin API and keeps runtime state.

- `src/` is the verified library (Verus). It holds the filters' decisions
  and configuration scanners, the rate limiters, the revision bundle
  assembly and validation, the two nginx configuration renderers (filters
  inside nginx, or a preflight to the daemon's plugin check), the runtime
  state transitions of loading and deploying revisions, and the admin
  API's decisions, each with its contract, and the laws that relate them.
- `tests/` runs the library on concrete values.
- `app/` is the daemon around the library: the command line, files,
  the nginx process, the HTTP server, JSON, and the proxy-wasm host glue
  of the filters.
