# load_balance

Trace-context propagation for gRPC services: the current span's context
travels in the request metadata from client to middle server to head server.

- `src/` is the verified library (Verus).
  - `carrier.rs`: `MetadataMap`, the carrier that propagators write to and read
    from, with its model (`spec_set`, `spec_get`) and its laws.
  - `grpc.rs`: the trusted items over `tonic`'s metadata map and `http`'s
    header names.
  - `text.rs`: the byte rules of metadata values and reading them as text.
  - `echo.rs`: the texts that the echo client sends and the servers answer.
  - `stream.rs`: the relay's decisions (first I/O error in a chain of causes,
    how each incoming item is answered).
  - `tracer.rs`: the settings a service installs its tracer with.
- `app/` is the unverified rest: installing the tracer and subscriber, the
  OpenTelemetry `Injector`/`Extractor` impls over the carrier, `inject` and
  `extract` through the global propagator, and the echo streams' I/O.
- `tests/` runs the library against real `tonic` metadata maps.
