# mofa-engine

The decision logic of the MoFA multimodal inference engine, written in Verus
with its behaviour stated in `requires` / `ensures` contracts and proved.

## Layout

- `src/` — the verified library.
  - `memory`, `runtime/memory_manager`: per-model memory reservations against
    a budget, leases, LRU and idle eviction candidates.
  - `circuit_breaker`: the per-provider breaker (closed, open, half-open with
    one probe) and its registry.
  - `metrics`: request, lifecycle and usage counters, the latency histogram
    and the Prometheus exposition text.
  - `stream`: the streaming request protocol and the walk over ranked
    candidates with fallback, each as a step function from state and event
    to next state and actions.
  - `engine`, `runtime/engine`, `runtime/scheduler`, `runtime/preflight`:
    admission, model-name checks, warm-up and prediction bookkeeping, model
    selection, fallback candidates and the HTTP error mapping.
  - `config`, `runtime/config`: configuration defaults, provider validation,
    the providers an engine registers, environment detection.
  - `backends/*`: each provider's request building, response parsing,
    polling decisions and stream accumulation.
  - `text`, `paths`, `clock`, `system`, `shared_map`, `backends/encoding`:
    string helpers and the trusted interfaces to `std`, `sysinfo`,
    `dashmap` and `base64`, each with the contract it is believed to meet.
- `tests/` — ordinary Rust tests against the compiled library.
- `app/` — the program around the library: the HTTP server, the engine's
  asynchronous loop, outside HTTP calls, and the floating-point scoring of
  the preflight predictor and the video quality checks.

Laws of the library are public proof functions named `law_*`.
