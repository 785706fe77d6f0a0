# error_rail

Composable, structured error handling with machine-checked contracts.

- `src/` is the verified library: error contexts and their rendering,
  composable errors, formatting configurations, fingerprints, error
  pipelines, validations, conversions, the retry/timeout/validation
  decisions of the async helpers, and the service-layer error handling.
  Every function there carries a contract proved by Verus; the laws
  (chain order, fingerprint independence from tag order, error collection)
  are public proof functions beside the code they speak of.
- `app/` is the plain-Rust glue: `Display` adapters, serde forms, the
  `Future`, `tower` and `tracing` integrations, the retry and timeout loops,
  exponential backoff (floating point) and the convenience macros.
- `tests/` exercises the library on concrete values.
