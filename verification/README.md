# tokio_rate_limit

Per-key rate limiting (token bucket, leaky bucket, probabilistic token
bucket, cached token bucket) with verified decisions.

- `src/` is the library, verified with Verus. Each algorithm is a state
  machine over per-key state; its `check_at` is proved to follow a spec
  step (`token_bucket_step`, `leaky_bucket_step`, ...). The middleware
  modules compute the verdict and the headers of each request.
  `src/algorithm/properties.rs` holds the laws: admission and burst bounds,
  capacity kept, key isolation, waiting out `retry_after`, equivalences
  between algorithms, and TTL sweeping.
- `app/` is the part that does I/O: waiting acquires on a shared limiter,
  and the Axum and Tonic layers that read requests and write responses.
- `tests/` exercises the library on concrete values.

Times are whole nanoseconds on the algorithm's clock; `check_at` takes the
time explicitly, `check` reads the clock.
