# tower-rate-limiter-redis

A rate limiter for tower/axum services whose counts live in Redis, with its
logic verified by Verus.

- `src/` is the verified library: the span type (`time`), the Redis commands
  and pipelines that the storages send (`redis_pipeline`), the fixed-window and
  sliding-log limiters with their validation steps and their Redis storages
  (`algorithm`), and the middleware's admission decision (`middleware`).
- `app/` is the server around it: the asynchronous limiter and storage traits,
  the clock, the Redis round trips, and the tower services.
- `tests/` runs the library on concrete values.
