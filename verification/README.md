# named

A caching DNS-over-HTTPS forwarder. Queries arriving over UDP are answered
from a cache of upstream answers; on a miss they are sent to an upstream
DNS-over-HTTPS server, and the answer is cached for as long as its
shortest-lived record allows. When the upstream fails, an expired answer is
served rather than none.

- `src/` is the library, verified with Verus:
  - `config.rs`: the configuration, its defaults, and how command-line and
    environment settings override it;
  - `number.rs`: reading unsigned decimal numbers from text;
  - `entry.rs`: cached records and cache entries, their lifetimes;
  - `cache.rs`: the answer cache, held in a `dashmap::DashMap`, with lookup,
    storing, fallback to expired answers and cleanup, and its laws;
  - `metrics.rs`: hit, miss and response-time counters;
  - `resolver.rs`: the upstream client's bookkeeping and what follows a query;
  - `clock.rs`: the system clock.
- `app/` is the program around it: arguments, environment, the TOML file,
  the network (hickory), timers and logging.
- `tests/` runs the library on concrete values.
