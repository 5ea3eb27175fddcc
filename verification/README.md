# ultrabalancer

The decision logic of an HTTP load balancer, verified with Verus: backend
selection algorithms, backend state and circuit breaking, the server pool,
routing, request filtering, retries, caching rules, rate limiting, sticky
sessions, connection accounting, metrics, configuration checks and the small
text formats that travel with requests.

Layout:

- `src/` — the verified library. Its functions state in their contracts what
  they return or change, except where the answer comes from outside (a token
  bucket's clock, a random draw, a user's backend manager), where the contract
  states what holds whatever comes back; laws that span several functions are
  public proof functions beside them.
- `tests/` — tests of the library on concrete values.
- `app/` — the program around the library: command line, configuration files,
  the HTTP server and proxy, health probes, the dashboard, metrics export and
  benchmarks. It performs the I/O and hands the library plain values.

Outside crates are called from `src/` through a few trusted wrappers, each of
which names the function it calls and says what its contract claims.
