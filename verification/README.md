# workspace_serve

The serving mode of a load balancer: it compiles a workspace configuration into listeners, keeps
the running listeners in line with it, and answers requests to the administration interface.

- `src/` is the library, verified with Verus: compiling listeners, routes and policies; deciding
  which listeners a reload starts, updates, replaces and retires; the courses of connections and of
  administration requests; authentication, rate-limit tables, audit records and the control-plane
  journal; readiness and status reports; the PROXY protocol.
- `app/` is ordinary Rust around it: sockets, files, the environment, the clock, TLS and QUIC, and
  the traits through which the proxy engine is plugged in.
- `tests/` runs the library.

What the library takes on trust is little: SHA-256 digests from `sha2`, address blocks from
`ipnet`, JSON from `serde_json`, the system clock, UTF-8 decoding, and `String::push`. Each stands
behind a small function or declaration with a comment that says what is claimed of it.
