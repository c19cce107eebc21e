# freenet_core

The verified core of a peer-to-peer node, in Verus: authentication and
authorization, the answers of the admin API, contract lifecycle policies,
background maintenance, threshold and Byzantine consensus, hybrid post-quantum
and homomorphic cryptography, predictions for routing and congestion control, and
batching, buffers and vectorised cryptography for throughput.

- `src/` is the library. Every function states what it returns or changes, and
  Verus proves it. Calls into other crates stand behind small functions whose
  contracts are believed; each says which function it calls and what it claims.
- `tests/` runs the library.
- `app/` is ordinary Rust around it: HTTP routes, JSON, sockets, files, timers,
  tensors and floating-point arithmetic.

Moments and spans of time are arguments, in nanoseconds. Rates are exact
fractions, and single-precision numbers are carried by their bits. What a task
does next is decided by a function of the library; the caller waits, asks and
sends on its behalf.
