# deno_permissions

A permission library written in Verus: its logic is executable Rust whose
behaviour is stated in `requires` / `ensures` contracts and proved.

## Layout

- `src/` — the verified library.
  - `unary.rs`, `paths.rs`, `descriptors.rs`, `network.rs`: per-kind
    permissions (read, write, ffi, run, env, sys, net, import), their
    descriptors, ordering, queries, requests, revocations and checks.
  - `permissions.rs`, `child.rs`: the set of permissions, construction from
    options, and the permissions handed to a child worker.
  - `policy.rs`, `dynamic.rs`, `overlay.rs`: the capability policy, its
    static floor, escalation ceilings, deny ceiling and session overlay.
  - `capsec.rs`, `attribution.rs`, `handle.rs`, `resource.rs`,
    `policy_file.rs`, `posture.rs`, `readiness.rs`: decisions of the
    capability layer, principal attribution, capability handles, resource
    ownership, policy files and readiness.
  - `text.rs`: verified string helpers: comparison, decimal and
    hexadecimal text, trimming, ASCII case.
- `app/` — unverified glue: process state, file and network I/O, address
  parsing with `std::net`, JSON audit records, serde shapes.
- `tests/` — tests of the library through its public interface.

Calls into `std` and outside crates that the logic needs (path
normalization and comparison, domain-name and IP-network parsing, random
handle ids) stand behind small trusted wrappers whose contracts name or
state what they return.
