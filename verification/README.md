# provenclaw

A local host for running tools under a capability policy, with signed
receipts, a hash-chained audit log, provenance checks and a small
role-based control plane. The decision logic is written in Verus and
proved against its contracts; the terminal, files, processes and the
command line sit in `app/`.

## Layout

- `src/` — the verified library.
  - `model.rs`: capability specs, tool registry, receipts, verification reports.
  - `policy.rs`: policy evaluation, capability ceilings, policy signatures.
  - `audit.rs`: the audit store, its hash chain and receipt listing.
  - `control_plane.rs`, `api.rs`: endpoint validation and role checks.
  - `runtime.rs`: preflight of a run's requested capabilities.
  - `provenance.rs`: reading the verifier's machine-readable report.
  - `signing.rs`, `trust.rs`, `secrets.rs`: receipt signing keys, the trust
    store and policy keys, secret-provider status.
  - `decision.rs`, `host.rs`: how a run is decided and recorded.
  - `listing.rs`, `sort.rs`, `text.rs`: paging, stable sorting, string helpers.
  - `tui.rs`, `cli.rs`: the console's state machine and the CLI's text.
  - `crypto.rs`: the calls into `sha2`, `hex`, `base64`, `ed25519-dalek` and
    `rand`, each behind a wrapper whose contract is stated over named results.
- `tests/` — tests of the library, run with the real outside crates.
- `app/` — the program: argument parsing, configuration and file I/O,
  process execution, JSON, and the terminal user interface.

Each `law_*` proof function states a property that spans several
operations (for example, that an allowed request lies within the ceiling,
or that appending keeps the audit chain intact).
