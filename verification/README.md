# realm_session

The decision logic of Realm's window-manager session, written in Verus:
every function in `src/` carries a `requires`/`ensures` contract that Verus
proves, and the laws the session relies on stand as public proof functions.

## Layout

- `src/backend/` — the River compositor backend as data: object events
  (`objects.rs`), input devices (`input.rs`), manage and render responses
  (`response.rs`, `render.rs`), wire encodings (`river.rs`) and the keyed
  tables they share (`table.rs`). Protocol requests come back as values for
  the transport to send.
- `src/policy.rs` — validation of a policy turn's facts and capacities.
- `src/identities.rs` — Realm window numbers, bindings and metadata of
  compositor windows; each window fact returns the ledger edit to apply.
- `src/lifecycle.rs`, `src/runtime.rs`, `src/timers.rs`, `src/worker.rs` —
  recovery phases, event-loop decisions, timers and worker admission.
- `src/persistence.rs`, `src/session.rs` — snapshot coalescing and the
  versioned session snapshot.
- `src/consumer.rs`, `src/modules.rs` — bar consumers, `/proc` sampling,
  battery and clock modules.
- `src/template.rs` — the theme template catalogue and its reload metadata.
- `tests/` — executable tests of the library.
- `app/` — operating-system glue around the library: snapshot files and
  their JSON encoding, the worker and module-sampler threads, timer
  descriptors, poll readiness and the fixed consumers' exec.

The window ledger itself, the Wayland transport and the daemon's poll loop
are separate components; this crate hands them plain values (ledger edits,
protocol requests, timer and poll decisions) and takes plain values back.

## Checking

Verus verifies `src/`. The library calls two outside crates, `jiff` (the
clock) and `rustix` (the `SIGUSR1` number), each through a small trusted
wrapper whose contract is documented beside it; the tests run with both
linked.
