# ores-sidecar

Fail-closed runtime reconciliation for sidecars, written and proved in Verus.

A sidecar holds a runtime overlay: values for the keys that its plan allows. Two kinds of update
change it.

- A full snapshot (`ores.sidecar-runtime.v1`) at the same or a newer revision becomes the overlay.
- An ordered event (`ores.sidecar-runtime-event.v1`) upserts, deletes, replaces or invalidates, or
  asks for a resync. Events advance exactly one revision at a time. A revision gap or a resync makes
  the state sticky-stale; only a snapshot clears that fence.

An update is refused as a whole or applied as a whole. Secret-like keys, undeclared keys, duplicate
keys, oversized values, noncanonical revisions and revisions beyond the safe integer bound are
refused, and no diagnostic holds the text of a value.

## Layout

- `src/runtime_events.rs`: the state machine. `transition_*` are pure, `apply_*` are shells.
- `src/model.rs`: what the state machine does, on mathematical values.
- `src/laws.rs`: what holds of it as a whole, proved.
- `src/contract.rs`, `src/error.rs`: the values exchanged, the limits and the refusals.
- `src/revision.rs`, `src/runtime_key.rs`: revisions as text, and which names may be runtime keys.
- `src/key_set.rs`, `src/value_map.rs`, `src/text.rs`: ordered sets and maps of text.
- `app/`: the wire form of events (serde) and refusals as standard errors (thiserror).

Nothing is trusted but the declaration of `std::path::PathBuf`, of which nothing is claimed.
