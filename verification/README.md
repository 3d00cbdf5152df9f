# xraft-server

The driver of one Raft node, as a verified library.

The driver sits between a consensus engine and the world. The engine decides
what should happen to the log, the hard state, the state machine and the other
nodes; the driver makes it happen in the right order, and answers everyone who
asked. The library holds the driver's decisions. It performs no I/O: it asks its
host for one call at a time (`host::Request`), is handed what came of it
(`host::Outcome`), and leaves behind what the host should tell others
(`host::Effect`).

## Layout

- `src/driver.rs` – from an event to the calls and the answer that follow from it
- `src/actions.rs` – doing what the engine asks for, one action after the other
- `src/apply.rs`, `src/snapshot.rs`, `src/fetch.rs` – applying committed entries,
  taking and installing snapshots, serving fetches
- `src/router.rs` – outbound calls and the assembly of transferred snapshots
- `src/inbound.rs` – calls of other nodes
- `src/reads.rs`, `src/waiters.rs` – clients that wait
- `src/roles.rs`, `src/lifecycle.rs` – the loop, and how it ends
- `src/admin.rs`, `src/metrics.rs`, `src/status.rs`, `src/reload.rs`,
  `src/handle.rs` – what operators and callers see
- `src/safety.rs`, `src/answered.rs`, `src/guarantees.rs`, `src/journey.rs` – what
  holds of the driver as a whole
- `app/` – the runtime: event loop, router, admin endpoint, Prometheus registry,
  and the program, over any engine, storage and transport

## What is proved

- A failed durable call stops everything: no further call is made, nothing the
  engine had granted is released, and the caller gets the error.
- The hard state is never persisted with a commit index past the end of the log.
- Every caller is answered exactly once, whatever happens, through shutdown and
  failure.
- A read is served only under an active lease, or after a majority of the voters
  has confirmed the leader since the read came.
- A transferred snapshot is the concatenation of its pieces, within its limits,
  and of the declared size and checksum.
- A committed range is applied as a whole, in order, or the driver stops.
- A snapshot that a leader takes is stored and restored by its follower byte for
  byte.
- Snapshots are handed out only by a leader, to members of its own cluster in its
  own term; a member in a higher term deposes it.

The one outside function that the library calls is `crc32fast::hash`; it is
assumed to compute the IEEE CRC-32 checksum.
