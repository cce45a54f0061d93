# phalanx_node

The rules of a mesh node that records, stores and shares signed evidence: what it
stores and for whom, what it tells the mesh, whom it lets in, what it hands out, and
what it forgets.

`src/` is the verified library. Its state machines take plain values and events and
return what is to be done; a public function states in its contract what it returns or
changes, unless that is chance alone (`psk::generate_swarm_key`, `new_vault_salt`).

- `config`, `paths`, `psk`, `clock`, `power`, `engine`, `artifacts`: the node and its
  surroundings.
- `identity`, `crypto`, `wire`: keys from recovery phrases, the cryptographic
  primitives, the shared encodings.
- `evidence`, `persistence`: envelopes, the vault with its recording logs, write-ahead
  log, ledger and policies, the outbound queue, the record store.
- `actors`: storage, ingestion, egress, media, retrieval, revocation, trust, recovery,
  playback, the shield wall (eclipse router, canary, vitals) and the sentinel that
  routes between them.
- `hardware`, `network`: sensors, camera and microphone batching, the transport plan.
- `text`, `text_map`, `aged_map`, `lists`, `bytes`: the small tools underneath.

The laws of the library are public proof functions whose names begin with `law_`.

`app/` is the daemon around it: files, sockets, threads, and ports for the cipher, the
evidence format and the transport. `tests/` runs the library.
