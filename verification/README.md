# replicant

The rules of a stigmergic swarm whose agents deposit claims about resources,
attest each other's claims, and carry a reputation that falls when they lie.

`src/` is the verified library (Verus):

- `claims` — claim numbering (`claim-0`, `claim-1`, …), attestation, and the
  adjudication by which an opinion becomes a fact or is countered, with the
  reputation events that follow.
- `reputation` — the append-only per-agent ledger of reputation events.
- `vitals` — an agent's liveness, quarantine, replication cooldown and tasks.
- `environment` — the season calendar, patch depletion and recovery, threat
  lifetimes, and bounded histories.
- `adversary` — the cap on planted adversaries and their detection tally.
- `capsule` — agent identity capsules with fresh UUID identifiers.
- `demo` — the browser demonstration's configuration, founders and colours.
- `decimal`, `types`, `world` — shared pieces.

`app/` holds the floating-point simulation (energy, positions, reputation
weights), randomness, JSON and canvas rendering, calling the library for every
decision above.
