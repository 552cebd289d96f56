# nyanpasu-core-manager

The portable control plane over one managed core, verified with Verus.

A request is a command under an identity that its caller gave it. The control
plane admits it once, hands it to one executor, and keeps its state in a bounded
registry until it is over and its place is needed.

- `src/` is the library. It decides: identities and digests, admission and
  eviction, the executor's steps, what a config becomes on disk, and when a DNS
  override is applied and undone. Functions carry contracts, and the `*_laws`
  modules and `history` state what holds across calls. Beyond the proofs stand the
  wrappers of `channels` (tokio's channels) and `join_path` of `materialize`
  (camino's paths).
- `app/` is the host: the executor task, locks, files, clocks, and the DNS
  controller.
- `tests/` runs the library with the real channels and paths.
