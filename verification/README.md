# scp

The Stellar Consensus Protocol for one node, as a Verus-verified library:
federated voting over quorum sets, the nomination protocol, and the ballot
protocol (PREPARE, CONFIRM, EXTERNALIZE) of each slot.

- `src/application`: quorum sets, v-blocking sets and quorums; the registry of
  quorum sets known by their hash.
- `src/scp`: statements and envelopes, the local node, the nomination and
  ballot protocols driven by `SlotDriver`, the job queue of a slot's timers,
  and builders.
- `src/crypto.rs`: the byte encoding of statements and quorum sets, and their
  BLAKE2b digests.
- `src/utils`: ordered sets of values, maps keyed by node id.
- `app/`: reading and writing node description files (TOML), locating test
  data, and the TCP listener.

Nomination values are `u64`; envelope ids are the times, in nanoseconds since
the UNIX epoch, at which envelopes were stored. The application plugs in
through the `HerderDriver` trait.
