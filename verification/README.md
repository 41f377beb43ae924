# clique

The membership core of a SWIM based gossip agent, verified with Verus.

- `src/` is the library: the peer table (`state`, `table`), the queue of
  membership broadcasts (`broadcasts`), the probes awaiting acknowledgement
  (`acks`), the failure detector (`failure`), the reactions to gossip
  messages (`node`), the join exchange (`rpc`), identities (`id`) and
  addresses (`addr`). Each public function carries a contract that Verus
  proves; the laws of the protocol are public proof functions beside the
  functions they relate (`law_*`).
- `app/` is the agent around it: UDP gossip, the TCP join exchange, timers
  and tasks, built on tokio.
- `tests/` runs the library on concrete values.
