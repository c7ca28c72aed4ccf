# fifo_mempool

A first-in-first-out transaction pool for a gossiping node, verified with Verus.

- `src/` is the verified library:
  - `tx.rs`: raw transactions and hashes held in `bytes::Bytes` (through `prost`),
  - `error.rs`: the mempool's errors and their messages,
  - `mempool.rs`: the pool (a FIFO queue keyed by distinct hashes, with a reap
    cursor) and the mempool actor's decisions: submit, apply the application's
    verdict, take, reap (fresh or resumed) within a byte limit, remove,
    wrap for gossip,
  - `network.rs`: the gossip network actor's peer set and decisions,
  - `host_app.rs`: the test application (little-endian `u64` transactions),
  - `rpc.rs`: the RPC front end's outcome mapping and state,
  - `config.rs`: host settings (`bytesize::ByteSize`) and the derived limits,
  - `laws.rs`: properties spanning several operations.
- `app/` runs the library with `ractor` actors: mempool, application, RPC,
  and a gossip network whose transport is an in-process hub.
- `tests/` exercises the library, including the host's end-to-end scenarios.
