# raft_queue

A string message queue replicated across a cluster with the Raft consensus
protocol (leader election, log replication, heartbeats, membership changes).

- `src/` is the verified library. It holds the queue state machine and the
  protocol's decisions, each with a contract that Verus proves:
  `queue` (the commands and the queue they drive), `server` (the node state,
  append and vote requests, heartbeats), `replication` (what a leader sends,
  how it takes answers in, when it commits), `campaign` (elections),
  `membership` (joins, membership updates, client requests), `node`
  (the state kept across restarts), `timer`, `config`, `peer_table`,
  `address`, `message`, `state`, `election`, `status`.
- `app/` is the program around it: the gRPC transport, the JSON files, the
  timer and replication loops, the interactive client and the HTTP dashboard.
- `tests/` runs the library on concrete cases.
