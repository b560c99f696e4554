# raft_consensus

The Raft consensus protocol with its decisions proved in Verus.

- `src/` is the verified library: the node state (`state`), the protocol core that
  answers vote and append requests and runs elections and replication as steps from
  state and event to next state and action (`raft_node`), the messages (`rpc`), the
  framing of messages on a byte stream (`transport`), the errors (`error`) and the
  `StateMachine` trait (`state_machine`). `clock` holds the three calls that read the
  clock or draw a random number.
- `app/` is the networked node around it: the `Transport` trait and its TCP
  implementation, bincode encoding, and the async event loop with its timers and
  heartbeat task.
- `tests/` exercises the library.
