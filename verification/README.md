# metanode

The node around a DAG consensus engine and an execution engine: it hands committed sub-DAGs to the
execution engine in order, follows epochs, talks to its peers, and survives restarts.

- `src/` is the library, verified with Verus. Rules, formats, queues and state machines live here.
  Where a decision depends on something outside, such as an answer of the engine, a peer or a file,
  it is a state machine: an event goes in, the next action comes out.
- `app/` is the program around it: command line, sockets, files, background tasks. It performs the
  actions and reports the events.
- `tests/` runs the library.

## The library

| module | content |
| --- | --- |
| `consensus::checkpoint` | the global execution index of a commit |
| `consensus::subdag` | committed sub-DAGs as plain values |
| `consensus::commit_processor` | order of commits, dispatch to the engine, lag, transactions of failed commits |
| `consensus::tx_recycler` | transactions that wait for their commit |
| `network::codec`, `network::tx_socket_server` | frames, batches of transactions |
| `network::peer_rpc` | questions between nodes: requests, answers, and how they fit together |
| `node::consensus_node` | how a node starts |
| `node::executor_client` | the queue of blocks, block building, persistence, questions to the engine |
| `node::catchup`, `node::dual_stream`, `node::recovery` | catching up with the network and with the own store |
| `node::epoch_monitor`, `node::epoch_transition_manager`, `node::epoch_checkpoint` | epochs |
| `node::node_methods` | taking transactions, changing the mode |
| `node::peer_go_client`, `node::peer_health`, `node::rpc_circuit_breaker` | peers and circuits |
| `deps` | the functions of other crates that the library relies on, with their contracts |

Properties that span functions are proof functions whose names begin with `law_`.
