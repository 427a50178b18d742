# raspen

A replica of a Byzantine fault-tolerant replicated state machine with a
speculative fast path, written in Rust and verified with Verus.

The library in `src/` is the protocol: a replica takes a message or a timer event
and returns the messages to send. Every handler is proved to compute exactly the
transition that its contract states over a mathematical state, without overflow
or panic.

| Module | What it holds |
|--------|---------------|
| `config`, `message`, `effect`, `event`, `phase`, `entry` | the protocol types |
| `quorum` | received messages and the counting of votes by distinct senders |
| `log`, `storage`, `codec`, `disk` | the log, its stores, and its stored form |
| `fast_path`, `checkpoint`, `alignment`, `repair_entry`, `repair` | the sub-protocols |
| `state`, `replica`, `state_machine`, `node`, `transport` | the replica and how it is driven |
| `eta`, `sequencer` | the sequence numbers of requests |
| `quorum_laws`, `replica_laws` | what holds of all replicas and all messages |

Hashing (SHA-256) and the stored format (bincode) come from outside crates; the
items in `codec` that call them state what is taken for granted about them.

`app/` is ordinary Rust around the library: the actor that runs a replica, the
broadcast channel of the sequencer, stores that are shared or on disk, and the
forms of the types that go over the network.
