# curp

What a node of a CURP cluster decides, written in Rust and verified with Verus.

CURP lets a client finish a command in one round trip: the servers execute it speculatively
while the leader brings it into the log. A node answers proposals, votes and log entries, keeps
its followers up to date while it leads, installs the snapshots that it is sent, and asks for
votes when it hears from no leader.

The library in `src/` holds the decisions. Whatever takes more than one step is a state machine:
its caller does what the last action asks for (send a request, write to the disk, wait for a tick)
and hands back how that went as the next event. `machine` says what a run of such a machine is,
and the laws next to each machine say what holds of all its runs.

| Module | What it decides |
| --- | --- |
| `log_entry` | log entries, configuration changes and their ids |
| `rpc` | the messages |
| `error` | the errors and their texts |
| `handlers` | the answers to requests that take one decision |
| `conf_change` | the answer to a configuration change |
| `wait_synced` | the answer to a client that waits for its command |
| `vote_handler` | the answer to a request for a vote |
| `vote_round` | the round of requests for votes |
| `install_snapshot` | the receipt of a snapshot |
| `sync_follower` | the sync of one follower: log entries, heartbeats, snapshots |
| `send_ae` | the sending of log entries and snapshots to a follower |
| `followers` | which followers are synced, through changes of leader and configuration |
| `tasks` | the election tick and the writing of log entries |
| `boot` | the bringing up of a node |
| `laws` | what holds across requests, the log and two nodes |

`app/` is the node around the library: it performs the actions with tokio, encodes log entries
with bincode, and takes the consensus state machine, the storage and the connections as traits.
