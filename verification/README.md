# substrate_client

Verified logic of a local call executor and of integration tests for nodes.

- `call_executor`, `call_laws`: what a call of a runtime function does on the state at a block, as
  a run that is told what came of each action and says what is done next.
- `sync_service`: a service that is shared between its users.
- `decimal`, `address`, `config`: the settings of a test node, with its address and directories.
- `net`: the nodes of a test network and the addresses by which they know each other.
- `topology`: stars and lines of reserved peers, and the proof that they connect all nodes.
- `wait`: waiting, in rounds, until all nodes are ready.
- `scenario`, `scenario_laws`: the connectivity, sync and consensus tests, step by step.
- `playback`, `playback_laws`: playing a scenario, action by action.

`app/` is ordinary Rust: it performs the actions on a backend, a runtime and a network of nodes.
It needs the node's own crates (`client_api`, `executor`, `externalities`, `network`, `primitives`,
`service`, `sr_api`, `sr_primitives`, `state_machine`) beside those of `Cargo.toml`.
