# Agent Cockpit

A watchdog service for development workspaces. It speaks JSON-RPC on standard input and output
(the Model Context Protocol) and offers four tools: `inspect_locks` lists the processes that may
hold locks on build artifacts, `kill_process_lock` terminates one of them, `inspect_async_tasks`
reports starved tasks and busy daemons, and `get_runtime_health` sums up the recorded telemetry.

What the service decides and computes is a library verified with Verus:

- `src/telemetry.rs`: the ring of task snapshots, bounded in number and in memory, with one snapshot
  per task; queries and health figures
- `src/cpu.rs`: CPU loads, compared and rounded on their bit patterns
- `src/process.rs`, `src/locks.rs`: process tables, lock filters, the sorted listing
- `src/engine.rs`: the engine that ties these together, and termination requests
- `src/json.rs`, `src/rpc.rs`: JSON documents, requests and replies
- `src/error.rs`, `src/text.rs`: errors and text operations
- `src/telemetry_laws.rs`, `src/lock_laws.rs`, `src/rpc_laws.rs`: what holds of every state and
  every exchange

`app/` is the program around it: the process table of the operating system, the decoding and
encoding of values on the wire, and the loop over the input lines.
