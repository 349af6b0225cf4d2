# sandbox_runner

The host side of a sandbox VM: the relay between SDK clients and the agent in the guest, the control
endpoint of the runtime, and the allocation of processors and memory.

- `src/` is the library, verified with Verus. It decides: which frames pass, who owns what the guest
  sends, in which order the lanes are written and merged, what a control request may do, what is
  answered, and what is occupied. It makes no system call; where it needs a digest, a random number,
  a CBOR head, a JSON lookup or a semaphore, it calls the crate that provides it through a function
  whose contract is trusted and says so.
- `app/` performs what the library decides: sockets, console lanes, files, tasks and the JSON form of
  control messages. The agent protocol's codec, the VM and the catalog's database come in as traits.
  It runs on Unix, and serves its control endpoint on a Unix socket.
- `tests/` runs the library.

## Modules

| module | subject |
| --- | --- |
| `wire`, `frames`, `buffer` | frames, ranges of correlation IDs, bulk records, partial input |
| `envelope`, `client`, `active_bulk`, `rejection` | what the relay does with a client's frame |
| `admission`, `disconnect`, `roster` | slots, leases, ownership and the end of a client |
| `order`, `ring_writer`, `stall`, `guest_send` | the host-to-guest control lane |
| `bulk`, `flow_map`, `retire` | the fair host-to-guest bulk lane |
| `lane`, `merge_flow`, `merger`, `merge_run`, `reader`, `output`, `permits`, `session_log` | guest output |
| `relay`, `startup`, `progress` | readiness, restore activation, exit, start-up |
| `control` | executor, transports, dispatcher, redaction |
| `cpu`, `placement` | the shared catalog of processors and memory |
