# nfs

The decision logic of an NFSv4.0 server, verified with Verus.

`src/` is the verified library:

- `proto.rs`: the protocol values (status codes, attributes, stateids, ACEs).
- `locking.rs`, `filemanager.rs`: the filehandle table and the open and
  byte-range locking state of an export, with their invariants.
- `filehandle.rs`, `attrs.rs`, `handle.rs`: filehandles built from `stat`
  results and the GETATTR answers drawn from them.
- `pseudo.rs`: the pseudo-filesystem root that lists the exports.
- `ops.rs`, `open.rs`, `fhstate.rs`, `readdir.rs`, `fileops.rs`: what each
  operation decides from its arguments and from what the file system said.
- `dispatch.rs`: the COMPOUND gate and the RPC routing.
- `clientmanager.rs`: client records, SETCLIENTID / SETCLIENTID_CONFIRM and
  leases.
- `export_manager.rs`: exports, their QoS and quota settings, and statistics.
- `laws.rs`: properties that relate several operations, stated and proved.

`app/` is the unverified shell around it: the actors, file system calls,
name-service lookups, sockets and TLS.

`tests/` runs the library on concrete values.
