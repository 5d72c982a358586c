# hsm

The core of a Lustre HSM daemon: it takes archive, restore and remove requests
from the kernel, queues and records them, hands them to data movers, and reports
back what became of them. The library under `src/` is written in Verus, and its
functions are proved to meet the contracts that stand at them.

- `model`: files, actions, archived objects, time.
- `uapi`, `llapi`: the kernel's constants and conversions, the action lists it
  sends and their layout, the life of an action, a copytool in memory.
- `scheduler`: which agent gets which action, and in what order.
- `store`: the record of every action, in memory, and as rows of a table.
- `sdk`: what a data mover is told and how it reports.
- `daemon`: taking actions in, dispatching them, acting on reports, recovery after
  a restart or the loss of an agent, the object recorded on a file, and the
  management queries.
- `ctl`: command line and output of the management tool.
- `proto`: the messages on the wire, as plain records.

`app/` holds the programs `hsmd` and `hsmctl`: gRPC, SQLite, extended attributes,
liblustreapi and the asynchronous loops around the library. What is trusted
without proof stands in `src/` at the functions marked `external_body` and at
`assume_specification`, each with a comment that says what it claims.
