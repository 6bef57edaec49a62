# multinode-controller

A coordinator and its workers run processes on many machines. Workers register with the
coordinator over a WebSocket, clients ask it to run, list, tail, diagnose and kill jobs and to
reserve nodes, and a launcher starts the parts on each machine.

The crate is a library in Verus: what each part decides is stated in contracts and proved. The
programs around it do the input and output.

## Layout

`src/` is the verified library.

| modules | what they hold |
| --- | --- |
| `text`, `table`, `time`, `ids`, `paths`, `shell` | texts, keyed tables, points in time, identifiers, paths, shell words |
| `protocol` | what clients, coordinator and workers say to one another |
| `auth`, `handshake` | roles, tokens, and the authenticated WebSocket handshake |
| `coordinator`, `leases`, `runs`, `dispatch`, `routing` | connected workers, reservations, runs and their steps, and the routing of requests |
| `jobstore`, `summaries`, `diagnosis` | what is kept of tasks and logs, and what is made of it |
| `policy`, `sandbox`, `executor`, `worker` | what a worker lets run, and how it follows what it runs |
| `runtime` | the launcher's configuration, commands and plans |
| `torchrun`, `cli`, `render` | the client's requests and what it shows |

Laws that relate several functions are public proof functions whose names begin with `law_`.
Functions of other crates are called through small wrappers with stated contracts; they stand in
`time`, `ids`, `handshake`, `policy`, `protocol` and `text`.

`tests/` runs the library on concrete values.

`app/` is ordinary Rust: sockets, processes, the database, files, signals, the wire format and the
command line. It hands the library plain values and does what the library says.
