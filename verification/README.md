# namidb_server

The decision core of a graph database server, written in Rust and verified with
Verus: who may call, which namespace is meant, what a request passes before it
runs, what each outcome is answered with, how memory and writes are held in
check, and what the metrics page says.

- `src/` holds the library. Every item states its contract, and the laws that
  relate several of them are public proof functions whose names start with
  `law_`.
- `tests/` runs the library on concrete values.
- `app/` is the server around it: sockets, files and clocks. The storage engine
  and the Bolt codec are linked in behind the traits of `app/engine.rs`.

Requests that alternate between decisions and outside work (parsing, planning,
waiting for the writer, committing) are state machines: the shell performs what
a phase waits for and hands the answer back.
