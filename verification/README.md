# nimbus

A vault is a tree of objects whose storage lives behind a pluggable origin: a directory on
disk, an HTTP API, a shell command per operation, or another vault. Two frontends browse
vaults (a command line with a REPL, and a terminal file manager), a daemon serves a
directory of vaults over HTTP, and a wizard writes new vault configs.

## Layout

- `src/` is the library, verified with Verus: the object model and its cache, vault paths,
  the origins' templating and their answers' meaning, the session that plans every command,
  the command grammar and completion, the terminal frontend's state machine and what it
  shows, the creation wizard, and the daemon's request checks. Each public function states
  its result in its contract; laws that span functions are public proof functions.
- `tests/` runs the library on concrete values.
- `app/` is the program around it: reading and writing files, talking to origins over the
  network or through the shell, the terminal, the HTTP server, and serialisation. It hands
  the library plain values and carries out what the library decides.
