# terminar_core

The session engine of a terminal multiplexer, verified with Verus.

A session is a shell in a pseudo terminal. `src/` holds what the engine knows and
decides, as functions on plain values with contracts that Verus proves:

- `session`: the record of a session, its states and transitions, its events
- `engine`: checks on what a client asks for, the launch of a shell, and what
  becomes of each read of its terminal
- `reader`, `utf8`: cutting the output into pieces that never split a character
- `history`: the bounded history of a session, and its compression
- `persistence`: what is saved of sessions, where, and how it is loaded again
- `process`: the name of the process in the foreground
- `pty`: terminal dimensions, and a loopback terminal for tests
- `messages`: what clients and the server say to each other
- `constants`, `table`, `text`, `views`: what the other modules share

Properties that span several functions are stated and proved as proof functions
whose names begin with `law_`. Calls into `zstd` and `uuid`, and a few into the
standard library, stand behind small functions whose contracts are trusted; each
says in its comment what is claimed.

`app/` is ordinary Rust around the library: terminals, tasks, files, and the wire
format. `tests/` runs the library on concrete values.
