# container

A small remote supervisor. A child daemon and a server keep instances: programs that
come out of a git repository, an address or an upload, are run and watched, and are
restarted where their policy says so. A terminal client manages a fleet of servers,
and opens shells, attaches to running instances and copies files.

The library under `src/` holds everything that decides or computes, with its
contracts, and is verified with Verus. It works on plain values: sockets, files,
processes and the screen belong to the programs under `app/`.

- `protocol`: the calls, the frames of a terminal session, how calls are signed and
  replies bound to them, and the TLS identity that both ends derive from their key.
- `client`: the desk that keys and answers act on, its forms and screens, the line
  editor, the key encoder, and how an instance is found by its name.
- `child`: the instances of a daemon, the supervision of one, its session offers.
- `server`: the door that calls come in through, sessions, sources and archives.
- `path`, `jail`, `payload`, `listing`, `order`, `assoc`, `text`, `bytes`,
  `sampling`, `chance`: what these are built of.

`tests/` runs the library against the outside crates that it calls.
